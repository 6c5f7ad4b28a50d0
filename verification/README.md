# hymnal-core

The logic of a hymn-projection application, verified with Verus: reading hymn
slides out of `.pptx` files, indexing library folders, accent-insensitive
fuzzy search, presentation state, library and theme management, translations,
the YouTube downloader's decisions, and what the windows display.

Layout:

- `src/` — the verified library (`hymnal_core`). Each module states its
  behaviour in `requires`/`ensures` over spec functions, and the properties
  that span several functions as public proof functions. Calls into outside
  crates (nucleo, zip, quick-xml, directories, dirs) and into std's file
  system go through small trusted wrappers whose contracts say what those
  calls promise.
- `tests/` — tests of the library on concrete values.
- `app/` — the unverified I/O around the library: the config file (TOML),
  crawling folders and the bincode index cache, git sync, GitHub release
  updates, running yt-dlp and fetching ffmpeg, theme JSON files.
