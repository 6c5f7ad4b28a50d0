use hymnal_core::downloader::{
    binary_name, binary_name_for, failure_message, first_found, ffmpeg_archive_is_tar_xz, ffmpeg_archive_url,
    ffmpeg_tar_entry, ffmpeg_zip_entry, is_managed_tool, last_update_time, tools_dir, resolve_in_dir, self_update_due,
    should_self_update, split_lines, split_progress_line, which_in_dirs, ytdlp_args,
    ytdlp_asset_name, ytdlp_release_url, DownloadRun, DownloadSession, Platform, ProgressLine,
    RunPhase, WorkerInput, WorkerSignal,
};

/// A progress line as the worker reports it: the fields of the line, with the
/// percentage read as a number (lines whose percentage is not one are dropped).
fn parse(line: &str) -> Option<(f32, ProgressLine)> {
    let p = split_progress_line(line)?;
    let percent = p.percent.parse::<f32>().ok()?;
    Some((percent, p))
}

#[test]
fn parses_a_progress_line() {
    let (percent, p) = parse("PROGRESS|42.0%|3.20MiB/s|00:18|My Song").unwrap();
    assert_eq!(percent, 42.0);
    assert_eq!(p.speed, "3.20MiB/s");
    assert_eq!(p.eta, "00:18");
    assert_eq!(p.title, "My Song");
}

#[test]
fn parses_line_without_title_field() {
    let (percent, p) = parse("PROGRESS|42.0%|3.20MiB/s|00:18").unwrap();
    assert_eq!(percent, 42.0);
    assert_eq!(p.title, "");
}

#[test]
fn title_with_pipe_is_preserved() {
    let (_, p) = parse("PROGRESS|10.0%|1MiB/s|00:30|A | B | C").unwrap();
    assert_eq!(p.title, "A | B | C");
}

#[test]
fn handles_whitespace_and_percent_sign() {
    let (percent, p) = parse("PROGRESS| 7.5%| 1.00KiB/s | 01:02 | Tune ").unwrap();
    assert_eq!(percent, 7.5);
    assert_eq!(p.speed, "1.00KiB/s");
    assert_eq!(p.eta, "01:02");
    assert_eq!(p.title, "Tune");
}

#[test]
fn ignores_non_progress_lines() {
    assert!(parse("[youtube] Extracting URL").is_none());
    assert!(parse("").is_none());
}

#[test]
fn ignores_unknown_percent() {
    let p = parse("PROGRESS|N/A%|Unknown|Unknown");
    assert!(p.is_none());
}

#[test]
fn split_keeps_the_unknown_percent_as_text() {
    let p = split_progress_line("PROGRESS|N/A%|Unknown|Unknown").unwrap();
    assert_eq!(p.percent, "N/A");
    assert_eq!(p.speed, "Unknown");
    assert_eq!(p.eta, "Unknown");
    assert_eq!(p.title, "");
}

#[test]
fn split_needs_three_fields() {
    assert!(split_progress_line("PROGRESS|42.0%|3.20MiB/s").is_none());
    assert!(split_progress_line("PROGRESS|").is_none());
    assert!(split_progress_line("  PROGRESS|1%%|a|b|c  ").is_some());
}

#[test]
fn percent_signs_are_all_stripped() {
    let p = split_progress_line("PROGRESS|12%% |s|e").unwrap();
    assert_eq!(p.percent, "12");
}

#[test]
fn resolves_binary_in_data_dir_first() {
    let dir = tempfile::tempdir().unwrap();
    let name = binary_name("yt-dlp");
    let file = tempfile::Builder::new()
        .prefix(name.as_str())
        .rand_bytes(0)
        .tempfile_in(dir.path())
        .unwrap();
    let found = resolve_in_dir(&dir.path().to_string_lossy(), "yt-dlp");
    assert_eq!(found, Some(file.path().to_string_lossy().into_owned()));
}

#[test]
fn returns_none_when_absent_from_data_dir() {
    let dir = tempfile::tempdir().unwrap();
    assert_eq!(resolve_in_dir(&dir.path().to_string_lossy(), "yt-dlp"), None);
}

#[test]
fn which_in_dirs_takes_the_first_directory_holding_the_binary() {
    let empty = tempfile::tempdir().unwrap();
    let holder = tempfile::tempdir().unwrap();
    let name = binary_name("ffmpeg");
    let file = tempfile::Builder::new()
        .prefix(name.as_str())
        .rand_bytes(0)
        .tempfile_in(holder.path())
        .unwrap();
    let dirs = vec![
        empty.path().to_string_lossy().into_owned(),
        holder.path().to_string_lossy().into_owned(),
    ];
    assert_eq!(which_in_dirs(&dirs, "ffmpeg"), Some(file.path().to_string_lossy().into_owned()));
    assert_eq!(which_in_dirs(&vec![empty.path().to_string_lossy().into_owned()], "ffmpeg"), None);
}

#[test]
fn first_found_prefers_the_tools_copy() {
    let cands = vec!["/usr/bin/yt-dlp".to_string(), "/bin/yt-dlp".to_string()];
    let hits = vec![true, true];
    assert_eq!(
        first_found(Some("/data/tools/yt-dlp".to_string()), &cands, &hits),
        Some("/data/tools/yt-dlp".to_string())
    );
}

#[test]
fn first_found_takes_the_first_existing_candidate() {
    let cands = vec!["/a/yt-dlp".to_string(), "/b/yt-dlp".to_string(), "/c/yt-dlp".to_string()];
    assert_eq!(first_found(None, &cands, &vec![false, true, true]), Some("/b/yt-dlp".to_string()));
    assert_eq!(first_found(None, &cands, &vec![false, false, true]), Some("/c/yt-dlp".to_string()));
    assert_eq!(first_found(None, &cands, &vec![false, false, false]), None);
    assert_eq!(first_found(None, &vec![], &vec![]), None);
}

#[test]
fn ffmpeg_url_matches_platform() {
    for p in [Platform::Windows, Platform::MacOs, Platform::Other] {
        let url = ffmpeg_archive_url(p);
        assert!(!url.is_empty());
        match p {
            Platform::Windows => assert!(url.ends_with(".zip")),
            Platform::MacOs => assert!(url.ends_with("zip")),
            Platform::Other => assert!(url.ends_with(".tar.xz")),
        }
        assert_eq!(ffmpeg_archive_is_tar_xz(p), url.ends_with(".tar.xz"));
    }
}

#[test]
fn binary_name_has_exe_on_windows() {
    let name = binary_name("yt-dlp");
    if std::path::MAIN_SEPARATOR == '\\' {
        assert_eq!(name, "yt-dlp.exe");
    } else {
        assert_eq!(name, "yt-dlp");
    }
    assert_eq!(binary_name_for("yt-dlp", true), "yt-dlp.exe");
    assert_eq!(binary_name_for("yt-dlp", false), "yt-dlp");
}

#[test]
fn ytdlp_assets_and_release_urls() {
    assert_eq!(ytdlp_asset_name(Platform::Windows), "yt-dlp.exe");
    assert_eq!(ytdlp_asset_name(Platform::MacOs), "yt-dlp_macos");
    assert_eq!(ytdlp_asset_name(Platform::Other), "yt-dlp");
    assert_eq!(
        ytdlp_release_url(Platform::MacOs),
        "https://github.com/yt-dlp/yt-dlp/releases/latest/download/yt-dlp_macos"
    );
}

#[test]
fn ytdlp_arguments_with_and_without_ffmpeg() {
    let without = ytdlp_args("https://y/1", "/d/%(title)s.%(ext)s", None);
    assert_eq!(without.len(), 15);
    assert_eq!(without[0], "--no-playlist");
    assert_eq!(without[9], "b[height<=1080]/b");
    assert_eq!(without[13], "/d/%(title)s.%(ext)s");
    assert_eq!(without[14], "https://y/1");
    let with = ytdlp_args("https://y/1", "/d/o", Some("/t/ffmpeg"));
    assert_eq!(with.len(), 19);
    assert_eq!(with[9], "bv*[height<=1080]+ba/b[height<=1080]/bv*+ba/b");
    assert_eq!(with[15], "--ffmpeg-location");
    assert_eq!(with[16], "/t/ffmpeg");
    assert_eq!(with[18], "mp4");
}

#[test]
fn title_is_announced_once() {
    let mut s = DownloadSession::new();
    assert!(!s.title_to_announce(""));
    assert!(s.title_to_announce("Song"));
    assert!(!s.title_to_announce("Song"));
    assert!(!s.title_to_announce("Other"));
}

#[test]
fn failure_message_prefers_the_last_error_line() {
    let err = "WARNING: x\nERROR: first\nnoise\nERROR: second\r\ntail";
    assert_eq!(failure_message(err, "exit status: 1"), "ERROR: second");
    assert_eq!(failure_message("all fine\n", "exit status: 2"), "yt-dlp exited with exit status: 2");
    assert_eq!(failure_message("", "signal 9"), "yt-dlp exited with signal 9");
}

#[test]
fn split_lines_follows_std_lines() {
    for text in ["", "a", "a\n", "a\r\nb", "\n\nx", "a\rb\n", "x\n\r\n"] {
        let expected: Vec<String> = text.lines().map(|l| l.to_string()).collect();
        assert_eq!(split_lines(text), expected, "{:?}", text);
    }
}

#[test]
fn self_update_waits_a_day() {
    assert!(!self_update_due(1000, 0));
    assert!(self_update_due(24 * 3600 + 1, 0));
    assert!(!self_update_due(24 * 3600, 0));
    assert!(!self_update_due(5, 100));
    assert_eq!(last_update_time(Some(" 1700000000\n")), 1700000000);
    assert_eq!(last_update_time(Some("garbage")), 0);
    assert_eq!(last_update_time(None), 0);
    assert!(should_self_update(1_700_100_000, Some("1700000000")));
    assert!(!should_self_update(1_700_000_100, Some("1700000000")));
    assert!(should_self_update(100_000, None));
}

#[test]
fn ffmpeg_entries_are_recognised() {
    assert!(ffmpeg_zip_entry("ffmpeg", "ffmpeg"));
    assert!(ffmpeg_zip_entry("ffmpeg-master/bin/ffmpeg.exe", "ffmpeg.exe"));
    assert!(!ffmpeg_zip_entry("ffmpeg-master/bin/ffprobe.exe", "ffmpeg.exe"));
    assert!(!ffmpeg_zip_entry("myffmpeg", "ffmpeg"));
    assert!(ffmpeg_tar_entry("ffmpeg-master-latest-linux64-gpl/bin/ffmpeg"));
    assert!(!ffmpeg_tar_entry("ffmpeg-master-latest-linux64-gpl/bin/ffprobe"));
    assert!(!ffmpeg_tar_entry("ffmpeg-master-latest-linux64-gpl/doc/ffmpeg"));
}

#[test]
fn only_the_tools_dir_copy_is_managed() {
    assert!(!is_managed_tool("/usr/bin/yt-dlp"));
    if let Some(dir) = tools_dir() {
        let inside = std::path::Path::new(&dir).join("yt-dlp");
        assert!(is_managed_tool(&inside.to_string_lossy()));
        assert!(dir.ends_with("tools"));
    }
}

#[test]
fn download_reports_follow_the_protocol() {
    let mut run = DownloadRun::new();
    assert!(run.step(WorkerInput::ProgressLine("early".into())).is_empty());
    assert_eq!(run.step(WorkerInput::Begin), vec![WorkerSignal::Resolving]);
    assert!(run.step(WorkerInput::Begin).is_empty());
    assert_eq!(run.step(WorkerInput::ProgressLine(String::new())), vec![WorkerSignal::Progress]);
    assert_eq!(
        run.step(WorkerInput::ProgressLine("Song".into())),
        vec![WorkerSignal::Title("Song".into()), WorkerSignal::Progress]
    );
    assert_eq!(run.step(WorkerInput::ProgressLine("Song".into())), vec![WorkerSignal::Progress]);
    assert_eq!(
        run.step(WorkerInput::Exited { success: false, message: "ERROR: x".into() }),
        vec![WorkerSignal::Failed("ERROR: x".into())]
    );
    assert_eq!(run.phase, RunPhase::Finished);
    assert!(run.step(WorkerInput::Exited { success: true, message: String::new() }).is_empty());
    assert!(run.step(WorkerInput::ProgressLine("again".into())).is_empty());
}

#[test]
fn setup_failure_ends_the_download() {
    let mut run = DownloadRun::new();
    run.step(WorkerInput::Begin);
    assert_eq!(run.step(WorkerInput::SetupFailed("no yt-dlp".into())), vec![WorkerSignal::Failed("no yt-dlp".into())]);
    let mut ok = DownloadRun::new();
    ok.step(WorkerInput::Begin);
    assert_eq!(ok.step(WorkerInput::Exited { success: true, message: String::new() }), vec![WorkerSignal::Done]);
}
