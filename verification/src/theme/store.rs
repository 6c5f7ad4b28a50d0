//! Naming rules of the theme store: one `<name>.json` per theme in a
//! directory; the built-in `Default` is always present and never written or
//! deleted on disk. The application does the file I/O.

use vstd::prelude::*;
use crate::library::path_extension;
use crate::text::{alphanumeric, chars_of, is_alphanumeric, push_char, push_str, str_eq};

verus! {

/// "Default", the name of the built-in theme.
pub open spec fn default_theme_name() -> Seq<char> {
    seq!['D', 'e', 'f', 'a', 'u', 'l', 't']
}

/// The name of the built-in theme.
pub const DEFAULT_THEME_NAME: &'static str = "Default";

/// Whether a theme name is the built-in default's reserved name: that theme
/// cannot be deleted or overwritten on disk.
pub fn is_builtin_default_name(name: &str) -> (r: bool)
    ensures
        r == (name@ == default_theme_name()),
{
    proof {
        reveal_strlit("Default");
        assert("Default"@ == default_theme_name());
    }
    str_eq(name, "Default")
}

/// A character allowed in a theme file stem as is.
pub open spec fn stem_char_ok(c: char) -> bool {
    alphanumeric(c) || c == ' ' || c == '-' || c == '_'
}

/// The file stem of a theme name: alphanumerics, space, '-' and '_' kept,
/// every other character replaced by '_'.
pub open spec fn theme_stem(name: Seq<char>) -> Seq<char> {
    name.map_values(|c: char| if stem_char_ok(c) { c } else { '_' })
}

/// Sanitize a theme name into a safe file stem (alphanumerics, space, -, _).
pub fn file_stem(name: &str) -> (r: String)
    ensures
        r@ == theme_stem(name@),
{
    let v = chars_of(name);
    let mut s = String::new();
    let mut i: usize = 0;
    while i < v.len()
        invariant
            i <= v.len(),
            v@ == name@,
            s@ == theme_stem(v@.take(i as int)),
        decreases v.len() - i,
    {
        let c = v[i];
        let k = if is_alphanumeric(c) || c == ' ' || c == '-' || c == '_' { c } else { '_' };
        push_char(&mut s, k);
        assert(theme_stem(v@.take(i + 1)) == theme_stem(v@.take(i as int)).push(k));
        i += 1;
    }
    assert(v@.take(v.len() as int) == v@);
    s
}

/// `<stem>.json`, the file a theme is stored in.
pub fn theme_file_name(name: &str) -> (r: String)
    ensures
        r@ == theme_stem(name@) + seq!['.', 'j', 's', 'o', 'n'],
{
    let mut s = file_stem(name);
    push_str(&mut s, ".json");
    proof {
        reveal_strlit(".json");
    }
    s
}


/// std `Path::extension`, as text. Claimed: it is the part of the file name
/// (as `Path::file_name` gives it) after the last '.', as std documents (see
/// `path_extension`).
#[verifier::external_body]
fn extension_of(path: &str) -> (r: Option<String>)
    ensures
        match r {
            Some(e) => path_extension(path@) == Some(e@),
            None => path_extension(path@) is None,
        },
{
    std::path::Path::new(path).extension().map(|e| e.to_string_lossy().into_owned())
}

/// A file of the theme directory that holds a theme: its extension is
/// "json".
pub open spec fn is_theme_path(path: Seq<char>) -> bool {
    path_extension(path) == Some("json"@)
}

/// Whether the file at `path` holds a theme (by its extension).
pub fn is_theme_file(path: &str) -> (r: bool)
    ensures
        r == is_theme_path(path@),
{
    match extension_of(path) {
        Some(e) => str_eq(e.as_str(), "json"),
        None => false,
    }
}

/// Why the theme store refuses a change.
#[derive(Debug, Clone, Copy, PartialEq, Eq, Structural)]
pub enum ThemeStoreError {
    /// The built-in Default theme cannot be saved over.
    SaveDefault,
    /// The built-in Default theme cannot be deleted.
    DeleteDefault,
}

/// Whether a theme with this name may be saved to disk.
pub fn check_save(name: &str) -> (r: Result<(), ThemeStoreError>)
    ensures
        r == (if name@ == default_theme_name() {
            Err::<(), ThemeStoreError>(ThemeStoreError::SaveDefault)
        } else {
            Ok(())
        }),
{
    if is_builtin_default_name(name) {
        Err(ThemeStoreError::SaveDefault)
    } else {
        Ok(())
    }
}

/// Whether the theme with this name may be deleted from disk.
pub fn check_delete(name: &str) -> (r: Result<(), ThemeStoreError>)
    ensures
        r == (if name@ == default_theme_name() {
            Err::<(), ThemeStoreError>(ThemeStoreError::DeleteDefault)
        } else {
            Ok(())
        }),
{
    if is_builtin_default_name(name) {
        Err(ThemeStoreError::DeleteDefault)
    } else {
        Ok(())
    }
}

/// Theme files never leave the theme directory: a stem has as many
/// characters as the name and holds only alphanumerics, spaces, '-' and '_'
/// (no path separator, no '.').
pub proof fn theme_stem_is_safe(name: Seq<char>)
    ensures
        theme_stem(name).len() == name.len(),
        forall|i: int| 0 <= i < name.len() ==> stem_char_ok(#[trigger] theme_stem(name)[i]),
        !theme_stem(name).contains('/'),
        !theme_stem(name).contains('\\'),
        !theme_stem(name).contains('.'),
{
    let t = theme_stem(name);
    assert forall|i: int| 0 <= i < name.len() implies stem_char_ok(#[trigger] t[i]) by {
        assert(stem_char_ok('_'));
    }
    assert(!stem_char_ok('/'));
    assert(!stem_char_ok('\\'));
    assert(!stem_char_ok('.'));
}

/// Sanitizing is idempotent: a stem is its own stem, so names that are
/// already safe keep their file name.
pub proof fn theme_stem_idempotent(name: Seq<char>)
    ensures
        theme_stem(theme_stem(name)) == theme_stem(name),
{
    theme_stem_is_safe(name);
    assert(theme_stem(theme_stem(name)) =~= theme_stem(name));
}

} // verus!
