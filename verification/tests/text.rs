use signalstream::text::{
    char_is_whitespace, chars_of, file_name_slice, index_after_last, index_of_first,
    path_has_extension, same_chars, slice_ends_with, string_of,
    trim_slice,
};
use std::path::Path;

fn chars(s: &str) -> Vec<char> {
    s.chars().collect()
}

fn text(s: &[char]) -> String {
    s.iter().collect()
}

#[test]
fn chars_and_strings_round_trip() {
    assert_eq!(chars_of("añb"), vec!['a', 'ñ', 'b']);
    assert_eq!(string_of(&['a', 'ñ', 'b']), "añb");
    assert_eq!(chars_of(""), Vec::<char>::new());
}

#[test]
fn whitespace_is_what_std_says() {
    for code in 0u32..0x3100 {
        if let Some(c) = char::from_u32(code) {
            assert_eq!(char_is_whitespace(c), c.is_whitespace(), "U+{:04X}", code);
        }
    }
}

#[test]
fn trim_agrees_with_std() {
    for s in ["", " ", "  a b \t\r", "\u{3000}x\u{00A0}", "x", " \n ", "a\r"] {
        assert_eq!(text(trim_slice(&chars(s))), s.trim(), "{:?}", s);
    }
}

#[test]
fn suffix_and_equality_tests() {
    assert!(slice_ends_with(&chars("a.mp3"), &chars(".mp3")));
    assert!(!slice_ends_with(&chars("mp3"), &chars(".mp3")));
    assert!(slice_ends_with(&chars("a"), &chars("")));
    assert!(same_chars(&chars("ab"), &chars("ab")));
    assert!(!same_chars(&chars("ab"), &chars("ac")));
    assert!(!same_chars(&chars("ab"), &chars("abc")));
}

#[test]
fn first_and_last_occurrence() {
    assert_eq!(index_of_first(&chars("a/b/c"), '/'), 1);
    assert_eq!(index_of_first(&chars("abc"), '/'), 3);
    assert_eq!(index_of_first(&chars(""), '/'), 0);
    assert_eq!(index_after_last(&chars("a/b/c"), '/'), 4);
    assert_eq!(index_after_last(&chars("abc"), '/'), 0);
    assert_eq!(index_after_last(&chars("abc/"), '/'), 4);
}

#[test]
fn file_name_agrees_with_std_path() {
    for p in [
        "", "/", ".", "..", "a", "a/", "a//", "a/.", "a/..", "./a", "/a/b.mp3", "a/b/./", "./.",
        "/..", "...", "music/01 - intro.mp3", "a/.hidden", "x/y/z/",
    ] {
        let expected = Path::new(p)
            .file_name()
            .map(|n| n.to_string_lossy().to_string())
            .unwrap_or_default();
        assert_eq!(text(file_name_slice(&chars(p))), expected, "{:?}", p);
    }
}

#[test]
fn extension_agrees_with_std_path() {
    for p in [
        "a.mp3", "a.MP3", ".mp3", "..mp3", "a.mp3/", "dir.mp3/b", "a.b.mp3", "mp3", "a.", "a.mp3x",
        "/x/.mp3", "x/a.mp3/.",
    ] {
        let expected = Path::new(p).extension().map(|e| e == "mp3").unwrap_or(false);
        assert_eq!(path_has_extension(&chars(p), &chars("mp3")), expected, "{:?}", p);
    }
}
