//! Normalization and confinement of paths.

use ironrdp_web::drive::VirtualDrive;
use ironrdp_web::path::{child_path, is_under, normalize, query_len};
use ironrdp_web::text::chars_of;

fn ok(path: &str) -> String {
    normalize(path).expect("accepted path")
}

#[test]
fn normal_form_of_a_windows_path() {
    assert_eq!(ok("\\notes\\.\\\\readme.txt"), "notes/readme.txt");
    assert_eq!(ok("a/b\\c"), "a/b/c");
    assert_eq!(ok("plain"), "plain");
}

#[test]
fn the_root_has_many_spellings() {
    for spelling in ["", "\\", "/", ".", "\\.\\", "//./\\"] {
        assert_eq!(ok(spelling), "");
    }
}

#[test]
fn parent_components_and_nul_are_rejected() {
    for path in ["..", "../secret", "a\\..\\b", "a/b/..", "a\0b", "x/\0"] {
        assert!(normalize(path).is_err());
        assert!(VirtualDrive::normalize(path).is_err());
    }
}

#[test]
fn dots_inside_a_name_are_kept() {
    assert_eq!(ok("..a\\b..\\...\\c.d"), "..a/b../.../c.d");
}

#[test]
fn normalization_is_idempotent() {
    for path in ["\\x\\.\\y", "a//b///c", "\u{e9}\\\u{1F600}"] {
        let once = ok(path);
        assert_eq!(ok(&once), once);
    }
}

#[test]
fn only_whole_components_lie_under_a_directory() {
    let under = |p: &str, d: &str| is_under(&chars_of(p), &chars_of(d));
    assert!(under("a", "a"));
    assert!(under("a/b", "a"));
    assert!(!under("ab", "a"));
    assert!(!under("a", "a/b"));
}

#[test]
fn a_query_drops_wildcards_and_separators_at_its_end() {
    let kept = |p: &str| p.chars().take(query_len(&chars_of(p))).collect::<String>();
    assert_eq!(kept("9.127\\*"), "9.127");
    assert_eq!(kept("\\**"), "");
    assert_eq!(kept("a*b"), "a*b");
    assert_eq!(kept("a\\*\\"), "a\\*");
}

#[test]
fn a_child_path_has_one_slash() {
    assert_eq!(child_path("a/b", "c"), "a/b/c");
}
