use garedit::paths::{
    autosave_file_name, file_name, is_absolute, is_safe_autosave_name, is_same_path, join,
    normalize_path_for_match, resolve_user_path, SessionPaths,
};
use std::path::Path;

const SAMPLES: [&str; 20] = [
    "", "/", "a", "./a", "a/.", "a/./b", "a//b", "a/b/", "/a", "//a", "/a/..", "..", ".", "./",
    "../a", "a/../b", "/.", "/./a", "a/..", "a b/c.txt",
];

#[test]
fn paths_are_compared_as_std_does() {
    for a in SAMPLES {
        assert_eq!(is_absolute(a), Path::new(a).is_absolute(), "{a}");
        for b in SAMPLES {
            assert_eq!(is_same_path(a, b), Path::new(a) == Path::new(b), "{a} {b}");
        }
    }
}

#[test]
fn paths_are_joined_as_std_does() {
    for a in SAMPLES {
        for b in SAMPLES {
            let expected = Path::new(a).join(b);
            assert_eq!(join(a, b), expected.to_str().unwrap(), "{a} {b}");
        }
    }
}

#[test]
fn file_names_are_found_as_std_does() {
    for a in SAMPLES {
        let expected = Path::new(a).file_name().map(|n| n.to_str().unwrap().to_string());
        assert_eq!(file_name(a), expected, "{a}");
    }
}

#[test]
fn relative_paths_start_at_the_working_directory() {
    assert_eq!(normalize_path_for_match("notes.txt", Some("/home/u")), "/home/u/notes.txt");
    assert_eq!(normalize_path_for_match("/etc/hosts", Some("/home/u")), "/etc/hosts");
    assert_eq!(normalize_path_for_match("notes.txt", None), "notes.txt");
    let once = normalize_path_for_match("a/b", Some("/w"));
    assert_eq!(normalize_path_for_match(&once, Some("/w")), once);
}

#[test]
fn typed_paths_know_the_home_directory() {
    assert_eq!(resolve_user_path("  ~/x.txt ", Some("/home/u"), Some("/w")), "/home/u/x.txt");
    assert_eq!(resolve_user_path("~/x.txt", None, Some("/w")), "/w/~/x.txt");
    assert_eq!(resolve_user_path("~x", Some("/home/u"), Some("/w")), "/w/~x");
    assert_eq!(resolve_user_path(" y.txt", Some("/home/u"), None), "y.txt");
    assert_eq!(resolve_user_path("~//abs", Some("/home/u"), Some("/w")), "/abs");
}

#[test]
fn autosave_names() {
    assert_eq!(autosave_file_name(12), "tab-12.txt");
    assert!(is_safe_autosave_name("tab-0.txt"));
    assert!(is_safe_autosave_name(&autosave_file_name(7)));
    assert!(!is_safe_autosave_name(""));
    assert!(!is_safe_autosave_name("a/b"));
    assert!(!is_safe_autosave_name("a\\b"));
    assert!(!is_safe_autosave_name("..x"));
}

#[test]
fn session_files_lie_below_the_state_directory() {
    let paths = SessionPaths::resolve("/home/u/.local/state");
    assert_eq!(paths.session_file, "/home/u/.local/state/garedit/session.json");
    assert_eq!(paths.autosave_dir, "/home/u/.local/state/garedit/autosave");
    assert_eq!(
        paths.autosave_path_for_index(3),
        "/home/u/.local/state/garedit/autosave/tab-3.txt"
    );
}
