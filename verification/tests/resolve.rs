use fs_commands::error::FsError;
use fs_commands::resolve::{finish_resolution, join_paths};

#[test]
fn join_appends_with_separator() {
    assert_eq!(join_paths("/base", "file.txt"), "/base/file.txt");
}

#[test]
fn join_keeps_existing_trailing_separator() {
    assert_eq!(join_paths("/base/", "file.txt"), "/base/file.txt");
}

#[test]
fn join_rooted_relative_overrides_base() {
    assert_eq!(join_paths("/base", "/abs/other"), "/abs/other");
}

#[test]
fn join_empty_base_yields_relative() {
    assert_eq!(join_paths("", "file.txt"), "file.txt");
}

#[test]
fn join_empty_relative_adds_separator() {
    assert_eq!(join_paths("/base", ""), "/base/");
}

#[test]
fn join_relative_base_stays_relative() {
    assert_eq!(join_paths("base", "file.txt"), "base/file.txt");
}

#[test]
fn resolution_passes_canonical_path_through() {
    let r = finish_resolution(Ok("/canonical/file.txt".to_string()));
    assert_eq!(r, Ok("/canonical/file.txt".to_string()));
}

#[test]
fn resolution_failure_is_not_found() {
    let message = "No such file or directory (os error 2)";
    let r = finish_resolution(Err(message.to_string()));
    assert_eq!(r, Err(FsError::NotFound(message.to_string())));
}

#[test]
fn not_found_message_is_surfaced_verbatim() {
    let message = "No such file or directory (os error 2)";
    let e = finish_resolution(Err(message.to_string())).unwrap_err();
    assert_eq!(e.message(), message);
}
