use fs_commands::error::FsError;
use fs_commands::listing::{collect_entry_names, finish_listing};

#[test]
fn listing_returns_exactly_the_entry_names() {
    let entries = vec![
        Some("a.txt".to_string()),
        Some("b".to_string()),
        Some(".hidden".to_string()),
    ];
    let r = finish_listing(Ok(entries));
    assert_eq!(
        r,
        Ok(vec!["a.txt".to_string(), "b".to_string(), ".hidden".to_string()])
    );
}

#[test]
fn listing_drops_undecodable_names_silently() {
    let entries = vec![
        Some("a".to_string()),
        None,
        Some("b".to_string()),
        None,
    ];
    assert_eq!(
        collect_entry_names(&entries),
        vec!["a".to_string(), "b".to_string()]
    );
}

#[test]
fn listing_of_only_undecodable_names_is_empty_success() {
    let entries = vec![None, None];
    let r = finish_listing(Ok(entries));
    assert_eq!(r, Ok(Vec::new()));
}

#[test]
fn empty_directory_lists_nothing() {
    let r = finish_listing(Ok(Vec::new()));
    assert_eq!(r, Ok(Vec::new()));
}

#[test]
fn unopenable_directory_is_io_error() {
    let message = "Not a directory (os error 20)";
    let r = finish_listing(Err(message.to_string()));
    assert_eq!(r, Err(FsError::IoError(message.to_string())));
}

#[test]
fn missing_directory_is_io_error() {
    let message = "No such file or directory (os error 2)";
    let r = finish_listing(Err(message.to_string()));
    assert_eq!(r, Err(FsError::IoError(message.to_string())));
}
