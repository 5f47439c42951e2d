use fs_commands::error::FsError;
use fs_commands::revealer::{finish_reveal, parent_of, reveal_plan, Platform};

#[test]
fn parent_of_nested_path() {
    assert_eq!(parent_of("/a/b"), Some("/a".to_string()));
}

#[test]
fn parent_of_name_under_root() {
    assert_eq!(parent_of("/a"), Some("/".to_string()));
}

#[test]
fn parent_of_single_relative_name() {
    assert_eq!(parent_of("a"), Some("".to_string()));
}

#[test]
fn parent_of_root_is_none() {
    assert_eq!(parent_of("/"), None);
}

#[test]
fn parent_of_empty_path_is_none() {
    assert_eq!(parent_of(""), None);
}

#[test]
fn parent_ignores_repeated_and_trailing_separators() {
    assert_eq!(parent_of("///"), None);
    assert_eq!(parent_of("/a/b/"), Some("/a".to_string()));
    assert_eq!(parent_of("/a//b"), Some("/a".to_string()));
    assert_eq!(parent_of("a/b"), Some("a".to_string()));
}

#[test]
fn macos_reveals_with_open() {
    let cmd = reveal_plan(Platform::MacOs, "/tmp/file.txt").unwrap();
    assert_eq!(cmd.program, "open");
    assert_eq!(cmd.args, vec!["-R".to_string(), "/tmp/file.txt".to_string()]);
}

#[test]
fn windows_concatenates_select_flag_and_path() {
    let cmd = reveal_plan(Platform::Windows, "/tmp/file.txt").unwrap();
    assert_eq!(cmd.program, "explorer");
    assert_eq!(cmd.args, vec!["/select,/tmp/file.txt".to_string()]);
}

#[test]
fn linux_opens_parent_directory() {
    let cmd = reveal_plan(Platform::Linux, "/home/user/file.txt").unwrap();
    assert_eq!(cmd.program, "xdg-open");
    assert_eq!(cmd.args, vec!["/home/user".to_string()]);
}

#[test]
fn linux_parentless_path_plans_nothing() {
    assert!(reveal_plan(Platform::Linux, "/").is_none());
    assert!(reveal_plan(Platform::Linux, "").is_none());
}

#[test]
fn reveal_succeeds_once_launched() {
    assert_eq!(finish_reveal(Some(Ok(()))), Ok(()));
}

#[test]
fn reveal_no_op_reports_success() {
    assert_eq!(finish_reveal(None), Ok(()));
}

#[test]
fn failed_launch_is_spawn_error() {
    let message = "No such file or directory (os error 2)";
    let r = finish_reveal(Some(Err(message.to_string())));
    assert_eq!(r, Err(FsError::SpawnError(message.to_string())));
    assert_eq!(r.unwrap_err().message(), message);
}

#[test]
fn repeated_reveal_plans_the_same_action() {
    for platform in [Platform::MacOs, Platform::Windows, Platform::Linux] {
        let first = reveal_plan(platform, "/tmp/file.txt");
        let second = reveal_plan(platform, "/tmp/file.txt");
        match (first, second) {
            (Some(a), Some(b)) => {
                assert_eq!(a.program, b.program);
                assert_eq!(a.args, b.args);
            },
            (None, None) => {},
            _ => panic!("the second plan differs from the first"),
        }
    }
}
