use desk_ops::folder::parent_dir;
use desk_ops::folder::reveal_request;
use desk_ops::folder::Platform;
use desk_ops::folder::RevealError;

#[test]
fn windows_selects_the_path_in_explorer() {
    let r = reveal_request(Platform::Windows, "C:/Users/me/pic.png").unwrap();
    assert_eq!(r.program, "explorer");
    assert_eq!(r.args, vec!["/select,".to_string(), "C:/Users/me/pic.png".to_string()]);
}

#[test]
fn macos_reveals_the_path_in_finder() {
    let r = reveal_request(Platform::MacOs, "/Users/me/pic.png").unwrap();
    assert_eq!(r.program, "open");
    assert_eq!(r.args, vec!["-R".to_string(), "/Users/me/pic.png".to_string()]);
}

#[test]
fn linux_opens_the_parent_directory() {
    let r = reveal_request(Platform::Linux, "/home/me/docs/pic.png").unwrap();
    assert_eq!(r.program, "xdg-open");
    assert_eq!(r.args, vec!["/home/me/docs".to_string()]);
}

#[test]
fn linux_file_under_root_opens_root() {
    let r = reveal_request(Platform::Linux, "/pic.png").unwrap();
    assert_eq!(r.program, "xdg-open");
    assert_eq!(r.args, vec!["/".to_string()]);
}

#[test]
fn linux_path_without_separator_is_rejected() {
    let r = reveal_request(Platform::Linux, "pic.png");
    assert_eq!(r, Err(RevealError::NoParent));
}

#[test]
fn parent_of_nested_path() {
    assert_eq!(parent_dir("/home/me/docs/pic.png"), Some("/home/me/docs".to_string()));
    assert_eq!(parent_dir("relative/path.txt"), Some("relative".to_string()));
}

#[test]
fn parent_of_rooted_or_bare_name() {
    assert_eq!(parent_dir("/pic.png"), Some("/".to_string()));
    assert_eq!(parent_dir("pic.png"), None);
    assert_eq!(parent_dir(""), None);
}
