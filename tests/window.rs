use autotype::window::{
    active_window_url, decode_terminated, next_window_url, path_file_name, window_executable,
    window_title, window_url, WalkAction, WindowError, WindowWalk, MAX_WINDOW_TITLE_LENGTH,
    MAX_WINDOW_WALK,
};

/// A zeroed buffer of the platform's capacity with `text` read into it.
fn buffer(text: &str) -> Vec<u16> {
    let mut buf = vec![0u16; MAX_WINDOW_TITLE_LENGTH];
    for (i, u) in text.encode_utf16().enumerate() {
        buf[i] = u;
    }
    buf
}

const IMAGE: &str = "\\Device\\HarddiskVolume3\\Program Files\\MyApp\\myapp.exe";

#[test]
fn title_is_read_up_to_the_nul() {
    assert_eq!(window_title(&buffer("Untitled")), Ok("Untitled".to_string()));
    assert_eq!(window_title(&buffer("")), Ok(String::new()));
}

#[test]
fn title_without_nul_is_missing() {
    let full = vec![0x41u16; MAX_WINDOW_TITLE_LENGTH];
    assert_eq!(window_title(&full), Err(WindowError::MissingTitle));
}

#[test]
fn invalid_utf16_is_replaced() {
    let buf = vec![0x41u16, 0xD800, 0x42, 0];
    assert_eq!(decode_terminated(&buf), Some("A\u{FFFD}B".to_string()));
}

#[test]
fn decoding_reads_units_not_their_numbers() {
    let buf = vec![0x2013u16, 0x48, 0x69, 0, 0x5A];
    assert_eq!(decode_terminated(&buf), Some("–Hi".to_string()));
    assert_eq!(decode_terminated(&[0x5Au16]), None);
}

#[test]
fn file_name_is_after_last_backslash() {
    assert_eq!(path_file_name(IMAGE), "myapp.exe");
    assert_eq!(path_file_name("myapp.exe"), "myapp.exe");
    assert_eq!(path_file_name("C:\\dir\\"), "");
}

#[test]
fn executable_of_window_with_process() {
    assert_eq!(window_executable(42, &Some(buffer(IMAGE))), Some("myapp.exe".to_string()));
}

#[test]
fn no_executable_without_process_id() {
    assert_eq!(window_executable(0, &Some(buffer(IMAGE))), None);
}

#[test]
fn no_executable_where_process_cannot_be_opened() {
    assert_eq!(window_executable(42, &None), None);
}

#[test]
fn no_executable_where_image_path_has_no_nul() {
    assert_eq!(window_executable(42, &Some(vec![0x41u16; MAX_WINDOW_TITLE_LENGTH])), None);
}

#[test]
fn url_with_executable_and_title() {
    let url = active_window_url(&buffer("Login – MyApp"), 42, &Some(buffer(IMAGE)));
    assert_eq!(url, Ok("windowsapp://myapp.exe/Login – MyApp".to_string()));
}

#[test]
fn url_with_unknown_executable() {
    let url = active_window_url(&buffer("Untitled"), 0, &None);
    assert_eq!(url, Ok("windowsapp://unknown/Untitled".to_string()));
}

#[test]
fn url_with_empty_title_keeps_its_shape() {
    let url = active_window_url(&buffer(""), 7, &None);
    assert_eq!(url, Ok("windowsapp://unknown/".to_string()));
}

#[test]
fn url_title_slashes_are_not_escaped() {
    assert_eq!(window_url(&Some("a.exe".to_string()), "x/y"), "windowsapp://a.exe/x/y");
}

#[test]
fn url_of_window_without_title_is_an_error() {
    let full = vec![0x41u16; MAX_WINDOW_TITLE_LENGTH];
    assert_eq!(active_window_url(&full, 42, &None), Err(WindowError::MissingTitle));
}

#[test]
fn walk_skips_invisible_windows() {
    let mut walk = WindowWalk::new();
    assert!(!walk.is_ended());
    assert_eq!(walk.observe(false), WalkAction::Next);
    assert_eq!(walk.observe(false), WalkAction::Next);
    assert_eq!(walk.observe(true), WalkAction::Select);
    assert!(walk.is_ended());
    assert!(walk.is_selected());
    let url = next_window_url(&walk, &buffer("Inbox"), 9, &Some(buffer("C:\\mail.exe")));
    assert_eq!(url, Ok("windowsapp://mail.exe/Inbox".to_string()));
}

#[test]
fn walk_gives_up_at_its_bound() {
    let mut walk = WindowWalk::new();
    for _ in 0..MAX_WINDOW_WALK - 1 {
        assert_eq!(walk.observe(false), WalkAction::Next);
    }
    assert_eq!(walk.observe(false), WalkAction::GiveUp);
    assert!(walk.is_ended());
    assert!(!walk.is_selected());
    let url = next_window_url(&walk, &buffer("Inbox"), 9, &None);
    assert_eq!(url, Err(WindowError::NoVisibleWindow));
}
