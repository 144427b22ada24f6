use autotype::keys::{release_modifiers, send_char_as_virtual, tab_keys, KeyInput, VK_SHIFT};
use autotype::typing::{send_login, send_text, TextTyping};

/// Drives a session with one focus report per character, the layout answering
/// with the character's ASCII code, and returns every event it asked for.
fn drive(session: &mut TextTyping, focus: &[bool]) -> Vec<KeyInput> {
    let mut sent = Vec::new();
    let mut i = 0;
    while let Some(c) = session.pending() {
        let kept = focus[i];
        sent.extend(session.step(kept, c as i16));
        i += 1;
    }
    sent
}

fn keys_of(text: &str) -> Vec<KeyInput> {
    text.chars().flat_map(|c| send_char_as_virtual(c, c as i16)).collect()
}

#[test]
fn empty_text_is_done_at_once() {
    let (session, opening) = send_text("");
    assert!(session.is_done());
    assert_eq!(session.pending(), None);
    assert_eq!(opening, release_modifiers());
}

#[test]
fn whole_text_is_typed_while_focus_stays() {
    let (mut session, opening) = send_text("abc");
    assert_eq!(opening, release_modifiers());
    assert_eq!(session.pending(), Some('a'));
    let sent = drive(&mut session, &[true, true, true]);
    assert_eq!(sent, keys_of("abc"));
    assert!(session.is_done());
}

#[test]
fn typing_stops_when_focus_moves() {
    let (mut session, _) = send_text("abcd");
    let sent = drive(&mut session, &[true, false, true, true]);
    assert_eq!(sent, keys_of("a"));
    assert!(session.is_done());
    assert_eq!(session.pending(), None);
}

#[test]
fn step_with_focus_lost_returns_nothing() {
    let (mut session, _) = send_text("x");
    assert!(session.step(false, 0x58).is_empty());
    assert!(session.is_done());
}

#[test]
fn shifted_character_in_a_session() {
    let (mut session, _) = send_text("A");
    let sent = session.step(true, 0x0141);
    assert_eq!(sent.first(), Some(&KeyInput::Virtual { key: VK_SHIFT, pressed: true }));
    assert_eq!(sent.last(), Some(&KeyInput::Virtual { key: VK_SHIFT, pressed: false }));
    assert_eq!(sent.len(), 4);
}

#[test]
fn login_types_user_tab_password_in_order() {
    let mut login = send_login("alice", "secret");
    let mut sent = login.username_opening.clone();
    sent.extend(drive(&mut login.username, &[true; 5]));
    sent.extend(login.tab.clone());
    sent.extend(login.password_opening.clone());
    sent.extend(drive(&mut login.password, &[true; 6]));
    let mut expected = release_modifiers();
    expected.extend(keys_of("alice"));
    expected.extend(tab_keys());
    expected.extend(release_modifiers());
    expected.extend(keys_of("secret"));
    assert_eq!(sent, expected);
}

#[test]
fn login_password_follows_a_cut_short_user_name() {
    let mut login = send_login("alice", "secret");
    let mut sent = login.username_opening.clone();
    sent.extend(drive(&mut login.username, &[true, true, false, true, true]));
    sent.extend(login.tab.clone());
    sent.extend(login.password_opening.clone());
    sent.extend(drive(&mut login.password, &[true; 6]));
    let mut expected = release_modifiers();
    expected.extend(keys_of("al"));
    expected.extend(tab_keys());
    expected.extend(release_modifiers());
    expected.extend(keys_of("secret"));
    assert_eq!(sent, expected);
}

#[test]
fn empty_login_releases_modifiers_around_tab() {
    let login = send_login("", "");
    assert!(login.username.is_done());
    assert!(login.password.is_done());
    let mut sent = login.username_opening.clone();
    sent.extend(login.tab.clone());
    sent.extend(login.password_opening.clone());
    let mut expected = release_modifiers();
    expected.extend(tab_keys());
    expected.extend(release_modifiers());
    assert_eq!(sent, expected);
}
