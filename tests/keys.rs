use autotype::keys::{
    layout_unit, release_modifiers, send_char, send_char_as_virtual, tab_keys, KeyInput, VK_CAPITAL, VK_CONTROL,
    VK_MENU, VK_SHIFT, VK_TAB,
};

fn down(key: u16) -> KeyInput {
    KeyInput::Virtual { key, pressed: true }
}

fn up(key: u16) -> KeyInput {
    KeyInput::Virtual { key, pressed: false }
}

#[test]
fn release_modifiers_lets_go_of_four_keys_in_order() {
    assert_eq!(release_modifiers(), vec![up(VK_SHIFT), up(VK_MENU), up(VK_CONTROL), up(VK_CAPITAL)]);
}

#[test]
fn tab_is_pressed_then_released() {
    assert_eq!(tab_keys(), vec![down(VK_TAB), up(VK_TAB)]);
    assert_eq!(VK_TAB, 0x09);
}

#[test]
fn raw_unit_of_ascii_and_bmp_characters() {
    assert_eq!(send_char('a'), vec![KeyInput::Unicode { unit: 0x61 }]);
    assert_eq!(send_char('€'), vec![KeyInput::Unicode { unit: 0x20AC }]);
}

#[test]
fn raw_units_of_astral_character_are_a_surrogate_pair() {
    assert_eq!(
        send_char('😀'),
        vec![KeyInput::Unicode { unit: 0xD83D }, KeyInput::Unicode { unit: 0xDE00 }]
    );
    assert_eq!(
        send_char('\u{10FFFF}'),
        vec![KeyInput::Unicode { unit: 0xDBFF }, KeyInput::Unicode { unit: 0xDFFF }]
    );
    assert_eq!(
        send_char('\u{10000}'),
        vec![KeyInput::Unicode { unit: 0xD800 }, KeyInput::Unicode { unit: 0xDC00 }]
    );
}

#[test]
fn layout_is_asked_about_single_unit_characters_only() {
    assert_eq!(layout_unit('a'), Some(0x61));
    assert_eq!(layout_unit('ő'), Some(0x151));
    assert_eq!(layout_unit('\u{FFFF}'), Some(0xFFFF));
    assert_eq!(layout_unit('😀'), None);
}

#[test]
fn plain_key_has_no_modifiers() {
    assert_eq!(send_char_as_virtual('a', 0x0041), vec![down(0x41), up(0x41)]);
}

#[test]
fn shifted_key_is_bracketed_by_shift() {
    assert_eq!(
        send_char_as_virtual('A', 0x0141),
        vec![down(VK_SHIFT), down(0x41), up(0x41), up(VK_SHIFT)]
    );
}

#[test]
fn ctrl_alt_key_is_bracketed_by_both() {
    assert_eq!(
        send_char_as_virtual('@', 0x0651),
        vec![down(VK_CONTROL), down(VK_MENU), down(0x51), up(0x51), up(VK_CONTROL), up(VK_MENU)]
    );
}

#[test]
fn all_modifier_bits_of_negative_answer() {
    assert_eq!(
        send_char_as_virtual('x', -256),
        vec![
            down(VK_SHIFT),
            down(VK_CONTROL),
            down(VK_MENU),
            down(0),
            up(0),
            up(VK_SHIFT),
            up(VK_CONTROL),
            up(VK_MENU)
        ]
    );
}

#[test]
fn unmapped_character_falls_back_to_raw_unit() {
    assert_eq!(send_char_as_virtual('ß', -1), vec![KeyInput::Unicode { unit: 0xDF }]);
    assert_eq!(
        send_char_as_virtual('😀', -1),
        vec![KeyInput::Unicode { unit: 0xD83D }, KeyInput::Unicode { unit: 0xDE00 }]
    );
}
