//! Synthetic keyboard events and the translation of one character into them.
use vstd::prelude::*;

verus! {

/// Virtual-key code of the Tab key.
pub const VK_TAB: u16 = 0x09;

/// Virtual-key code of the Shift key.
pub const VK_SHIFT: u16 = 0x10;

/// Virtual-key code of the Control key.
pub const VK_CONTROL: u16 = 0x11;

/// Virtual-key code of the Alt key (called "menu" by the platform).
pub const VK_MENU: u16 = 0x12;

/// Virtual-key code of the Caps-Lock key.
pub const VK_CAPITAL: u16 = 0x14;

/// What a layout query returns for a character that no key produces.
pub const NO_KEY: i16 = -1;

/// One synthetic keyboard event.
#[derive(Clone, Copy, Debug, PartialEq, Eq, Structural)]
pub enum KeyInput {
    /// A virtual key going down (`pressed`) or up.
    Virtual { key: u16, pressed: bool },
    /// A raw UTF-16 code unit, injected without any layout translation.
    Unicode { unit: u16 },
}

pub open spec fn key_down(key: u16) -> KeyInput {
    KeyInput::Virtual { key, pressed: true }
}

pub open spec fn key_up(key: u16) -> KeyInput {
    KeyInput::Virtual { key, pressed: false }
}

/// The layout query's answer read as its 16 bits.
pub open spec fn scan_bits(scan: i16) -> int {
    if scan < 0 { scan + 0x10000 } else { scan as int }
}

/// The low byte of the answer: the virtual key.
pub open spec fn scan_key(scan: i16) -> u16 {
    (scan_bits(scan) % 0x100) as u16
}

/// The high byte of the answer: the modifier bits.
pub open spec fn scan_modifiers(scan: i16) -> int {
    scan_bits(scan) / 0x100
}

/// Bit 0 of the high byte: Shift.
pub open spec fn needs_shift(scan: i16) -> bool {
    scan_modifiers(scan) % 2 == 1
}

/// Bit 1 of the high byte: Control.
pub open spec fn needs_ctrl(scan: i16) -> bool {
    scan_modifiers(scan) / 2 % 2 == 1
}

/// Bit 2 of the high byte: Alt.
pub open spec fn needs_alt(scan: i16) -> bool {
    scan_modifiers(scan) / 4 % 2 == 1
}

/// The modifiers that the answer asks for, in the order they go down.
pub open spec fn modifiers_of(scan: i16) -> Seq<u16> {
    (if needs_shift(scan) { seq![VK_SHIFT] } else { Seq::empty() })
        + (if needs_ctrl(scan) { seq![VK_CONTROL] } else { Seq::empty() })
        + (if needs_alt(scan) { seq![VK_MENU] } else { Seq::empty() })
}

pub open spec fn presses(keys: Seq<u16>) -> Seq<KeyInput> {
    keys.map_values(|k: u16| key_down(k))
}

pub open spec fn releases(keys: Seq<u16>) -> Seq<KeyInput> {
    keys.map_values(|k: u16| key_up(k))
}

/// The UTF-16 encoding of `c`: one unit below U+10000, else the high
/// surrogate then the low one.
pub open spec fn utf16_units(c: char) -> Seq<u16> {
    let v = c as u32 as int;
    if v < 0x10000 {
        seq![v as u16]
    } else {
        seq![(0xD800 + (v - 0x10000) / 0x400) as u16, (0xDC00 + (v - 0x10000) % 0x400) as u16]
    }
}

/// The events that type `c` without the layout: one raw-unit event per
/// UTF-16 unit of `c`.
pub open spec fn unicode_keys(c: char) -> Seq<KeyInput> {
    utf16_units(c).map_values(|u: u16| KeyInput::Unicode { unit: u })
}

/// The events that type `c`, given the layout's answer `scan` for it: the
/// modifiers down, the key down and up, the modifiers up; or the raw unit
/// where the layout has no key for it.
pub open spec fn char_keys(c: char, scan: i16) -> Seq<KeyInput> {
    if scan == NO_KEY {
        unicode_keys(c)
    } else {
        presses(modifiers_of(scan)) + seq![key_down(scan_key(scan)), key_up(scan_key(scan))]
            + releases(modifiers_of(scan))
    }
}

/// A character that the layout has a key for is typed as: each modifier it
/// needs pressed, the key pressed and released, each modifier released, and
/// nothing else; Shift, Control and Alt appear exactly when the layout asks.
pub proof fn lemma_modifiers_bracket_key(c: char, scan: i16)
    requires
        scan != NO_KEY,
    ensures
        ({
            let m = modifiers_of(scan);
            let ks = char_keys(c, scan);
            &&& m.no_duplicates()
            &&& ks.len() == 2 * m.len() + 2
            &&& forall|i: int| 0 <= i < m.len() ==> ks[i] == key_down(#[trigger] m[i])
                && ks[m.len() + 2int + i] == key_up(m[i])
            &&& ks[m.len() as int] == key_down(scan_key(scan))
            &&& ks[m.len() + 1int] == key_up(scan_key(scan))
            &&& m.contains(VK_SHIFT) == needs_shift(scan)
            &&& m.contains(VK_CONTROL) == needs_ctrl(scan)
            &&& m.contains(VK_MENU) == needs_alt(scan)
        }),
{
    let m = modifiers_of(scan);
    if needs_shift(scan) {
        assert(m[0] == VK_SHIFT);
    }
    if needs_ctrl(scan) {
        assert(m[if needs_shift(scan) { 1int } else { 0 }] == VK_CONTROL);
    }
    if needs_alt(scan) {
        assert(m[m.len() - 1] == VK_MENU);
    }
}

/// A character that the layout has no key for is typed as its UTF-16 units
/// alone, raw: no virtual key goes down or up.
pub proof fn lemma_fallback_is_raw_unit(c: char, scan: i16)
    requires
        scan == NO_KEY,
    ensures
        char_keys(c, scan) == unicode_keys(c),
        1 <= char_keys(c, scan).len() <= 2,
        forall|i: int| 0 <= i < char_keys(c, scan).len() ==> !(#[trigger] char_keys(c, scan)[i] is Virtual),
{
}

/// Whether `key` is down after the events `events`: its last event in them
/// pressed it.
pub open spec fn held(events: Seq<KeyInput>, key: u16) -> bool
    decreases events.len(),
{
    if events.len() == 0 {
        false
    } else {
        match events.last() {
            KeyInput::Virtual { key: k, pressed } => if k == key {
                pressed
            } else {
                held(events.drop_last(), key)
            },
            KeyInput::Unicode { .. } => held(events.drop_last(), key),
        }
    }
}

/// Events that leave a key up, after events that leave it up, leave it up.
pub proof fn lemma_not_held_concat(a: Seq<KeyInput>, b: Seq<KeyInput>, key: u16)
    requires
        !held(a, key),
        !held(b, key),
    ensures
        !held(a + b, key),
    decreases b.len(),
{
    if b.len() == 0 {
        assert(a + b =~= a);
    } else {
        assert((a + b).drop_last() =~= a + b.drop_last());
        assert((a + b).last() == b.last());
        match b.last() {
            KeyInput::Virtual { key: k, pressed } => {
                if k != key {
                    lemma_not_held_concat(a, b.drop_last(), key);
                }
            },
            KeyInput::Unicode { .. } => {
                lemma_not_held_concat(a, b.drop_last(), key);
            },
        }
    }
}

proof fn lemma_not_held_without_virtual(events: Seq<KeyInput>, key: u16)
    requires
        forall|i: int| 0 <= i < events.len() ==> !(#[trigger] events[i] is Virtual),
    ensures
        !held(events, key),
    decreases events.len(),
{
    if events.len() > 0 {
        assert(!(events[events.len() - 1] is Virtual));
        lemma_not_held_without_virtual(events.drop_last(), key);
    }
}

proof fn lemma_held_after_presses(keys: Seq<u16>, key: u16)
    ensures
        held(presses(keys), key) == keys.contains(key),
    decreases keys.len(),
{
    if keys.len() > 0 {
        assert(presses(keys).drop_last() =~= presses(keys.drop_last()));
        lemma_held_after_presses(keys.drop_last(), key);
        assert(keys =~= keys.drop_last().push(keys.last()));
        if keys.drop_last().contains(key) {
            let i = choose|i: int| 0 <= i < keys.drop_last().len() && keys.drop_last()[i] == key;
            assert(keys[i] == key);
        }
    }
}

proof fn lemma_held_after_releases(a: Seq<KeyInput>, keys: Seq<u16>, key: u16)
    ensures
        held(a + releases(keys), key) == (!keys.contains(key) && held(a, key)),
    decreases keys.len(),
{
    if keys.len() == 0 {
        assert(a + releases(keys) =~= a);
    } else {
        assert((a + releases(keys)).drop_last() =~= a + releases(keys.drop_last()));
        lemma_held_after_releases(a, keys.drop_last(), key);
        assert(keys =~= keys.drop_last().push(keys.last()));
        if keys.drop_last().contains(key) {
            let i = choose|i: int| 0 <= i < keys.drop_last().len() && keys.drop_last()[i] == key;
            assert(keys[i] == key);
        }
    }
}

/// After the events that type one character, no key at all is held: every
/// modifier it pressed, and the key itself, have been released.
pub proof fn lemma_no_key_held_after_char(c: char, scan: i16, key: u16)
    ensures
        !held(char_keys(c, scan), key),
{
    if scan == NO_KEY {
        lemma_not_held_without_virtual(unicode_keys(c), key);
    } else {
        let m = modifiers_of(scan);
        let k = scan_key(scan);
        let body = presses(m) + seq![key_down(k), key_up(k)];
        lemma_held_after_releases(body, m, key);
        lemma_held_after_presses(m, key);
        assert(body.drop_last() =~= presses(m).push(key_down(k)));
        assert(body.drop_last().drop_last() =~= presses(m));
        assert(body.last() == key_up(k));
        assert(body.drop_last().last() == key_down(k));
        if k != key {
            assert(held(body, key) == held(body.drop_last(), key));
            assert(held(body.drop_last(), key) == held(presses(m), key));
        }
        assert(held(body, key) ==> m.contains(key));
        assert(char_keys(c, scan) == body + releases(m));
    }
}

/// Letting go of the modifiers leaves no key held.
pub proof fn lemma_no_key_held_after_release(key: u16)
    ensures
        !held(releases(released_modifiers()), key),
{
    lemma_held_after_releases(Seq::empty(), released_modifiers(), key);
    assert(Seq::<KeyInput>::empty() + releases(released_modifiers()) =~= releases(released_modifiers()));
}

/// The modifier keys that a session lets go of before it types.
pub open spec fn released_modifiers() -> Seq<u16> {
    seq![VK_SHIFT, VK_MENU, VK_CONTROL, VK_CAPITAL]
}

/// Key-up events for Shift, Alt, Control and Caps-Lock, in that order.
pub fn release_modifiers() -> (r: Vec<KeyInput>)
    ensures
        r@ == releases(released_modifiers()),
{
    let r = vec![
        KeyInput::Virtual { key: VK_SHIFT, pressed: false },
        KeyInput::Virtual { key: VK_MENU, pressed: false },
        KeyInput::Virtual { key: VK_CONTROL, pressed: false },
        KeyInput::Virtual { key: VK_CAPITAL, pressed: false },
    ];
    assert(r@ =~= releases(released_modifiers()));
    r
}

/// A press and a release of Tab.
pub fn tab_keys() -> (r: Vec<KeyInput>)
    ensures
        r@ == seq![key_down(VK_TAB), key_up(VK_TAB)],
{
    let r = vec![
        KeyInput::Virtual { key: VK_TAB, pressed: true },
        KeyInput::Virtual { key: VK_TAB, pressed: false },
    ];
    assert(r@ =~= seq![key_down(VK_TAB), key_up(VK_TAB)]);
    r
}

/// The raw-unit events that type `c` without the layout.
pub fn send_char(c: char) -> (r: Vec<KeyInput>)
    ensures
        r@ == unicode_keys(c),
{
    let v = c as u32;
    let r = if v < 0x10000 {
        vec![KeyInput::Unicode { unit: v as u16 }]
    } else {
        assert(v <= 0x10FFFF);
        let high = (0xD800 + (v - 0x10000) / 0x400) as u16;
        let low = (0xDC00 + (v - 0x10000) % 0x400) as u16;
        vec![KeyInput::Unicode { unit: high }, KeyInput::Unicode { unit: low }]
    };
    assert(r@ =~= unicode_keys(c));
    r
}

/// The unit to ask the layout about for `c`, where it has one: a character
/// above U+FFFF has no single unit, and so no key.
pub fn layout_unit(c: char) -> (r: Option<u16>)
    ensures
        r == (if (c as u32) < 0x10000 { Some((c as u32) as u16) } else { None::<u16> }),
{
    let v = c as u32;
    if v < 0x10000 {
        Some(v as u16)
    } else {
        None
    }
}

/// The events that type `c` where the layout answered `scan` for it.
pub fn send_char_as_virtual(c: char, scan: i16) -> (r: Vec<KeyInput>)
    ensures
        r@ == char_keys(c, scan),
{
    if scan == NO_KEY {
        return send_char(c);
    }
    let bits: u32 = if scan < 0 { (scan as i32 + 0x10000) as u32 } else { scan as u32 };
    let key = (bits % 0x100) as u16;
    let high = bits / 0x100;
    let shift = high % 2 == 1;
    let ctrl = high / 2 % 2 == 1;
    let alt = high / 4 % 2 == 1;
    assert(shift == needs_shift(scan) && ctrl == needs_ctrl(scan) && alt == needs_alt(scan));
    let mut r: Vec<KeyInput> = Vec::new();
    if shift {
        r.push(KeyInput::Virtual { key: VK_SHIFT, pressed: true });
    }
    if ctrl {
        r.push(KeyInput::Virtual { key: VK_CONTROL, pressed: true });
    }
    if alt {
        r.push(KeyInput::Virtual { key: VK_MENU, pressed: true });
    }
    r.push(KeyInput::Virtual { key, pressed: true });
    r.push(KeyInput::Virtual { key, pressed: false });
    if shift {
        r.push(KeyInput::Virtual { key: VK_SHIFT, pressed: false });
    }
    if ctrl {
        r.push(KeyInput::Virtual { key: VK_CONTROL, pressed: false });
    }
    if alt {
        r.push(KeyInput::Virtual { key: VK_MENU, pressed: false });
    }
    assert(r@ =~= char_keys(c, scan));
    r
}

} // verus!
