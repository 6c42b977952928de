//! Key-code and modifier helpers shared by the input widgets.
//!
//! Key events arrive either as Win32 virtual-key codes or as `Qt::Key` values,
//! so every predicate accepts both encodings.

use vstd::prelude::*;

verus! {

/// Up arrow.
pub open spec fn spec_is_up(key: u32) -> bool {
    key == 0x26 || key == 0x0100_0013
}

/// Up arrow.
#[verifier::when_used_as_spec(spec_is_up)]
pub fn is_up(key: u32) -> (r: bool)
    ensures
        r == spec_is_up(key),
{
    key == 0x26 || key == 0x0100_0013
}

/// Down arrow.
pub open spec fn spec_is_down(key: u32) -> bool {
    key == 0x28 || key == 0x0100_0015
}

/// Down arrow.
#[verifier::when_used_as_spec(spec_is_down)]
pub fn is_down(key: u32) -> (r: bool)
    ensures
        r == spec_is_down(key),
{
    key == 0x28 || key == 0x0100_0015
}

/// Left arrow.
pub open spec fn spec_is_left(key: u32) -> bool {
    key == 0x25 || key == 0x0100_0012
}

/// Left arrow.
#[verifier::when_used_as_spec(spec_is_left)]
pub fn is_left(key: u32) -> (r: bool)
    ensures
        r == spec_is_left(key),
{
    key == 0x25 || key == 0x0100_0012
}

/// Right arrow.
pub open spec fn spec_is_right(key: u32) -> bool {
    key == 0x27 || key == 0x0100_0014
}

/// Right arrow.
#[verifier::when_used_as_spec(spec_is_right)]
pub fn is_right(key: u32) -> (r: bool)
    ensures
        r == spec_is_right(key),
{
    key == 0x27 || key == 0x0100_0014
}

/// Page Up.
pub open spec fn spec_is_page_up(key: u32) -> bool {
    key == 0x21 || key == 0x0100_0016
}

/// Page Up.
#[verifier::when_used_as_spec(spec_is_page_up)]
pub fn is_page_up(key: u32) -> (r: bool)
    ensures
        r == spec_is_page_up(key),
{
    key == 0x21 || key == 0x0100_0016
}

/// Page Down.
pub open spec fn spec_is_page_down(key: u32) -> bool {
    key == 0x22 || key == 0x0100_0017
}

/// Page Down.
#[verifier::when_used_as_spec(spec_is_page_down)]
pub fn is_page_down(key: u32) -> (r: bool)
    ensures
        r == spec_is_page_down(key),
{
    key == 0x22 || key == 0x0100_0017
}

/// Home.
pub open spec fn spec_is_home(key: u32) -> bool {
    key == 0x24 || key == 0x0100_0010
}

/// Home.
#[verifier::when_used_as_spec(spec_is_home)]
pub fn is_home(key: u32) -> (r: bool)
    ensures
        r == spec_is_home(key),
{
    key == 0x24 || key == 0x0100_0010
}

/// End.
pub open spec fn spec_is_end(key: u32) -> bool {
    key == 0x23 || key == 0x0100_0011
}

/// End.
#[verifier::when_used_as_spec(spec_is_end)]
pub fn is_end(key: u32) -> (r: bool)
    ensures
        r == spec_is_end(key),
{
    key == 0x23 || key == 0x0100_0011
}

/// Return or keypad Enter.
pub open spec fn spec_is_enter(key: u32) -> bool {
    key == 0x0D || key == 0x0100_0004 || key == 0x0100_0005
}

/// Return or keypad Enter.
#[verifier::when_used_as_spec(spec_is_enter)]
pub fn is_enter(key: u32) -> (r: bool)
    ensures
        r == spec_is_enter(key),
{
    key == 0x0D || key == 0x0100_0004 || key == 0x0100_0005
}

/// Escape.
pub open spec fn spec_is_escape(key: u32) -> bool {
    key == 0x1B || key == 0x0100_0000
}

/// Escape.
#[verifier::when_used_as_spec(spec_is_escape)]
pub fn is_escape(key: u32) -> (r: bool)
    ensures
        r == spec_is_escape(key),
{
    key == 0x1B || key == 0x0100_0000
}

/// Backspace.
pub open spec fn spec_is_backspace(key: u32) -> bool {
    key == 0x08 || key == 0x0100_0003
}

/// Backspace.
#[verifier::when_used_as_spec(spec_is_backspace)]
pub fn is_backspace(key: u32) -> (r: bool)
    ensures
        r == spec_is_backspace(key),
{
    key == 0x08 || key == 0x0100_0003
}

/// Delete.
pub open spec fn spec_is_delete(key: u32) -> bool {
    key == 0x2E || key == 0x0100_0007
}

/// Delete.
#[verifier::when_used_as_spec(spec_is_delete)]
pub fn is_delete(key: u32) -> (r: bool)
    ensures
        r == spec_is_delete(key),
{
    key == 0x2E || key == 0x0100_0007
}

/// F4.
pub open spec fn spec_is_f4(key: u32) -> bool {
    key == 0x73 || key == 0x0100_0033
}

/// F4.
#[verifier::when_used_as_spec(spec_is_f4)]
pub fn is_f4(key: u32) -> (r: bool)
    ensures
        r == spec_is_f4(key),
{
    key == 0x73 || key == 0x0100_0033
}

/// The space bar in both encodings.
pub const KEY_SPACE: u32 = 0x20;

/// Shift held: the Qt mask bit or the compact platform bit.
pub open spec fn spec_has_shift(modifiers: u32) -> bool {
    modifiers & 0x0200_0000 != 0 || modifiers & 1 != 0
}

/// Control held: the Qt mask bit or the compact platform bit.
pub open spec fn spec_has_ctrl(modifiers: u32) -> bool {
    modifiers & 0x0400_0000 != 0 || modifiers & 2 != 0
}

/// Alt held: the Qt mask bit or the compact platform bit.
pub open spec fn spec_has_alt(modifiers: u32) -> bool {
    modifiers & 0x0800_0000 != 0 || modifiers & 4 != 0
}

/// Whether Shift is held.
#[verifier::when_used_as_spec(spec_has_shift)]
pub fn has_shift(modifiers: u32) -> (r: bool)
    ensures
        r == spec_has_shift(modifiers),
{
    modifiers & 0x0200_0000 != 0 || modifiers & 1 != 0
}

/// Whether Control is held.
#[verifier::when_used_as_spec(spec_has_ctrl)]
pub fn has_ctrl(modifiers: u32) -> (r: bool)
    ensures
        r == spec_has_ctrl(modifiers),
{
    modifiers & 0x0400_0000 != 0 || modifiers & 2 != 0
}

/// Whether Alt is held.
#[verifier::when_used_as_spec(spec_has_alt)]
pub fn has_alt(modifiers: u32) -> (r: bool)
    ensures
        r == spec_has_alt(modifiers),
{
    modifiers & 0x0800_0000 != 0 || modifiers & 4 != 0
}

/// The character a key types for numeric or text entry, if any. Control or
/// Alt suppress typing; letters are lower case unless Shift is held; keypad
/// digits and the OEM/keypad punctuation keys map to their characters.
pub open spec fn spec_typed_char(key: u32, modifiers: u32) -> Option<char> {
    if spec_has_ctrl(modifiers) || spec_has_alt(modifiers) {
        None
    } else if 0x30 <= key <= 0x39 {
        Some(key as char)
    } else if 0x41 <= key <= 0x5A {
        if spec_has_shift(modifiers) {
            Some(key as char)
        } else {
            Some((key + 0x20) as char)
        }
    } else if 0x60 <= key <= 0x69 {
        Some((key - 0x60 + 0x30) as char)
    } else if key == 0x20 || key == 0x2B || key == 0x2C || key == 0x2D || key == 0x2F {
        Some(key as char)
    } else if key == 0xBB || key == 0x6B {
        Some('+')
    } else if key == 0xBC {
        Some(',')
    } else if key == 0xBD || key == 0x6D {
        Some('-')
    } else if key == 0xBE || key == 0x6E {
        Some('.')
    } else {
        None
    }
}

/// Maps a key code to the character it types for numeric/text entry.
///
/// Navigation codes (`0x21..=0x28`, `0x2E`) are never treated as text, since
/// they collide with Win32 virtual keys.
#[verifier::when_used_as_spec(spec_typed_char)]
pub fn typed_char(key: u32, modifiers: u32) -> (r: Option<char>)
    ensures
        r == spec_typed_char(key, modifiers),
{
    if has_ctrl(modifiers) || has_alt(modifiers) {
        return None;
    }
    if 0x30 <= key && key <= 0x39 {
        Some((key as u8) as char)
    } else if 0x41 <= key && key <= 0x5A {
        if has_shift(modifiers) {
            Some((key as u8) as char)
        } else {
            Some(((key + 0x20) as u8) as char)
        }
    } else if 0x60 <= key && key <= 0x69 {
        Some(((key - 0x60 + 0x30) as u8) as char)
    } else if key == 0x20 || key == 0x2B || key == 0x2C || key == 0x2D || key == 0x2F {
        Some((key as u8) as char)
    } else if key == 0xBB || key == 0x6B {
        Some('+')
    } else if key == 0xBC {
        Some(',')
    } else if key == 0xBD || key == 0x6D {
        Some('-')
    } else if key == 0xBE || key == 0x6E {
        Some('.')
    } else {
        None
    }
}

/// Navigation codes (`0x21..=0x28` and `0x2E`) never type a character,
/// whatever the modifiers.
pub proof fn lemma_navigation_keys_type_nothing(key: u32, modifiers: u32)
    requires
        0x21 <= key <= 0x28 || key == 0x2E,
    ensures
        spec_typed_char(key, modifiers) is None,
{
}

} // verus!
