//! Keyboard shortcut model (`QKeySequence`, `QKeyCombination`): normalizing key
//! events, naming keys, and the portable text form of shortcuts.

pub mod key_modifier;
pub mod qt_key;
pub mod portable_round_trip;

use vstd::prelude::*;

use crate::text::{
    all_ascii, ascii_lower, ascii_upper, char_from_u32, char_uppercase, chars_of, is_scalar_value, decimal,
    push_decimal, push_str_chars, str_lowercase, string_of, to_lowercase, uppercase_chars,
};

verus! {

/// Number of entries of the key-name table.
pub const KEY_NAME_COUNT: usize = 91;

/// Entry `i` of the key-name table used for parsing and formatting (the portable
/// text of `qkeysequence.cpp`). The first entry for a key is its canonical name;
/// later entries are accepted aliases.
pub open spec fn key_name_entry(i: int) -> (u32, Seq<char>) {
    if i == 0 {
        (qt_key::SPACE, "Space"@)
    } else if i == 1 {
        (qt_key::ESCAPE, "Esc"@)
    } else if i == 2 {
        (qt_key::TAB, "Tab"@)
    } else if i == 3 {
        (qt_key::BACKTAB, "Backtab"@)
    } else if i == 4 {
        (qt_key::BACKSPACE, "Backspace"@)
    } else if i == 5 {
        (qt_key::RETURN, "Return"@)
    } else if i == 6 {
        (qt_key::ENTER, "Enter"@)
    } else if i == 7 {
        (qt_key::INSERT, "Ins"@)
    } else if i == 8 {
        (qt_key::DELETE, "Del"@)
    } else if i == 9 {
        (qt_key::PAUSE, "Pause"@)
    } else if i == 10 {
        (qt_key::PRINT, "Print"@)
    } else if i == 11 {
        (qt_key::SYS_REQ, "SysReq"@)
    } else if i == 12 {
        (qt_key::HOME, "Home"@)
    } else if i == 13 {
        (qt_key::END, "End"@)
    } else if i == 14 {
        (qt_key::LEFT, "Left"@)
    } else if i == 15 {
        (qt_key::UP, "Up"@)
    } else if i == 16 {
        (qt_key::RIGHT, "Right"@)
    } else if i == 17 {
        (qt_key::DOWN, "Down"@)
    } else if i == 18 {
        (qt_key::PAGE_UP, "PgUp"@)
    } else if i == 19 {
        (qt_key::PAGE_DOWN, "PgDown"@)
    } else if i == 20 {
        (qt_key::CAPS_LOCK, "CapsLock"@)
    } else if i == 21 {
        (qt_key::NUM_LOCK, "NumLock"@)
    } else if i == 22 {
        (qt_key::SCROLL_LOCK, "ScrollLock"@)
    } else if i == 23 {
        (qt_key::MENU, "Menu"@)
    } else if i == 24 {
        (qt_key::HELP, "Help"@)
    } else if i == 25 {
        (qt_key::BACK, "Back"@)
    } else if i == 26 {
        (qt_key::FORWARD, "Forward"@)
    } else if i == 27 {
        (qt_key::STOP, "Stop"@)
    } else if i == 28 {
        (qt_key::REFRESH, "Refresh"@)
    } else if i == 29 {
        (qt_key::VOLUME_DOWN, "Volume Down"@)
    } else if i == 30 {
        (qt_key::VOLUME_MUTE, "Volume Mute"@)
    } else if i == 31 {
        (qt_key::VOLUME_UP, "Volume Up"@)
    } else if i == 32 {
        (qt_key::MEDIA_PLAY, "Media Play"@)
    } else if i == 33 {
        (qt_key::MEDIA_STOP, "Media Stop"@)
    } else if i == 34 {
        (qt_key::MEDIA_PREVIOUS, "Media Previous"@)
    } else if i == 35 {
        (qt_key::MEDIA_NEXT, "Media Next"@)
    } else if i == 36 {
        (qt_key::MEDIA_RECORD, "Media Record"@)
    } else if i == 37 {
        (qt_key::MEDIA_PAUSE, "Media Pause"@)
    } else if i == 38 {
        (qt_key::MEDIA_TOGGLE_PLAY_PAUSE, "Toggle Media Play/Pause"@)
    } else if i == 39 {
        (qt_key::HOME_PAGE, "Home Page"@)
    } else if i == 40 {
        (qt_key::FAVORITES, "Favorites"@)
    } else if i == 41 {
        (qt_key::SEARCH, "Search"@)
    } else if i == 42 {
        (qt_key::STANDBY, "Standby"@)
    } else if i == 43 {
        (qt_key::OPEN_URL, "Open URL"@)
    } else if i == 44 {
        (qt_key::LAUNCH_MAIL, "Launch Mail"@)
    } else if i == 45 {
        (qt_key::LAUNCH_MEDIA, "Launch Media"@)
    } else if i == 46 {
        (qt_key::LAUNCH0, "Launch (0)"@)
    } else if i == 47 {
        (qt_key::LAUNCH1, "Launch (1)"@)
    } else if i == 48 {
        (qt_key::POWER_OFF, "Power Off"@)
    } else if i == 49 {
        (qt_key::WAKE_UP, "Wake Up"@)
    } else if i == 50 {
        (qt_key::EJECT, "Eject"@)
    } else if i == 51 {
        (qt_key::CALCULATOR, "Calculator"@)
    } else if i == 52 {
        (qt_key::CLEAR, "Clear"@)
    } else if i == 53 {
        (qt_key::CLOSE, "Close"@)
    } else if i == 54 {
        (qt_key::COPY, "Copy"@)
    } else if i == 55 {
        (qt_key::CUT, "Cut"@)
    } else if i == 56 {
        (qt_key::PASTE, "Paste"@)
    } else if i == 57 {
        (qt_key::RELOAD, "Reload"@)
    } else if i == 58 {
        (qt_key::SAVE, "Save"@)
    } else if i == 59 {
        (qt_key::ZOOM_IN, "Zoom In"@)
    } else if i == 60 {
        (qt_key::ZOOM_OUT, "Zoom Out"@)
    } else if i == 61 {
        (qt_key::NEW, "New"@)
    } else if i == 62 {
        (qt_key::OPEN, "Open"@)
    } else if i == 63 {
        (qt_key::FIND, "Find"@)
    } else if i == 64 {
        (qt_key::UNDO, "Undo"@)
    } else if i == 65 {
        (qt_key::REDO, "Redo"@)
    } else if i == 66 {
        (qt_key::PRINT, "Print Screen"@)
    } else if i == 67 {
        (qt_key::PAGE_UP, "Page Up"@)
    } else if i == 68 {
        (qt_key::PAGE_DOWN, "Page Down"@)
    } else if i == 69 {
        (qt_key::CAPS_LOCK, "Caps Lock"@)
    } else if i == 70 {
        (qt_key::NUM_LOCK, "Num Lock"@)
    } else if i == 71 {
        (qt_key::NUM_LOCK, "Number Lock"@)
    } else if i == 72 {
        (qt_key::SCROLL_LOCK, "Scroll Lock"@)
    } else if i == 73 {
        (qt_key::INSERT, "Insert"@)
    } else if i == 74 {
        (qt_key::DELETE, "Delete"@)
    } else if i == 75 {
        (qt_key::ESCAPE, "Escape"@)
    } else if i == 76 {
        (qt_key::SYS_REQ, "System Request"@)
    } else if i == 77 {
        (qt_key::SELECT, "Select"@)
    } else if i == 78 {
        (qt_key::YES, "Yes"@)
    } else if i == 79 {
        (qt_key::NO, "No"@)
    } else if i == 80 {
        (qt_key::CANCEL, "Cancel"@)
    } else if i == 81 {
        (qt_key::PRINTER, "Printer"@)
    } else if i == 82 {
        (qt_key::EXECUTE, "Execute"@)
    } else if i == 83 {
        (qt_key::SLEEP, "Sleep"@)
    } else if i == 84 {
        (qt_key::PLAY, "Play"@)
    } else if i == 85 {
        (qt_key::ZOOM, "Zoom"@)
    } else if i == 86 {
        (qt_key::EXIT, "Exit"@)
    } else if i == 87 {
        (qt_key::SHIFT, "Shift"@)
    } else if i == 88 {
        (qt_key::CONTROL, "Control"@)
    } else if i == 89 {
        (qt_key::ALT, "Alt"@)
    } else if i == 90 {
        (qt_key::META, "Meta"@)
    } else {
        (0, Seq::empty())
    }
}

/// Entry `i` of the key-name table.
pub fn key_name_at(i: usize) -> (r: (u32, &'static str))
    requires
        i < KEY_NAME_COUNT,
    ensures
        r.0 == key_name_entry(i as int).0,
        r.1@ == key_name_entry(i as int).1,
{
    if i == 0 {
        (qt_key::SPACE, "Space")
    } else if i == 1 {
        (qt_key::ESCAPE, "Esc")
    } else if i == 2 {
        (qt_key::TAB, "Tab")
    } else if i == 3 {
        (qt_key::BACKTAB, "Backtab")
    } else if i == 4 {
        (qt_key::BACKSPACE, "Backspace")
    } else if i == 5 {
        (qt_key::RETURN, "Return")
    } else if i == 6 {
        (qt_key::ENTER, "Enter")
    } else if i == 7 {
        (qt_key::INSERT, "Ins")
    } else if i == 8 {
        (qt_key::DELETE, "Del")
    } else if i == 9 {
        (qt_key::PAUSE, "Pause")
    } else if i == 10 {
        (qt_key::PRINT, "Print")
    } else if i == 11 {
        (qt_key::SYS_REQ, "SysReq")
    } else if i == 12 {
        (qt_key::HOME, "Home")
    } else if i == 13 {
        (qt_key::END, "End")
    } else if i == 14 {
        (qt_key::LEFT, "Left")
    } else if i == 15 {
        (qt_key::UP, "Up")
    } else if i == 16 {
        (qt_key::RIGHT, "Right")
    } else if i == 17 {
        (qt_key::DOWN, "Down")
    } else if i == 18 {
        (qt_key::PAGE_UP, "PgUp")
    } else if i == 19 {
        (qt_key::PAGE_DOWN, "PgDown")
    } else if i == 20 {
        (qt_key::CAPS_LOCK, "CapsLock")
    } else if i == 21 {
        (qt_key::NUM_LOCK, "NumLock")
    } else if i == 22 {
        (qt_key::SCROLL_LOCK, "ScrollLock")
    } else if i == 23 {
        (qt_key::MENU, "Menu")
    } else if i == 24 {
        (qt_key::HELP, "Help")
    } else if i == 25 {
        (qt_key::BACK, "Back")
    } else if i == 26 {
        (qt_key::FORWARD, "Forward")
    } else if i == 27 {
        (qt_key::STOP, "Stop")
    } else if i == 28 {
        (qt_key::REFRESH, "Refresh")
    } else if i == 29 {
        (qt_key::VOLUME_DOWN, "Volume Down")
    } else if i == 30 {
        (qt_key::VOLUME_MUTE, "Volume Mute")
    } else if i == 31 {
        (qt_key::VOLUME_UP, "Volume Up")
    } else if i == 32 {
        (qt_key::MEDIA_PLAY, "Media Play")
    } else if i == 33 {
        (qt_key::MEDIA_STOP, "Media Stop")
    } else if i == 34 {
        (qt_key::MEDIA_PREVIOUS, "Media Previous")
    } else if i == 35 {
        (qt_key::MEDIA_NEXT, "Media Next")
    } else if i == 36 {
        (qt_key::MEDIA_RECORD, "Media Record")
    } else if i == 37 {
        (qt_key::MEDIA_PAUSE, "Media Pause")
    } else if i == 38 {
        (qt_key::MEDIA_TOGGLE_PLAY_PAUSE, "Toggle Media Play/Pause")
    } else if i == 39 {
        (qt_key::HOME_PAGE, "Home Page")
    } else if i == 40 {
        (qt_key::FAVORITES, "Favorites")
    } else if i == 41 {
        (qt_key::SEARCH, "Search")
    } else if i == 42 {
        (qt_key::STANDBY, "Standby")
    } else if i == 43 {
        (qt_key::OPEN_URL, "Open URL")
    } else if i == 44 {
        (qt_key::LAUNCH_MAIL, "Launch Mail")
    } else if i == 45 {
        (qt_key::LAUNCH_MEDIA, "Launch Media")
    } else if i == 46 {
        (qt_key::LAUNCH0, "Launch (0)")
    } else if i == 47 {
        (qt_key::LAUNCH1, "Launch (1)")
    } else if i == 48 {
        (qt_key::POWER_OFF, "Power Off")
    } else if i == 49 {
        (qt_key::WAKE_UP, "Wake Up")
    } else if i == 50 {
        (qt_key::EJECT, "Eject")
    } else if i == 51 {
        (qt_key::CALCULATOR, "Calculator")
    } else if i == 52 {
        (qt_key::CLEAR, "Clear")
    } else if i == 53 {
        (qt_key::CLOSE, "Close")
    } else if i == 54 {
        (qt_key::COPY, "Copy")
    } else if i == 55 {
        (qt_key::CUT, "Cut")
    } else if i == 56 {
        (qt_key::PASTE, "Paste")
    } else if i == 57 {
        (qt_key::RELOAD, "Reload")
    } else if i == 58 {
        (qt_key::SAVE, "Save")
    } else if i == 59 {
        (qt_key::ZOOM_IN, "Zoom In")
    } else if i == 60 {
        (qt_key::ZOOM_OUT, "Zoom Out")
    } else if i == 61 {
        (qt_key::NEW, "New")
    } else if i == 62 {
        (qt_key::OPEN, "Open")
    } else if i == 63 {
        (qt_key::FIND, "Find")
    } else if i == 64 {
        (qt_key::UNDO, "Undo")
    } else if i == 65 {
        (qt_key::REDO, "Redo")
    } else if i == 66 {
        (qt_key::PRINT, "Print Screen")
    } else if i == 67 {
        (qt_key::PAGE_UP, "Page Up")
    } else if i == 68 {
        (qt_key::PAGE_DOWN, "Page Down")
    } else if i == 69 {
        (qt_key::CAPS_LOCK, "Caps Lock")
    } else if i == 70 {
        (qt_key::NUM_LOCK, "Num Lock")
    } else if i == 71 {
        (qt_key::NUM_LOCK, "Number Lock")
    } else if i == 72 {
        (qt_key::SCROLL_LOCK, "Scroll Lock")
    } else if i == 73 {
        (qt_key::INSERT, "Insert")
    } else if i == 74 {
        (qt_key::DELETE, "Delete")
    } else if i == 75 {
        (qt_key::ESCAPE, "Escape")
    } else if i == 76 {
        (qt_key::SYS_REQ, "System Request")
    } else if i == 77 {
        (qt_key::SELECT, "Select")
    } else if i == 78 {
        (qt_key::YES, "Yes")
    } else if i == 79 {
        (qt_key::NO, "No")
    } else if i == 80 {
        (qt_key::CANCEL, "Cancel")
    } else if i == 81 {
        (qt_key::PRINTER, "Printer")
    } else if i == 82 {
        (qt_key::EXECUTE, "Execute")
    } else if i == 83 {
        (qt_key::SLEEP, "Sleep")
    } else if i == 84 {
        (qt_key::PLAY, "Play")
    } else if i == 85 {
        (qt_key::ZOOM, "Zoom")
    } else if i == 86 {
        (qt_key::EXIT, "Exit")
    } else if i == 87 {
        (qt_key::SHIFT, "Shift")
    } else if i == 88 {
        (qt_key::CONTROL, "Control")
    } else if i == 89 {
        (qt_key::ALT, "Alt")
    } else if i == 90 {
        (qt_key::META, "Meta")
    } else {
        (0, "")
    }
}

/// The translation of a Win32 virtual-key code that has a fixed Qt meaning
/// and is neither a keypad key nor a Windows key.
pub open spec fn virtual_key(key: u32) -> Option<u32> {
    if key == 0x08 {
        Some(qt_key::BACKSPACE)
    } else if key == 0x09 {
        Some(qt_key::TAB)
    } else if key == 0x0C {
        Some(qt_key::CLEAR)
    } else if key == 0x0D {
        Some(qt_key::RETURN)
    } else if key == 0x10 {
        Some(qt_key::SHIFT)
    } else if key == 0xA0 {
        Some(qt_key::SHIFT)
    } else if key == 0xA1 {
        Some(qt_key::SHIFT)
    } else if key == 0x11 {
        Some(qt_key::CONTROL)
    } else if key == 0xA2 {
        Some(qt_key::CONTROL)
    } else if key == 0xA3 {
        Some(qt_key::CONTROL)
    } else if key == 0x12 {
        Some(qt_key::ALT)
    } else if key == 0xA4 {
        Some(qt_key::ALT)
    } else if key == 0xA5 {
        Some(qt_key::ALT)
    } else if key == 0x13 {
        Some(qt_key::PAUSE)
    } else if key == 0x14 {
        Some(qt_key::CAPS_LOCK)
    } else if key == 0x1B {
        Some(qt_key::ESCAPE)
    } else if key == 0x21 {
        Some(qt_key::PAGE_UP)
    } else if key == 0x22 {
        Some(qt_key::PAGE_DOWN)
    } else if key == 0x23 {
        Some(qt_key::END)
    } else if key == 0x24 {
        Some(qt_key::HOME)
    } else if key == 0x25 {
        Some(qt_key::LEFT)
    } else if key == 0x26 {
        Some(qt_key::UP)
    } else if key == 0x27 {
        Some(qt_key::RIGHT)
    } else if key == 0x28 {
        Some(qt_key::DOWN)
    } else if key == 0x2E {
        Some(qt_key::DELETE)
    } else if key == 0x90 {
        Some(qt_key::NUM_LOCK)
    } else if key == 0x91 {
        Some(qt_key::SCROLL_LOCK)
    } else if key == 0xA6 {
        Some(qt_key::BACK)
    } else if key == 0xA7 {
        Some(qt_key::FORWARD)
    } else if key == 0xA8 {
        Some(qt_key::REFRESH)
    } else if key == 0xA9 {
        Some(qt_key::STOP)
    } else if key == 0xAA {
        Some(qt_key::SEARCH)
    } else if key == 0xAB {
        Some(qt_key::FAVORITES)
    } else if key == 0xAC {
        Some(qt_key::HOME_PAGE)
    } else if key == 0xAD {
        Some(qt_key::VOLUME_MUTE)
    } else if key == 0xAE {
        Some(qt_key::VOLUME_DOWN)
    } else if key == 0xAF {
        Some(qt_key::VOLUME_UP)
    } else if key == 0xB0 {
        Some(qt_key::MEDIA_NEXT)
    } else if key == 0xB1 {
        Some(qt_key::MEDIA_PREVIOUS)
    } else if key == 0xB2 {
        Some(qt_key::MEDIA_STOP)
    } else if key == 0xB3 {
        Some(qt_key::MEDIA_TOGGLE_PLAY_PAUSE)
    } else if key == 0xB4 {
        Some(qt_key::LAUNCH_MAIL)
    } else if key == 0xB5 {
        Some(qt_key::LAUNCH_MEDIA)
    } else if key == 0xB6 {
        Some(qt_key::LAUNCH0)
    } else if key == 0xB7 {
        Some(qt_key::LAUNCH1)
    } else if key == 0xBA {
        Some(0x3B)
    } else if key == 0xBB {
        Some(0x3D)
    } else if key == 0xBC {
        Some(0x2C)
    } else if key == 0xBD {
        Some(0x2D)
    } else if key == 0xBE {
        Some(0x2E)
    } else if key == 0xBF {
        Some(0x2F)
    } else if key == 0xC0 {
        Some(0x60)
    } else if key == 0xDB {
        Some(0x5B)
    } else if key == 0xDC {
        Some(0x5C)
    } else if key == 0xDD {
        Some(0x5D)
    } else if key == 0xDE {
        Some(0x27)
    } else {
        None
    }
}

/// [`virtual_key`], computed.
fn lookup_virtual_key(key: u32) -> (r: Option<u32>)
    ensures
        r == virtual_key(key),
{
    if key == 0x08 {
        Some(qt_key::BACKSPACE)
    } else if key == 0x09 {
        Some(qt_key::TAB)
    } else if key == 0x0C {
        Some(qt_key::CLEAR)
    } else if key == 0x0D {
        Some(qt_key::RETURN)
    } else if key == 0x10 {
        Some(qt_key::SHIFT)
    } else if key == 0xA0 {
        Some(qt_key::SHIFT)
    } else if key == 0xA1 {
        Some(qt_key::SHIFT)
    } else if key == 0x11 {
        Some(qt_key::CONTROL)
    } else if key == 0xA2 {
        Some(qt_key::CONTROL)
    } else if key == 0xA3 {
        Some(qt_key::CONTROL)
    } else if key == 0x12 {
        Some(qt_key::ALT)
    } else if key == 0xA4 {
        Some(qt_key::ALT)
    } else if key == 0xA5 {
        Some(qt_key::ALT)
    } else if key == 0x13 {
        Some(qt_key::PAUSE)
    } else if key == 0x14 {
        Some(qt_key::CAPS_LOCK)
    } else if key == 0x1B {
        Some(qt_key::ESCAPE)
    } else if key == 0x21 {
        Some(qt_key::PAGE_UP)
    } else if key == 0x22 {
        Some(qt_key::PAGE_DOWN)
    } else if key == 0x23 {
        Some(qt_key::END)
    } else if key == 0x24 {
        Some(qt_key::HOME)
    } else if key == 0x25 {
        Some(qt_key::LEFT)
    } else if key == 0x26 {
        Some(qt_key::UP)
    } else if key == 0x27 {
        Some(qt_key::RIGHT)
    } else if key == 0x28 {
        Some(qt_key::DOWN)
    } else if key == 0x2E {
        Some(qt_key::DELETE)
    } else if key == 0x90 {
        Some(qt_key::NUM_LOCK)
    } else if key == 0x91 {
        Some(qt_key::SCROLL_LOCK)
    } else if key == 0xA6 {
        Some(qt_key::BACK)
    } else if key == 0xA7 {
        Some(qt_key::FORWARD)
    } else if key == 0xA8 {
        Some(qt_key::REFRESH)
    } else if key == 0xA9 {
        Some(qt_key::STOP)
    } else if key == 0xAA {
        Some(qt_key::SEARCH)
    } else if key == 0xAB {
        Some(qt_key::FAVORITES)
    } else if key == 0xAC {
        Some(qt_key::HOME_PAGE)
    } else if key == 0xAD {
        Some(qt_key::VOLUME_MUTE)
    } else if key == 0xAE {
        Some(qt_key::VOLUME_DOWN)
    } else if key == 0xAF {
        Some(qt_key::VOLUME_UP)
    } else if key == 0xB0 {
        Some(qt_key::MEDIA_NEXT)
    } else if key == 0xB1 {
        Some(qt_key::MEDIA_PREVIOUS)
    } else if key == 0xB2 {
        Some(qt_key::MEDIA_STOP)
    } else if key == 0xB3 {
        Some(qt_key::MEDIA_TOGGLE_PLAY_PAUSE)
    } else if key == 0xB4 {
        Some(qt_key::LAUNCH_MAIL)
    } else if key == 0xB5 {
        Some(qt_key::LAUNCH_MEDIA)
    } else if key == 0xB6 {
        Some(qt_key::LAUNCH0)
    } else if key == 0xB7 {
        Some(qt_key::LAUNCH1)
    } else if key == 0xBA {
        Some(0x3B)
    } else if key == 0xBB {
        Some(0x3D)
    } else if key == 0xBC {
        Some(0x2C)
    } else if key == 0xBD {
        Some(0x2D)
    } else if key == 0xBE {
        Some(0x2E)
    } else if key == 0xBF {
        Some(0x2F)
    } else if key == 0xC0 {
        Some(0x60)
    } else if key == 0xDB {
        Some(0x5B)
    } else if key == 0xDC {
        Some(0x5C)
    } else if key == 0xDD {
        Some(0x5D)
    } else if key == 0xDE {
        Some(0x27)
    } else {
        None
    }
}

/// The character a numeric-keypad operator key types.
pub open spec fn keypad_operator(key: u32) -> Option<u32> {
    if key == 0x6A {
        Some(0x2A)
    } else if key == 0x6B {
        Some(0x2B)
    } else if key == 0x6C {
        Some(0x2C)
    } else if key == 0x6D {
        Some(0x2D)
    } else if key == 0x6E {
        Some(0x2E)
    } else if key == 0x6F {
        Some(0x2F)
    } else {
        None
    }
}

/// [`keypad_operator`], computed.
fn lookup_keypad_operator(key: u32) -> (r: Option<u32>)
    ensures
        r == keypad_operator(key),
{
    if key == 0x6A {
        Some(0x2A)
    } else if key == 0x6B {
        Some(0x2B)
    } else if key == 0x6C {
        Some(0x2C)
    } else if key == 0x6D {
        Some(0x2D)
    } else if key == 0x6E {
        Some(0x2E)
    } else if key == 0x6F {
        Some(0x2F)
    } else {
        None
    }
}

/// Qt modifier masks of a modifier word: its Qt mask bits kept, and the
/// platform bits (1 Shift, 2 Ctrl, 4 Alt, 8 Meta, 16 Keypad) translated.
pub open spec fn spec_normalize_modifiers(m: u32) -> u32 {
    let a = m & key_modifier::MASK;
    let b = if m & 1 != 0 {
        a | key_modifier::SHIFT
    } else {
        a
    };
    let c = if m & 2 != 0 {
        b | key_modifier::CTRL
    } else {
        b
    };
    let d = if m & 4 != 0 {
        c | key_modifier::ALT
    } else {
        c
    };
    let e = if m & 8 != 0 {
        d | key_modifier::META
    } else {
        d
    };
    if m & 16 != 0 {
        e | key_modifier::KEYPAD
    } else {
        e
    }
}

/// Each platform modifier bit turns on its own Qt mask and no other: Shift
/// (1) gives `SHIFT`, Ctrl (2) gives `CTRL`, Alt (4) gives `ALT`, Meta (8)
/// gives `META` and Keypad (16) gives `KEYPAD`. A Qt mask is set in the result
/// exactly when its platform bit or the mask itself is set in the input; the
/// other modifier bits of the input are kept, and no key bit is left over.
pub proof fn lemma_normalize_modifiers_maps_each_bit(m: u32)
    ensures
        (spec_normalize_modifiers(m) & key_modifier::SHIFT != 0) <==> (m & 1 != 0 || m
            & key_modifier::SHIFT != 0),
        (spec_normalize_modifiers(m) & key_modifier::CTRL != 0) <==> (m & 2 != 0 || m
            & key_modifier::CTRL != 0),
        (spec_normalize_modifiers(m) & key_modifier::ALT != 0) <==> (m & 4 != 0 || m
            & key_modifier::ALT != 0),
        (spec_normalize_modifiers(m) & key_modifier::META != 0) <==> (m & 8 != 0 || m
            & key_modifier::META != 0),
        (spec_normalize_modifiers(m) & key_modifier::KEYPAD != 0) <==> (m & 16 != 0 || m
            & key_modifier::KEYPAD != 0),
        spec_normalize_modifiers(m) & 0xC000_0000 == m & 0xC000_0000,
        spec_normalize_modifiers(m) & !key_modifier::MASK == 0,
{
    let r = spec_normalize_modifiers(m);
    assert({
        &&& (r & 0x0200_0000 != 0) <==> (m & 1 != 0 || m & 0x0200_0000 != 0)
        &&& (r & 0x0400_0000 != 0) <==> (m & 2 != 0 || m & 0x0400_0000 != 0)
        &&& (r & 0x0800_0000 != 0) <==> (m & 4 != 0 || m & 0x0800_0000 != 0)
        &&& (r & 0x1000_0000 != 0) <==> (m & 8 != 0 || m & 0x1000_0000 != 0)
        &&& (r & 0x2000_0000 != 0) <==> (m & 16 != 0 || m & 0x2000_0000 != 0)
        &&& r & 0xC000_0000 == m & 0xC000_0000
        &&& r & !0xFE00_0000u32 == 0
    }) by (bit_vector)
        requires
            r == ({
                let a = m & 0xFE00_0000;
                let b = if m & 1 != 0 {
                    a | 0x0200_0000
                } else {
                    a
                };
                let c = if m & 2 != 0 {
                    b | 0x0400_0000
                } else {
                    b
                };
                let d = if m & 4 != 0 {
                    c | 0x0800_0000
                } else {
                    c
                };
                let e = if m & 8 != 0 {
                    d | 0x1000_0000
                } else {
                    d
                };
                if m & 16 != 0 {
                    e | 0x2000_0000
                } else {
                    e
                }
            }),
    ;
}

/// Converts platform modifier bits (`KeyboardModifiers`: 1 Shift, 2 Ctrl, 4 Alt,
/// 8 Meta, 16 Keypad) or Qt masks into Qt masks.
pub fn normalize_modifiers(modifiers: u32) -> (r: u32)
    ensures
        r == spec_normalize_modifiers(modifiers),
{
    let mut out = modifiers & key_modifier::MASK;
    if modifiers & 1 != 0 {
        out = out | key_modifier::SHIFT;
    }
    if modifiers & 2 != 0 {
        out = out | key_modifier::CTRL;
    }
    if modifiers & 4 != 0 {
        out = out | key_modifier::ALT;
    }
    if modifiers & 8 != 0 {
        out = out | key_modifier::META;
    }
    if modifiers & 16 != 0 {
        out = out | key_modifier::KEYPAD;
    }
    out
}

/// The Qt key for a key event code and whether it came from the numeric keypad.
///
/// Codes from `0x0100_0000` up are Qt keys already. Below that, Win32 virtual
/// keys without printable meaning are translated (navigation, function, media
/// and OEM punctuation keys; keypad digits and operators are flagged as keypad
/// keys; the Windows keys are Meta when Meta is held). Other codes are
/// characters, upper-cased; codes that are no character give `UNKNOWN`.
pub open spec fn spec_normalize_key(key: u32, modifiers: u32) -> (u32, bool) {
    if key >= 0x0100_0000 {
        (key, false)
    } else if (key == 0x5B || key == 0x5C) && spec_normalize_modifiers(modifiers)
        & key_modifier::META != 0 {
        (qt_key::META, false)
    } else if 0x60 <= key <= 0x69 {
        ((key - 0x60 + 0x30) as u32, true)
    } else if keypad_operator(key) is Some {
        (keypad_operator(key)->0, true)
    } else if 0x70 <= key <= 0x87 {
        ((qt_key::F1 + (key - 0x70)) as u32, false)
    } else if virtual_key(key) is Some {
        (virtual_key(key)->0, false)
    } else if is_scalar_value(key) {
        (char_uppercase(key as char)[0] as u32, false)
    } else {
        (qt_key::UNKNOWN, false)
    }
}

/// Normalizes a key event code to a `Qt::Key`; returns `(key, is_keypad)`.
pub fn normalize_key(key: u32, modifiers: u32) -> (r: (u32, bool))
    ensures
        r == spec_normalize_key(key, modifiers),
{
    if key >= 0x0100_0000 {
        return (key, false);
    }
    let meta_held = normalize_modifiers(modifiers) & key_modifier::META != 0;
    if (key == 0x5B || key == 0x5C) && meta_held {
        return (qt_key::META, false);
    }
    if 0x60 <= key && key <= 0x69 {
        return (key - 0x60 + 0x30, true);
    }
    match lookup_keypad_operator(key) {
        Some(k) => {
            return (k, true);
        },
        None => {},
    }
    if 0x70 <= key && key <= 0x87 {
        return (qt_key::F1 + (key - 0x70), false);
    }
    match lookup_virtual_key(key) {
        Some(k) => {
            return (k, false);
        },
        None => {},
    }
    match char_from_u32(key) {
        Some(c) => {
            let up = uppercase_chars(c);
            (up[0] as u32, false)
        },
        None => (qt_key::UNKNOWN, false),
    }
}

/// The name of the first table entry for `key`, searching from entry `i`.
pub open spec fn name_for_key(key: u32, i: nat) -> Option<Seq<char>>
    decreases KEY_NAME_COUNT - i,
{
    if i >= KEY_NAME_COUNT {
        None
    } else if key_name_entry(i as int).0 == key {
        Some(key_name_entry(i as int).1)
    } else {
        name_for_key(key, i + 1)
    }
}

/// The key of the first table entry whose ASCII-lower-cased name is `text`,
/// searching from entry `i`.
pub open spec fn key_for_name(text: Seq<char>, i: nat) -> Option<u32>
    decreases KEY_NAME_COUNT - i,
{
    if i >= KEY_NAME_COUNT {
        None
    } else if key_name_entry(i as int).1.map_values(|c: char| ascii_lower(c)) == text {
        Some(key_name_entry(i as int).0)
    } else {
        key_for_name(text, i + 1)
    }
}

/// What `char::to_uppercase` yields for `c`: the ASCII upper case for an
/// ASCII character.
pub open spec fn upper_chars(c: char) -> Seq<char> {
    if (c as u32) < 0x80 {
        seq![ascii_upper(c)]
    } else {
        char_uppercase(c)
    }
}

/// What `str::to_lowercase` returns for `s`: ASCII text is lowered character
/// by character.
pub open spec fn lowered_text(s: Seq<char>) -> Seq<char> {
    if all_ascii(s) {
        s.map_values(|c: char| ascii_lower(c))
    } else {
        str_lowercase(s)
    }
}

/// Display name of a key (portable text of `QKeySequence`): characters are
/// upper-cased, `F1`..`F35` are numbered, other keys come from the name table.
pub open spec fn spec_key_name(key: u32) -> Seq<char> {
    if key != 0 && key < qt_key::ESCAPE && key != qt_key::SPACE {
        if is_scalar_value(key) {
            upper_chars(key as char)
        } else {
            Seq::empty()
        }
    } else if qt_key::F1 <= key <= qt_key::F35 {
        seq!['F'] + decimal((key - qt_key::F1 + 1) as nat)
    } else if key == 0 {
        Seq::empty()
    } else {
        match name_for_key(key, 0) {
            Some(n) => n,
            None => Seq::empty(),
        }
    }
}

/// Appends the name of `key` to `out`.
fn push_key_name(out: &mut Vec<char>, key: u32)
    ensures
        final(out)@ == old(out)@ + spec_key_name(key),
{
    if key != 0 && key < qt_key::ESCAPE && key != qt_key::SPACE {
        match char_from_u32(key) {
            Some(c) => {
                let up = uppercase_chars(c);
                let ghost start = out@;
                let mut i: usize = 0;
                while i < up.len()
                    invariant
                        0 <= i <= up@.len(),
                        out@ == start + up@.subrange(0, i as int),
                    decreases up@.len() - i,
                {
                    out.push(up[i]);
                    i = i + 1;
                    assert(out@ =~= start + up@.subrange(0, i as int));
                }
                assert(up@.subrange(0, i as int) =~= up@);
            },
            None => {
                assert(old(out)@ + Seq::<char>::empty() =~= old(out)@);
            },
        }
        return ;
    }
    if qt_key::F1 <= key && key <= qt_key::F35 {
        let ghost start = out@;
        out.push('F');
        push_decimal(out, key - qt_key::F1 + 1);
        assert(out@ =~= start + (seq!['F'] + decimal((key - qt_key::F1 + 1) as nat)));
        return ;
    }
    if key == 0 {
        assert(old(out)@ + Seq::<char>::empty() =~= old(out)@);
        return ;
    }
    let mut i: usize = 0;
    while i < KEY_NAME_COUNT
        invariant
            0 <= i <= KEY_NAME_COUNT,
            name_for_key(key, i as nat) == name_for_key(key, 0),
            *out == *old(out),
        decreases KEY_NAME_COUNT - i,
    {
        let (k, name) = key_name_at(i);
        if k == key {
            push_str_chars(out, name);
            return ;
        }
        i = i + 1;
    }
    assert(old(out)@ + Seq::<char>::empty() =~= old(out)@);
}

/// Maps a key to its display name (`QKeySequencePrivate::keyName`, portable text).
pub fn key_name(key: u32) -> (r: String)
    ensures
        r@ == spec_key_name(key),
{
    let mut out: Vec<char> = Vec::new();
    push_key_name(&mut out, key);
    assert(out@ =~= spec_key_name(key));
    string_of(&out)
}

/// A key plus modifiers (`QKeyCombination`).
#[derive(Debug, Clone, Copy, PartialEq, Eq, Hash, Structural)]
pub struct KeyCombination {
    /// `Qt::Key` code.
    pub key: u32,
    /// `key_modifier` mask bits.
    pub modifiers: u32,
}

impl Default for KeyCombination {
    fn default() -> (r: KeyCombination)
        ensures
            r == (KeyCombination { key: 0, modifiers: 0 }),
    {
        KeyCombination { key: 0, modifiers: 0 }
    }
}

/// `s` when `b` holds, otherwise nothing.
pub open spec fn when(b: bool, s: Seq<char>) -> Seq<char> {
    if b {
        s
    } else {
        Seq::empty()
    }
}

/// Appends `s` to `out` when `b` holds.
fn push_if(out: &mut Vec<char>, b: bool, s: &str)
    ensures
        final(out)@ == old(out)@ + when(b, s@),
{
    if b {
        push_str_chars(out, s);
    } else {
        assert(old(out)@ + Seq::<char>::empty() =~= old(out)@);
    }
}

/// Appends the modifier names of `m` to `out`.
fn push_modifier_prefix(out: &mut Vec<char>, m: u32)
    ensures
        final(out)@ == old(out)@ + modifier_prefix(m),
{
    let ghost start = out@;
    let ghost w1 = when(m & key_modifier::META != 0, "Meta+"@);
    let ghost w2 = when(m & key_modifier::CTRL != 0, "Ctrl+"@);
    let ghost w3 = when(m & key_modifier::ALT != 0, "Alt+"@);
    let ghost w4 = when(m & key_modifier::SHIFT != 0, "Shift+"@);
    let ghost w5 = when(m & key_modifier::KEYPAD != 0, "Num+"@);
    push_if(out, m & key_modifier::META != 0, "Meta+");
    push_if(out, m & key_modifier::CTRL != 0, "Ctrl+");
    assert(out@ =~= start + (w1 + w2));
    push_if(out, m & key_modifier::ALT != 0, "Alt+");
    assert(out@ =~= start + (w1 + w2 + w3));
    push_if(out, m & key_modifier::SHIFT != 0, "Shift+");
    assert(out@ =~= start + (w1 + w2 + w3 + w4));
    push_if(out, m & key_modifier::KEYPAD != 0, "Num+");
    assert(out@ =~= start + (w1 + w2 + w3 + w4 + w5));
}

/// The modifier names that prefix a combination's text, in Qt's order.
pub open spec fn modifier_prefix(m: u32) -> Seq<char> {
    when(m & key_modifier::META != 0, "Meta+"@) + when(m & key_modifier::CTRL != 0, "Ctrl+"@)
        + when(m & key_modifier::ALT != 0, "Alt+"@) + when(m & key_modifier::SHIFT != 0, "Shift+"@)
        + when(m & key_modifier::KEYPAD != 0, "Num+"@)
}

impl KeyCombination {
    /// The combination of `key` with the modifier bits of `modifiers`.
    pub open spec fn spec_new(key: u32, modifiers: u32) -> KeyCombination {
        KeyCombination { key, modifiers: modifiers & key_modifier::MASK }
    }

    /// `key | modifiers`.
    pub open spec fn spec_to_combined(self) -> u32 {
        self.key | self.modifiers
    }

    /// Portable text: modifier names joined to the key name with `+`; empty for
    /// the unknown key and the empty combination.
    pub open spec fn spec_portable_text(self) -> Seq<char> {
        if self.key == qt_key::UNKNOWN || self.spec_to_combined() == 0 {
            Seq::empty()
        } else {
            modifier_prefix(self.modifiers) + spec_key_name(self.key)
        }
    }

    /// Builds a combination, keeping only the modifier bits of `modifiers`.
    pub fn new(key: u32, modifiers: u32) -> (r: Self)
        ensures
            r == Self::spec_new(key, modifiers),
    {
        KeyCombination { key, modifiers: modifiers & key_modifier::MASK }
    }

    /// Splits a combined `key | modifiers` code (`QKeyCombination::fromCombined`).
    pub fn from_combined(combined: u32) -> (r: Self)
        ensures
            r.key == combined & !key_modifier::MASK,
            r.modifiers == combined & key_modifier::MASK,
    {
        KeyCombination { key: combined & !key_modifier::MASK, modifiers: combined & key_modifier::MASK }
    }

    /// `key | modifiers` (`QKeyCombination::toCombined`).
    pub fn to_combined(self) -> (r: u32)
        ensures
            r == self.spec_to_combined(),
    {
        self.key | self.modifiers
    }

    /// Builds a combination from a raw key event, normalizing Win32 virtual-key
    /// codes and platform modifier bits to Qt values; keypad keys carry the
    /// keypad modifier.
    pub fn from_key_event(key: u32, modifiers: u32) -> (r: Self)
        ensures
            r == ({
                let (qt, keypad) = spec_normalize_key(key, modifiers);
                let mods = spec_normalize_modifiers(modifiers);
                Self::spec_new(
                    qt,
                    if keypad {
                        mods | key_modifier::KEYPAD
                    } else {
                        mods
                    },
                )
            }),
    {
        let (qt, keypad) = normalize_key(key, modifiers);
        let mut mods = normalize_modifiers(modifiers);
        if keypad {
            mods = mods | key_modifier::KEYPAD;
        }
        Self::new(qt, mods)
    }

    /// Appends the portable text of the combination to `out`.
    fn push_portable_text(self, out: &mut Vec<char>)
        ensures
            final(out)@ == old(out)@ + self.spec_portable_text(),
    {
        if self.key == qt_key::UNKNOWN || self.to_combined() == 0 {
            assert(old(out)@ + Seq::<char>::empty() =~= old(out)@);
            return ;
        }
        let ghost start = out@;
        push_modifier_prefix(out, self.modifiers);
        push_key_name(out, self.key);
        assert(out@ =~= start + self.spec_portable_text());
    }

    /// Portable text for this combination, e.g. `"Ctrl+Shift+S"` (`encodeString`).
    pub fn to_portable_string(self) -> (r: String)
        ensures
            r@ == self.spec_portable_text(),
    {
        let mut out: Vec<char> = Vec::new();
        self.push_portable_text(&mut out);
        assert(out@ =~= self.spec_portable_text());
        string_of(&out)
    }
}

/// `s` without its space characters.
pub open spec fn without_spaces(s: Seq<char>) -> Seq<char>
    decreases s.len(),
{
    if s.len() == 0 {
        s
    } else if s.last() == ' ' {
        without_spaces(s.drop_last())
    } else {
        without_spaces(s.drop_last()).push(s.last())
    }
}

/// The modifier named by a lower-case prefix such as `"ctrl+"` (spaces inside
/// are ignored), if it is one.
pub open spec fn modifier_of_prefix(sub: Seq<char>) -> Option<u32> {
    let compact = without_spaces(sub);
    if sub == "ctrl+"@ || compact == "ctrl+"@ {
        Some(key_modifier::CTRL)
    } else if sub == "shift+"@ || compact == "shift+"@ {
        Some(key_modifier::SHIFT)
    } else if sub == "alt+"@ || compact == "alt+"@ {
        Some(key_modifier::ALT)
    } else if sub == "meta+"@ || compact == "meta+"@ {
        Some(key_modifier::META)
    } else if sub == "num+"@ || compact == "num+"@ {
        Some(key_modifier::KEYPAD)
    } else {
        None
    }
}

/// The start of a segment once its leading spaces are skipped (a segment is
/// never skipped entirely).
pub open spec fn skip_spaces(a: Seq<char>, start: int, i: int) -> int
    decreases i - start,
{
    if start < i && a[start] == ' ' {
        skip_spaces(a, start + 1, i)
    } else {
        start
    }
}

/// Scans `a` from position `j` for `+` separators, collecting the modifiers of
/// the segments before them and the position of a lone `+` (allowed once, as
/// the key itself). `None` when a segment is neither.
pub open spec fn scan_modifiers(
    a: Seq<char>,
    j: int,
    last: int,
    mods: u32,
    single: Option<int>,
) -> Option<(u32, Option<int>)>
    decreases a.len() - j,
{
    if j >= a.len() {
        Some((mods, single))
    } else if a[j] != '+' {
        scan_modifiers(a, j + 1, last, mods, single)
    } else {
        let start = skip_spaces(a, last, j);
        let sub = a.subrange(start, j + 1);
        if sub.len() == 1 {
            if single is Some {
                None
            } else {
                scan_modifiers(a, j + 1, j + 1, mods, Some(start))
            }
        } else {
            match modifier_of_prefix(sub) {
                Some(m) => scan_modifiers(a, j + 1, j + 1, mods | m, single),
                None => None,
            }
        }
    }
}

/// The last position at or before `j` holding `+`.
pub open spec fn last_plus(a: Seq<char>, j: int) -> Option<int>
    decreases j + 1,
{
    if j < 0 {
        None
    } else if a[j] == '+' {
        Some(j)
    } else {
        last_plus(a, j - 1)
    }
}

/// `s` without leading spaces, keeping at least one character.
pub open spec fn trim_front(s: Seq<char>) -> Seq<char>
    decreases s.len(),
{
    if s.len() > 1 && s[0] == ' ' {
        trim_front(s.drop_first())
    } else {
        s
    }
}

/// `s` without trailing spaces, keeping at least one character.
pub open spec fn trim_back(s: Seq<char>) -> Seq<char>
    decreases s.len(),
{
    if s.len() > 1 && s.last() == ' ' {
        trim_back(s.drop_last())
    } else {
        s
    }
}

/// Every character is an ASCII digit.
pub open spec fn all_digits(s: Seq<char>) -> bool {
    forall|i: int| 0 <= i < s.len() ==> 0x30 <= (#[trigger] s[i] as u32) <= 0x39
}

/// The number the decimal digits `s` spell.
pub open spec fn digits_value(s: Seq<char>) -> nat
    decreases s.len(),
{
    if s.len() == 0 {
        0
    } else {
        digits_value(s.drop_last()) * 10 + ((s.last() as u32) - 0x30) as nat
    }
}

/// The `u32` that `str::parse::<u32>` reads from `s`: optional `+`, then one or
/// more ASCII digits, with a value that fits.
pub open spec fn parse_u32(s: Seq<char>) -> Option<nat> {
    let body = if s.len() > 0 && s[0] == '+' {
        s.drop_first()
    } else {
        s
    };
    if body.len() > 0 && all_digits(body) && digits_value(body) <= u32::MAX {
        Some(digits_value(body))
    } else {
        None
    }
}

/// The combination for unrecognized text.
pub open spec fn unknown_combination() -> KeyCombination {
    KeyCombination { key: qt_key::UNKNOWN, modifiers: 0 }
}

/// The key named by trimmed, lower-case key text: a single character
/// (upper-cased), `f1`..`f35`, or a name of the table.
pub open spec fn key_of_text(k: Seq<char>) -> Option<u32> {
    if k.len() == 1 {
        Some(upper_chars(k[0])[0] as u32)
    } else if k[0] == 'f' && parse_u32(k.drop_first()) is Some && 1 <= parse_u32(
        k.drop_first(),
    )->0 <= 35 {
        Some((qt_key::F1 + parse_u32(k.drop_first())->0 - 1) as u32)
    } else {
        key_for_name(k, 0)
    }
}

/// What `decode_combination` reads from lower-cased text `a`.
pub open spec fn decode_lowered(a: Seq<char>) -> KeyCombination {
    if a.len() == 0 {
        unknown_combination()
    } else {
        match scan_modifiers(a, 1, 0, 0, None) {
            None => unknown_combination(),
            Some((mods, single)) => {
                let search_end = match single {
                    Some(sp) => if sp > 0 {
                        sp - 1
                    } else {
                        a.len() - 1
                    },
                    None => a.len() - 1,
                };
                let key_start = match last_plus(a, search_end) {
                    Some(p) => if p > 0 {
                        p + 1
                    } else {
                        0
                    },
                    None => 0,
                };
                let k = trim_back(trim_front(a.subrange(key_start, a.len() as int)));
                if k.len() == 0 {
                    unknown_combination()
                } else {
                    match key_of_text(k) {
                        Some(key) => KeyCombination::spec_new(key, mods),
                        None => unknown_combination(),
                    }
                }
            },
        }
    }
}

/// What `decode_combination` reads from `text` (`QKeySequencePrivate::decodeString`).
pub open spec fn spec_decode_combination(text: Seq<char>) -> KeyCombination {
    decode_lowered(lowered_text(text))
}

/// Whether two character vectors are equal.
fn chars_equal(a: &Vec<char>, b: &Vec<char>) -> (r: bool)
    ensures
        r == (a@ == b@),
{
    if a.len() != b.len() {
        return false;
    }
    let mut i: usize = 0;
    while i < a.len()
        invariant
            0 <= i <= a@.len(),
            a@.len() == b@.len(),
            forall|j: int| 0 <= j < i ==> a@[j] == b@[j],
        decreases a@.len() - i,
    {
        if a[i] != b[i] {
            return false;
        }
        i = i + 1;
    }
    assert(a@ =~= b@);
    true
}

/// `v` without spaces.
fn remove_spaces(v: &Vec<char>) -> (r: Vec<char>)
    ensures
        r@ == without_spaces(v@),
{
    let mut out: Vec<char> = Vec::new();
    let mut i: usize = 0;
    while i < v.len()
        invariant
            0 <= i <= v@.len(),
            out@ == without_spaces(v@.subrange(0, i as int)),
        decreases v@.len() - i,
    {
        proof {
            let s = v@.subrange(0, i as int + 1);
            assert(s.drop_last() =~= v@.subrange(0, i as int));
        }
        if v[i] != ' ' {
            out.push(v[i]);
        }
        i = i + 1;
    }
    assert(v@.subrange(0, i as int) =~= v@);
    out
}

/// [`modifier_of_prefix`], computed.
fn modifier_for_prefix(sub: &Vec<char>) -> (r: Option<u32>)
    ensures
        r == modifier_of_prefix(sub@),
{
    let compact = remove_spaces(sub);
    let ctrl = chars_of("ctrl+");
    if chars_equal(sub, &ctrl) || chars_equal(&compact, &ctrl) {
        return Some(key_modifier::CTRL);
    }
    let shift = chars_of("shift+");
    if chars_equal(sub, &shift) || chars_equal(&compact, &shift) {
        return Some(key_modifier::SHIFT);
    }
    let alt = chars_of("alt+");
    if chars_equal(sub, &alt) || chars_equal(&compact, &alt) {
        return Some(key_modifier::ALT);
    }
    let meta = chars_of("meta+");
    if chars_equal(sub, &meta) || chars_equal(&compact, &meta) {
        return Some(key_modifier::META);
    }
    let num = chars_of("num+");
    if chars_equal(sub, &num) || chars_equal(&compact, &num) {
        return Some(key_modifier::KEYPAD);
    }
    None
}

/// The characters `a[from..to]`.
fn slice_chars(a: &Vec<char>, from: usize, to: usize) -> (r: Vec<char>)
    requires
        from <= to <= a@.len(),
    ensures
        r@ == a@.subrange(from as int, to as int),
{
    let mut out: Vec<char> = Vec::new();
    let mut i: usize = from;
    while i < to
        invariant
            from <= i <= to <= a@.len(),
            out@ == a@.subrange(from as int, i as int),
        decreases to - i,
    {
        out.push(a[i]);
        i = i + 1;
        assert(out@ =~= a@.subrange(from as int, i as int));
    }
    out
}

/// [`parse_u32`], computed.
fn parse_u32_chars(s: &Vec<char>, from: usize) -> (r: Option<u32>)
    requires
        from <= s@.len(),
    ensures
        r matches Some(n) ==> parse_u32(s@.subrange(from as int, s@.len() as int)) == Some(n as nat),
        r is None ==> parse_u32(s@.subrange(from as int, s@.len() as int)) is None,
{
    let ghost t = s@.subrange(from as int, s@.len() as int);
    let mut i = from;
    if i < s.len() && s[i] == '+' {
        i = i + 1;
    }
    let ghost body = if t.len() > 0 && t[0] == '+' {
        t.drop_first()
    } else {
        t
    };
    assert(body =~= s@.subrange(i as int, s@.len() as int));
    if i >= s.len() {
        return None;
    }
    let start = i;
    let mut value: u64 = 0;
    while i < s.len()
        invariant
            start <= i <= s@.len(),
            start < s@.len(),
            t == s@.subrange(from as int, s@.len() as int),
            body == (if t.len() > 0 && t[0] == '+' {
                t.drop_first()
            } else {
                t
            }),
            body =~= s@.subrange(start as int, s@.len() as int),
            all_digits(s@.subrange(start as int, i as int)),
            value == digits_value(s@.subrange(start as int, i as int)),
            value <= u32::MAX,
        decreases s@.len() - i,
    {
        let c = s[i];
        if !((c as u32) >= 0x30 && (c as u32) <= 0x39) {
            assert(body[i - start] == c);
            assert(!(0x30 <= (body[i - start] as u32) <= 0x39));
            assert(!all_digits(body));
            return None;
        }
        proof {
            let p = s@.subrange(start as int, i as int + 1);
            assert(p.drop_last() =~= s@.subrange(start as int, i as int));
            assert(p.last() == c);
        }
        value = value * 10 + ((c as u32) - 0x30) as u64;
        assert(value == digits_value(s@.subrange(start as int, i as int + 1)));
        if value > u32::MAX as u64 {
            proof {
                if all_digits(body) {
                    assert(body.subrange(0, i - start + 1) =~= s@.subrange(start as int, i as int + 1));
                    lemma_digits_value_grows(body, i - start + 1);
                }
            }
            return None;
        }
        i = i + 1;
    }
    assert(s@.subrange(start as int, i as int) =~= body);
    Some(value as u32)
}

/// The value of a prefix of digits never exceeds the value of the whole.
proof fn lemma_digits_value_grows(s: Seq<char>, n: int)
    requires
        0 <= n <= s.len(),
        all_digits(s),
    ensures
        digits_value(s.subrange(0, n)) <= digits_value(s),
    decreases s.len() - n,
{
    if n < s.len() {
        lemma_digits_value_grows(s, n + 1);
        let p = s.subrange(0, n + 1);
        assert(p.drop_last() =~= s.subrange(0, n));
        assert(0x30 <= (s[n] as u32) <= 0x39);
    } else {
        assert(s.subrange(0, n) =~= s);
    }
}

/// [`key_of_text`], computed.
fn key_for_text(k: &Vec<char>) -> (r: Option<u32>)
    requires
        k@.len() > 0,
    ensures
        r == key_of_text(k@),
{
    if k.len() == 1 {
        let up = uppercase_chars(k[0]);
        return Some(up[0] as u32);
    }
    if k[0] == 'f' {
        assert(k@.subrange(1, k@.len() as int) =~= k@.drop_first());
        match parse_u32_chars(k, 1) {
            Some(n) => {
                if 1 <= n && n <= 35 {
                    return Some(qt_key::F1 + n - 1);
                }
            },
            None => {},
        }
    }
    let mut i: usize = 0;
    while i < KEY_NAME_COUNT
        invariant
            0 <= i <= KEY_NAME_COUNT,
            k@.len() > 1,
            key_for_name(k@, i as nat) == key_of_text(k@),
        decreases KEY_NAME_COUNT - i,
    {
        let (code, name) = key_name_at(i);
        let name_chars = chars_of(name);
        let mut lowered: Vec<char> = Vec::new();
        let mut j: usize = 0;
        while j < name_chars.len()
            invariant
                0 <= j <= name_chars@.len(),
                lowered@ == name_chars@.subrange(0, j as int).map_values(|c: char| ascii_lower(c)),
            decreases name_chars@.len() - j,
        {
            let c = name_chars[j];
            let l = if (c as u32) >= 0x41 && (c as u32) <= 0x5A {
                (((c as u32) + 0x20) as u8) as char
            } else {
                c
            };
            lowered.push(l);
            j = j + 1;
            assert(lowered@ =~= name_chars@.subrange(0, j as int).map_values(
                |c: char| ascii_lower(c),
            ));
        }
        assert(name_chars@.subrange(0, j as int) =~= name_chars@);
        if chars_equal(&lowered, k) {
            return Some(code);
        }
        i = i + 1;
    }
    None
}

/// Parses one combination such as `"Ctrl+Shift+S"` (portable text).
/// Unrecognized text yields `qt_key::UNKNOWN` without modifiers.
pub fn decode_combination(text: &str) -> (r: KeyCombination)
    ensures
        r == spec_decode_combination(text@),
{
    let lowered = to_lowercase(text);
    let accel = chars_of(lowered.as_str());
    let ghost a = accel@;
    let unknown = KeyCombination { key: qt_key::UNKNOWN, modifiers: 0 };
    if accel.len() == 0 {
        return unknown;
    }
    let n = accel.len();
    let mut modifiers: u32 = 0;
    let mut single_plus: Option<usize> = None;
    let mut last: usize = 0;
    let mut j: usize = 1;
    while j < n
        invariant
            n == a.len(),
            a == accel@,
            a == lowered_text(text@),
            unknown == unknown_combination(),
            1 <= j <= n,
            last <= j,
            single_plus matches Some(sp) ==> sp < j,
            scan_modifiers(a, j as int, last as int, modifiers, match single_plus {
                Some(sp) => Some(sp as int),
                None => None,
            }) == scan_modifiers(a, 1, 0, 0, None),
        decreases n - j,
    {
        if accel[j] == '+' {
            let mut start = last;
            while start < j && accel[start] == ' '
                invariant
                    last <= start <= j < n,
                    n == a.len(),
                    a == accel@,
                    skip_spaces(a, start as int, j as int) == skip_spaces(a, last as int, j as int),
                decreases j - start,
            {
                start = start + 1;
            }
            assert(start as int == skip_spaces(a, last as int, j as int));
            let sub = slice_chars(&accel, start, j + 1);
            let ghost sp = match single_plus {
                Some(x) => Some(x as int),
                None => None::<int>,
            };
            assert(sub@.len() == j + 1 - start);
            if sub.len() == 1 {
                if single_plus.is_some() {
                    assert(scan_modifiers(a, j as int, last as int, modifiers, sp) is None);
                    return unknown;
                }
                single_plus = Some(start);
            } else {
                match modifier_for_prefix(&sub) {
                    Some(m) => {
                        modifiers = modifiers | m;
                    },
                    None => {
                        assert(scan_modifiers(a, j as int, last as int, modifiers, sp) is None);
                        return unknown;
                    },
                }
            }
            last = j + 1;
        }
        j = j + 1;
    }
    let search_end = match single_plus {
        Some(sp) => if sp > 0 {
            sp - 1
        } else {
            n - 1
        },
        None => n - 1,
    };
    // The last '+' at or before `search_end`.
    let mut p: usize = search_end + 1;
    let mut found: Option<usize> = None;
    loop
        invariant_except_break
            p <= search_end + 1,
            search_end < n,
            n == a.len(),
            a == accel@,
            found is None,
            last_plus(a, p as int - 1) == last_plus(a, search_end as int),
        ensures
            found matches Some(q) ==> last_plus(a, search_end as int) == Some(q as int) && q < n,
            found is None ==> last_plus(a, search_end as int) is None,
        decreases p,
    {
        if p == 0 {
            break;
        }
        if accel[p - 1] == '+' {
            found = Some(p - 1);
            break;
        }
        p = p - 1;
    }
    let key_start = match found {
        Some(q) => if q > 0 {
            q + 1
        } else {
            0
        },
        None => 0,
    };
    let mut from = key_start;
    let mut to = n;
    while to - from > 1 && accel[from] == ' '
        invariant
            key_start <= from < to <= n || (from == to && to == n && key_start == n),
            n == a.len(),
            a == accel@,
            trim_front(a.subrange(from as int, to as int)) == trim_front(
                a.subrange(key_start as int, n as int),
            ),
        decreases to - from,
    {
        assert(a.subrange(from as int, to as int).drop_first() =~= a.subrange(
            from as int + 1,
            to as int,
        ));
        from = from + 1;
    }
    let ghost front = a.subrange(from as int, to as int);
    assert(trim_front(front) == front);
    while to - from > 1 && accel[to - 1] == ' '
        invariant
            from <= to <= n,
            n == a.len(),
            a == accel@,
            trim_back(a.subrange(from as int, to as int)) == trim_back(front),
        decreases to - from,
    {
        assert(a.subrange(from as int, to as int).drop_last() =~= a.subrange(
            from as int,
            to as int - 1,
        ));
        to = to - 1;
    }
    let k = slice_chars(&accel, from, to);
    assert(trim_back(k@) == k@);
    if k.len() == 0 {
        return unknown;
    }
    match key_for_text(&k) {
        Some(key) => KeyCombination::new(key, modifiers),
        None => unknown,
    }
}

/// Result of comparing key sequences (`QKeySequence::SequenceMatch`).
#[derive(Debug, Clone, Copy, PartialEq, Eq, Hash, Structural)]
pub enum SequenceMatch {
    NoMatch,
    PartialMatch,
    ExactMatch,
}

/// The combinations of `s` that are not empty, in order.
pub open spec fn non_empty_keys(s: Seq<KeyCombination>) -> Seq<KeyCombination>
    decreases s.len(),
{
    if s.len() == 0 {
        s
    } else if s.last().spec_to_combined() == 0 {
        non_empty_keys(s.drop_last())
    } else {
        non_empty_keys(s.drop_last()).push(s.last())
    }
}

/// At most the first `MAX_KEY_COUNT` entries of `s`.
pub open spec fn at_most_four(s: Seq<KeyCombination>) -> Seq<KeyCombination> {
    if s.len() > 4 {
        s.subrange(0, 4)
    } else {
        s
    }
}

/// The first comma of `s` at or after `i`.
pub open spec fn first_comma(s: Seq<char>, i: int) -> Option<int>
    decreases s.len() - i,
{
    if i >= s.len() {
        None
    } else if s[i] == ',' {
        Some(i)
    } else {
        first_comma(s, i + 1)
    }
}

/// Splits the text of a sequence into its first chord and the rest, at the
/// chord separator `", "` while letting `,` be a key (`"Ctrl+,"`).
pub open spec fn split_chord(rest: Seq<char>) -> (Seq<char>, Seq<char>) {
    match first_comma(rest, 0) {
        None => (rest, Seq::empty()),
        Some(p0) => if p0 == rest.len() - 1 {
            (rest, Seq::empty())
        } else {
            let p1 = if rest[p0 + 1] == ',' {
                p0 + 1
            } else {
                p0
            };
            let (p2, skip) = if p1 + 1 < rest.len() && rest[p1 + 1] == ' ' {
                (p1 + 1, 1int)
            } else {
                (p1, 0int)
            };
            (rest.subrange(0, p2 - skip), rest.subrange(p2 + 1, rest.len() as int))
        },
    }
}

/// A comma found from `i` lies at or after `i` and inside `s`.
proof fn lemma_first_comma(s: Seq<char>, i: int)
    requires
        0 <= i,
    ensures
        first_comma(s, i) matches Some(p) ==> i <= p < s.len() && s[p] == ',',
        first_comma(s, i) is None ==> forall|k: int| i <= k < s.len() ==> s[k] != ',',
    decreases s.len() - i,
{
    if i < s.len() {
        lemma_first_comma(s, i + 1);
    }
}

/// The chords decoded from portable text, at most four in all, `count` being
/// the number already decoded.
pub open spec fn parse_chords(rest: Seq<char>, count: nat) -> Seq<KeyCombination>
    decreases rest.len(),
{
    if rest.len() == 0 || count >= 4 {
        Seq::empty()
    } else {
        let (part, remainder) = split_chord(rest);
        if remainder.len() < rest.len() {
            seq![spec_decode_combination(part)] + parse_chords(remainder, count + 1)
        } else {
            seq![spec_decode_combination(part)]
        }
    }
}

/// The portable texts of `keys` joined with `", "`.
pub open spec fn join_chords(keys: Seq<KeyCombination>) -> Seq<char>
    decreases keys.len(),
{
    if keys.len() == 0 {
        Seq::empty()
    } else if keys.len() == 1 {
        keys[0].spec_portable_text()
    } else {
        join_chords(keys.drop_last()) + ", "@ + keys.last().spec_portable_text()
    }
}

/// Up to four key combinations pressed in succession (`QKeySequence`).
#[derive(Debug, PartialEq, Eq, Hash)]
pub struct KeySequence {
    keys: Vec<KeyCombination>,
}

impl Clone for KeySequence {
    fn clone(&self) -> (r: KeySequence)
        ensures
            r@ == self@,
    {
        let mut keys: Vec<KeyCombination> = Vec::new();
        let mut i: usize = 0;
        while i < self.keys.len()
            invariant
                0 <= i <= self.keys@.len(),
                keys@ == self.keys@.subrange(0, i as int),
            decreases self.keys@.len() - i,
        {
            keys.push(self.keys[i]);
            i = i + 1;
            assert(keys@ =~= self.keys@.subrange(0, i as int));
        }
        assert(self.keys@.subrange(0, i as int) =~= self.keys@);
        KeySequence { keys }
    }
}

impl Default for KeySequence {
    fn default() -> (r: KeySequence)
        ensures
            r@ == Seq::<KeyCombination>::empty(),
    {
        KeySequence { keys: Vec::new() }
    }
}

impl View for KeySequence {
    type V = Seq<KeyCombination>;

    closed spec fn view(&self) -> Seq<KeyCombination> {
        self.keys@
    }
}

impl KeySequence {
    /// Maximum number of chords in a sequence (`QKeySequencePrivate::MaxKeyCount`).
    pub const MAX_KEY_COUNT: usize = 4;

    /// The empty sequence.
    pub fn new() -> (r: Self)
        ensures
            r@ == Seq::<KeyCombination>::empty(),
    {
        KeySequence { keys: Vec::new() }
    }

    /// Builds a sequence from the non-empty combinations of `keys`, keeping
    /// at most the first four of them.
    pub fn from_keys(keys: &[KeyCombination]) -> (r: Self)
        ensures
            r@ == at_most_four(non_empty_keys(keys@)),
    {
        let mut out: Vec<KeyCombination> = Vec::new();
        let mut i: usize = 0;
        while i < keys.len()
            invariant
                0 <= i <= keys@.len(),
                out@ == at_most_four(non_empty_keys(keys@.subrange(0, i as int))),
            decreases keys@.len() - i,
        {
            proof {
                let s = keys@.subrange(0, i as int + 1);
                assert(s.drop_last() =~= keys@.subrange(0, i as int));
            }
            let k = keys[i];
            if k.to_combined() != 0 && out.len() < 4 {
                let ghost before = out@;
                out.push(k);
                proof {
                    let f = non_empty_keys(keys@.subrange(0, i as int));
                    assert(before == f);
                    assert(out@ =~= at_most_four(f.push(k)));
                }
            } else if k.to_combined() != 0 {
                proof {
                    let f = non_empty_keys(keys@.subrange(0, i as int));
                    assert(at_most_four(f.push(k)) =~= at_most_four(f));
                }
            }
            i = i + 1;
        }
        assert(keys@.subrange(0, i as int) =~= keys@);
        KeySequence { keys: out }
    }

    /// Parses portable text like `"Ctrl+X, Ctrl+C"` (`QKeySequence::fromString`):
    /// chords separated by `", "`, at most four; each decoded on its own.
    pub fn from_portable_string(text: &str) -> (r: Self)
        ensures
            r@ == parse_chords(text@, 0),
    {
        let chars = chars_of(text);
        let n = chars.len();
        let mut keys: Vec<KeyCombination> = Vec::new();
        let mut pos: usize = 0;
        assert(chars@.subrange(0, n as int) =~= text@);
        assert(keys@ + parse_chords(text@, 0) =~= parse_chords(text@, 0));
        while pos < n && keys.len() < 4
            invariant
                0 <= pos <= n,
                n == chars@.len(),
                chars@ == text@,
                keys@.len() <= 4,
                keys@ + parse_chords(chars@.subrange(pos as int, n as int), keys@.len() as nat)
                    == parse_chords(text@, 0),
            decreases n - pos,
        {
            let ghost rest = chars@.subrange(pos as int, n as int);
            // Find the first comma of the rest.
            let mut c = pos;
            while c < n && chars[c] != ','
                invariant
                    pos <= c <= n,
                    n == chars@.len(),
                    first_comma(rest, (c - pos) as int) == first_comma(rest, 0),
                    rest == chars@.subrange(pos as int, n as int),
                decreases n - c,
            {
                c = c + 1;
            }
            proof {
                lemma_first_comma(rest, 0);
            }
            let (part_end, next) = if c == n || c == n - 1 {
                (n, n)
            } else {
                let mut p = c;
                if chars[p + 1] == ',' {
                    p = p + 1;
                }
                if p + 1 < n && chars[p + 1] == ' ' {
                    (p, p + 1)
                } else {
                    (p, p)
                }
            };
            let part = slice_chars(&chars, pos, part_end);
            let ghost sp = split_chord(rest);
            proof {
                if c < n - 1 {
                    assert(first_comma(rest, (c - pos) as int) == Some((c - pos) as int));
                }
                assert(part@ =~= sp.0);
                assert(next == n || chars@.subrange(next as int + 1, n as int) =~= sp.1);
            }
            let part_text = string_of(&part);
            let ghost before = keys@;
            keys.push(decode_combination(part_text.as_str()));
            let new_pos = if next == n {
                n
            } else {
                next + 1
            };
            proof {
                if next == n {
                    assert(sp.1.len() == 0);
                    assert(chars@.subrange(n as int, n as int) =~= sp.1);
                }
                assert(chars@.subrange(new_pos as int, n as int) =~= sp.1);
                assert(parse_chords(rest, before.len() as nat) == seq![spec_decode_combination(
                    sp.0,
                )] + parse_chords(sp.1, before.len() as nat + 1)) by {
                    if sp.1.len() >= rest.len() {
                        assert(parse_chords(sp.1, before.len() as nat + 1) =~= Seq::empty()) by {
                            assert(sp.1.len() == 0);
                        }
                    }
                }
                assert(keys@ + parse_chords(chars@.subrange(new_pos as int, n as int), keys@.len() as nat)
                    =~= before + parse_chords(rest, before.len() as nat));
            }
            pos = new_pos;
        }
        proof {
            let rest = chars@.subrange(pos as int, n as int);
            assert(parse_chords(rest, keys@.len() as nat) =~= Seq::empty());
            assert(keys@ =~= keys@ + Seq::<KeyCombination>::empty());
        }
        KeySequence { keys }
    }

    /// Portable text, chords joined by `", "` (`QKeySequence::toString(PortableText)`).
    pub fn to_portable_string(&self) -> (r: String)
        ensures
            r@ == join_chords(self@),
    {
        let mut out: Vec<char> = Vec::new();
        let mut i: usize = 0;
        while i < self.keys.len()
            invariant
                0 <= i <= self.keys@.len(),
                out@ == join_chords(self.keys@.subrange(0, i as int)),
            decreases self.keys@.len() - i,
        {
            let ghost before = out@;
            if i > 0 {
                push_str_chars(&mut out, ", ");
            }
            self.keys[i].push_portable_text(&mut out);
            proof {
                let s = self.keys@.subrange(0, i as int + 1);
                assert(s.drop_last() =~= self.keys@.subrange(0, i as int));
                if i == 0 {
                    assert(out@ =~= join_chords(s));
                } else {
                    assert(out@ =~= join_chords(s));
                }
            }
            i = i + 1;
        }
        assert(self.keys@.subrange(0, i as int) =~= self.keys@);
        string_of(&out)
    }

    /// Number of chords (`QKeySequence::count`).
    pub fn count(&self) -> (r: usize)
        ensures
            r == self@.len(),
    {
        self.keys.len()
    }

    /// Whether the sequence has no chord.
    pub fn is_empty(&self) -> (r: bool)
        ensures
            r == (self@.len() == 0),
    {
        self.keys.len() == 0
    }

    /// Chord at `index` (`QKeySequence::operator[]`).
    pub fn get(&self, index: usize) -> (r: Option<KeyCombination>)
        ensures
            r == (if index < self@.len() {
                Some(self@[index as int])
            } else {
                None
            }),
    {
        if index < self.keys.len() {
            Some(self.keys[index])
        } else {
            None
        }
    }

    /// The chords.
    pub fn keys(&self) -> (r: &[KeyCombination])
        ensures
            r@ == self@,
    {
        self.keys.as_slice()
    }

    /// How this sequence compares with `sequence`: a prefix of it
    /// (`PartialMatch`), equal to it (`ExactMatch`) or neither (`QKeySequence::matches`).
    pub open spec fn spec_matches(s: Seq<KeyCombination>, t: Seq<KeyCombination>) -> SequenceMatch {
        if s.len() > t.len() || s != t.subrange(0, s.len() as int) {
            SequenceMatch::NoMatch
        } else if s.len() == t.len() {
            SequenceMatch::ExactMatch
        } else {
            SequenceMatch::PartialMatch
        }
    }

    /// Whether this sequence is a prefix of (`PartialMatch`) or equal to
    /// (`ExactMatch`) `sequence` (`QKeySequence::matches`).
    pub fn matches(&self, sequence: &KeySequence) -> (r: SequenceMatch)
        ensures
            r == Self::spec_matches(self@, sequence@),
    {
        if self.keys.len() > sequence.keys.len() {
            return SequenceMatch::NoMatch;
        }
        let mut i: usize = 0;
        while i < self.keys.len()
            invariant
                0 <= i <= self.keys@.len() <= sequence.keys@.len(),
                forall|j: int| 0 <= j < i ==> self.keys@[j] == sequence.keys@[j],
            decreases self.keys@.len() - i,
        {
            if self.keys[i] != sequence.keys[i] {
                assert(self.keys@[i as int] != sequence.keys@.subrange(0, self.keys@.len() as int)[i as int]);
                return SequenceMatch::NoMatch;
            }
            i = i + 1;
        }
        assert(self.keys@ =~= sequence.keys@.subrange(0, self.keys@.len() as int));
        if self.keys.len() == sequence.keys.len() {
            SequenceMatch::ExactMatch
        } else {
            SequenceMatch::PartialMatch
        }
    }
}

/// A sequence matches itself exactly.
pub proof fn lemma_matches_reflexive(s: Seq<KeyCombination>)
    ensures
        KeySequence::spec_matches(s, s) == SequenceMatch::ExactMatch,
{
    assert(s.subrange(0, s.len() as int) =~= s);
}

/// Matching is a prefix test: a sequence partially matches every longer
/// sequence it begins, and two sequences that match each other exactly are equal.
pub proof fn lemma_matches_prefix(s: Seq<KeyCombination>, t: Seq<KeyCombination>)
    ensures
        s.len() < (s + t).len() ==> KeySequence::spec_matches(s, s + t) == SequenceMatch::PartialMatch,
        KeySequence::spec_matches(s, t) == SequenceMatch::ExactMatch ==> s == t,
{
    assert((s + t).subrange(0, s.len() as int) =~= s);
    if KeySequence::spec_matches(s, t) == SequenceMatch::ExactMatch {
        assert(t.subrange(0, t.len() as int) =~= t);
    }
}

} // verus!
