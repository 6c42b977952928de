//! `Qt::Key` codes for non-printable keys. Printable keys use their upper-case
//! Unicode code point (for example `'A'`).

use vstd::prelude::*;

verus! {

pub const SPACE: u32 = 0x20;
pub const ESCAPE: u32 = 0x0100_0000;
pub const TAB: u32 = 0x0100_0001;
pub const BACKTAB: u32 = 0x0100_0002;
pub const BACKSPACE: u32 = 0x0100_0003;
pub const RETURN: u32 = 0x0100_0004;
pub const ENTER: u32 = 0x0100_0005;
pub const INSERT: u32 = 0x0100_0006;
pub const DELETE: u32 = 0x0100_0007;
pub const PAUSE: u32 = 0x0100_0008;
pub const PRINT: u32 = 0x0100_0009;
pub const SYS_REQ: u32 = 0x0100_000a;
pub const CLEAR: u32 = 0x0100_000b;
pub const HOME: u32 = 0x0100_0010;
pub const END: u32 = 0x0100_0011;
pub const LEFT: u32 = 0x0100_0012;
pub const UP: u32 = 0x0100_0013;
pub const RIGHT: u32 = 0x0100_0014;
pub const DOWN: u32 = 0x0100_0015;
pub const PAGE_UP: u32 = 0x0100_0016;
pub const PAGE_DOWN: u32 = 0x0100_0017;
pub const SHIFT: u32 = 0x0100_0020;
pub const CONTROL: u32 = 0x0100_0021;
pub const META: u32 = 0x0100_0022;
pub const ALT: u32 = 0x0100_0023;
pub const CAPS_LOCK: u32 = 0x0100_0024;
pub const NUM_LOCK: u32 = 0x0100_0025;
pub const SCROLL_LOCK: u32 = 0x0100_0026;
pub const F1: u32 = 0x0100_0030;
pub const F35: u32 = 0x0100_0052;
pub const MENU: u32 = 0x0100_0055;
pub const HELP: u32 = 0x0100_0058;
pub const BACK: u32 = 0x0100_0061;
pub const FORWARD: u32 = 0x0100_0062;
pub const STOP: u32 = 0x0100_0063;
pub const REFRESH: u32 = 0x0100_0064;
pub const VOLUME_DOWN: u32 = 0x0100_0070;
pub const VOLUME_MUTE: u32 = 0x0100_0071;
pub const VOLUME_UP: u32 = 0x0100_0072;
pub const MEDIA_PLAY: u32 = 0x0100_0080;
pub const MEDIA_STOP: u32 = 0x0100_0081;
pub const MEDIA_PREVIOUS: u32 = 0x0100_0082;
pub const MEDIA_NEXT: u32 = 0x0100_0083;
pub const MEDIA_RECORD: u32 = 0x0100_0084;
pub const MEDIA_PAUSE: u32 = 0x0100_0085;
pub const MEDIA_TOGGLE_PLAY_PAUSE: u32 = 0x0100_0086;
pub const HOME_PAGE: u32 = 0x0100_0090;
pub const FAVORITES: u32 = 0x0100_0091;
pub const SEARCH: u32 = 0x0100_0092;
pub const STANDBY: u32 = 0x0100_0093;
pub const OPEN_URL: u32 = 0x0100_0094;
pub const LAUNCH_MAIL: u32 = 0x0100_00a0;
pub const LAUNCH_MEDIA: u32 = 0x0100_00a1;
pub const LAUNCH0: u32 = 0x0100_00a2;
pub const LAUNCH1: u32 = 0x0100_00a3;
pub const POWER_OFF: u32 = 0x0100_00b7;
pub const WAKE_UP: u32 = 0x0100_00b8;
pub const EJECT: u32 = 0x0100_00b9;
pub const CALCULATOR: u32 = 0x0100_00cb;
pub const CLOSE: u32 = 0x0100_00ce;
pub const COPY: u32 = 0x0100_00cf;
pub const CUT: u32 = 0x0100_00d0;
pub const PASTE: u32 = 0x0100_00e2;
pub const RELOAD: u32 = 0x0100_00e6;
pub const SAVE: u32 = 0x0100_00ea;
pub const ZOOM_IN: u32 = 0x0100_00f6;
pub const ZOOM_OUT: u32 = 0x0100_00f7;
pub const NEW: u32 = 0x0100_0120;
pub const OPEN: u32 = 0x0100_0121;
pub const FIND: u32 = 0x0100_0122;
pub const UNDO: u32 = 0x0100_0123;
pub const REDO: u32 = 0x0100_0124;
pub const SELECT: u32 = 0x0101_0000;
pub const YES: u32 = 0x0101_0001;
pub const NO: u32 = 0x0101_0002;
pub const CANCEL: u32 = 0x0102_0001;
pub const PRINTER: u32 = 0x0102_0002;
pub const EXECUTE: u32 = 0x0102_0003;
pub const SLEEP: u32 = 0x0102_0004;
pub const PLAY: u32 = 0x0102_0005;
pub const ZOOM: u32 = 0x0102_0006;
pub const EXIT: u32 = 0x0102_000a;
/// Unrecognized key (`Qt::Key_unknown`).
pub const UNKNOWN: u32 = 0x01ff_ffff;

} // verus!
