//! Qt modifier masks as stored inside a combined key code (`Qt::KeyboardModifier`).

use vstd::prelude::*;

verus! {

pub const NONE: u32 = 0;
pub const SHIFT: u32 = 0x0200_0000;
pub const CTRL: u32 = 0x0400_0000;
pub const ALT: u32 = 0x0800_0000;
pub const META: u32 = 0x1000_0000;
pub const KEYPAD: u32 = 0x2000_0000;
/// All modifier bits (`Qt::KeyboardModifierMask`).
pub const MASK: u32 = 0xFE00_0000;

} // verus!
