//! Key code and modifier helpers shared by menus, menu bars and actions.
//!
//! Widgets receive either Qt key codes or legacy Win32 virtual-key codes; these
//! helpers normalize both and handle `&` mnemonic markers in item texts.

use vstd::prelude::*;

use crate::text::{char_uppercase, chars_of, string_of, uppercase_chars};

verus! {

pub const ESCAPE: u32 = 0x0100_0000;
pub const TAB: u32 = 0x0100_0001;
pub const BACKTAB: u32 = 0x0100_0002;
pub const BACKSPACE: u32 = 0x0100_0003;
pub const RETURN: u32 = 0x0100_0004;
pub const ENTER: u32 = 0x0100_0005;
pub const INSERT: u32 = 0x0100_0006;
pub const DELETE: u32 = 0x0100_0007;
pub const HOME: u32 = 0x0100_0010;
pub const END: u32 = 0x0100_0011;
pub const LEFT: u32 = 0x0100_0012;
pub const UP: u32 = 0x0100_0013;
pub const RIGHT: u32 = 0x0100_0014;
pub const DOWN: u32 = 0x0100_0015;
pub const PAGE_UP: u32 = 0x0100_0016;
pub const PAGE_DOWN: u32 = 0x0100_0017;
pub const SHIFT: u32 = 0x0100_0020;
pub const CONTROL: u32 = 0x0100_0021;
pub const META: u32 = 0x0100_0022;
pub const ALT: u32 = 0x0100_0023;
pub const F1: u32 = 0x0100_0030;
pub const SPACE: u32 = 0x20;
pub const MOD_SHIFT: u32 = 0x0200_0000;
pub const MOD_CTRL: u32 = 0x0400_0000;
pub const MOD_ALT: u32 = 0x0800_0000;
pub const MOD_META: u32 = 0x1000_0000;
pub const MOD_MASK: u32 = 0x1E00_0000;

/// The Qt key for a key code: Win32 virtual keys of control and navigation
/// keys are translated, lower-case ASCII letters are upper-cased.
pub open spec fn spec_normalize_key(key: u32) -> u32 {
    if key == 0x1B {
        ESCAPE
    } else if key == 0x09 {
        TAB
    } else if key == 0x08 {
        BACKSPACE
    } else if key == 0x0D {
        RETURN
    } else if key == 0x10 {
        SHIFT
    } else if key == 0x11 {
        CONTROL
    } else if key == 0x12 {
        ALT
    } else if key == 0x21 {
        PAGE_UP
    } else if key == 0x22 {
        PAGE_DOWN
    } else if key == 0x23 {
        END
    } else if key == 0x24 {
        HOME
    } else if key == 0x25 {
        LEFT
    } else if key == 0x26 {
        UP
    } else if key == 0x27 {
        RIGHT
    } else if key == 0x28 {
        DOWN
    } else if 0x61 <= key <= 0x7A {
        (key - 0x20) as u32
    } else {
        key
    }
}

/// Maps Win32 virtual-key codes to Qt key codes and folds lower-case ASCII
/// letters to upper case.
pub fn normalize_key(key: u32) -> (r: u32)
    ensures
        r == spec_normalize_key(key),
{
    if key == 0x1B {
        ESCAPE
    } else if key == 0x09 {
        TAB
    } else if key == 0x08 {
        BACKSPACE
    } else if key == 0x0D {
        RETURN
    } else if key == 0x10 {
        SHIFT
    } else if key == 0x11 {
        CONTROL
    } else if key == 0x12 {
        ALT
    } else if key == 0x21 {
        PAGE_UP
    } else if key == 0x22 {
        PAGE_DOWN
    } else if key == 0x23 {
        END
    } else if key == 0x24 {
        HOME
    } else if key == 0x25 {
        LEFT
    } else if key == 0x26 {
        UP
    } else if key == 0x27 {
        RIGHT
    } else if key == 0x28 {
        DOWN
    } else if 0x61 <= key && key <= 0x7A {
        key - 0x20
    } else {
        key
    }
}

/// Qt modifier flags of a modifier word: its Qt bits kept, and the compact
/// bits (shift 1, ctrl 2, alt 4, meta 8) translated.
pub open spec fn spec_normalize_modifiers(m: u32) -> u32 {
    let a = m & MOD_MASK;
    let b = if m & 1 != 0 {
        a | MOD_SHIFT
    } else {
        a
    };
    let c = if m & 2 != 0 {
        b | MOD_CTRL
    } else {
        b
    };
    let d = if m & 4 != 0 {
        c | MOD_ALT
    } else {
        c
    };
    if m & 8 != 0 {
        d | MOD_META
    } else {
        d
    }
}

/// Each compact modifier bit turns on its own Qt flag and no other: shift (1)
/// gives `MOD_SHIFT`, ctrl (2) `MOD_CTRL`, alt (4) `MOD_ALT` and meta (8)
/// `MOD_META`. A flag is set in the result exactly when its compact bit or the
/// flag itself is set in the input, and nothing outside the flags is.
pub proof fn lemma_normalize_modifiers_maps_each_bit(m: u32)
    ensures
        (spec_normalize_modifiers(m) & MOD_SHIFT != 0) <==> (m & 1 != 0 || m & MOD_SHIFT != 0),
        (spec_normalize_modifiers(m) & MOD_CTRL != 0) <==> (m & 2 != 0 || m & MOD_CTRL != 0),
        (spec_normalize_modifiers(m) & MOD_ALT != 0) <==> (m & 4 != 0 || m & MOD_ALT != 0),
        (spec_normalize_modifiers(m) & MOD_META != 0) <==> (m & 8 != 0 || m & MOD_META != 0),
        spec_normalize_modifiers(m) & !MOD_MASK == 0,
{
    let r = spec_normalize_modifiers(m);
    assert({
        &&& (r & 0x0200_0000 != 0) <==> (m & 1 != 0 || m & 0x0200_0000 != 0)
        &&& (r & 0x0400_0000 != 0) <==> (m & 2 != 0 || m & 0x0400_0000 != 0)
        &&& (r & 0x0800_0000 != 0) <==> (m & 4 != 0 || m & 0x0800_0000 != 0)
        &&& (r & 0x1000_0000 != 0) <==> (m & 8 != 0 || m & 0x1000_0000 != 0)
        &&& r & !0x1E00_0000u32 == 0
    }) by (bit_vector)
        requires
            r == ({
                let a = m & 0x1E00_0000;
                let b = if m & 1 != 0 {
                    a | 0x0200_0000
                } else {
                    a
                };
                let c = if m & 2 != 0 {
                    b | 0x0400_0000
                } else {
                    b
                };
                let d = if m & 4 != 0 {
                    c | 0x0800_0000
                } else {
                    c
                };
                if m & 8 != 0 {
                    d | 0x1000_0000
                } else {
                    d
                }
            }),
    ;
}

/// Normalizes modifier bits to Qt `KeyboardModifier` flags.
pub fn normalize_modifiers(modifiers: u32) -> (r: u32)
    ensures
        r == spec_normalize_modifiers(modifiers),
{
    let mut out = modifiers & MOD_MASK;
    if modifiers & 1 != 0 {
        out = out | MOD_SHIFT;
    }
    if modifiers & 2 != 0 {
        out = out | MOD_CTRL;
    }
    if modifiers & 4 != 0 {
        out = out | MOD_ALT;
    }
    if modifiers & 8 != 0 {
        out = out | MOD_META;
    }
    out
}

/// The character typed by a normalized key, for mnemonic matching: digits and
/// upper-case letters only.
pub fn key_char(key: u32) -> (r: Option<char>)
    ensures
        r == (if (0x30 <= key <= 0x39) || (0x41 <= key <= 0x5A) {
            Some(key as char)
        } else {
            None
        }),
{
    if (0x30 <= key && key <= 0x39) || (0x41 <= key && key <= 0x5A) {
        Some((key as u8) as char)
    } else {
        None
    }
}

/// The character following the first single `&` of `s` (`&&` is a literal `&`).
pub open spec fn mnemonic_char(s: Seq<char>) -> Option<char>
    decreases s.len(),
{
    if s.len() == 0 {
        None
    } else if s[0] == '&' {
        if s.len() == 1 {
            None
        } else if s[1] == '&' {
            mnemonic_char(s.subrange(2, s.len() as int))
        } else {
            Some(s[1])
        }
    } else {
        mnemonic_char(s.drop_first())
    }
}

/// `s` with mnemonic markers removed: `&x` becomes `x` (so `&&` becomes `&`),
/// a trailing lone `&` disappears.
pub open spec fn stripped(s: Seq<char>) -> Seq<char>
    decreases s.len(),
{
    if s.len() == 0 {
        s
    } else if s[0] == '&' {
        if s.len() == 1 {
            Seq::empty()
        } else {
            seq![s[1]] + stripped(s.subrange(2, s.len() as int))
        }
    } else {
        seq![s[0]] + stripped(s.drop_first())
    }
}

/// Number of bytes the UTF-8 encoding of `c` takes (`char::len_utf8`).
pub open spec fn utf8_len(c: char) -> nat {
    if (c as u32) < 0x80 {
        1
    } else if (c as u32) < 0x800 {
        2
    } else if (c as u32) < 0x10000 {
        3
    } else {
        4
    }
}

/// Byte offset, in the stripped text, of the mnemonic character of `s`,
/// counting from `start`.
pub open spec fn mnemonic_byte_offset(s: Seq<char>, start: nat) -> Option<nat>
    decreases s.len(),
{
    if s.len() == 0 {
        None
    } else if s[0] == '&' {
        if s.len() == 1 {
            None
        } else if s[1] == '&' {
            mnemonic_byte_offset(s.subrange(2, s.len() as int), start + 1)
        } else {
            Some(start)
        }
    } else {
        mnemonic_byte_offset(s.drop_first(), start + utf8_len(s[0]))
    }
}

/// Number of bytes the UTF-8 encoding of the characters `s` takes.
pub open spec fn utf8_bytes(s: Seq<char>) -> nat
    decreases s.len(),
{
    if s.len() == 0 {
        0
    } else {
        utf8_len(s[0]) + utf8_bytes(s.drop_first())
    }
}

/// The mnemonic offset points at the mnemonic character: a text has an offset
/// exactly when it has a mnemonic, and then the offset is the byte length of
/// the stripped text before some position that holds the mnemonic character.
pub proof fn lemma_mnemonic_offset_points_at_mnemonic(s: Seq<char>, start: nat)
    ensures
        mnemonic_byte_offset(s, start) is Some <==> mnemonic_char(s) is Some,
        mnemonic_char(s) matches Some(c) ==> exists|j: int|
            0 <= j < stripped(s).len() && #[trigger] stripped(s)[j] == c && mnemonic_byte_offset(
                s,
                start,
            ) == Some((start + utf8_bytes(stripped(s).take(j))) as nat),
    decreases s.len(),
{
    if s.len() == 0 {
    } else if s[0] == '&' {
        if s.len() == 1 {
        } else if s[1] == '&' {
            let rest = s.subrange(2, s.len() as int);
            lemma_mnemonic_offset_points_at_mnemonic(rest, start + 1);
            if let Some(c) = mnemonic_char(s) {
                let j = choose|j: int|
                    0 <= j < stripped(rest).len() && #[trigger] stripped(rest)[j] == c
                        && mnemonic_byte_offset(rest, start + 1) == Some(
                        (start + 1 + utf8_bytes(stripped(rest).take(j))) as nat,
                    );
                let t = stripped(s);
                assert(t == seq![s[1]] + stripped(rest));
                assert(t[j + 1] == c);
                assert(t.take(j + 1).drop_first() =~= stripped(rest).take(j));
                assert(utf8_len('&') == 1) by {
                    assert(('&' as u32) < 0x80);
                }
                assert(utf8_bytes(t.take(j + 1)) == 1 + utf8_bytes(stripped(rest).take(j)));
            }
        } else {
            let t = stripped(s);
            assert(t[0] == s[1]);
            assert(t.take(0).len() == 0);
        }
    } else {
        let rest = s.drop_first();
        lemma_mnemonic_offset_points_at_mnemonic(rest, start + utf8_len(s[0]));
        if let Some(c) = mnemonic_char(s) {
            let j = choose|j: int|
                0 <= j < stripped(rest).len() && #[trigger] stripped(rest)[j] == c
                    && mnemonic_byte_offset(rest, start + utf8_len(s[0])) == Some(
                    (start + utf8_len(s[0]) + utf8_bytes(stripped(rest).take(j))) as nat,
                );
            let t = stripped(s);
            assert(t == seq![s[0]] + stripped(rest));
            assert(t[j + 1] == c);
            assert(t.take(j + 1).drop_first() =~= stripped(rest).take(j));
            assert(utf8_bytes(t.take(j + 1)) == utf8_len(s[0]) + utf8_bytes(
                stripped(rest).take(j),
            ));
        }
    }
}

/// Byte offset `k` is the start of character `j` of `s`, in UTF-8: a char
/// boundary of the encoded text, with character `j` right after it.
pub open spec fn char_starts_at(s: Seq<char>, k: nat, j: int) -> bool {
    0 <= j < s.len() && k == utf8_bytes(s.take(j))
}

/// The mnemonic offset lies on a character boundary of the stripped text,
/// and the character there upper-cases (its first upper-case character) to
/// the mnemonic: `mnemonic_offset` gives an offset exactly when `mnemonic`
/// gives a character, and `strip_mnemonic(text)[k..]` then starts with a
/// character whose upper case starts with it.
pub proof fn lemma_mnemonic_offset_char_boundary(text: Seq<char>)
    ensures
        mnemonic_byte_offset(text, 0) is Some <==> mnemonic_char(text) is Some,
        mnemonic_byte_offset(text, 0) matches Some(k) ==> exists|j: int|
            #[trigger] char_starts_at(stripped(text), k, j) && char_uppercase(stripped(text)[j])[0]
                == char_uppercase(mnemonic_char(text)->0)[0],
{
    lemma_mnemonic_offset_points_at_mnemonic(text, 0);
    if let Some(k) = mnemonic_byte_offset(text, 0) {
        let c = mnemonic_char(text)->0;
        let j = choose|j: int|
            0 <= j < stripped(text).len() && #[trigger] stripped(text)[j] == c && mnemonic_byte_offset(
                text,
                0,
            ) == Some((0 + utf8_bytes(stripped(text).take(j))) as nat);
        assert(char_starts_at(stripped(text), k, j));
    }
}

/// The uppercased mnemonic character of a text: the first character that
/// `char::to_uppercase` yields for the character after the first single `&`.
pub fn mnemonic(text: &str) -> (r: Option<char>)
    ensures
        r == match mnemonic_char(text@) {
            Some(m) => Some(char_uppercase(m)[0]),
            None => None,
        },
{
    let chars = chars_of(text);
    let n = chars.len();
    let mut i: usize = 0;
    assert(chars@.subrange(0, n as int) =~= text@);
    while i < n
        invariant
            0 <= i <= n,
            n == chars@.len(),
            chars@ == text@,
            mnemonic_char(chars@.subrange(i as int, n as int)) == mnemonic_char(text@),
        decreases n - i,
    {
        let ghost rest = chars@.subrange(i as int, n as int);
        if chars[i] == '&' {
            if i + 1 == n {
                return None;
            }
            if chars[i + 1] == '&' {
                assert(rest.subrange(2, rest.len() as int) =~= chars@.subrange(i + 2, n as int));
                i = i + 2;
                continue;
            }
            let up = uppercase_chars(chars[i + 1]);
            return Some(up[0]);
        }
        assert(rest.drop_first() =~= chars@.subrange(i + 1, n as int));
        i = i + 1;
    }
    None
}

/// Removes mnemonic markers: `&F` becomes `F` and `&&` becomes `&`.
pub fn strip_mnemonic(text: &str) -> (r: String)
    ensures
        r@ == stripped(text@),
{
    let chars = chars_of(text);
    let n = chars.len();
    let mut out: Vec<char> = Vec::new();
    let mut i: usize = 0;
    assert(chars@.subrange(0, n as int) =~= text@);
    assert(out@ + stripped(text@) =~= stripped(text@));
    while i < n
        invariant
            0 <= i <= n,
            n == chars@.len(),
            chars@ == text@,
            out@ + stripped(chars@.subrange(i as int, n as int)) == stripped(text@),
        decreases n - i,
    {
        let ghost rest = chars@.subrange(i as int, n as int);
        if chars[i] == '&' {
            if i + 1 < n {
                out.push(chars[i + 1]);
                assert(rest.subrange(2, rest.len() as int) =~= chars@.subrange(i + 2, n as int));
                assert(out@ + stripped(chars@.subrange(i + 2, n as int)) =~= stripped(text@));
                i = i + 2;
            } else {
                assert(out@ + stripped(chars@.subrange(n as int, n as int)) =~= stripped(text@));
                i = n;
            }
        } else {
            out.push(chars[i]);
            assert(rest.drop_first() =~= chars@.subrange(i + 1, n as int));
            assert(out@ + stripped(chars@.subrange(i + 1, n as int)) =~= stripped(text@));
            i = i + 1;
        }
    }
    assert(out@ =~= out@ + stripped(chars@.subrange(n as int, n as int)));
    string_of(&out)
}

/// Returns the byte offset (in the stripped text) of the mnemonic character,
/// if any: there is one exactly when the text has a mnemonic, and it counts
/// the bytes of the stripped text before a character that is the mnemonic.
pub fn mnemonic_offset(text: &str) -> (r: Option<usize>)
    requires
        4 * text@.len() <= usize::MAX,
    ensures
        r == match mnemonic_byte_offset(text@, 0) {
            Some(o) => Some(o as usize),
            None => None,
        },
        r is Some <==> mnemonic_char(text@) is Some,
        r matches Some(k) ==> exists|j: int|
            0 <= j < stripped(text@).len() && #[trigger] stripped(text@)[j] == mnemonic_char(
                text@,
            )->0 && k == utf8_bytes(stripped(text@).take(j)),
{
    proof {
        lemma_mnemonic_offset_points_at_mnemonic(text@, 0);
    }
    scan_mnemonic_offset(text)
}

/// The byte offset of the mnemonic character in the stripped text, scanning the text once.
fn scan_mnemonic_offset(text: &str) -> (r: Option<usize>)
    requires
        4 * text@.len() <= usize::MAX,
    ensures
        r == match mnemonic_byte_offset(text@, 0) {
            Some(o) => Some(o as usize),
            None => None,
        },
        r matches Some(k) ==> mnemonic_byte_offset(text@, 0) == Some(k as nat),
{
    let chars = chars_of(text);
    let n = chars.len();
    let mut stripped_len: usize = 0;
    let mut i: usize = 0;
    assert(chars@.subrange(0, n as int) =~= text@);
    while i < n
        invariant
            0 <= i <= n,
            n == chars@.len(),
            chars@ == text@,
            4 * n <= usize::MAX,
            stripped_len <= 4 * i,
            mnemonic_byte_offset(chars@.subrange(i as int, n as int), stripped_len as nat)
                == mnemonic_byte_offset(text@, 0),
        decreases n - i,
    {
        let ghost rest = chars@.subrange(i as int, n as int);
        let c = chars[i];
        if c == '&' {
            if i + 1 == n {
                return None;
            }
            if chars[i + 1] == '&' {
                assert(rest.subrange(2, rest.len() as int) =~= chars@.subrange(i + 2, n as int));
                stripped_len = stripped_len + 1;
                i = i + 2;
                continue;
            }
            return Some(stripped_len);
        }
        let w: usize = if (c as u32) < 0x80 {
            1
        } else if (c as u32) < 0x800 {
            2
        } else if (c as u32) < 0x10000 {
            3
        } else {
            4
        };
        assert(rest.drop_first() =~= chars@.subrange(i + 1, n as int));
        stripped_len = stripped_len + w;
        i = i + 1;
    }
    None
}

/// Whether Control is held (Qt flag).
pub fn has_ctrl(modifiers: u32) -> (r: bool)
    ensures
        r == (modifiers & MOD_CTRL != 0),
{
    modifiers & MOD_CTRL != 0
}

/// Whether Shift is held (Qt flag).
pub fn has_shift(modifiers: u32) -> (r: bool)
    ensures
        r == (modifiers & MOD_SHIFT != 0),
{
    modifiers & MOD_SHIFT != 0
}

/// Whether Alt is held (Qt flag).
pub fn has_alt(modifiers: u32) -> (r: bool)
    ensures
        r == (modifiers & MOD_ALT != 0),
{
    modifiers & MOD_ALT != 0
}

} // verus!
