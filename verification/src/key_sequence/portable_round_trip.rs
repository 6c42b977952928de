//! Decoding the portable text of a key combination gives the combination back.

use vstd::prelude::*;

use crate::key_sequence::key_modifier;
use crate::key_sequence::qt_key;
use crate::key_sequence::{key_name_entry, KeyCombination, KEY_NAME_COUNT};
use crate::text::{all_ascii, ascii_lower, ascii_upper, decimal};
use crate::key_sequence::{
    all_digits, at_most_four, key_for_name, name_for_key, decode_lowered, digits_value, first_comma, join_chords, key_of_text,
    non_empty_keys, parse_chords, split_chord, last_plus, lowered_text, modifier_of_prefix,
    modifier_prefix, parse_u32, scan_modifiers, skip_spaces, spec_decode_combination,
    spec_key_name, trim_back, trim_front, without_spaces,
};

verus! {

/// Removing spaces from text that holds none changes nothing.
proof fn lemma_without_spaces_none(s: Seq<char>)
    requires
        forall|i: int| 0 <= i < s.len() ==> s[i] != ' ',
    ensures
        without_spaces(s) == s,
    decreases s.len(),
{
    if s.len() > 0 {
        lemma_without_spaces_none(s.drop_last());
        assert(s.drop_last().push(s.last()) =~= s);
    }
}

/// Scanning text without `+` collects nothing more.
proof fn lemma_scan_no_plus(a: Seq<char>, j: int, last: int, mods: u32, single: Option<int>)
    requires
        0 <= j,
        forall|i: int| j <= i < a.len() ==> a[i] != '+',
    ensures
        scan_modifiers(a, j, last, mods, single) == Some((mods, single)),
    decreases a.len() - j,
{
    if j < a.len() {
        lemma_scan_no_plus(a, j + 1, last, mods, single);
    }
}

/// Scanning across one modifier segment `seg` that starts at `last` adds the
/// segment's modifier.
proof fn lemma_scan_segment(a: Seq<char>, j: int, last: int, mods: u32, seg: Seq<char>, m: u32)
    requires
        0 <= last <= j < last + seg.len() - 1,
        last + seg.len() <= a.len(),
        a.subrange(last, last + seg.len()) == seg,
        seg.len() >= 2,
        seg.last() == '+',
        forall|i: int| 0 <= i < seg.len() - 1 ==> seg[i] != '+',
        seg[0] != ' ',
        modifier_of_prefix(seg) == Some(m),
    ensures
        scan_modifiers(a, j, last, mods, None) == scan_modifiers(
            a,
            last + seg.len(),
            last + seg.len(),
            mods | m,
            None,
        ),
    decreases last + seg.len() - j,
{
    assert(a[j] == a.subrange(last, last + seg.len())[j - last]);
    assert(a[j] != '+');
    let e = last + seg.len() - 1;
    assert(a[e] == a.subrange(last, last + seg.len())[e - last]);
    assert(scan_modifiers(a, j, last, mods, None) == scan_modifiers(a, j + 1, last, mods, None));
    if j + 1 < e {
        lemma_scan_segment(a, j + 1, last, mods, seg, m);
    } else {
        assert(a[last] == seg[0]);
        assert(skip_spaces(a, last, e) == last);
        assert(a.subrange(last, e + 1) =~= seg);
        assert(scan_modifiers(a, e, last, mods, None) == scan_modifiers(a, e + 1, e + 1, mods | m, None));
    }
}

/// `seg` is a lower-case modifier name with its `+`: at least three characters,
/// `+` last and nowhere else, not starting with a space, naming modifier `m`.
pub open spec fn modifier_segment(seg: Seq<char>, m: u32) -> bool {
    &&& seg.len() >= 3
    &&& seg.last() == '+'
    &&& forall|i: int| 0 <= i < seg.len() - 1 ==> seg[i] != '+'
    &&& seg[0] != ' '
    &&& forall|i: int| 0 <= i < seg.len() ==> seg[i] != ' '
    &&& modifier_of_prefix(seg) == Some(m)
}

/// The lower-cased modifier names are modifier segments.
proof fn lemma_modifier_segments()
    ensures
        "Meta+"@.map_values(|c: char| ascii_lower(c)) == "meta+"@,
        "Ctrl+"@.map_values(|c: char| ascii_lower(c)) == "ctrl+"@,
        "Alt+"@.map_values(|c: char| ascii_lower(c)) == "alt+"@,
        "Shift+"@.map_values(|c: char| ascii_lower(c)) == "shift+"@,
        "Num+"@.map_values(|c: char| ascii_lower(c)) == "num+"@,
        modifier_segment("meta+"@, key_modifier::META),
        modifier_segment("ctrl+"@, key_modifier::CTRL),
        modifier_segment("alt+"@, key_modifier::ALT),
        modifier_segment("shift+"@, key_modifier::SHIFT),
        modifier_segment("num+"@, key_modifier::KEYPAD),
{
    reveal_strlit("Meta+");
    reveal_strlit("Ctrl+");
    reveal_strlit("Alt+");
    reveal_strlit("Shift+");
    reveal_strlit("Num+");
    reveal_strlit("meta+");
    reveal_strlit("ctrl+");
    reveal_strlit("alt+");
    reveal_strlit("shift+");
    reveal_strlit("num+");
    assert("Meta+"@.map_values(|c: char| ascii_lower(c)) =~= "meta+"@);
    assert("Ctrl+"@.map_values(|c: char| ascii_lower(c)) =~= "ctrl+"@);
    assert("Alt+"@.map_values(|c: char| ascii_lower(c)) =~= "alt+"@);
    assert("Shift+"@.map_values(|c: char| ascii_lower(c)) =~= "shift+"@);
    assert("Num+"@.map_values(|c: char| ascii_lower(c)) =~= "num+"@);
    lemma_without_spaces_none("meta+"@);
    lemma_without_spaces_none("ctrl+"@);
    lemma_without_spaces_none("alt+"@);
    lemma_without_spaces_none("shift+"@);
    lemma_without_spaces_none("num+"@);
    assert("meta+"@[0] != "ctrl+"@[0]);
    assert("alt+"@[0] != "ctrl+"@[0] && "alt+"@[0] != "shift+"@[0]);
    assert("shift+"@[0] != "ctrl+"@[0]);
    assert("meta+"@[0] != "shift+"@[0] && "meta+"@[0] != "alt+"@[0]);
    assert("num+"@[0] != "ctrl+"@[0] && "num+"@[0] != "shift+"@[0] && "num+"@[0] != "alt+"@[0]
        && "num+"@[0] != "meta+"@[0]);
}


/// The lower-cased modifier names of `m`, in the order portable text writes them.
pub open spec fn lower_prefix(m: u32) -> Seq<char> {
    crate::key_sequence::when(m & key_modifier::META != 0, "meta+"@) + crate::key_sequence::when(m & key_modifier::CTRL != 0, "ctrl+"@)
        + crate::key_sequence::when(m & key_modifier::ALT != 0, "alt+"@) + crate::key_sequence::when(m & key_modifier::SHIFT != 0, "shift+"@)
        + crate::key_sequence::when(m & key_modifier::KEYPAD != 0, "num+"@)
}

/// `acc` with `bit` added when `b` holds.
pub open spec fn add_if(acc: u32, b: bool, bit: u32) -> u32 {
    if b {
        acc | bit
    } else {
        acc
    }
}

/// The modifiers a scan of `lower_prefix(m)` collects, in scanning order.
pub open spec fn prefix_mods(m: u32) -> u32 {
    add_if(
        add_if(
            add_if(
                add_if(add_if(0, m & key_modifier::META != 0, key_modifier::META), m & key_modifier::CTRL != 0, key_modifier::CTRL),
                m & key_modifier::ALT != 0,
                key_modifier::ALT,
            ),
            m & key_modifier::SHIFT != 0,
            key_modifier::SHIFT,
        ),
        m & key_modifier::KEYPAD != 0,
        key_modifier::KEYPAD,
    )
}

/// Text placed at `p` as `x + y` holds `x` at `p` and `y` right after it.
proof fn lemma_split_placed(a: Seq<char>, x: Seq<char>, y: Seq<char>, p: int)
    requires
        0 <= p,
        p + x.len() + y.len() <= a.len(),
        a.subrange(p, p + (x + y).len()) == x + y,
    ensures
        a.subrange(p, p + x.len()) == x,
        a.subrange(p + x.len(), p + x.len() + y.len()) == y,
{
    assert forall|i: int| 0 <= i < x.len() implies a.subrange(p, p + x.len())[i] == x[i] by {
        assert(a.subrange(p, p + (x + y).len())[i] == (x + y)[i]);
    }
    assert forall|i: int| 0 <= i < y.len() implies a.subrange(
        p + x.len(),
        p + x.len() + y.len(),
    )[i] == y[i] by {
        assert(a.subrange(p, p + (x + y).len())[x.len() + i] == (x + y)[x.len() + i]);
        assert(a.subrange(p, p + (x + y).len())[x.len() + i] == a[p + x.len() + i]);
        assert((x + y)[x.len() + i] == y[i]);
    }
    assert(a.subrange(p, p + x.len()) =~= x);
    assert(a.subrange(p + x.len(), p + x.len() + y.len()) =~= y);
}

/// One step of scanning a prefix: past `crate::key_sequence::when(b, seg)` placed at `p`.
proof fn lemma_scan_step(
    a: Seq<char>,
    j: int,
    p: int,
    acc: u32,
    b: bool,
    seg: Seq<char>,
    bit: u32,
) -> (r: (int, int, u32))
    requires
        0 <= p <= j <= p + 1,
        modifier_segment(seg, bit),
        b ==> p + seg.len() <= a.len() && a.subrange(p, p + seg.len()) == seg,
    ensures
        r.0 == r.1 + (if b { 0 } else { j - p }),
        r.1 == p + crate::key_sequence::when(b, seg).len(),
        r.2 == add_if(acc, b, bit),
        scan_modifiers(a, j, p, acc, None) == scan_modifiers(a, r.0, r.1, r.2, None),
{
    if b {
        lemma_scan_segment(a, j, p, acc, seg, bit);
        (p + seg.len(), p + seg.len(), acc | bit)
    } else {
        (j, p, acc)
    }
}

/// Scanning text that starts with the lower-cased modifier names of `m` and
/// holds no `+` after them collects exactly those modifiers.
proof fn lemma_scan_prefix(a: Seq<char>, m: u32)
    requires
        a.len() > lower_prefix(m).len(),
        a.subrange(0, lower_prefix(m).len() as int) == lower_prefix(m),
        forall|i: int| lower_prefix(m).len() <= i < a.len() ==> a[i] != '+',
    ensures
        scan_modifiers(a, 1, 0, 0, None) == Some((prefix_mods(m), None::<int>)),
{
    lemma_modifier_segments();
    let b1 = m & key_modifier::META != 0;
    let b2 = m & key_modifier::CTRL != 0;
    let b3 = m & key_modifier::ALT != 0;
    let b4 = m & key_modifier::SHIFT != 0;
    let b5 = m & key_modifier::KEYPAD != 0;
    let w1 = crate::key_sequence::when(b1, "meta+"@);
    let w2 = crate::key_sequence::when(b2, "ctrl+"@);
    let w3 = crate::key_sequence::when(b3, "alt+"@);
    let w4 = crate::key_sequence::when(b4, "shift+"@);
    let w5 = crate::key_sequence::when(b5, "num+"@);
    let lp = lower_prefix(m);
    let l1 = w1;
    let l2 = l1 + w2;
    let l3 = l2 + w3;
    let l4 = l3 + w4;
    assert(lp == l4 + w5);
    lemma_split_placed(a, l4, w5, 0);
    lemma_split_placed(a, l3, w4, 0);
    lemma_split_placed(a, l2, w3, 0);
    lemma_split_placed(a, l1, w2, 0);
    let r1 = lemma_scan_step(a, 1, 0, 0, b1, "meta+"@, key_modifier::META);
    let r2 = lemma_scan_step(a, r1.0, r1.1, r1.2, b2, "ctrl+"@, key_modifier::CTRL);
    let r3 = lemma_scan_step(a, r2.0, r2.1, r2.2, b3, "alt+"@, key_modifier::ALT);
    let r4 = lemma_scan_step(a, r3.0, r3.1, r3.2, b4, "shift+"@, key_modifier::SHIFT);
    let r5 = lemma_scan_step(a, r4.0, r4.1, r4.2, b5, "num+"@, key_modifier::KEYPAD);
    lemma_scan_no_plus(a, r5.0, r5.1, r5.2, None);
}


/// The last `+` before text without `+` that starts at `n` is the one just
/// before it, if there is one.
proof fn lemma_last_plus_before(a: Seq<char>, n: int, j: int)
    requires
        0 <= n,
        n - 1 <= j < a.len(),
        forall|i: int| n <= i < a.len() ==> a[i] != '+',
        n > 0 ==> a[n - 1] == '+',
    ensures
        last_plus(a, j) == (if n > 0 {
            Some(n - 1)
        } else {
            None::<int>
        }),
    decreases j + 1,
{
    if j >= n {
        lemma_last_plus_before(a, n, j - 1);
    }
}

/// The digits of a number from 1 to 35 read back as that number.
proof fn lemma_small_decimal(n: nat)
    requires
        1 <= n <= 35,
    ensures
        decimal(n).len() >= 1,
        all_digits(decimal(n)),
        all_ascii(decimal(n)),
        decimal(n)[0] != '+',
        digits_value(decimal(n)) == n,
        decimal(n).map_values(|c: char| ascii_lower(c)) == decimal(n),
        forall|i: int| 0 <= i < decimal(n).len() ==> decimal(n)[i] != '+' && decimal(n)[i] != ' ',
{
    let d = decimal(n);
    if n < 10 {
        assert(d == seq![(n + 0x30) as char]);
        assert(d.drop_last() =~= Seq::<char>::empty());
        assert(((n + 0x30) as char) as u32 == n + 0x30);
        assert(digits_value(d) == digits_value(d.drop_last()) * 10 + ((d.last() as u32) - 0x30) as nat);
    } else {
        let hi = decimal(n / 10);
        assert(hi == seq![((n / 10) + 0x30) as char]);
        assert(d == hi.push(((n % 10) + 0x30) as char));
        assert(d.drop_last() =~= hi);
        assert(hi.drop_last() =~= Seq::<char>::empty());
        assert((((n / 10) + 0x30) as char) as u32 == (n / 10) + 0x30);
        assert((((n % 10) + 0x30) as char) as u32 == (n % 10) + 0x30);
        assert(digits_value(hi) == digits_value(hi.drop_last()) * 10 + ((hi.last() as u32) - 0x30) as nat);
        assert(digits_value(hi) == n / 10);
        assert(digits_value(d) == digits_value(d.drop_last()) * 10 + ((d.last() as u32) - 0x30) as nat);
        assert(digits_value(d) == (n / 10) * 10 + n % 10);
    }
    assert(d.map_values(|c: char| ascii_lower(c)) =~= d);
}

/// Keys written as a character or a function-key number: ASCII digits and
/// upper-case letters, and the function keys F1 to F35.
pub open spec fn simple_portable_key(key: u32) -> bool {
    (0x30 <= key <= 0x39) || (0x41 <= key <= 0x5A) || (qt_key::F1 <= key <= qt_key::F35)
}

/// Keys named by the key-name table (Space, Esc, PgUp, ...).
pub open spec fn table_key(key: u32) -> bool {
    exists|t: int| 0 <= t < KEY_NAME_COUNT && #[trigger] key_name_entry(t).0 == key
}

/// The keys whose portable text is decoded back to them: digits, upper-case
/// letters, F1 to F35 and the keys of the key-name table.
pub open spec fn plain_portable_key(key: u32) -> bool {
    simple_portable_key(key) || table_key(key)
}

/// What the decoder needs of the name of such a key: it is ASCII without a
/// comma, and lower-cased it holds no `+`, neither starts nor ends with a
/// space, and names the key again; the key is neither empty nor unknown.
proof fn lemma_plain_key_name(key: u32)
    requires
        plain_portable_key(key),
    ensures
        key != 0,
        key != qt_key::UNKNOWN,
        spec_key_name(key).len() >= 1,
        all_ascii(spec_key_name(key)),
        comma_free(spec_key_name(key)),
        ({
            let ln = spec_key_name(key).map_values(|c: char| ascii_lower(c));
            &&& forall|i: int| 0 <= i < ln.len() ==> ln[i] != '+'
            &&& ln[0] != ' '
            &&& ln.last() != ' '
            &&& key_of_text(ln) == Some(key)
        }),
{
    let name = spec_key_name(key);
    let ln = name.map_values(|c: char| ascii_lower(c));
    if !simple_portable_key(key) {
        lemma_table_key_name(key);
    } else if key < qt_key::ESCAPE {
        let c = key as char;
        assert(c as u32 == key);
        assert(name == seq![ascii_upper(c)]);
        assert(ascii_upper(c) == c);
        assert(ln == seq![ascii_lower(c)]);
        assert(ascii_upper(ascii_lower(c)) == c);
    } else {
        let n = (key - qt_key::F1 + 1) as nat;
        lemma_small_decimal(n);
        assert(name == seq!['F'] + decimal(n));
        assert(ln =~= seq!['f'] + decimal(n)) by {
            assert forall|i: int| 0 <= i < ln.len() implies ln[i] == (seq!['f'] + decimal(n))[i] by {
                if i > 0 {
                    assert(decimal(n).map_values(|c: char| ascii_lower(c))[i - 1] == decimal(n)[i - 1]);
                }
            }
        }
        assert(ln.drop_first() =~= decimal(n));
        assert(parse_u32(ln.drop_first()) == Some(n));
        assert forall|i: int| 0 <= i < name.len() implies name[i] != ',' by {
            if i > 0 {
                assert(name[i] == decimal(n)[i - 1]);
                assert(0x30 <= (decimal(n)[i - 1] as u32) <= 0x39);
            }
        }
    }
}

/// The first entry for `key` from entry `i` on names it.
proof fn lemma_first_entry(key: u32, i: int) -> (c: int)
    requires
        0 <= i <= KEY_NAME_COUNT,
        exists|t: int| i <= t < KEY_NAME_COUNT && #[trigger] key_name_entry(t).0 == key,
    ensures
        i <= c < KEY_NAME_COUNT,
        key_name_entry(c).0 == key,
        name_for_key(key, i as nat) == Some(key_name_entry(c).1),
        forall|k: int| i <= k < c ==> #[trigger] key_name_entry(k).0 != key,
    decreases KEY_NAME_COUNT - i,
{
    if key_name_entry(i).0 == key {
        i
    } else {
        let t = choose|t: int| i <= t < KEY_NAME_COUNT && #[trigger] key_name_entry(t).0 == key;
        assert(t != i);
        lemma_first_entry(key, i + 1)
    }
}

/// Looking up the lower-cased name of entry `c` from entry `j` finds entry
/// `c` when no entry in between has that name.
proof fn lemma_key_for_entry(text: Seq<char>, j: int, c: int)
    requires
        0 <= j <= c < KEY_NAME_COUNT,
        text == lowered_chars(key_name_entry(c).1),
        forall|k: int| 0 <= k < c ==> #[trigger] lowered_chars(key_name_entry(k).1) != text,
    ensures
        key_for_name(text, j as nat) == Some(key_name_entry(c).0),
    decreases c - j,
{
    if j < c {
        assert(lowered_chars(key_name_entry(j).1) != text);
        lemma_key_for_entry(text, j + 1, c);
    }
}

/// What the decoder needs of the name of a key of the key-name table.
proof fn lemma_table_key_name(key: u32)
    requires
        table_key(key),
        !simple_portable_key(key),
    ensures
        key != 0,
        key != qt_key::UNKNOWN,
        spec_key_name(key).len() >= 1,
        all_ascii(spec_key_name(key)),
        comma_free(spec_key_name(key)),
        ({
            let ln = spec_key_name(key).map_values(|c: char| ascii_lower(c));
            &&& forall|i: int| 0 <= i < ln.len() ==> ln[i] != '+'
            &&& ln[0] != ' '
            &&& ln.last() != ' '
            &&& key_of_text(ln) == Some(key)
        }),
{
    let c = lemma_first_entry(key, 0);
    lemma_table_entry_shape(c);
    lemma_table_names_distinct(c);
    let name = key_name_entry(c).1;
    assert(spec_key_name(key) == name);
    let ln = name.map_values(|ch: char| ascii_lower(ch));
    assert(ln == lowered_chars(name));
    assert forall|i: int| 0 <= i < ln.len() implies ln[i] != '+' by {
        assert(name[i] != '+');
    }
    assert(ln[0] == ascii_lower(name[0]));
    assert(ln.last() == ascii_lower(name.last()));
    assert(ln[1] == ascii_lower(name[1]));
    assert(name[1] != '+');
    assert(!all_digits(ln.drop_first())) by {
        assert(ln.drop_first()[0] == ln[1]);
    }
    lemma_key_for_entry(ln, 0, c);
}

/// Lower-casing a concatenation lower-cases each part.
proof fn lemma_lower_concat(x: Seq<char>, y: Seq<char>)
    ensures
        (x + y).map_values(|c: char| ascii_lower(c)) == x.map_values(|c: char| ascii_lower(c))
            + y.map_values(|c: char| ascii_lower(c)),
        all_ascii(x) && all_ascii(y) ==> all_ascii(x + y),
{
    assert((x + y).map_values(|c: char| ascii_lower(c)) =~= x.map_values(|c: char| ascii_lower(c))
        + y.map_values(|c: char| ascii_lower(c)));
    if all_ascii(x) && all_ascii(y) {
        assert forall|i: int| 0 <= i < (x + y).len() implies ((x + y)[i] as u32) < 0x80 by {
            if i < x.len() {
                assert((x + y)[i] == x[i]);
            } else {
                assert((x + y)[i] == y[i - x.len()]);
            }
        }
    }
}

/// Lower-casing one optional modifier name.
proof fn lemma_lower_when(b: bool, upper: Seq<char>, lower: Seq<char>)
    requires
        all_ascii(upper),
        upper.map_values(|c: char| ascii_lower(c)) == lower,
    ensures
        all_ascii(crate::key_sequence::when(b, upper)),
        crate::key_sequence::when(b, upper).map_values(|c: char| ascii_lower(c))
            == crate::key_sequence::when(b, lower),
{
    if !b {
        assert(Seq::<char>::empty().map_values(|c: char| ascii_lower(c)) =~= Seq::<char>::empty());
    }
}

/// The modifier names of portable text are ASCII, and lower-cased they are
/// the names the decoder looks for.
proof fn lemma_prefix_lowered(m: u32)
    ensures
        all_ascii(modifier_prefix(m)),
        modifier_prefix(m).map_values(|c: char| ascii_lower(c)) == lower_prefix(m),
{
    lemma_modifier_segments();
    reveal_strlit("Meta+");
    reveal_strlit("Ctrl+");
    reveal_strlit("Alt+");
    reveal_strlit("Shift+");
    reveal_strlit("Num+");
    let u1 = crate::key_sequence::when(m & key_modifier::META != 0, "Meta+"@);
    let u2 = crate::key_sequence::when(m & key_modifier::CTRL != 0, "Ctrl+"@);
    let u3 = crate::key_sequence::when(m & key_modifier::ALT != 0, "Alt+"@);
    let u4 = crate::key_sequence::when(m & key_modifier::SHIFT != 0, "Shift+"@);
    let u5 = crate::key_sequence::when(m & key_modifier::KEYPAD != 0, "Num+"@);
    lemma_lower_when(m & key_modifier::META != 0, "Meta+"@, "meta+"@);
    lemma_lower_when(m & key_modifier::CTRL != 0, "Ctrl+"@, "ctrl+"@);
    lemma_lower_when(m & key_modifier::ALT != 0, "Alt+"@, "alt+"@);
    lemma_lower_when(m & key_modifier::SHIFT != 0, "Shift+"@, "shift+"@);
    lemma_lower_when(m & key_modifier::KEYPAD != 0, "Num+"@, "num+"@);
    lemma_lower_concat(u1, u2);
    lemma_lower_concat(u1 + u2, u3);
    lemma_lower_concat(u1 + u2 + u3, u4);
    lemma_lower_concat(u1 + u2 + u3 + u4, u5);
}

/// Collecting the named modifiers of `m` gives `m` back when it has no other bits.
proof fn lemma_prefix_mods(m: u32)
    requires
        m & 0xC1FF_FFFF == 0,
    ensures
        prefix_mods(m) & key_modifier::MASK == m,
{
    assert(add_if(
        add_if(
            add_if(
                add_if(add_if(0, m & 0x1000_0000 != 0, 0x1000_0000), m & 0x0400_0000 != 0, 0x0400_0000),
                m & 0x0800_0000 != 0,
                0x0800_0000,
            ),
            m & 0x0200_0000 != 0,
            0x0200_0000,
        ),
        m & 0x2000_0000 != 0,
        0x2000_0000,
    ) & 0xFE00_0000 == m) by (bit_vector)
        requires
            m & 0xC1FF_FFFF == 0,
    ;
}


/// Decoding the portable text of a combination gives the combination back,
/// for a digit, an upper-case letter, a function key F1 to F35 or a key of
/// the key-name table, with any of the Shift, Ctrl, Alt, Meta and keypad
/// modifiers.
pub proof fn lemma_portable_text_decodes(kc: KeyCombination)
    requires
        plain_portable_key(kc.key),
        kc.modifiers & 0xC1FF_FFFF == 0,
    ensures
        spec_decode_combination(kc.spec_portable_text()) == kc,
{
    let key = kc.key;
    let m = kc.modifiers;
    lemma_plain_key_name(key);
    assert(key | m != 0) by (bit_vector)
        requires
            key != 0,
    ;
    let name = spec_key_name(key);
    let t = kc.spec_portable_text();
    assert(t == modifier_prefix(m) + name);
    lemma_plain_key_name(key);
    lemma_prefix_lowered(m);
    lemma_lower_concat(modifier_prefix(m), name);
    let lp = lower_prefix(m);
    let ln = name.map_values(|c: char| ascii_lower(c));
    let a = lp + ln;
    assert(lowered_text(t) == a);
    assert(a.subrange(0, lp.len() as int) =~= lp);
    assert forall|i: int| lp.len() <= i < a.len() implies a[i] != '+' by {
        assert(a[i] == ln[i - lp.len()]);
    }
    lemma_scan_prefix(a, m);
    lemma_modifier_segments();
    if lp.len() > 0 {
        // The prefix ends with the `+` of its last modifier name.
        assert(lp.len() >= 3) by {
            reveal_strlit("meta+");
            reveal_strlit("ctrl+");
            reveal_strlit("alt+");
            reveal_strlit("shift+");
            reveal_strlit("num+");
        }
        assert(a[lp.len() - 1] == '+') by {
            reveal_strlit("meta+");
            reveal_strlit("ctrl+");
            reveal_strlit("alt+");
            reveal_strlit("shift+");
            reveal_strlit("num+");
        }
    }
    lemma_last_plus_before(a, lp.len() as int, a.len() - 1);
    let k = a.subrange(lp.len() as int, a.len() as int);
    assert(k =~= ln);
    assert(trim_front(k) == k);
    assert(trim_back(k) == k);
    lemma_prefix_mods(m);
    assert(decode_lowered(a) == KeyCombination::spec_new(key, prefix_mods(m)));
}


/// A combination whose portable text decodes back to it.
pub open spec fn plain_portable_combination(kc: KeyCombination) -> bool {
    plain_portable_key(kc.key) && kc.modifiers & 0xC1FF_FFFF == 0
}

/// `s` holds no comma.
pub open spec fn comma_free(s: Seq<char>) -> bool {
    forall|i: int| 0 <= i < s.len() ==> s[i] != ','
}

proof fn lemma_comma_free_concat(x: Seq<char>, y: Seq<char>)
    requires
        comma_free(x),
        comma_free(y),
    ensures
        comma_free(x + y),
{
    assert forall|i: int| 0 <= i < (x + y).len() implies (x + y)[i] != ',' by {
        if i < x.len() {
            assert((x + y)[i] == x[i]);
        } else {
            assert((x + y)[i] == y[i - x.len()]);
        }
    }
}

/// The portable text of such a combination is not empty and holds no comma.
proof fn lemma_plain_text(kc: KeyCombination)
    requires
        plain_portable_combination(kc),
    ensures
        kc.spec_portable_text().len() >= 1,
        comma_free(kc.spec_portable_text()),
{
    let key = kc.key;
    let m = kc.modifiers;
    lemma_plain_key_name(key);
    assert(key | m != 0) by (bit_vector)
        requires
            key != 0,
    ;
    let name = spec_key_name(key);
    lemma_plain_key_name(key);
    reveal_strlit("Meta+");
    reveal_strlit("Ctrl+");
    reveal_strlit("Alt+");
    reveal_strlit("Shift+");
    reveal_strlit("Num+");
    let u1 = crate::key_sequence::when(m & key_modifier::META != 0, "Meta+"@);
    let u2 = crate::key_sequence::when(m & key_modifier::CTRL != 0, "Ctrl+"@);
    let u3 = crate::key_sequence::when(m & key_modifier::ALT != 0, "Alt+"@);
    let u4 = crate::key_sequence::when(m & key_modifier::SHIFT != 0, "Shift+"@);
    let u5 = crate::key_sequence::when(m & key_modifier::KEYPAD != 0, "Num+"@);
    lemma_comma_free_concat(u1, u2);
    lemma_comma_free_concat(u1 + u2, u3);
    lemma_comma_free_concat(u1 + u2 + u3, u4);
    lemma_comma_free_concat(u1 + u2 + u3 + u4, u5);
    lemma_comma_free_concat(modifier_prefix(m), name);
}

/// Joined text seen from the front: the first chord, the separator, the rest.
proof fn lemma_join_front(keys: Seq<KeyCombination>)
    requires
        keys.len() >= 2,
    ensures
        join_chords(keys) == keys[0].spec_portable_text() + ", "@ + join_chords(keys.drop_first()),
    decreases keys.len(),
{
    let rest = keys.drop_first();
    if keys.len() == 2 {
        assert(keys.drop_last() =~= seq![keys[0]]);
        assert(rest =~= seq![keys[1]]);
        assert(join_chords(keys.drop_last()) == keys[0].spec_portable_text());
        assert(join_chords(rest) == keys[1].spec_portable_text());
        assert(keys.last() == keys[1]);
        assert(join_chords(keys) == join_chords(keys.drop_last()) + ", "@ + keys.last().spec_portable_text());
    } else {
        lemma_join_front(keys.drop_last());
        assert(keys.drop_last().drop_first() =~= rest.drop_last());
        assert(keys.drop_last()[0] == keys[0]);
        assert(rest.last() == keys.last());
        assert(join_chords(rest) == join_chords(rest.drop_last()) + ", "@ + rest.last().spec_portable_text());
        assert(join_chords(keys) == join_chords(keys.drop_last()) + ", "@ + keys.last().spec_portable_text());
        assert(join_chords(keys) =~= keys[0].spec_portable_text() + ", "@ + join_chords(rest));
    }
}

/// Parsing joined portable texts gives the chords back, `count` chords having
/// been read before.
proof fn lemma_parse_join(keys: Seq<KeyCombination>, count: nat)
    requires
        1 <= keys.len(),
        count + keys.len() <= 4,
        forall|i: int| 0 <= i < keys.len() ==> plain_portable_combination(#[trigger] keys[i]),
    ensures
        parse_chords(join_chords(keys), count) == keys,
    decreases keys.len(),
{
    let k0 = keys[0];
    let t0 = k0.spec_portable_text();
    lemma_plain_text(k0);
    lemma_portable_text_decodes(k0);
    if keys.len() == 1 {
        assert(join_chords(keys) == t0);
        crate::key_sequence::lemma_first_comma(t0, 0);
        assert(split_chord(t0) == (t0, Seq::<char>::empty()));
        assert(parse_chords(Seq::<char>::empty(), count + 1) == Seq::<KeyCombination>::empty());
        assert(parse_chords(t0, count) =~= seq![k0]);
        assert(keys =~= seq![k0]);
    } else {
        let rest = keys.drop_first();
        lemma_join_front(keys);
        let r = join_chords(rest);
        let text = t0 + ", "@ + r;
        reveal_strlit(", ");
        assert(text.len() == t0.len() + 2 + r.len());
        assert(text[t0.len() as int] == ',');
        assert(text[t0.len() as int + 1] == ' ');
        assert forall|i: int| 0 <= i < t0.len() implies text[i] != ',' by {
            assert(text[i] == t0[i]);
        }
        crate::key_sequence::lemma_first_comma(text, 0);
        lemma_first_comma_at(text, 0, t0.len() as int);
        assert(text.subrange(0, t0.len() as int) =~= t0);
        assert(text.subrange(t0.len() as int + 2, text.len() as int) =~= r);
        assert(split_chord(text) == (t0, r));
        assert forall|i: int| 0 <= i < rest.len() implies plain_portable_combination(
            #[trigger] rest[i],
        ) by {
            assert(rest[i] == keys[i + 1]);
        }
        lemma_parse_join(rest, count + 1);
        assert(parse_chords(text, count) == seq![k0] + rest);
        assert(keys =~= seq![k0] + rest);
    }
}

/// The first comma from `i` is at `p` when none comes before it.
proof fn lemma_first_comma_at(s: Seq<char>, i: int, p: int)
    requires
        0 <= i <= p < s.len(),
        s[p] == ',',
        forall|k: int| i <= k < p ==> s[k] != ',',
    ensures
        first_comma(s, i) == Some(p),
    decreases p - i,
{
    if i < p {
        lemma_first_comma_at(s, i + 1, p);
    }
}

/// Up to four combinations whose portable texts decode back survive building a
/// sequence of them, writing it as portable text and reading that text again.
pub proof fn lemma_portable_sequence_decodes(keys: Seq<KeyCombination>)
    requires
        1 <= keys.len() <= 4,
        forall|i: int| 0 <= i < keys.len() ==> plain_portable_combination(#[trigger] keys[i]),
    ensures
        at_most_four(non_empty_keys(keys)) == keys,
        parse_chords(join_chords(keys), 0) == keys,
{
    lemma_non_empty_plain(keys);
    lemma_parse_join(keys, 0);
}

/// Combinations of named keys are never empty, so none is dropped.
proof fn lemma_non_empty_plain(keys: Seq<KeyCombination>)
    requires
        forall|i: int| 0 <= i < keys.len() ==> plain_portable_combination(#[trigger] keys[i]),
    ensures
        non_empty_keys(keys) == keys,
    decreases keys.len(),
{
    if keys.len() > 0 {
        let d = keys.drop_last();
        assert forall|i: int| 0 <= i < d.len() implies plain_portable_combination(#[trigger] d[i]) by {
            assert(d[i] == keys[i]);
        }
        lemma_non_empty_plain(d);
        let l = keys.last();
        assert(plain_portable_combination(keys[keys.len() - 1]));
        let key = l.key;
        let m = l.modifiers;
        lemma_plain_key_name(key);
        assert(key | m != 0) by (bit_vector)
            requires
                key != 0,
        ;
        assert(d.push(l) =~= keys);
    }
}

/// `s` lower-cased character by character.
pub open spec fn lowered_chars(s: Seq<char>) -> Seq<char> {
    s.map_values(|c: char| ascii_lower(c))
}

/// The names of the key-name table, lower-cased, are pairwise distinct.
proof fn lemma_table_names_distinct(t: int)
    requires
        0 <= t < KEY_NAME_COUNT,
    ensures
        forall|k: int|
            0 <= k < t ==> #[trigger] lowered_chars(key_name_entry(k).1) != lowered_chars(
                key_name_entry(t).1,
            ),
{
    reveal_strlit("Alt");
    reveal_strlit("Back");
    reveal_strlit("Backspace");
    reveal_strlit("Backtab");
    reveal_strlit("Calculator");
    reveal_strlit("Cancel");
    reveal_strlit("Caps Lock");
    reveal_strlit("CapsLock");
    reveal_strlit("Clear");
    reveal_strlit("Close");
    reveal_strlit("Control");
    reveal_strlit("Copy");
    reveal_strlit("Cut");
    reveal_strlit("Del");
    reveal_strlit("Delete");
    reveal_strlit("Down");
    reveal_strlit("Eject");
    reveal_strlit("End");
    reveal_strlit("Enter");
    reveal_strlit("Esc");
    reveal_strlit("Escape");
    reveal_strlit("Execute");
    reveal_strlit("Exit");
    reveal_strlit("Favorites");
    reveal_strlit("Find");
    reveal_strlit("Forward");
    reveal_strlit("Help");
    reveal_strlit("Home");
    reveal_strlit("Home Page");
    reveal_strlit("Ins");
    reveal_strlit("Insert");
    reveal_strlit("Launch (0)");
    reveal_strlit("Launch (1)");
    reveal_strlit("Launch Mail");
    reveal_strlit("Launch Media");
    reveal_strlit("Left");
    reveal_strlit("Media Next");
    reveal_strlit("Media Pause");
    reveal_strlit("Media Play");
    reveal_strlit("Media Previous");
    reveal_strlit("Media Record");
    reveal_strlit("Media Stop");
    reveal_strlit("Menu");
    reveal_strlit("Meta");
    reveal_strlit("New");
    reveal_strlit("No");
    reveal_strlit("Num Lock");
    reveal_strlit("NumLock");
    reveal_strlit("Number Lock");
    reveal_strlit("Open");
    reveal_strlit("Open URL");
    reveal_strlit("Page Down");
    reveal_strlit("Page Up");
    reveal_strlit("Paste");
    reveal_strlit("Pause");
    reveal_strlit("PgDown");
    reveal_strlit("PgUp");
    reveal_strlit("Play");
    reveal_strlit("Power Off");
    reveal_strlit("Print");
    reveal_strlit("Print Screen");
    reveal_strlit("Printer");
    reveal_strlit("Redo");
    reveal_strlit("Refresh");
    reveal_strlit("Reload");
    reveal_strlit("Return");
    reveal_strlit("Right");
    reveal_strlit("Save");
    reveal_strlit("Scroll Lock");
    reveal_strlit("ScrollLock");
    reveal_strlit("Search");
    reveal_strlit("Select");
    reveal_strlit("Shift");
    reveal_strlit("Sleep");
    reveal_strlit("Space");
    reveal_strlit("Standby");
    reveal_strlit("Stop");
    reveal_strlit("SysReq");
    reveal_strlit("System Request");
    reveal_strlit("Tab");
    reveal_strlit("Toggle Media Play/Pause");
    reveal_strlit("Undo");
    reveal_strlit("Up");
    reveal_strlit("Volume Down");
    reveal_strlit("Volume Mute");
    reveal_strlit("Volume Up");
    reveal_strlit("Wake Up");
    reveal_strlit("Yes");
    reveal_strlit("Zoom");
    reveal_strlit("Zoom In");
    reveal_strlit("Zoom Out");
    assert forall|k: int| 0 <= k < t implies #[trigger] lowered_chars(key_name_entry(k).1)
        != lowered_chars(key_name_entry(t).1) by {
        let a = lowered_chars(key_name_entry(k).1);
        let b = lowered_chars(key_name_entry(t).1);
        if a.len() == b.len() {
            assert(a[0] == ascii_lower(key_name_entry(k).1[0]));
            assert(a[1] == ascii_lower(key_name_entry(k).1[1]));
            assert(a[a.len() - 1] == ascii_lower(key_name_entry(k).1[a.len() - 1]));
            assert(a[a.len() - 2] == ascii_lower(key_name_entry(k).1[a.len() - 2]));
            assert(b[0] == ascii_lower(key_name_entry(t).1[0]));
            assert(b[1] == ascii_lower(key_name_entry(t).1[1]));
            assert(b[b.len() - 1] == ascii_lower(key_name_entry(t).1[b.len() - 1]));
            assert(b[b.len() - 2] == ascii_lower(key_name_entry(t).1[b.len() - 2]));
        }
    }
}

/// Every name of the key-name table is ASCII text of at least two characters
/// without `+` or `,`, neither starting nor ending with a space, whose second
/// character is not a digit; every key of the table is Space or a key beyond
/// the character keys that is no function key F1 to F35.
proof fn lemma_table_entry_shape(t: int)
    requires
        0 <= t < KEY_NAME_COUNT,
    ensures
        ({
            let n = key_name_entry(t).1;
            &&& n.len() >= 2
            &&& all_ascii(n)
            &&& forall|i: int| 0 <= i < n.len() ==> #[trigger] n[i] != '+' && n[i] != ','
            &&& n[0] != ' '
            &&& n.last() != ' '
            &&& !(0x30 <= (n[1] as u32) <= 0x39)
        }),
        key_name_entry(t).0 == qt_key::SPACE || (qt_key::ESCAPE <= key_name_entry(t).0
            && key_name_entry(t).0 != qt_key::UNKNOWN && !(qt_key::F1 <= key_name_entry(t).0
            <= qt_key::F35)),
{
    reveal_strlit("Alt");
    reveal_strlit("Back");
    reveal_strlit("Backspace");
    reveal_strlit("Backtab");
    reveal_strlit("Calculator");
    reveal_strlit("Cancel");
    reveal_strlit("Caps Lock");
    reveal_strlit("CapsLock");
    reveal_strlit("Clear");
    reveal_strlit("Close");
    reveal_strlit("Control");
    reveal_strlit("Copy");
    reveal_strlit("Cut");
    reveal_strlit("Del");
    reveal_strlit("Delete");
    reveal_strlit("Down");
    reveal_strlit("Eject");
    reveal_strlit("End");
    reveal_strlit("Enter");
    reveal_strlit("Esc");
    reveal_strlit("Escape");
    reveal_strlit("Execute");
    reveal_strlit("Exit");
    reveal_strlit("Favorites");
    reveal_strlit("Find");
    reveal_strlit("Forward");
    reveal_strlit("Help");
    reveal_strlit("Home");
    reveal_strlit("Home Page");
    reveal_strlit("Ins");
    reveal_strlit("Insert");
    reveal_strlit("Launch (0)");
    reveal_strlit("Launch (1)");
    reveal_strlit("Launch Mail");
    reveal_strlit("Launch Media");
    reveal_strlit("Left");
    reveal_strlit("Media Next");
    reveal_strlit("Media Pause");
    reveal_strlit("Media Play");
    reveal_strlit("Media Previous");
    reveal_strlit("Media Record");
    reveal_strlit("Media Stop");
    reveal_strlit("Menu");
    reveal_strlit("Meta");
    reveal_strlit("New");
    reveal_strlit("No");
    reveal_strlit("Num Lock");
    reveal_strlit("NumLock");
    reveal_strlit("Number Lock");
    reveal_strlit("Open");
    reveal_strlit("Open URL");
    reveal_strlit("Page Down");
    reveal_strlit("Page Up");
    reveal_strlit("Paste");
    reveal_strlit("Pause");
    reveal_strlit("PgDown");
    reveal_strlit("PgUp");
    reveal_strlit("Play");
    reveal_strlit("Power Off");
    reveal_strlit("Print");
    reveal_strlit("Print Screen");
    reveal_strlit("Printer");
    reveal_strlit("Redo");
    reveal_strlit("Refresh");
    reveal_strlit("Reload");
    reveal_strlit("Return");
    reveal_strlit("Right");
    reveal_strlit("Save");
    reveal_strlit("Scroll Lock");
    reveal_strlit("ScrollLock");
    reveal_strlit("Search");
    reveal_strlit("Select");
    reveal_strlit("Shift");
    reveal_strlit("Sleep");
    reveal_strlit("Space");
    reveal_strlit("Standby");
    reveal_strlit("Stop");
    reveal_strlit("SysReq");
    reveal_strlit("System Request");
    reveal_strlit("Tab");
    reveal_strlit("Toggle Media Play/Pause");
    reveal_strlit("Undo");
    reveal_strlit("Up");
    reveal_strlit("Volume Down");
    reveal_strlit("Volume Mute");
    reveal_strlit("Volume Up");
    reveal_strlit("Wake Up");
    reveal_strlit("Yes");
    reveal_strlit("Zoom");
    reveal_strlit("Zoom In");
    reveal_strlit("Zoom Out");
}

} // verus!
