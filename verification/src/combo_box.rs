//! Item text matching and insertion rules of combo boxes
//! (`Qt::MatchFlags`, `QComboBox::InsertPolicy`).

use vstd::prelude::*;

use crate::geometry::{Point, Rect};
use crate::input_keys::{has_alt, has_ctrl, is_down, is_end, is_enter, is_escape, is_f4, is_home, is_page_down, is_page_up, is_up, typed_char};
use crate::text::{chars_of, push_char, str_lowercase, str_to_string, string_of, to_lowercase};

verus! {

/// `n` occurs in `c` starting at position `i`.
pub open spec fn occurs_at(c: Seq<char>, n: Seq<char>, i: int) -> bool {
    0 <= i && i + n.len() <= c.len() && c.subrange(i, i + n.len()) == n
}

/// `n` occurs somewhere in `c`.
pub open spec fn has_infix(c: Seq<char>, n: Seq<char>) -> bool {
    exists|i: int| occurs_at(c, n, i)
}

/// `c` begins with `n`.
pub open spec fn has_prefix(c: Seq<char>, n: Seq<char>) -> bool {
    occurs_at(c, n, 0)
}

/// `c` ends with `n`.
pub open spec fn has_suffix(c: Seq<char>, n: Seq<char>) -> bool {
    n.len() <= c.len() && occurs_at(c, n, c.len() - n.len())
}

/// Whether `c` matches `n` under the match kind `kind` (the low four bits of
/// the flags): 1 contains, 2 starts with, 3 ends with, anything else equality.
pub open spec fn kind_matches(kind: u32, c: Seq<char>, n: Seq<char>) -> bool {
    if kind == 1 {
        has_infix(c, n)
    } else if kind == 2 {
        has_prefix(c, n)
    } else if kind == 3 {
        has_suffix(c, n)
    } else {
        c == n
    }
}

/// Whether `n` occurs in `c` at `i`, compared character by character.
fn occurs_at_exec(c: &Vec<char>, n: &Vec<char>, i: usize) -> (r: bool)
    ensures
        r == occurs_at(c@, n@, i as int),
{
    if i > c.len() || n.len() > c.len() - i {
        return false;
    }
    let mut j: usize = 0;
    while j < n.len()
        invariant
            i + n@.len() <= c@.len(),
            c@.len() <= usize::MAX,
            0 <= j <= n@.len(),
            forall|k: int| 0 <= k < j ==> c@[i + k] == n@[k],
        decreases n@.len() - j,
    {
        assert(i + j < c@.len());
        if c[i + j] != n[j] {
            assert(c@.subrange(i as int, i + n@.len())[j as int] != n@[j as int]);
            return false;
        }
        j = j + 1;
    }
    assert(c@.subrange(i as int, i + n@.len()) =~= n@);
    true
}

/// Whether `c` and `n` hold the same characters.
fn same_chars(c: &Vec<char>, n: &Vec<char>) -> (r: bool)
    ensures
        r == (c@ == n@),
{
    if c.len() != n.len() {
        return false;
    }
    let r = occurs_at_exec(c, n, 0);
    proof {
        if r {
            assert(c@.subrange(0, c@.len() as int) =~= c@);
        } else {
            assert(c@.subrange(0, c@.len() as int) =~= c@);
        }
    }
    r
}

/// Whether `c` matches `n` under the match kind `kind`; the comparison itself,
/// after any case folding.
pub fn match_kind(kind: u32, c: &str, n: &str) -> (r: bool)
    ensures
        r == kind_matches(kind, c@, n@),
{
    let cv = chars_of(c);
    let nv = chars_of(n);
    if kind == 1 {
        if nv.len() > cv.len() {
            assert forall|i: int| !occurs_at(c@, n@, i) by {}
            return false;
        }
        let last = cv.len() - nv.len();
        let mut i: usize = 0;
        while i < last
            invariant
                kind == 1,
                last == cv@.len() - nv@.len(),
                cv@ == c@,
                nv@ == n@,
                0 <= i <= last,
                forall|j: int| 0 <= j < i ==> !occurs_at(c@, n@, j),
            decreases last - i,
        {
            if occurs_at_exec(&cv, &nv, i) {
                assert(occurs_at(c@, n@, i as int));
                return true;
            }
            i = i + 1;
        }
        let r = occurs_at_exec(&cv, &nv, last);
        if r {
            assert(occurs_at(c@, n@, last as int));
        } else {
            assert forall|j: int| !occurs_at(c@, n@, j) by {
                if 0 <= j < i {
                }
            }
        }
        r
    } else if kind == 2 {
        occurs_at_exec(&cv, &nv, 0)
    } else if kind == 3 {
        if nv.len() > cv.len() {
            return false;
        }
        occurs_at_exec(&cv, &nv, cv.len() - nv.len())
    } else {
        same_chars(&cv, &nv)
    }
}

/// Item matching rules for finding an item by its text (`Qt::MatchFlags`).
/// The low four bits choose the kind of comparison; the bit `16` makes it
/// case-sensitive.
#[derive(Debug, Clone, Copy, PartialEq, Eq, Structural, Hash)]
pub struct MatchFlags(pub u32);

impl MatchFlags {
    /// Whole-string equality, always case-sensitive (`Qt::MatchExactly`).
    pub fn exactly() -> (r: MatchFlags)
        ensures
            r.0 == 0,
    {
        MatchFlags(0)
    }

    /// The item text contains the search text (`Qt::MatchContains`).
    pub fn containing() -> (r: MatchFlags)
        ensures
            r.0 == 1,
    {
        MatchFlags(1)
    }

    /// The item text begins with the search text (`Qt::MatchStartsWith`).
    pub fn starting_with() -> (r: MatchFlags)
        ensures
            r.0 == 2,
    {
        MatchFlags(2)
    }

    /// The item text ends with the search text (`Qt::MatchEndsWith`).
    pub fn ending_with() -> (r: MatchFlags)
        ensures
            r.0 == 3,
    {
        MatchFlags(3)
    }

    /// Whole-string comparison that honours case sensitivity (`Qt::MatchFixedString`).
    pub fn fixed_string() -> (r: MatchFlags)
        ensures
            r.0 == 8,
    {
        MatchFlags(8)
    }

    /// Case-sensitive comparison (`Qt::MatchCaseSensitive`).
    pub fn case_sensitive() -> (r: MatchFlags)
        ensures
            r.0 == 16,
    {
        MatchFlags(16)
    }

    /// Whether every bit of `other` is set in `self`.
    pub open spec fn spec_contains(self, other: MatchFlags) -> bool {
        self.0 & other.0 == other.0
    }

    /// Whether every bit of `other` is set in `self`.
    #[verifier::when_used_as_spec(spec_contains)]
    pub fn contains(self, other: MatchFlags) -> (r: bool)
        ensures
            r == self.spec_contains(other),
    {
        self.0 & other.0 == other.0
    }

    /// The kind of comparison: the low four bits.
    pub open spec fn kind(self) -> u32 {
        self.0 & 15
    }

    /// Whether `candidate` matches `needle` under these flags: exact equality
    /// for the kind `0`; otherwise the kind's comparison, on the lower-cased
    /// texts unless the flags are case-sensitive.
    pub open spec fn spec_matches(self, candidate: Seq<char>, needle: Seq<char>) -> bool {
        if self.kind() == 0 {
            candidate == needle
        } else if self.0 & 16 == 16 {
            kind_matches(self.kind(), candidate, needle)
        } else {
            kind_matches(self.kind(), str_lowercase(candidate), str_lowercase(needle))
        }
    }

    /// Whether `candidate` matches `needle` under these flags.
    pub fn matches(self, candidate: &str, needle: &str) -> (r: bool)
        ensures
            r == self.spec_matches(candidate@, needle@),
    {
        let kind = self.0 & 15;
        if kind == 0 {
            return match_kind(0, candidate, needle);
        }
        if self.contains(MatchFlags::case_sensitive()) {
            match_kind(kind, candidate, needle)
        } else {
            let c = to_lowercase(candidate);
            let n = to_lowercase(needle);
            match_kind(kind, c.as_str(), n.as_str())
        }
    }
}

impl Default for MatchFlags {
    /// Exact, case-sensitive matching, the default of a text search.
    fn default() -> (r: MatchFlags)
        ensures
            r.0 == 16,
    {
        MatchFlags(16)
    }
}

impl core::ops::BitOr for MatchFlags {
    type Output = MatchFlags;

    fn bitor(self, rhs: MatchFlags) -> (r: MatchFlags) {
        MatchFlags(self.0 | rhs.0)
    }
}

impl vstd::std_specs::ops::BitOrSpecImpl for MatchFlags {
    open spec fn obeys_bitor_spec() -> bool {
        true
    }

    open spec fn bitor_req(self, rhs: MatchFlags) -> bool {
        true
    }

    open spec fn bitor_spec(self, rhs: MatchFlags) -> MatchFlags {
        MatchFlags(self.0 | rhs.0)
    }
}

/// Where text entered in an editable combo box is inserted (`QComboBox::InsertPolicy`).
#[derive(Debug, Clone, Copy, PartialEq, Eq, Structural)]
pub enum InsertPolicy {
    NoInsert,
    InsertAtTop,
    InsertAtCurrent,
    InsertAtBottom,
    InsertAfterCurrent,
    InsertBeforeCurrent,
    InsertAlphabetically,
}

impl Default for InsertPolicy {
    fn default() -> (r: InsertPolicy)
        ensures
            r == InsertPolicy::InsertAtBottom,
    {
        InsertPolicy::InsertAtBottom
    }
}

/// One item of a combo box as plain values. The item's user data is a key
/// that the caller maps to its own values (`None` when unset).
pub struct ComboItemView {
    pub text: Seq<char>,
    pub data: Option<u64>,
    pub enabled: bool,
}

/// One item of a combo box: text, user data key and enabled flag.
pub struct ComboItem {
    text: String,
    data: Option<u64>,
    enabled: bool,
}

impl View for ComboItem {
    type V = ComboItemView;

    closed spec fn view(&self) -> ComboItemView {
        ComboItemView { text: self.text@, data: self.data, enabled: self.enabled }
    }
}

/// A combo box as plain values.
pub struct ComboView {
    pub items: Seq<ComboItemView>,
    pub current: int,
    /// The line edit's text when the combo box is editable.
    pub edit: Option<Seq<char>>,
    pub insert_policy: InsertPolicy,
    pub duplicates_enabled: bool,
    pub max_visible_items: int,
    pub max_count: int,
    pub placeholder: Seq<char>,
    pub enabled: bool,
    pub popup_visible: bool,
    pub highlight_row: int,
    pub popup_scroll: int,
    pub search_text: Seq<char>,
}

/// The well-formed states: no more items than the limit, which fits in
/// `i32`; the current and highlighted rows are items or -1; the visible row
/// count is not negative.
pub open spec fn combo_wf(v: ComboView) -> bool {
    &&& 0 <= v.max_count <= i32::MAX
    &&& v.items.len() <= v.max_count
    &&& -1 <= v.current < v.items.len()
    &&& -1 <= v.highlight_row < v.items.len() || v.highlight_row == -1
    &&& 0 <= v.max_visible_items <= i32::MAX
    &&& 0 <= v.popup_scroll <= i32::MAX
}

/// An empty, enabled, non-editable combo box: no current item, items
/// inserted at the bottom, duplicates refused, ten visible rows, no limit
/// beyond `i32::MAX` items, popup closed.
pub open spec fn fresh_combo() -> ComboView {
    ComboView {
        items: Seq::empty(),
        current: -1,
        edit: None,
        insert_policy: InsertPolicy::InsertAtBottom,
        duplicates_enabled: false,
        max_visible_items: 10,
        max_count: i32::MAX as int,
        placeholder: Seq::empty(),
        enabled: true,
        popup_visible: false,
        highlight_row: -1,
        popup_scroll: 0,
        search_text: Seq::empty(),
    }
}

/// Text of item `i`, or nothing when there is no such item.
pub open spec fn item_text_of(v: ComboView, i: int) -> Seq<char> {
    if 0 <= i < v.items.len() {
        v.items[i].text
    } else {
        Seq::empty()
    }
}

/// The current text: the line edit's text when editable, otherwise the
/// current item's text.
pub open spec fn current_text_of(v: ComboView) -> Seq<char> {
    match v.edit {
        Some(t) => t,
        None => item_text_of(v, v.current),
    }
}

/// `QComboBox` moving to `new_current`: the line edit, if any, shows the new
/// item's text when the index changed or `sync` asks for it.
pub open spec fn apply_current(v: ComboView, new_current: int, sync: bool) -> ComboView {
    let v1 = ComboView { current: new_current, ..v };
    if (new_current != v.current || sync) && v.edit is Some {
        ComboView { edit: Some(item_text_of(v1, new_current)), ..v1 }
    } else {
        v1
    }
}

/// After `n` items were inserted at `start`: the first items of an empty box
/// become current, a current item at or after `start` moves with them, and so
/// does the highlighted row of an open popup.
pub open spec fn after_rows_inserted(v: ComboView, old_current: int, start: int, n: int) -> ComboView {
    let new_current = if old_current < 0 {
        if start == 0 && n == v.items.len() {
            0
        } else {
            -1
        }
    } else if start <= old_current {
        old_current + n
    } else {
        old_current
    };
    let v1 = if v.popup_visible && v.highlight_row >= start {
        ComboView { highlight_row: v.highlight_row + n, ..v }
    } else {
        v
    };
    apply_current(ComboView { current: old_current, ..v1 }, new_current, false)
}

/// `QComboBox::insertItems`: the texts go, in order, to `index` clamped to
/// the items, as many as the item limit lets in; the current row then
/// follows as for one insertion of them all.
pub open spec fn spec_insert_items(v: ComboView, index: int, texts: Seq<Seq<char>>) -> ComboView {
    let len = v.items.len() as int;
    let start = if index < 0 {
        0
    } else if index > len {
        len
    } else {
        index
    };
    let room = v.max_count - len;
    let k = if texts.len() < room {
        texts.len() as int
    } else {
        room
    };
    if k <= 0 {
        v
    } else {
        let added = Seq::new(k as nat, |i: int| fresh_item(texts[i], None));
        let items = v.items.subrange(0, start) + added + v.items.subrange(start, len);
        after_rows_inserted(ComboView { items, ..v }, v.current, start, k)
    }
}

/// A fresh item with `text` and `data`, enabled.
pub open spec fn fresh_item(text: Seq<char>, data: Option<u64>) -> ComboItemView {
    ComboItemView { text, data, enabled: true }
}

/// `QComboBox::insertItem`: ignored at the item limit; otherwise the item
/// goes to `index` clamped to the items.
pub open spec fn spec_insert_item(v: ComboView, index: int, text: Seq<char>, data: Option<u64>) -> ComboView {
    if v.items.len() >= v.max_count {
        v
    } else {
        let at = if index < 0 {
            0
        } else if index > v.items.len() {
            v.items.len() as int
        } else {
            index
        };
        after_rows_inserted(
            ComboView { items: v.items.insert(at, fresh_item(text, data)), ..v },
            v.current,
            at,
            1,
        )
    }
}

/// The current row after removing row `index` from `count` rows (`count`
/// counts the rows left).
pub open spec fn current_after_removal(old_current: int, index: int, count: int) -> int {
    if count == 0 {
        -1
    } else if index < old_current {
        old_current - 1
    } else if index == old_current {
        if old_current < count - 1 {
            old_current
        } else {
            count - 1
        }
    } else {
        old_current
    }
}

/// What removing item `i` does to the current item. The item is taken out and
/// the others keep their order. A current item other than the removed one
/// stays current. When the current item itself is removed, the item that
/// moves into its row becomes current (`min(i, count - 1)` of the rows left):
/// the next item, or the previous one when the last item was removed; when
/// nothing is left, no item is current. Without a current item there still
/// is none.
pub proof fn lemma_remove_item_keeps_current(v: ComboView, i: int)
    requires
        combo_wf(v),
        0 <= i < v.items.len(),
    ensures
        spec_remove_item(v, i).items == v.items.remove(i),
        -1 <= spec_remove_item(v, i).current < spec_remove_item(v, i).items.len(),
        v.current == -1 ==> spec_remove_item(v, i).current == -1,
        0 <= v.current && v.current != i ==> spec_remove_item(v, i).items[spec_remove_item(
            v,
            i,
        ).current] == v.items[v.current],
        v.current == i && v.items.len() > 1 ==> {
            let w = spec_remove_item(v, i);
            &&& w.current == (if i < w.items.len() - 1 {
                i
            } else {
                w.items.len() - 1
            })
            &&& w.items[w.current] == (if i + 1 < v.items.len() {
                v.items[i + 1]
            } else {
                v.items[i - 1]
            })
        },
        v.items.len() == 1 ==> spec_remove_item(v, i).current == -1,
{
}

/// `QComboBox::removeItem`: out-of-range indices change nothing; the current
/// item moves to the nearest remaining one, the highlight stays within the
/// items, and the popup closes when nothing is left.
pub open spec fn spec_remove_item(v: ComboView, index: int) -> ComboView {
    if index < 0 || index >= v.items.len() {
        v
    } else {
        let items = v.items.remove(index);
        let count = items.len() as int;
        let new_current = current_after_removal(v.current, index, count);
        let hl = if v.highlight_row >= count {
            count - 1
        } else {
            v.highlight_row
        };
        let v1 = ComboView {
            items,
            highlight_row: hl,
            popup_visible: if count == 0 {
                false
            } else {
                v.popup_visible
            },
            ..v
        };
        apply_current(v1, new_current, index == v.current)
    }
}

/// The first item from `k` on whose text matches `text` under `flags`, or -1.
pub open spec fn first_match(items: Seq<ComboItemView>, text: Seq<char>, flags: MatchFlags, k: int) -> int
    decreases items.len() - k,
{
    if k < 0 || k >= items.len() {
        -1
    } else if flags.spec_matches(items[k].text, text) {
        k
    } else {
        first_match(items, text, flags, k + 1)
    }
}

/// The first item from `k` on with user data `data`, or -1.
pub open spec fn first_data(items: Seq<ComboItemView>, data: Option<u64>, k: int) -> int
    decreases items.len() - k,
{
    if k < 0 || k >= items.len() {
        -1
    } else if items[k].data == data {
        k
    } else {
        first_data(items, data, k + 1)
    }
}

/// Searching from `k` finds the first matching item: the one found matches and
/// none before it from `k` on does; when nothing is found, no item from `k`
/// on matches.
pub proof fn lemma_first_match_is_first(items: Seq<ComboItemView>, text: Seq<char>, flags: MatchFlags, k: int)
    requires
        0 <= k,
    ensures
        first_match(items, text, flags, k) == -1 || (k <= first_match(items, text, flags, k)
            < items.len() && flags.spec_matches(
            items[first_match(items, text, flags, k)].text,
            text,
        )),
        forall|j: int|
            k <= j < items.len() && (first_match(items, text, flags, k) == -1 || j < first_match(
                items,
                text,
                flags,
                k,
            )) ==> !flags.spec_matches(#[trigger] items[j].text, text),
    decreases items.len() - k,
{
    if k < items.len() && !flags.spec_matches(items[k].text, text) {
        lemma_first_match_is_first(items, text, flags, k + 1);
    }
}

/// Searching from `k` finds the first item carrying `data`: the one found
/// carries it and none before it from `k` on does; when nothing is found, no
/// item from `k` on carries it.
pub proof fn lemma_first_data_is_first(items: Seq<ComboItemView>, data: Option<u64>, k: int)
    requires
        0 <= k,
    ensures
        first_data(items, data, k) == -1 || (k <= first_data(items, data, k) < items.len()
            && items[first_data(items, data, k)].data == data),
        forall|j: int|
            k <= j < items.len() && (first_data(items, data, k) == -1 || j < first_data(
                items,
                data,
                k,
            )) ==> #[trigger] items[j].data != data,
    decreases items.len() - k,
{
    if k < items.len() && items[k].data != data {
        lemma_first_data_is_first(items, data, k + 1);
    }
}

/// Stepping down from row `from` (-1 for the top) lands on the nearest enabled
/// item below it, skipping disabled ones; when there is none, on nothing.
pub proof fn lemma_step_down_skips_disabled(items: Seq<ComboItemView>, from: int)
    requires
        -1 <= from,
    ensures
        next_enabled_down(items, from) == -1 || (from < next_enabled_down(items, from)
            < items.len() && items[next_enabled_down(items, from)].enabled),
        forall|j: int|
            from < j < items.len() && (next_enabled_down(items, from) == -1 || j
                < next_enabled_down(items, from)) ==> !(#[trigger] items[j].enabled),
    decreases items.len() - from,
{
    let i = from + 1;
    if 0 <= i < items.len() && !items[i].enabled {
        lemma_step_down_skips_disabled(items, i);
    }
}

/// Stepping up from row `from` (the item count for the bottom) lands on the
/// nearest enabled item above it, skipping disabled ones; when there is none,
/// on nothing.
pub proof fn lemma_step_up_skips_disabled(items: Seq<ComboItemView>, from: int)
    requires
        from <= items.len(),
    ensures
        next_enabled_up(items, from) == -1 || (0 <= next_enabled_up(items, from) < from
            && items[next_enabled_up(items, from)].enabled),
        forall|j: int|
            0 <= j < from && next_enabled_up(items, from) < j ==> !(#[trigger] items[j].enabled),
    decreases from,
{
    let i = from - 1;
    if 0 <= i < items.len() && !items[i].enabled {
        lemma_step_up_skips_disabled(items, i);
    }
}

/// Inserting an item puts it at the requested row (clamped to the items) and
/// keeps the same item current: the rows after it move down by one. Only an
/// empty box makes its first item current. At the item limit nothing changes.
pub proof fn lemma_insert_item_keeps_current(v: ComboView, index: int, text: Seq<char>, data: Option<u64>)
    requires
        combo_wf(v),
    ensures
        v.items.len() >= v.max_count ==> spec_insert_item(v, index, text, data) == v,
        v.items.len() < v.max_count ==> {
            let w = spec_insert_item(v, index, text, data);
            let at = if index < 0 {
                0
            } else if index > v.items.len() {
                v.items.len() as int
            } else {
                index
            };
            &&& w.items.len() == v.items.len() + 1
            &&& w.items[at] == fresh_item(text, data)
            &&& forall|j: int| 0 <= j < at ==> #[trigger] w.items[j] == v.items[j]
            &&& forall|j: int| at < j < w.items.len() ==> #[trigger] w.items[j] == v.items[j - 1]
            &&& v.current >= 0 ==> 0 <= w.current < w.items.len() && w.items[w.current]
                == v.items[v.current]
            &&& v.current == -1 ==> w.current == (if v.items.len() == 0 {
                0
            } else {
                -1
            })
        },
{
}

/// `QComboBox::setCurrentIndex`: an index outside the items clears the current item.
pub open spec fn spec_set_current_index(v: ComboView, index: int) -> ComboView {
    apply_current(v, if 0 <= index < v.items.len() {
        index
    } else {
        -1
    }, false)
}

/// `QComboBox::clear`: no items, no current item, the popup closed.
pub open spec fn spec_clear(v: ComboView) -> ComboView {
    apply_current(
        ComboView { items: Seq::empty(), popup_visible: false, highlight_row: -1, ..v },
        -1,
        true,
    )
}

/// `QComboBox::setMaxCount` removing the last items until at most `max` remain.
pub open spec fn truncate_items(v: ComboView, max: int) -> ComboView
    decreases v.items.len(),
{
    if max >= 0 && v.items.len() > max {
        truncate_items(spec_remove_item(v, v.items.len() - 1), max)
    } else {
        v
    }
}

/// The first enabled item after `from`, or -1.
pub open spec fn next_enabled_down(items: Seq<ComboItemView>, from: int) -> int
    decreases items.len() - from,
{
    let i = from + 1;
    if i < 0 || i >= items.len() {
        -1
    } else if items[i].enabled {
        i
    } else {
        next_enabled_down(items, i)
    }
}

/// The last enabled item before `from`, or -1.
pub open spec fn next_enabled_up(items: Seq<ComboItemView>, from: int) -> int
    decreases from,
{
    let i = from - 1;
    if i < 0 || i >= items.len() {
        -1
    } else if items[i].enabled {
        i
    } else {
        next_enabled_up(items, i)
    }
}

/// Number of rows the popup shows at once: the items, at most the visible
/// row count (at least one).
pub open spec fn popup_rows(v: ComboView) -> int {
    let m = if v.max_visible_items > 1 {
        v.max_visible_items
    } else {
        1
    };
    if v.items.len() < m {
        v.items.len() as int
    } else {
        m
    }
}

/// The popup scrolled so that the highlighted row is shown, within the rows
/// there are.
pub open spec fn ensure_highlight_visible(v: ComboView) -> ComboView {
    let rows = popup_rows(v);
    let s1 = if v.highlight_row < v.popup_scroll {
        if v.highlight_row > 0 {
            v.highlight_row
        } else {
            0
        }
    } else if v.highlight_row >= v.popup_scroll + rows {
        v.highlight_row - rows + 1
    } else {
        v.popup_scroll
    };
    let top = if v.items.len() - rows > 0 {
        v.items.len() - rows
    } else {
        0
    };
    ComboView {
        popup_scroll: if s1 < 0 {
            0
        } else if s1 > top {
            top
        } else {
            s1
        },
        ..v
    }
}

/// Highlights row `index` of the popup when it is an item other than the
/// highlighted one, keeping the highlight in view.
pub open spec fn spec_set_highlighted(v: ComboView, index: int) -> ComboView {
    if index == v.highlight_row || index < 0 || index >= v.items.len() {
        if index >= 0 {
            ensure_highlight_visible(v)
        } else {
            v
        }
    } else {
        ensure_highlight_visible(ComboView { highlight_row: index, ..v })
    }
}

/// `QComboBox::showPopup`: opens a popup over the items, highlighting the
/// current item or else the first enabled one.
pub open spec fn spec_show_popup(v: ComboView) -> ComboView {
    if v.items.len() == 0 || v.popup_visible {
        v
    } else {
        let start = if v.current >= 0 {
            v.current
        } else {
            next_enabled_down(v.items, -1)
        };
        spec_set_highlighted(ComboView { popup_visible: true, popup_scroll: 0, ..v }, start)
    }
}

/// The user picks item `index`: an enabled item becomes current and is
/// reported as activated.
pub open spec fn spec_choose(v: ComboView, index: int) -> (ComboView, Option<int>) {
    if index < 0 || index >= v.items.len() || !v.items[index].enabled {
        (v, None)
    } else {
        (if index != v.current {
            spec_set_current_index(v, index)
        } else {
            v
        }, Some(index))
    }
}

/// The popup's reaction to a key: Escape, F4 or Alt+arrow close it; Enter or
/// Space close it and choose the highlighted item; the arrows, Home, End and
/// the page keys move the highlight over enabled items. Returns the state and
/// the activated item, if any.
pub open spec fn spec_popup_key(v: ComboView, key: u32, modifiers: u32) -> (ComboView, Option<int>) {
    let n = v.items.len() as int;
    let h = v.highlight_row;
    let page = if popup_rows(v) > 1 {
        popup_rows(v)
    } else {
        1
    };
    if is_escape(key) || is_f4(key) || (has_alt(modifiers) && (is_up(key) || is_down(key))) {
        (ComboView { popup_visible: false, ..v }, None)
    } else if is_enter(key) || key == 0x20 {
        spec_choose(ComboView { popup_visible: false, ..v }, h)
    } else {
        let target = if is_up(key) {
            next_enabled_up(v.items, h)
        } else if is_down(key) {
            next_enabled_down(v.items, h)
        } else if is_home(key) {
            next_enabled_down(v.items, -1)
        } else if is_end(key) {
            next_enabled_up(v.items, n)
        } else if is_page_up(key) {
            let from = if h - page + 1 > 0 {
                h - page + 1
            } else {
                0
            };
            let t = next_enabled_down(v.items, from - 1);
            if t >= 0 && t < h {
                t
            } else {
                next_enabled_down(v.items, -1)
            }
        } else if is_page_down(key) {
            let from = if h + page - 1 < n - 1 {
                h + page - 1
            } else {
                n - 1
            };
            let t = next_enabled_up(v.items, from + 1);
            if t > h {
                t
            } else {
                next_enabled_up(v.items, n)
            }
        } else {
            -1
        };
        if target >= 0 {
            (spec_set_highlighted(v, target), None)
        } else {
            (v, None)
        }
    }
}

/// `a` comes before `b` in code-point order (the order of `String`s).
pub open spec fn text_less(a: Seq<char>, b: Seq<char>) -> bool
    decreases a.len(),
{
    if a.len() == 0 {
        b.len() > 0
    } else if b.len() == 0 {
        false
    } else if a[0] != b[0] {
        (a[0] as u32) < (b[0] as u32)
    } else {
        text_less(a.drop_first(), b.drop_first())
    }
}

/// The first item from `k` on whose lower-cased text comes after `lower`, or
/// the number of items.
pub open spec fn alphabetical_slot(items: Seq<ComboItemView>, lower: Seq<char>, k: int) -> int
    decreases items.len() - k,
{
    if k < 0 || k >= items.len() {
        items.len() as int
    } else if text_less(lower, str_lowercase(items[k].text)) {
        k
    } else {
        alphabetical_slot(items, lower, k + 1)
    }
}

/// What a combo box reports after an input event: the item the user
/// activated, if any, and whether the event goes on to the line edit.
#[derive(Debug, Clone, Copy, PartialEq, Eq, Structural)]
pub struct ComboReaction {
    pub activated: Option<i32>,
    pub to_line_edit: bool,
}

/// A reaction with only an activated item.
pub open spec fn activated_only(a: Option<int>) -> ComboReaction {
    ComboReaction {
        activated: match a {
            Some(i) => Some(i as i32),
            None => None,
        },
        to_line_edit: false,
    }
}

/// Return pressed in the line edit (`_q_returnPressed`): non-empty text is
/// looked up among the items (unless duplicates are allowed) and otherwise
/// inserted where the insert policy says, then reported as activated.
pub open spec fn spec_commit_edit_text(v: ComboView) -> (ComboView, Option<int>) {
    let text = match v.edit {
        Some(t) => t,
        None => Seq::empty(),
    };
    let count = v.items.len() as int;
    let existing = first_match(v.items, text, MatchFlags(8), 0);
    if text.len() == 0 {
        (v, None)
    } else if count >= v.max_count && v.insert_policy != InsertPolicy::InsertAtCurrent {
        (v, None)
    } else if !v.duplicates_enabled && existing >= 0 {
        (spec_set_current_index(v, existing), Some(existing))
    } else {
        let (v1, index) = match v.insert_policy {
            InsertPolicy::InsertAtTop => (v, 0),
            InsertPolicy::InsertAtBottom => (v, count),
            InsertPolicy::InsertAtCurrent => if count == 0 || v.current < 0 {
                (v, 0)
            } else {
                (
                    ComboView {
                        items: v.items.update(v.current, ComboItemView { text, ..v.items[v.current] }),
                        edit: Some(text),
                        ..v
                    },
                    -1,
                )
            },
            InsertPolicy::InsertAfterCurrent => if count == 0 || v.current < 0 {
                (v, 0)
            } else {
                (v, v.current + 1)
            },
            InsertPolicy::InsertBeforeCurrent => if count == 0 || v.current < 0 {
                (v, 0)
            } else {
                (v, v.current)
            },
            InsertPolicy::InsertAlphabetically => (v, alphabetical_slot(v.items, str_lowercase(text), 0)),
            InsertPolicy::NoInsert => (v, -1),
        };
        let v2 = if index >= 0 {
            spec_set_current_index(spec_insert_item(v1, index, text, None), index)
        } else {
            v1
        };
        (v2, if v2.current >= 0 {
            Some(v2.current)
        } else {
            None
        })
    }
}

/// The text a type-ahead search looks for after typing `c`: the typed text
/// continues when `continuing` (the previous key came soon enough).
pub open spec fn search_after(v: ComboView, c: char, continuing: bool) -> Seq<char> {
    if continuing {
        v.search_text.push(c)
    } else {
        seq![c]
    }
}

/// The prefix a type-ahead search matches and how far past the origin it
/// starts: repeating one letter cycles through the items starting with it.
pub open spec fn search_needle(lower: Seq<char>, c: char) -> (Seq<char>, int) {
    let first = if lower.len() > 0 {
        lower[0]
    } else {
        c
    };
    if forall|i: int| 0 <= i < lower.len() ==> lower[i] == first {
        (seq![first], 1)
    } else {
        (lower, 0)
    }
}

/// The first enabled item, among `n - k` starting at `start + k` and wrapping
/// around, whose lower-cased text begins with `needle`; -1 when none.
pub open spec fn search_hit(items: Seq<ComboItemView>, needle: Seq<char>, start: int, k: int) -> int
    decreases items.len() - k,
{
    let n = items.len() as int;
    if k < 0 || k >= n {
        -1
    } else {
        let i = (start + k) % n;
        if items[i].enabled && has_prefix(str_lowercase(items[i].text), needle) {
            i
        } else {
            search_hit(items, needle, start, k + 1)
        }
    }
}

/// Type-ahead selection after typing `c` (`keyboardSearch`): in the open popup
/// the matching item is highlighted; otherwise it becomes current and is
/// reported as activated.
pub open spec fn spec_keyboard_search(v: ComboView, c: char, continuing: bool) -> (ComboView, Option<int>) {
    let search = search_after(v, c, continuing);
    let (needle, offset) = search_needle(str_lowercase(search), c);
    let origin = if v.popup_visible {
        v.highlight_row
    } else {
        v.current
    };
    let start = if origin < 0 {
        0
    } else {
        origin + offset
    };
    let v0 = ComboView { search_text: search, ..v };
    let i = search_hit(v.items, needle, start, 0);
    if i < 0 {
        (v0, None)
    } else if v.popup_visible {
        (spec_set_highlighted(v0, i), None)
    } else if i != v.current {
        (spec_set_current_index(v0, i), Some(i))
    } else {
        (v0, None)
    }
}

/// Moving the current item to `t` by keyboard or wheel: an enabled item other
/// than the current one becomes current and is reported as activated.
pub open spec fn step_current(v: ComboView, t: int) -> (ComboView, Option<int>) {
    if t >= 0 && t != v.current {
        (spec_set_current_index(v, t), Some(t))
    } else {
        (v, None)
    }
}

/// A key pressed on the combo box (`keyPressEvent`); `continuing` tells
/// whether a type-ahead search goes on.
pub open spec fn spec_key_press(v: ComboView, key: u32, modifiers: u32, continuing: bool) -> (ComboView, ComboReaction) {
    let editable = v.edit is Some;
    let alt = has_alt(modifiers);
    let ctrl = has_ctrl(modifiers);
    let n = v.items.len() as int;
    if !v.enabled {
        (v, activated_only(None))
    } else if v.popup_visible {
        let (w, a) = spec_popup_key(v, key, modifiers);
        (w, activated_only(a))
    } else if (alt && (is_up(key) || is_down(key))) || (is_f4(key) && modifiers == 0) || (key == 0x20
        && !editable) {
        (spec_show_popup(v), activated_only(None))
    } else if (is_up(key) && !ctrl) || is_page_up(key) {
        let (w, a) = step_current(v, next_enabled_up(v.items, v.current));
        (w, activated_only(a))
    } else if (is_down(key) && !ctrl) || is_page_down(key) {
        let (w, a) = step_current(v, next_enabled_down(v.items, v.current));
        (w, activated_only(a))
    } else if is_home(key) && !editable {
        let (w, a) = step_current(v, next_enabled_down(v.items, -1));
        (w, activated_only(a))
    } else if is_end(key) && !editable {
        let (w, a) = step_current(v, next_enabled_up(v.items, n));
        (w, activated_only(a))
    } else if editable {
        if is_enter(key) {
            let (w, a) = spec_commit_edit_text(v);
            (w, activated_only(a))
        } else {
            (v, ComboReaction { activated: None, to_line_edit: true })
        }
    } else {
        match typed_char(key, modifiers) {
            Some(c) => {
                let (w, a) = spec_keyboard_search(v, c, continuing);
                (w, activated_only(a))
            },
            None => (v, activated_only(None)),
        }
    }
}

/// The wheel turned by `delta_y`: the open popup scrolls three rows; otherwise
/// the current item steps to the next enabled one.
pub open spec fn spec_wheel(v: ComboView, delta_y: i32) -> (ComboView, Option<int>) {
    if !v.enabled || delta_y == 0 {
        (v, None)
    } else if v.popup_visible {
        let top = if v.items.len() - popup_rows(v) > 0 {
            v.items.len() - popup_rows(v)
        } else {
            0
        };
        let s = v.popup_scroll + if delta_y > 0 {
            -3int
        } else {
            3int
        };
        (ComboView {
            popup_scroll: if s < 0 {
                0
            } else if s > top {
                top
            } else {
                s
            },
            ..v
        }, None)
    } else if delta_y > 0 {
        step_current(v, next_enabled_up(v.items, v.current))
    } else {
        step_current(v, next_enabled_down(v.items, v.current))
    }
}

/// The popup list's rectangle below a box `width` by `height` with rows
/// `row_height` high.
pub open spec fn popup_rect_of(v: ComboView, width: int, height: int, row_height: int) -> Rect {
    Rect { x: 0, y: height as i32, width: width as i32, height: (popup_rows(v) * row_height + 2) as i32 }
}

/// The item under `pos` in the open popup, or -1.
pub open spec fn popup_item_at_of(v: ComboView, pos: Point, width: int, height: int, row_height: int) -> int {
    let r = popup_rect_of(v, width, height, row_height);
    if !v.popup_visible || !r.spec_contains(pos) {
        -1
    } else {
        let d = pos.y - r.y - 1;
        let row = if d < 0 {
            0
        } else {
            d / row_height
        };
        let index = v.popup_scroll + row;
        if row < popup_rows(v) && index < v.items.len() {
            index
        } else {
            -1
        }
    }
}

/// The inputs the popup geometry is computed on without overflow: a row
/// height as the font gives it (at least 18) and a popup height within `i32`.
pub open spec fn popup_geometry_fits(v: ComboView, row_height: int) -> bool {
    row_height >= 18 && popup_rows(v) * row_height + 2 <= i32::MAX
}

/// A mouse button goes down at `pos` on a box `width` by `height`: in the open
/// popup, an enabled item is chosen and a click elsewhere closes it; on the
/// closed box, the line edit of an editable box takes clicks outside the
/// arrow, and any other click opens the popup.
pub open spec fn spec_mouse_press(v: ComboView, pos: Point, button: u32, width: int, height: int, row_height: int) -> (ComboView, ComboReaction) {
    if !v.enabled || button != 1 {
        (v, activated_only(None))
    } else if v.popup_visible {
        let index = popup_item_at_of(v, pos, width, height, row_height);
        if index >= 0 {
            if v.items[index].enabled {
                let (w, a) = spec_choose(ComboView { popup_visible: false, ..v }, index);
                (w, activated_only(a))
            } else {
                (v, activated_only(None))
            }
        } else {
            (ComboView { popup_visible: false, ..v }, activated_only(None))
        }
    } else if !(0 <= pos.x < width && 0 <= pos.y < height) {
        (v, activated_only(None))
    } else if v.edit is Some && !(Rect {
        x: if width - 20 > 0 {
            (width - 20) as i32
        } else {
            0
        },
        y: 0,
        width: 20,
        height: height as i32,
    }).spec_contains(pos) {
        (v, ComboReaction { activated: None, to_line_edit: true })
    } else {
        (spec_show_popup(v), activated_only(None))
    }
}

/// Whether `a` comes before `b` in code-point order ([`text_less`]).
fn text_less_exec(a: &Vec<char>, b: &Vec<char>) -> (r: bool)
    ensures
        r == text_less(a@, b@),
{
    let mut i: usize = 0;
    assert(a@.subrange(0, a@.len() as int) =~= a@);
    assert(b@.subrange(0, b@.len() as int) =~= b@);
    while i < a.len() && i < b.len()
        invariant
            0 <= i <= a@.len(),
            i <= b@.len(),
            text_less(a@.subrange(i as int, a@.len() as int), b@.subrange(i as int, b@.len() as int))
                == text_less(a@, b@),
        decreases a@.len() - i,
    {
        let ghost sa = a@.subrange(i as int, a@.len() as int);
        let ghost sb = b@.subrange(i as int, b@.len() as int);
        assert(sa[0] == a@[i as int]);
        assert(sb[0] == b@[i as int]);
        if a[i] != b[i] {
            return (a[i] as u32) < (b[i] as u32);
        }
        assert(sa.drop_first() =~= a@.subrange(i + 1, a@.len() as int));
        assert(sb.drop_first() =~= b@.subrange(i + 1, b@.len() as int));
        i = i + 1;
    }
    i == a.len() && i < b.len()
}

/// Whether every character of `v` is `first`.
fn all_same(v: &Vec<char>, first: char) -> (r: bool)
    ensures
        r == (forall|i: int| 0 <= i < v@.len() ==> v@[i] == first),
{
    let mut j: usize = 0;
    while j < v.len()
        invariant
            0 <= j <= v@.len(),
            forall|i: int| 0 <= i < j ==> v@[i] == first,
        decreases v@.len() - j,
    {
        if v[j] != first {
            return false;
        }
        j = j + 1;
    }
    true
}

/// The popup's answer to the mouse moving to `pos`: an enabled item under
/// the pointer becomes highlighted.
pub open spec fn spec_mouse_move(v: ComboView, pos: Point, width: int, height: int, row_height: int) -> ComboView {
    let index = popup_item_at_of(v, pos, width, height, row_height);
    if v.popup_visible && index >= 0 && v.items[index].enabled {
        spec_set_highlighted(v, index)
    } else {
        v
    }
}

/// Combo box holding items, a current item, an optional line edit and a popup list.
pub struct ComboBox {
    items: Vec<ComboItem>,
    current: i32,
    edit: Option<String>,
    insert_policy: InsertPolicy,
    duplicates_enabled: bool,
    max_visible_items: i32,
    max_count: i32,
    placeholder: String,
    enabled: bool,
    popup_visible: bool,
    highlight_row: i32,
    popup_scroll: i32,
    search_text: String,
}

impl View for ComboBox {
    type V = ComboView;

    closed spec fn view(&self) -> ComboView {
        ComboView {
            items: self.items@.map_values(|it: ComboItem| it@),
            current: self.current as int,
            edit: match &self.edit {
                Some(t) => Some(t@),
                None => None,
            },
            insert_policy: self.insert_policy,
            duplicates_enabled: self.duplicates_enabled,
            max_visible_items: self.max_visible_items as int,
            max_count: self.max_count as int,
            placeholder: self.placeholder@,
            enabled: self.enabled,
            popup_visible: self.popup_visible,
            highlight_row: self.highlight_row as int,
            popup_scroll: self.popup_scroll as int,
            search_text: self.search_text@,
        }
    }
}

impl ComboBox {
    /// The invariant of the combo box.
    pub open spec fn wf(&self) -> bool {
        combo_wf(self@)
    }

    /// An empty, enabled, non-editable combo box: no current item, items
    /// inserted at the bottom, duplicates refused, ten visible rows, no limit
    /// beyond `i32::MAX` items, popup closed.
    pub fn new() -> (r: ComboBox)
        ensures
            r.wf(),
            r@ == fresh_combo(),
    {
        let r = ComboBox {
            items: Vec::new(),
            current: -1,
            edit: None,
            insert_policy: InsertPolicy::InsertAtBottom,
            duplicates_enabled: false,
            max_visible_items: 10,
            max_count: i32::MAX,
            placeholder: String::new(),
            enabled: true,
            popup_visible: false,
            highlight_row: -1,
            popup_scroll: 0,
            search_text: String::new(),
        };
        assert(r@.items =~= Seq::<ComboItemView>::empty());
        r
    }

    /// Number of items.
    pub fn count(&self) -> (r: i32)
        requires
            self.wf(),
        ensures
            r == self@.items.len(),
    {
        self.items.len() as i32
    }

    /// Text of item `index`, or an empty string when there is no such item.
    pub fn item_text(&self, index: i32) -> (r: String)
        ensures
            r@ == item_text_of(self@, index as int),
    {
        if index >= 0 && (index as usize) < self.items.len() {
            self.items[index as usize].text.clone()
        } else {
            String::new()
        }
    }

    /// `QComboBox` moving to `new_current`, computed.
    fn apply_current(&mut self, new_current: i32, sync: bool)
        requires
            -1 <= new_current < old(self)@.items.len(),
        ensures
            final(self)@ == apply_current(old(self)@, new_current as int, sync),
    {
        let changed = new_current != self.current;
        self.current = new_current;
        if (changed || sync) && self.edit.is_some() {
            let t = self.item_text(new_current);
            self.edit = Some(t);
        }
        proof {
            assert(self@.items =~= apply_current(old(self)@, new_current as int, sync).items);
        }
    }

    /// Inserts an item with `text` and `data` at `index` (clamped to the
    /// items), unless the item limit is reached ([`spec_insert_item`]).
    pub fn insert_item(&mut self, index: i32, text: &str, data: Option<u64>)
        requires
            old(self).wf(),
        ensures
            final(self).wf(),
            final(self)@ == spec_insert_item(old(self)@, index as int, text@, data),
    {
        let count = self.items.len() as i32;
        if count >= self.max_count {
            return;
        }
        let at: i32 = if index < 0 {
            0
        } else if index > count {
            count
        } else {
            index
        };
        let ghost v0 = self@;
        let old_current = self.current;
        self.items.insert(at as usize, ComboItem { text: str_to_string(text), data, enabled: true });
        assert(self@.items =~= v0.items.insert(at as int, fresh_item(text@, data)));
        let new_count = count + 1;
        let new_current = if old_current < 0 {
            if at == 0 && 1 == new_count {
                0
            } else {
                -1
            }
        } else if at <= old_current {
            old_current + 1
        } else {
            old_current
        };
        if self.popup_visible && self.highlight_row >= at {
            self.highlight_row = self.highlight_row + 1;
        }
        self.apply_current(new_current, false);
    }

    /// Inserts `texts`, in order, at `index` ([`spec_insert_items`]).
    pub fn insert_items(&mut self, index: i32, texts: &[String])
        requires
            old(self).wf(),
        ensures
            final(self).wf(),
            final(self)@ == spec_insert_items(old(self)@, index as int, texts@.map_values(|t: String| t@)),
    {
        let ghost v0 = self@;
        let ghost ts = texts@.map_values(|t: String| t@);
        let count = self.items.len() as i32;
        let start: i32 = if index < 0 {
            0
        } else if index > count {
            count
        } else {
            index
        };
        let old_current = self.current;
        let mut inserted: usize = 0;
        assert(v0.items =~= v0.items.subrange(0, start as int) + Seq::new(
            0 as nat,
            |i: int| fresh_item(ts[i], None),
        ) + v0.items.subrange(start as int, count as int));
        while inserted < texts.len() && self.items.len() < self.max_count as usize
            invariant
                self.items@.len() == count + inserted,
                old_current == v0.current,
                0 <= start <= count == v0.items.len(),
                v0.items.len() <= v0.max_count <= i32::MAX,
                ts == texts@.map_values(|t: String| t@),
                0 <= inserted <= texts@.len(),
                inserted <= v0.max_count - v0.items.len(),
                self@ == (ComboView {
                    items: v0.items.subrange(0, start as int) + Seq::new(
                        inserted as nat,
                        |i: int| fresh_item(ts[i], None),
                    ) + v0.items.subrange(start as int, count as int),
                    ..v0
                }),
                self.max_count as int == v0.max_count,
            decreases texts@.len() - inserted,
        {
            let ghost before = self@.items;
            let t = texts[inserted].clone();
            let ghost at = start as int + inserted as int;
            self.items.insert(start as usize + inserted, ComboItem { text: t, data: None, enabled: true });
            assert(self@.items =~= before.insert(at, fresh_item(ts[inserted as int], None)));
            inserted = inserted + 1;
            assert(self@.items =~= v0.items.subrange(0, start as int) + Seq::new(
                inserted as nat,
                |i: int| fresh_item(ts[i], None),
            ) + v0.items.subrange(start as int, count as int));
        }
        proof {
            let room = v0.max_count - v0.items.len();
            if (inserted as int) < texts@.len() {
                assert(inserted as int == room);
            }
        }
        if inserted == 0 {
            assert(self@.items =~= v0.items);
            return;
        }
        let n = inserted as i32;
        let new_count = self.items.len() as i32;
        let new_current = if old_current < 0 {
            if start == 0 && n == new_count {
                0
            } else {
                -1
            }
        } else if start <= old_current {
            old_current + n
        } else {
            old_current
        };
        if self.popup_visible && self.highlight_row >= start {
            self.highlight_row = self.highlight_row + n;
        }
        self.apply_current(new_current, false);
    }

    /// Appends `texts`, in order.
    pub fn add_items(&mut self, texts: &[String])
        requires
            old(self).wf(),
        ensures
            final(self).wf(),
            final(self)@ == spec_insert_items(old(self)@, old(self)@.items.len() as int, texts@.map_values(|t: String| t@)),
    {
        let n = self.count();
        self.insert_items(n, texts);
    }

    /// Appends an item with `text`.
    pub fn add_item(&mut self, text: &str)
        requires
            old(self).wf(),
        ensures
            final(self).wf(),
            final(self)@ == spec_insert_item(old(self)@, old(self)@.items.len() as int, text@, None),
    {
        let n = self.count();
        self.insert_item(n, text, None);
    }

    /// Appends an item with `text` and user data `data`.
    pub fn add_item_with_data(&mut self, text: &str, data: u64)
        requires
            old(self).wf(),
        ensures
            final(self).wf(),
            final(self)@ == spec_insert_item(old(self)@, old(self)@.items.len() as int, text@, Some(data)),
    {
        let n = self.count();
        self.insert_item(n, text, Some(data));
    }

    /// Removes item `index` ([`spec_remove_item`]).
    pub fn remove_item(&mut self, index: i32)
        requires
            old(self).wf(),
        ensures
            final(self).wf(),
            final(self)@ == spec_remove_item(old(self)@, index as int),
    {
        let count = self.items.len() as i32;
        if index < 0 || index >= count {
            return;
        }
        let ghost v0 = self@;
        let old_current = self.current;
        let _ = self.items.remove(index as usize);
        assert(self@.items =~= v0.items.remove(index as int));
        let new_count = count - 1;
        let new_current = if new_count == 0 {
            -1
        } else if index < old_current {
            old_current - 1
        } else if index == old_current {
            if old_current < new_count - 1 {
                old_current
            } else {
                new_count - 1
            }
        } else {
            old_current
        };
        if self.highlight_row >= new_count {
            self.highlight_row = new_count - 1;
        }
        if new_count == 0 {
            self.popup_visible = false;
        }
        self.apply_current(new_current, index == old_current);
    }

    /// Removes every item ([`spec_clear`]).
    pub fn clear(&mut self)
        requires
            old(self).wf(),
        ensures
            final(self).wf(),
            final(self)@ == spec_clear(old(self)@),
    {
        self.items = Vec::new();
        self.popup_visible = false;
        self.highlight_row = -1;
        assert(self@.items =~= Seq::<ComboItemView>::empty());
        self.apply_current(-1, true);
    }

    /// Replaces the text of item `index`; the line edit of an editable box
    /// follows when it is the current item.
    pub fn set_item_text(&mut self, index: i32, text: &str)
        requires
            old(self).wf(),
        ensures
            final(self).wf(),
            0 <= index < old(self)@.items.len() ==> final(self)@ == (ComboView {
                items: old(self)@.items.update(
                    index as int,
                    ComboItemView { text: text@, ..old(self)@.items[index as int] },
                ),
                edit: if index == old(self)@.current && old(self)@.edit is Some {
                    Some(text@)
                } else {
                    old(self)@.edit
                },
                ..old(self)@
            }),
            !(0 <= index < old(self)@.items.len()) ==> final(self)@ == old(self)@,
    {
        if index < 0 || index as usize >= self.items.len() {
            return;
        }
        let ghost v0 = self@;
        self.items[index as usize].text = str_to_string(text);
        assert(self@.items =~= v0.items.update(index as int, ComboItemView { text: text@, ..v0.items[index as int] }));
        if index == self.current && self.edit.is_some() {
            self.edit = Some(str_to_string(text));
        }
    }

    /// User data of item `index`, or `None` when there is none.
    pub fn item_data(&self, index: i32) -> (r: Option<u64>)
        ensures
            r == if 0 <= index < self@.items.len() {
                self@.items[index as int].data
            } else {
                None
            },
    {
        if index >= 0 && (index as usize) < self.items.len() {
            self.items[index as usize].data
        } else {
            None
        }
    }

    /// Sets the user data of item `index`.
    pub fn set_item_data(&mut self, index: i32, data: Option<u64>)
        requires
            old(self).wf(),
        ensures
            final(self).wf(),
            0 <= index < old(self)@.items.len() ==> final(self)@ == (ComboView {
                items: old(self)@.items.update(index as int, ComboItemView { data, ..old(self)@.items[index as int] }),
                ..old(self)@
            }),
            !(0 <= index < old(self)@.items.len()) ==> final(self)@ == old(self)@,
    {
        if index >= 0 && (index as usize) < self.items.len() {
            let ghost v0 = self@;
            self.items[index as usize].data = data;
            assert(self@.items =~= v0.items.update(index as int, ComboItemView { data, ..v0.items[index as int] }));
        }
    }

    /// Whether item `index` exists and is enabled.
    pub fn is_item_enabled(&self, index: i32) -> (r: bool)
        ensures
            r == (0 <= index < self@.items.len() && self@.items[index as int].enabled),
    {
        index >= 0 && (index as usize) < self.items.len() && self.items[index as usize].enabled
    }

    /// Enables or disables item `index`; disabled items are skipped by
    /// navigation and cannot be chosen.
    pub fn set_item_enabled(&mut self, index: i32, enabled: bool)
        requires
            old(self).wf(),
        ensures
            final(self).wf(),
            0 <= index < old(self)@.items.len() ==> final(self)@ == (ComboView {
                items: old(self)@.items.update(index as int, ComboItemView { enabled, ..old(self)@.items[index as int] }),
                ..old(self)@
            }),
            !(0 <= index < old(self)@.items.len()) ==> final(self)@ == old(self)@,
    {
        if index >= 0 && (index as usize) < self.items.len() {
            let ghost v0 = self@;
            self.items[index as usize].enabled = enabled;
            assert(self@.items =~= v0.items.update(index as int, ComboItemView { enabled, ..v0.items[index as int] }));
        }
    }

    /// Index of the first item whose text matches `text` under `flags`, or -1.
    pub fn find_text(&self, text: &str, flags: MatchFlags) -> (r: i32)
        requires
            self.wf(),
        ensures
            r == first_match(self@.items, text@, flags, 0),
    {
        let n = self.items.len();
        let mut k: usize = 0;
        while k < n
            invariant
                0 <= k <= n == self@.items.len() <= i32::MAX,
                first_match(self@.items, text@, flags, k as int) == first_match(self@.items, text@, flags, 0),
            decreases n - k,
        {
            if flags.matches(self.items[k].text.as_str(), text) {
                return k as i32;
            }
            k = k + 1;
        }
        -1
    }

    /// Index of the first item with user data `data`, or -1.
    pub fn find_data(&self, data: Option<u64>) -> (r: i32)
        requires
            self.wf(),
        ensures
            r == first_data(self@.items, data, 0),
    {
        let n = self.items.len();
        let mut k: usize = 0;
        while k < n
            invariant
                0 <= k <= n == self@.items.len() <= i32::MAX,
                first_data(self@.items, data, k as int) == first_data(self@.items, data, 0),
            decreases n - k,
        {
            if self.items[k].data == data {
                return k as i32;
            }
            k = k + 1;
        }
        -1
    }

    /// The current item's index, or -1.
    pub fn current_index(&self) -> (r: i32)
        ensures
            r == self@.current,
    {
        self.current
    }

    /// Sets the current item ([`spec_set_current_index`]).
    pub fn set_current_index(&mut self, index: i32)
        requires
            old(self).wf(),
        ensures
            final(self).wf(),
            final(self)@ == spec_set_current_index(old(self)@, index as int),
    {
        let i = if index >= 0 && (index as usize) < self.items.len() {
            index
        } else {
            -1
        };
        self.apply_current(i, false);
    }

    /// The current text ([`current_text_of`]).
    pub fn current_text(&self) -> (r: String)
        ensures
            r@ == current_text_of(self@),
    {
        match &self.edit {
            Some(t) => t.clone(),
            None => self.item_text(self.current),
        }
    }

    /// The user data of the current item.
    pub fn current_data(&self) -> (r: Option<u64>)
        ensures
            r == if 0 <= self@.current < self@.items.len() {
                self@.items[self@.current].data
            } else {
                None
            },
    {
        self.item_data(self.current)
    }

    /// Editable: sets the line edit's text. Otherwise makes the first item
    /// with exactly this text current, if there is one.
    pub fn set_current_text(&mut self, text: &str)
        requires
            old(self).wf(),
        ensures
            final(self).wf(),
            old(self)@.edit is Some ==> final(self)@ == (ComboView { edit: Some(text@), ..old(self)@ }),
            old(self)@.edit is None ==> final(self)@ == if first_match(old(self)@.items, text@, MatchFlags(16), 0) >= 0 {
                spec_set_current_index(old(self)@, first_match(old(self)@.items, text@, MatchFlags(16), 0))
            } else {
                old(self)@
            },
    {
        if self.edit.is_some() {
            self.set_edit_text(text);
        } else {
            let i = self.find_text(text, MatchFlags::default());
            if i >= 0 {
                self.set_current_index(i);
            }
        }
    }

    pub fn is_editable(&self) -> (r: bool)
        ensures
            r == self@.edit is Some,
    {
        self.edit.is_some()
    }

    /// Switches between a plain button and an embedded line edit; a new line
    /// edit shows the current item's text.
    pub fn set_editable(&mut self, editable: bool)
        requires
            old(self).wf(),
        ensures
            final(self).wf(),
            editable == (old(self)@.edit is Some) ==> final(self)@ == old(self)@,
            editable && old(self)@.edit is None ==> final(self)@ == (ComboView {
                edit: Some(item_text_of(old(self)@, old(self)@.current)),
                ..old(self)@
            }),
            !editable && old(self)@.edit is Some ==> final(self)@ == (ComboView { edit: None, ..old(self)@ }),
    {
        if editable == self.edit.is_some() {
            return;
        }
        if editable {
            let t = self.item_text(self.current);
            self.edit = Some(t);
        } else {
            self.edit = None;
        }
    }

    /// The line edit's text (empty when not editable).
    pub fn edit_text(&self) -> (r: String)
        ensures
            r@ == match self@.edit {
                Some(t) => t,
                None => Seq::empty(),
            },
    {
        match &self.edit {
            Some(t) => t.clone(),
            None => String::new(),
        }
    }

    /// Sets the line edit's text; ignored when not editable.
    pub fn set_edit_text(&mut self, text: &str)
        requires
            old(self).wf(),
        ensures
            final(self).wf(),
            old(self)@.edit is Some ==> final(self)@ == (ComboView { edit: Some(text@), ..old(self)@ }),
            old(self)@.edit is None ==> final(self)@ == old(self)@,
    {
        if self.edit.is_some() {
            self.edit = Some(str_to_string(text));
        }
    }

    pub fn insert_policy(&self) -> (r: InsertPolicy)
        ensures
            r == self@.insert_policy,
    {
        self.insert_policy
    }

    pub fn set_insert_policy(&mut self, policy: InsertPolicy)
        requires
            old(self).wf(),
        ensures
            final(self).wf(),
            final(self)@ == (ComboView { insert_policy: policy, ..old(self)@ }),
    {
        self.insert_policy = policy;
    }

    pub fn duplicates_enabled(&self) -> (r: bool)
        ensures
            r == self@.duplicates_enabled,
    {
        self.duplicates_enabled
    }

    pub fn set_duplicates_enabled(&mut self, enabled: bool)
        requires
            old(self).wf(),
        ensures
            final(self).wf(),
            final(self)@ == (ComboView { duplicates_enabled: enabled, ..old(self)@ }),
    {
        self.duplicates_enabled = enabled;
    }

    pub fn max_visible_items(&self) -> (r: i32)
        ensures
            r == self@.max_visible_items,
    {
        self.max_visible_items
    }

    /// Sets how many rows the popup shows at once; negative values are ignored.
    pub fn set_max_visible_items(&mut self, items: i32)
        requires
            old(self).wf(),
        ensures
            final(self).wf(),
            final(self)@ == if items >= 0 {
                ComboView { max_visible_items: items as int, ..old(self)@ }
            } else {
                old(self)@
            },
    {
        if items >= 0 {
            self.max_visible_items = items;
        }
    }

    pub fn max_count(&self) -> (r: i32)
        ensures
            r == self@.max_count,
    {
        self.max_count
    }

    /// Limits the number of items, removing the last ones beyond it;
    /// negative limits are ignored.
    pub fn set_max_count(&mut self, max: i32)
        requires
            old(self).wf(),
        ensures
            final(self).wf(),
            max < 0 ==> final(self)@ == old(self)@,
            max >= 0 ==> final(self)@ == (ComboView { max_count: max as int, ..truncate_items(old(self)@, max as int) }),
    {
        if max < 0 {
            return;
        }
        while self.items.len() > max as usize
            invariant
                old(self).wf(),
                self.wf(),
                max >= 0,
                self.max_count == old(self).max_count,
                truncate_items(self@, max as int) == truncate_items(old(self)@, max as int),
            decreases self@.items.len(),
        {
            let last = (self.items.len() - 1) as i32;
            let ghost before = self@;
            self.remove_item(last);
            assert(before.max_count == self@.max_count);
        }
        self.max_count = max;
    }

    pub fn placeholder_text(&self) -> (r: &str)
        ensures
            r@ == self@.placeholder,
    {
        self.placeholder.as_str()
    }

    /// Sets the text shown while no item is current.
    pub fn set_placeholder_text(&mut self, text: &str)
        requires
            old(self).wf(),
        ensures
            final(self).wf(),
            final(self)@ == (ComboView { placeholder: text@, ..old(self)@ }),
    {
        self.placeholder = str_to_string(text);
    }

    pub fn is_enabled(&self) -> (r: bool)
        ensures
            r == self@.enabled,
    {
        self.enabled
    }

    /// Enables or disables the combo box; disabling closes the popup.
    pub fn set_enabled(&mut self, enabled: bool)
        requires
            old(self).wf(),
        ensures
            final(self).wf(),
            final(self)@ == (ComboView {
                enabled,
                popup_visible: if enabled {
                    old(self)@.popup_visible
                } else {
                    false
                },
                ..old(self)@
            }),
    {
        self.enabled = enabled;
        if !enabled {
            self.popup_visible = false;
        }
    }

    /// The first enabled item after `from`, or -1.
    fn next_enabled_down(&self, from: i32) -> (r: i32)
        requires
            self.wf(),
        ensures
            r == next_enabled_down(self@.items, from as int),
            -1 <= r < self@.items.len(),
    {
        let n = self.items.len() as i64;
        let mut i = from as i64;
        if i + 1 < 0 {
            return -1;
        }
        while i + 1 < n
            invariant
                from <= i,
                i + 1 >= 0,
                i32::MIN <= i <= i32::MAX,
                n == self@.items.len() <= i32::MAX,
                next_enabled_down(self@.items, i as int) == next_enabled_down(self@.items, from as int),
            decreases n - i,
        {
            if self.items[(i + 1) as usize].enabled {
                return (i + 1) as i32;
            }
            i = i + 1;
        }
        -1
    }

    /// The last enabled item before `from`, or -1.
    fn next_enabled_up(&self, from: i32) -> (r: i32)
        requires
            self.wf(),
        ensures
            r == next_enabled_up(self@.items, from as int),
            -1 <= r < self@.items.len(),
    {
        let n = self.items.len() as i64;
        let mut i = from as i64;
        if i - 1 >= n {
            return -1;
        }
        while i - 1 >= 0
            invariant
                i <= from,
                i - 1 < n,
                i32::MIN <= i <= i32::MAX,
                n == self@.items.len() <= i32::MAX,
                next_enabled_up(self@.items, i as int) == next_enabled_up(self@.items, from as int),
            decreases i,
        {
            if self.items[(i - 1) as usize].enabled {
                return (i - 1) as i32;
            }
            i = i - 1;
        }
        -1
    }

    /// Whether the popup list is open.
    pub fn is_popup_visible(&self) -> (r: bool)
        ensures
            r == self@.popup_visible,
    {
        self.popup_visible
    }

    /// The highlighted row of the popup, or -1.
    pub fn highlighted_index(&self) -> (r: i32)
        ensures
            r == self@.highlight_row,
    {
        self.highlight_row
    }

    /// The first row the popup shows.
    pub fn popup_scroll(&self) -> (r: i32)
        ensures
            r == self@.popup_scroll,
    {
        self.popup_scroll
    }

    /// Number of rows the popup shows at once ([`popup_rows`]).
    pub fn popup_visible_rows(&self) -> (r: i32)
        requires
            self.wf(),
        ensures
            r == popup_rows(self@),
    {
        let m = if self.max_visible_items > 1 {
            self.max_visible_items
        } else {
            1
        };
        let n = self.items.len() as i32;
        if n < m {
            n
        } else {
            m
        }
    }

    fn ensure_highlight_visible(&mut self)
        requires
            old(self).wf(),
        ensures
            final(self).wf(),
            final(self)@ == ensure_highlight_visible(old(self)@),
    {
        let rows = self.popup_visible_rows();
        let h = self.highlight_row as i64;
        let sc = self.popup_scroll as i64;
        let s1: i64 = if h < sc {
            if h > 0 {
                h
            } else {
                0
            }
        } else if h >= sc + rows as i64 {
            h - rows as i64 + 1
        } else {
            sc
        };
        let n = self.items.len() as i64;
        let top: i64 = if n - rows as i64 > 0 {
            n - rows as i64
        } else {
            0
        };
        let s2 = if s1 < 0 {
            0
        } else if s1 > top {
            top
        } else {
            s1
        };
        self.popup_scroll = s2 as i32;
    }

    fn set_highlighted(&mut self, index: i32)
        requires
            old(self).wf(),
        ensures
            final(self).wf(),
            final(self)@ == spec_set_highlighted(old(self)@, index as int),
    {
        if index == self.highlight_row || index < 0 || index as usize >= self.items.len() {
            if index >= 0 {
                self.ensure_highlight_visible();
            }
            return;
        }
        self.highlight_row = index;
        self.ensure_highlight_visible();
    }

    /// Opens the popup list ([`spec_show_popup`]).
    pub fn show_popup(&mut self)
        requires
            old(self).wf(),
        ensures
            final(self).wf(),
            final(self)@ == spec_show_popup(old(self)@),
    {
        if self.items.len() == 0 || self.popup_visible {
            return;
        }
        self.popup_visible = true;
        let start = if self.current >= 0 {
            self.current
        } else {
            self.next_enabled_down(-1)
        };
        self.popup_scroll = 0;
        self.set_highlighted(start);
    }

    /// Closes the popup list.
    pub fn hide_popup(&mut self)
        requires
            old(self).wf(),
        ensures
            final(self).wf(),
            final(self)@ == (ComboView { popup_visible: false, ..old(self)@ }),
    {
        self.popup_visible = false;
    }

    /// The user picks item `index` ([`spec_choose`]); returns the activated item.
    fn choose_item(&mut self, index: i32) -> (r: Option<i32>)
        requires
            old(self).wf(),
        ensures
            final(self).wf(),
            final(self)@ == spec_choose(old(self)@, index as int).0,
            r == match spec_choose(old(self)@, index as int).1 {
                Some(i) => Some(i as i32),
                None => None,
            },
    {
        if !self.is_item_enabled(index) {
            return None;
        }
        if index != self.current {
            self.set_current_index(index);
        }
        Some(index)
    }

    /// A key pressed while the popup is open ([`spec_popup_key`]); returns
    /// the activated item, if any.
    pub fn popup_key(&mut self, key: u32, modifiers: u32) -> (r: Option<i32>)
        requires
            old(self).wf(),
        ensures
            final(self).wf(),
            final(self)@ == spec_popup_key(old(self)@, key, modifiers).0,
            r == match spec_popup_key(old(self)@, key, modifiers).1 {
                Some(i) => Some(i as i32),
                None => None,
            },
    {
        let rows = self.popup_visible_rows();
        let page: i64 = if rows > 1 {
            rows as i64
        } else {
            1
        };
        let n = self.items.len() as i64;
        let h = self.highlight_row as i64;
        if is_escape(key) || is_f4(key) || (has_alt(modifiers) && (is_up(key) || is_down(key))) {
            self.hide_popup();
            return None;
        }
        if is_enter(key) || key == 0x20 {
            let hl = self.highlight_row;
            self.hide_popup();
            return self.choose_item(hl);
        }
        let target: i32 = if is_up(key) {
            self.next_enabled_up(self.highlight_row)
        } else if is_down(key) {
            self.next_enabled_down(self.highlight_row)
        } else if is_home(key) {
            self.next_enabled_down(-1)
        } else if is_end(key) {
            self.next_enabled_up(n as i32)
        } else if is_page_up(key) {
            let from: i64 = if h - page + 1 > 0 {
                h - page + 1
            } else {
                0
            };
            let t = self.next_enabled_down((from - 1) as i32);
            if t >= 0 && (t as i64) < h {
                t
            } else {
                self.next_enabled_down(-1)
            }
        } else if is_page_down(key) {
            let from: i64 = if h + page - 1 < n - 1 {
                h + page - 1
            } else {
                n - 1
            };
            let t = self.next_enabled_up((from + 1) as i32);
            if (t as i64) > h {
                t
            } else {
                self.next_enabled_up(n as i32)
            }
        } else {
            -1
        };
        if target >= 0 {
            self.set_highlighted(target);
        }
        None
    }

    /// The first item whose lower-cased text comes after `lower`, or the
    /// number of items ([`alphabetical_slot`]).
    fn alphabetical_slot(&self, lower: &Vec<char>) -> (r: i32)
        requires
            self.wf(),
        ensures
            r == alphabetical_slot(self@.items, lower@, 0),
    {
        let n = self.items.len();
        let mut k: usize = 0;
        while k < n
            invariant
                0 <= k <= n == self@.items.len() <= i32::MAX,
                alphabetical_slot(self@.items, lower@, k as int) == alphabetical_slot(self@.items, lower@, 0),
            decreases n - k,
        {
            let lt = to_lowercase(self.items[k].text.as_str());
            let lv = chars_of(lt.as_str());
            if text_less_exec(lower, &lv) {
                return k as i32;
            }
            k = k + 1;
        }
        n as i32
    }

    /// Return pressed in the line edit ([`spec_commit_edit_text`]); returns
    /// the activated item, if any.
    pub fn commit_edit_text(&mut self) -> (r: Option<i32>)
        requires
            old(self).wf(),
        ensures
            final(self).wf(),
            final(self)@ == spec_commit_edit_text(old(self)@).0,
            r == match spec_commit_edit_text(old(self)@).1 {
                Some(i) => Some(i as i32),
                None => None,
            },
    {
        let text = self.edit_text();
        if vstd::string::StrSliceExecFns::unicode_len(text.as_str()) == 0 {
            return None;
        }
        let count = self.count();
        if count >= self.max_count && !matches!(self.insert_policy, InsertPolicy::InsertAtCurrent) {
            return None;
        }
        if !self.duplicates_enabled {
            let existing = self.find_text(text.as_str(), MatchFlags(8));
            if existing >= 0 {
                self.set_current_index(existing);
                return Some(existing);
            }
        }
        let index: i32 = match self.insert_policy {
            InsertPolicy::InsertAtTop => 0,
            InsertPolicy::InsertAtBottom => count,
            InsertPolicy::InsertAtCurrent => {
                if count == 0 || self.current < 0 {
                    0
                } else {
                    let cur = self.current;
                    self.set_item_text(cur, text.as_str());
                    -1
                }
            },
            InsertPolicy::InsertAfterCurrent => {
                if count == 0 || self.current < 0 {
                    0
                } else {
                    self.current + 1
                }
            },
            InsertPolicy::InsertBeforeCurrent => {
                if count == 0 || self.current < 0 {
                    0
                } else {
                    self.current
                }
            },
            InsertPolicy::InsertAlphabetically => {
                let lower = to_lowercase(text.as_str());
                let lv = chars_of(lower.as_str());
                self.alphabetical_slot(&lv)
            },
            InsertPolicy::NoInsert => -1,
        };
        if index >= 0 {
            self.insert_item(index, text.as_str(), None);
            self.set_current_index(index);
        }
        let cur = self.current;
        if cur >= 0 {
            Some(cur)
        } else {
            None
        }
    }

    /// Type-ahead selection after typing `c` ([`spec_keyboard_search`]);
    /// `continuing` tells whether the previous key came soon enough for the
    /// typed text to go on. Returns the activated item, if any.
    pub fn keyboard_search(&mut self, c: char, continuing: bool) -> (r: Option<i32>)
        requires
            old(self).wf(),
        ensures
            final(self).wf(),
            final(self)@ == spec_keyboard_search(old(self)@, c, continuing).0,
            r == match spec_keyboard_search(old(self)@, c, continuing).1 {
                Some(i) => Some(i as i32),
                None => None,
            },
    {
        let ghost v = self@;
        if !continuing {
            self.search_text = String::new();
        }
        push_char(&mut self.search_text, c);
        assert(self.search_text@ =~= search_after(v, c, continuing));
        let lower = to_lowercase(self.search_text.as_str());
        let lv = chars_of(lower.as_str());
        let first = if lv.len() > 0 {
            lv[0]
        } else {
            c
        };
        let repeated = all_same(&lv, first);
        let (needle, offset): (Vec<char>, i64) = if repeated {
            (vec![first], 1)
        } else {
            (lv, 0)
        };
        let ghost sn = search_needle(str_lowercase(search_after(v, c, continuing)), c);
        assert(needle@ =~= sn.0);
        assert(offset == sn.1);
        let needle_s = string_of(&needle);
        let origin = if self.popup_visible {
            self.highlight_row
        } else {
            self.current
        };
        let start: i64 = if origin < 0 {
            0
        } else {
            origin as i64 + offset
        };
        let n = self.items.len() as i64;
        let mut k: i64 = 0;
        while k < n
            invariant
                0 <= k <= n == self@.items.len() <= i32::MAX,
                0 <= start <= i32::MAX as i64 + 1,
                self.wf(),
                self@ == (ComboView { search_text: search_after(v, c, continuing), ..v }),
                needle_s@ == sn.0,
                v == old(self)@,
                sn == search_needle(str_lowercase(search_after(v, c, continuing)), c),
                start == (if (if v.popup_visible {
                    v.highlight_row
                } else {
                    v.current
                }) < 0 {
                    0
                } else {
                    (if v.popup_visible {
                        v.highlight_row
                    } else {
                        v.current
                    }) + sn.1
                }),
                search_hit(v.items, sn.0, start as int, k as int) == search_hit(v.items, sn.0, start as int, 0),
            decreases n - k,
        {
            let i = ((start + k) % n) as i32;
            if self.is_item_enabled(i) {
                let lt = to_lowercase(self.items[i as usize].text.as_str());
                assert(self.items@[i as int]@.text == v.items[i as int].text);
                if match_kind(2, lt.as_str(), needle_s.as_str()) {
                    assert(search_hit(v.items, sn.0, start as int, k as int) == i);
                    assert(search_hit(v.items, sn.0, start as int, 0) == i);
                    if self.popup_visible {
                        self.set_highlighted(i);
                        return None;
                    } else if i != self.current {
                        self.set_current_index(i);
                        return Some(i);
                    }
                    return None;
                }
            }
            k = k + 1;
        }
        None
    }

    /// Moves the current item to `t` ([`step_current`]).
    fn step_current(&mut self, t: i32) -> (r: ComboReaction)
        requires
            old(self).wf(),
            -1 <= t < old(self)@.items.len(),
        ensures
            final(self).wf(),
            final(self)@ == step_current(old(self)@, t as int).0,
            r == activated_only(step_current(old(self)@, t as int).1),
    {
        if t >= 0 && t != self.current {
            self.set_current_index(t);
            ComboReaction { activated: Some(t), to_line_edit: false }
        } else {
            ComboReaction { activated: None, to_line_edit: false }
        }
    }

    /// A key pressed on the combo box ([`spec_key_press`]); `continuing`
    /// tells whether a type-ahead search goes on.
    pub fn key_press_event(&mut self, key: u32, modifiers: u32, continuing: bool) -> (r: ComboReaction)
        requires
            old(self).wf(),
        ensures
            final(self).wf(),
            final(self)@ == spec_key_press(old(self)@, key, modifiers, continuing).0,
            r == spec_key_press(old(self)@, key, modifiers, continuing).1,
    {
        if !self.enabled {
            return ComboReaction { activated: None, to_line_edit: false };
        }
        if self.popup_visible {
            let a = self.popup_key(key, modifiers);
            return ComboReaction { activated: a, to_line_edit: false };
        }
        let editable = self.edit.is_some();
        let alt = has_alt(modifiers);
        let ctrl = has_ctrl(modifiers);
        if (alt && (is_up(key) || is_down(key))) || (is_f4(key) && modifiers == 0) || (key == 0x20
            && !editable) {
            self.show_popup();
            return ComboReaction { activated: None, to_line_edit: false };
        }
        if (is_up(key) && !ctrl) || is_page_up(key) {
            let t = self.next_enabled_up(self.current);
            return self.step_current(t);
        }
        if (is_down(key) && !ctrl) || is_page_down(key) {
            let t = self.next_enabled_down(self.current);
            return self.step_current(t);
        }
        if is_home(key) && !editable {
            let t = self.next_enabled_down(-1);
            return self.step_current(t);
        }
        if is_end(key) && !editable {
            let n = self.count();
            let t = self.next_enabled_up(n);
            return self.step_current(t);
        }
        if editable {
            if is_enter(key) {
                let a = self.commit_edit_text();
                return ComboReaction { activated: a, to_line_edit: false };
            }
            return ComboReaction { activated: None, to_line_edit: true };
        }
        match typed_char(key, modifiers) {
            Some(c) => {
                let a = self.keyboard_search(c, continuing);
                ComboReaction { activated: a, to_line_edit: false }
            },
            None => ComboReaction { activated: None, to_line_edit: false },
        }
    }

    /// The wheel turned by `delta_y` ([`spec_wheel`]); returns the activated
    /// item, if any.
    pub fn wheel_event(&mut self, delta_y: i32) -> (r: Option<i32>)
        requires
            old(self).wf(),
        ensures
            final(self).wf(),
            final(self)@ == spec_wheel(old(self)@, delta_y).0,
            r == match spec_wheel(old(self)@, delta_y).1 {
                Some(i) => Some(i as i32),
                None => None,
            },
    {
        if !self.enabled || delta_y == 0 {
            return None;
        }
        if self.popup_visible {
            let rows = self.popup_visible_rows() as i64;
            let n = self.items.len() as i64;
            let top: i64 = if n - rows > 0 {
                n - rows
            } else {
                0
            };
            let s: i64 = self.popup_scroll as i64 + if delta_y > 0 {
                -3i64
            } else {
                3i64
            };
            let s2: i64 = if s < 0 {
                0
            } else if s > top {
                top
            } else {
                s
            };
            self.popup_scroll = s2 as i32;
            return None;
        }
        let t = if delta_y > 0 {
            self.next_enabled_up(self.current)
        } else {
            self.next_enabled_down(self.current)
        };
        self.step_current(t).activated
    }

    /// The popup list's rectangle, directly below a box `width` by `height`,
    /// with rows `row_height` high ([`popup_rect_of`]).
    pub fn popup_rect(&self, width: i32, height: i32, row_height: i32) -> (r: Rect)
        requires
            self.wf(),
            popup_geometry_fits(self@, row_height as int),
        ensures
            r == popup_rect_of(self@, width as int, height as int, row_height as int),
    {
        let rows = self.popup_visible_rows();
        proof {
            assert(rows * row_height <= i32::MAX) by (nonlinear_arith)
                requires
                    0 <= rows,
                    rows * row_height + 2 <= i32::MAX,
            ;
            assert(rows * row_height >= 0) by (nonlinear_arith)
                requires
                    0 <= rows,
                    row_height >= 18,
            ;
        }
        Rect::new(0, height, width, rows * row_height + 2)
    }

    /// The item under `pos` in the open popup, or -1 ([`popup_item_at_of`]).
    pub fn popup_item_at(&self, pos: Point, width: i32, height: i32, row_height: i32) -> (r: i32)
        requires
            self.wf(),
            popup_geometry_fits(self@, row_height as int),
        ensures
            r == popup_item_at_of(self@, pos, width as int, height as int, row_height as int),
            r >= 0 ==> r < self@.items.len(),
    {
        let rect = self.popup_rect(width, height, row_height);
        if !self.popup_visible || !rect.contains(pos) {
            return -1;
        }
        let d: i64 = pos.y as i64 - rect.y as i64 - 1;
        let row: i64 = if d < 0 {
            0
        } else {
            d / row_height as i64
        };
        let index: i64 = self.popup_scroll as i64 + row;
        let rows = self.popup_visible_rows() as i64;
        if row < rows && index < self.items.len() as i64 {
            index as i32
        } else {
            -1
        }
    }

    /// A mouse button goes down at `pos` on a box `width` by `height` with
    /// popup rows `row_height` high ([`spec_mouse_press`]).
    pub fn mouse_press_event(&mut self, pos: Point, button: u32, width: i32, height: i32, row_height: i32) -> (r: ComboReaction)
        requires
            old(self).wf(),
            popup_geometry_fits(old(self)@, row_height as int),
        ensures
            final(self).wf(),
            final(self)@ == spec_mouse_press(old(self)@, pos, button, width as int, height as int, row_height as int).0,
            r == spec_mouse_press(old(self)@, pos, button, width as int, height as int, row_height as int).1,
    {
        if !self.enabled || button != 1 {
            return ComboReaction { activated: None, to_line_edit: false };
        }
        if self.popup_visible {
            let index = self.popup_item_at(pos, width, height, row_height);
            if index >= 0 {
                if self.is_item_enabled(index) {
                    self.hide_popup();
                    let a = self.choose_item(index);
                    return ComboReaction { activated: a, to_line_edit: false };
                }
                return ComboReaction { activated: None, to_line_edit: false };
            }
            self.hide_popup();
            return ComboReaction { activated: None, to_line_edit: false };
        }
        if !(0 <= pos.x && pos.x < width && 0 <= pos.y && pos.y < height) {
            return ComboReaction { activated: None, to_line_edit: false };
        }
        let ax: i32 = if width as i64 - 20 > 0 {
            width - 20
        } else {
            0
        };
        let arrow = Rect::new(ax, 0, 20, height);
        if self.edit.is_some() && !arrow.contains(pos) {
            return ComboReaction { activated: None, to_line_edit: true };
        }
        self.show_popup();
        ComboReaction { activated: None, to_line_edit: false }
    }

    /// The mouse moves to `pos` ([`spec_mouse_move`]).
    pub fn mouse_move_event(&mut self, pos: Point, width: i32, height: i32, row_height: i32)
        requires
            old(self).wf(),
            popup_geometry_fits(old(self)@, row_height as int),
        ensures
            final(self).wf(),
            final(self)@ == spec_mouse_move(old(self)@, pos, width as int, height as int, row_height as int),
    {
        if self.popup_visible {
            let index = self.popup_item_at(pos, width, height, row_height);
            if index >= 0 && self.is_item_enabled(index) {
                self.set_highlighted(index);
            }
        }
    }

    /// Focus leaves the combo box; the popup closes unless the focus went to
    /// a popup (`popup_reason`).
    pub fn focus_out_event(&mut self, popup_reason: bool)
        requires
            old(self).wf(),
        ensures
            final(self).wf(),
            final(self)@ == if popup_reason {
                old(self)@
            } else {
                ComboView { popup_visible: false, ..old(self)@ }
            },
    {
        if !popup_reason {
            self.hide_popup();
        }
    }
}

} // verus!
