//! A plain-text editing buffer: text, cursor and selection, read-only flag,
//! and undo/redo of programmatic edits.

use vstd::prelude::*;

use crate::text::{chars_of, string_of};

verus! {

/// A snapshot that undo or redo can bring back: text and cursor.
pub type EditSnapshot = (Vec<char>, usize);

/// The editing buffer as plain values.
pub struct TextEditView {
    pub text: Seq<char>,
    pub cursor: nat,
    pub anchor: nat,
    pub read_only: bool,
    pub undo: Seq<(Seq<char>, nat)>,
    pub redo: Seq<(Seq<char>, nat)>,
}

/// The snapshots as plain values.
pub open spec fn snapshots(v: Seq<EditSnapshot>) -> Seq<(Seq<char>, nat)> {
    v.map_values(|e: EditSnapshot| (e.0@, e.1 as nat))
}

/// Every snapshot's cursor lies within its text.
pub open spec fn snapshots_wf(v: Seq<(Seq<char>, nat)>) -> bool {
    forall|i: int| 0 <= i < v.len() ==> (#[trigger] v[i]).1 <= v[i].0.len()
}

/// Start of the selection.
pub open spec fn selection_start(v: TextEditView) -> nat {
    if v.anchor <= v.cursor {
        v.anchor
    } else {
        v.cursor
    }
}

/// End of the selection.
pub open spec fn selection_end(v: TextEditView) -> nat {
    if v.anchor <= v.cursor {
        v.cursor
    } else {
        v.anchor
    }
}

/// A multi-line plain-text buffer with a cursor, a selection (from the anchor
/// to the cursor), a read-only flag for user input, and undo/redo history.
pub struct TextEdit {
    text: Vec<char>,
    cursor: usize,
    anchor: usize,
    read_only: bool,
    undo: Vec<EditSnapshot>,
    redo: Vec<EditSnapshot>,
}

impl View for TextEdit {
    type V = TextEditView;

    closed spec fn view(&self) -> TextEditView {
        TextEditView {
            text: self.text@,
            cursor: self.cursor as nat,
            anchor: self.anchor as nat,
            read_only: self.read_only,
            undo: snapshots(self.undo@),
            redo: snapshots(self.redo@),
        }
    }
}

/// Cursor and anchor lie within the text, and so do the snapshots' cursors.
pub open spec fn text_edit_wf(v: TextEditView) -> bool {
    &&& v.cursor <= v.text.len()
    &&& v.anchor <= v.text.len()
    &&& snapshots_wf(v.undo)
    &&& snapshots_wf(v.redo)
}

/// A copy of a character vector.
fn copy_chars(v: &Vec<char>) -> (r: Vec<char>)
    ensures
        r@ == v@,
{
    let mut out: Vec<char> = Vec::new();
    let mut i: usize = 0;
    while i < v.len()
        invariant
            0 <= i <= v@.len(),
            out@ == v@.subrange(0, i as int),
        decreases v@.len() - i,
    {
        out.push(v[i]);
        i = i + 1;
        assert(out@ =~= v@.subrange(0, i as int));
    }
    assert(out@ =~= v@);
    out
}

impl TextEdit {
    /// The invariant every buffer keeps.
    pub open spec fn wf(&self) -> bool {
        text_edit_wf(self@)
    }

    /// An empty, editable buffer without history.
    pub fn new() -> (r: Self)
        ensures
            r.wf(),
            r@ == (TextEditView {
                text: Seq::empty(),
                cursor: 0,
                anchor: 0,
                read_only: false,
                undo: Seq::empty(),
                redo: Seq::empty(),
            }),
    {
        let r = TextEdit {
            text: Vec::new(),
            cursor: 0,
            anchor: 0,
            read_only: false,
            undo: Vec::new(),
            redo: Vec::new(),
        };
        assert(r@.undo =~= Seq::empty());
        assert(r@.redo =~= Seq::empty());
        r
    }

    /// The whole text.
    pub fn to_plain_text(&self) -> (r: String)
        ensures
            r@ == self@.text,
    {
        string_of(&self.text)
    }

    /// Replaces the whole text; the cursor goes to the start and the history is cleared.
    pub fn set_plain_text(&mut self, t: &str)
        ensures
            final(self).wf(),
            final(self)@ == (TextEditView {
                text: t@,
                cursor: 0,
                anchor: 0,
                undo: Seq::empty(),
                redo: Seq::empty(),
                ..old(self)@
            }),
    {
        self.text = chars_of(t);
        self.cursor = 0;
        self.anchor = 0;
        self.undo = Vec::new();
        self.redo = Vec::new();
        assert(self@.undo =~= Seq::empty());
        assert(self@.redo =~= Seq::empty());
    }

    /// Whether user input may edit the text.
    pub fn is_read_only(&self) -> (r: bool)
        ensures
            r == self@.read_only,
    {
        self.read_only
    }

    /// Forbids or allows user input.
    pub fn set_read_only(&mut self, v: bool)
        requires
            old(self).wf(),
        ensures
            final(self).wf(),
            final(self)@ == (TextEditView { read_only: v, ..old(self)@ }),
    {
        self.read_only = v;
    }

    /// The cursor position, in characters.
    pub fn cursor_position(&self) -> (r: usize)
        ensures
            r == self@.cursor,
    {
        self.cursor
    }

    /// Moves the cursor (limited to the text's end) and clears the selection.
    pub fn set_cursor_position(&mut self, p: usize)
        requires
            old(self).wf(),
        ensures
            final(self).wf(),
            ({
                let c = if p <= old(self)@.text.len() {
                    p as nat
                } else {
                    old(self)@.text.len()
                };
                final(self)@ == (TextEditView { cursor: c, anchor: c, ..old(self)@ })
            }),
    {
        let c = if p <= self.text.len() {
            p
        } else {
            self.text.len()
        };
        self.cursor = c;
        self.anchor = c;
    }

    /// Selects the whole text, the cursor at its end.
    pub fn select_all(&mut self)
        requires
            old(self).wf(),
        ensures
            final(self).wf(),
            final(self)@ == (TextEditView {
                anchor: 0,
                cursor: old(self)@.text.len(),
                ..old(self)@
            }),
    {
        self.anchor = 0;
        self.cursor = self.text.len();
    }

    /// The selected text.
    pub fn selected_text(&self) -> (r: String)
        requires
            self.wf(),
        ensures
            r@ == self@.text.subrange(selection_start(self@) as int, selection_end(self@) as int),
    {
        let (a, b) = if self.anchor <= self.cursor {
            (self.anchor, self.cursor)
        } else {
            (self.cursor, self.anchor)
        };
        let mut out: Vec<char> = Vec::new();
        let mut i = a;
        while i < b
            invariant
                a <= i <= b <= self.text@.len(),
                out@ == self.text@.subrange(a as int, i as int),
            decreases b - i,
        {
            out.push(self.text[i]);
            i = i + 1;
            assert(out@ =~= self.text@.subrange(a as int, i as int));
        }
        string_of(&out)
    }

    /// Replaces the selection with `t` (inserting at the cursor when nothing is
    /// selected), leaving the cursor after the insertion. The previous text and
    /// cursor can be brought back by undo; the redo history is dropped.
    pub fn insert_text(&mut self, t: &str)
        requires
            old(self).wf(),
        ensures
            final(self).wf(),
            ({
                let o = old(self)@;
                let a = selection_start(o);
                let b = selection_end(o);
                let c = a + t@.len();
                final(self)@ == (TextEditView {
                    text: o.text.subrange(0, a as int) + t@ + o.text.subrange(b as int, o.text.len() as int),
                    cursor: c,
                    anchor: c,
                    undo: o.undo.push((o.text, o.cursor)),
                    redo: Seq::empty(),
                    ..o
                })
            }),
    {
        let (a, b) = if self.anchor <= self.cursor {
            (self.anchor, self.cursor)
        } else {
            (self.cursor, self.anchor)
        };
        let snapshot = (copy_chars(&self.text), self.cursor);
        let ins = chars_of(t);
        let mut out: Vec<char> = Vec::new();
        let mut i: usize = 0;
        while i < a
            invariant
                0 <= i <= a <= b <= self.text@.len(),
                out@ == self.text@.subrange(0, i as int),
            decreases a - i,
        {
            out.push(self.text[i]);
            i = i + 1;
            assert(out@ =~= self.text@.subrange(0, i as int));
        }
        let mut j: usize = 0;
        while j < ins.len()
            invariant
                0 <= j <= ins@.len(),
                out@ == self.text@.subrange(0, a as int) + ins@.subrange(0, j as int),
            decreases ins@.len() - j,
        {
            out.push(ins[j]);
            j = j + 1;
            assert(out@ =~= self.text@.subrange(0, a as int) + ins@.subrange(0, j as int));
        }
        assert(ins@.subrange(0, j as int) =~= ins@);
        let c = out.len();
        let mut k = b;
        while k < self.text.len()
            invariant
                b <= k <= self.text@.len(),
                out@ == self.text@.subrange(0, a as int) + ins@ + self.text@.subrange(b as int, k as int),
            decreases self.text@.len() - k,
        {
            out.push(self.text[k]);
            k = k + 1;
            assert(out@ =~= self.text@.subrange(0, a as int) + ins@ + self.text@.subrange(
                b as int,
                k as int,
            ));
        }
        let ghost old_undo = self.undo@;
        self.undo.push(snapshot);
        self.redo = Vec::new();
        self.text = out;
        self.cursor = c;
        self.anchor = c;
        proof {
            assert(snapshots(self.undo@) =~= snapshots(old_undo).push((old(self)@.text, old(self)@.cursor)));
            assert(snapshots(self.redo@) =~= Seq::empty());
        }
    }

    /// Brings back the text and cursor before the last edit, if any; the
    /// current state can then be redone.
    pub fn undo(&mut self)
        requires
            old(self).wf(),
        ensures
            final(self).wf(),
            ({
                let o = old(self)@;
                if o.undo.len() == 0 {
                    final(self)@ == o
                } else {
                    let s = o.undo.last();
                    final(self)@ == (TextEditView {
                        text: s.0,
                        cursor: s.1,
                        anchor: s.1,
                        undo: o.undo.drop_last(),
                        redo: o.redo.push((o.text, o.cursor)),
                        ..o
                    })
                }
            }),
    {
        if self.undo.len() == 0 {
            return ;
        }
        let ghost old_undo = self.undo@;
        let ghost old_redo = self.redo@;
        let (text, cursor) = self.undo.pop().unwrap();
        let current = (copy_chars(&self.text), self.cursor);
        self.redo.push(current);
        self.text = text;
        self.cursor = cursor;
        self.anchor = cursor;
        proof {
            assert(snapshots(old_undo)[old_undo.len() - 1] == (text@, cursor as nat));
            assert(snapshots(self.undo@) =~= snapshots(old_undo).drop_last());
            assert(snapshots(self.redo@) =~= snapshots(old_redo).push((old(self)@.text, old(self)@.cursor)));
        }
    }

    /// Re-applies the last undone edit, if any.
    pub fn redo(&mut self)
        requires
            old(self).wf(),
        ensures
            final(self).wf(),
            ({
                let o = old(self)@;
                if o.redo.len() == 0 {
                    final(self)@ == o
                } else {
                    let s = o.redo.last();
                    final(self)@ == (TextEditView {
                        text: s.0,
                        cursor: s.1,
                        anchor: s.1,
                        undo: o.undo.push((o.text, o.cursor)),
                        redo: o.redo.drop_last(),
                        ..o
                    })
                }
            }),
    {
        if self.redo.len() == 0 {
            return ;
        }
        let ghost old_undo = self.undo@;
        let ghost old_redo = self.redo@;
        let (text, cursor) = self.redo.pop().unwrap();
        let current = (copy_chars(&self.text), self.cursor);
        self.undo.push(current);
        self.text = text;
        self.cursor = cursor;
        self.anchor = cursor;
        proof {
            assert(snapshots(old_redo)[old_redo.len() - 1] == (text@, cursor as nat));
            assert(snapshots(self.redo@) =~= snapshots(old_redo).drop_last());
            assert(snapshots(self.undo@) =~= snapshots(old_undo).push((old(self)@.text, old(self)@.cursor)));
        }
    }
}

} // verus!
