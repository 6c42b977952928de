//! Plain-text multiline editor with an optional paragraph (block) limit
//! (`QPlainTextEdit::maximumBlockCount`).

use vstd::prelude::*;

use crate::text::{chars_of, push_str_chars, string_of};
use crate::text_edit::{TextEdit, TextEditView};

verus! {

/// Number of newline characters in `s`.
pub open spec fn newlines(s: Seq<char>) -> nat
    decreases s.len(),
{
    if s.len() == 0 {
        0
    } else {
        newlines(s.drop_last()) + if s.last() == '\n' {
            1nat
        } else {
            0
        }
    }
}

/// Number of blocks (lines) of `s`: one more than its newlines.
pub open spec fn block_count(s: Seq<char>) -> nat {
    newlines(s) + 1
}

/// `s` without its first `k` lines (each ended by a newline).
pub open spec fn drop_lines(s: Seq<char>, k: nat) -> Seq<char>
    decreases s.len(),
{
    if k == 0 || s.len() == 0 {
        s
    } else if s[0] == '\n' {
        drop_lines(s.drop_first(), (k - 1) as nat)
    } else {
        drop_lines(s.drop_first(), k)
    }
}

/// `s` limited to its last `cap` blocks (no limit when `cap` is zero).
pub open spec fn keep_last_blocks(s: Seq<char>, cap: nat) -> Seq<char> {
    if cap == 0 || block_count(s) <= cap {
        s
    } else {
        drop_lines(s, (block_count(s) - cap) as nat)
    }
}

/// Newlines counted from the front agree with those counted from the back.
proof fn lemma_newlines_front(s: Seq<char>)
    requires
        s.len() > 0,
    ensures
        newlines(s) == newlines(s.drop_first()) + if s[0] == '\n' {
            1nat
        } else {
            0
        },
    decreases s.len(),
{
    if s.len() > 1 {
        lemma_newlines_front(s.drop_last());
        assert(s.drop_last().drop_first() =~= s.drop_first().drop_last());
        assert(s.drop_first().last() == s.last());
        assert(newlines(s.drop_first()) == newlines(s.drop_first().drop_last()) + if s.last()
            == '\n' {
            1nat
        } else {
            0
        });
    } else {
        assert(newlines(s.drop_first()) == 0);
        assert(newlines(s.drop_last()) == 0);
        assert(s.last() == s[0]);
    }
}

/// Dropping `k` lines of a text with more than `k` newlines leaves `k` fewer newlines.
pub proof fn lemma_drop_lines_newlines(s: Seq<char>, k: nat)
    requires
        k <= newlines(s),
    ensures
        newlines(drop_lines(s, k)) == newlines(s) - k,
    decreases s.len(),
{
    if k > 0 && s.len() > 0 {
        lemma_newlines_front(s);
        if s[0] == '\n' {
            lemma_drop_lines_newlines(s.drop_first(), (k - 1) as nat);
        } else {
            lemma_drop_lines_newlines(s.drop_first(), k);
        }
    } else if k > 0 {
        assert(newlines(s) == 0);
    }
}

/// With a block limit, the text keeps exactly as many blocks as the limit
/// allows, and no more than it had.
pub proof fn lemma_keep_last_blocks_count(s: Seq<char>, cap: nat)
    requires
        cap > 0,
    ensures
        block_count(keep_last_blocks(s, cap)) == if block_count(s) <= cap {
            block_count(s)
        } else {
            cap
        },
{
    if block_count(s) > cap {
        lemma_drop_lines_newlines(s, (block_count(s) - cap) as nat);
    }
}

/// The characters of `s` from `from` on, with the first `k` lines dropped.
fn drop_lines_from(s: &Vec<char>, k: usize) -> (r: Vec<char>)
    ensures
        r@ == drop_lines(s@, k as nat),
{
    let n = s.len();
    let mut i: usize = 0;
    let mut left = k;
    assert(s@.subrange(0, n as int) =~= s@);
    while i < n && left > 0
        invariant
            0 <= i <= n == s@.len(),
            drop_lines(s@.subrange(i as int, n as int), left as nat) == drop_lines(s@, k as nat),
        decreases n - i,
    {
        let ghost rest = s@.subrange(i as int, n as int);
        assert(rest.drop_first() =~= s@.subrange(i + 1, n as int));
        if s[i] == '\n' {
            left = left - 1;
        }
        i = i + 1;
    }
    proof {
        if i == 0 {
            assert(s@.subrange(0, n as int) =~= s@);
        }
    }
    let mut out: Vec<char> = Vec::new();
    let start = i;
    while i < n
        invariant
            start <= i <= n == s@.len(),
            out@ == s@.subrange(start as int, i as int),
        decreases n - i,
    {
        out.push(s[i]);
        i = i + 1;
        assert(out@ =~= s@.subrange(start as int, i as int));
    }
    out
}

/// Counts the newlines of `s`.
fn count_newlines(s: &Vec<char>) -> (r: usize)
    ensures
        r == newlines(s@),
{
    let mut count: usize = 0;
    let mut i: usize = 0;
    while i < s.len()
        invariant
            0 <= i <= s@.len(),
            count == newlines(s@.subrange(0, i as int)),
            count <= i,
        decreases s@.len() - i,
    {
        proof {
            let p = s@.subrange(0, i as int + 1);
            assert(p.drop_last() =~= s@.subrange(0, i as int));
        }
        if s[i] == '\n' {
            count = count + 1;
        }
        i = i + 1;
    }
    assert(s@.subrange(0, i as int) =~= s@);
    count
}

/// [`keep_last_blocks`], computed.
fn limit_blocks(s: Vec<char>, cap: usize) -> (r: Vec<char>)
    ensures
        r@ == keep_last_blocks(s@, cap as nat),
{
    if cap == 0 {
        return s;
    }
    let nl = count_newlines(&s);
    if nl < cap {
        return s;
    }
    drop_lines_from(&s, nl - (cap - 1))
}

/// Plain-text multiline editor with an optional block limit: with a limit,
/// only the last blocks are kept.
pub struct PlainTextEdit {
    inner: TextEdit,
    maximum_block_count: usize,
}

impl PlainTextEdit {
    /// The editing buffer as plain values.
    pub closed spec fn buffer(&self) -> TextEditView {
        self.inner@
    }

    /// The block limit (zero for none).
    pub closed spec fn spec_maximum_block_count(&self) -> nat {
        self.maximum_block_count as nat
    }

    /// The invariant: a consistent buffer holding no more blocks than the limit.
    pub closed spec fn wf(&self) -> bool {
        &&& self.inner.wf()
        &&& (self.maximum_block_count > 0 ==> block_count(self.inner@.text)
            <= self.maximum_block_count)
    }

    /// An empty editor without block limit.
    pub fn new() -> (r: Self)
        ensures
            r.wf(),
            r.buffer().text == Seq::<char>::empty(),
            !r.buffer().read_only,
            r.spec_maximum_block_count() == 0,
    {
        PlainTextEdit { inner: TextEdit::new(), maximum_block_count: 0 }
    }

    /// An editor showing `t`.
    pub fn with_text(t: &str) -> (r: Self)
        ensures
            r.wf(),
            r.buffer().text == t@,
            r.spec_maximum_block_count() == 0,
    {
        let mut s = Self::new();
        s.set_plain_text(t);
        s
    }

    /// The whole text.
    pub fn to_plain_text(&self) -> (r: String)
        ensures
            r@ == self.buffer().text,
    {
        self.inner.to_plain_text()
    }

    /// The whole text (alias of [`PlainTextEdit::to_plain_text`]).
    pub fn plain_text(&self) -> (r: String)
        ensures
            r@ == self.buffer().text,
    {
        self.to_plain_text()
    }

    /// Replaces the text, keeping only its last blocks when a limit is set.
    pub fn set_plain_text(&mut self, t: &str)
        requires
            old(self).wf(),
        ensures
            final(self).wf(),
            final(self).spec_maximum_block_count() == old(self).spec_maximum_block_count(),
            final(self).buffer() == (TextEditView {
                text: keep_last_blocks(t@, old(self).spec_maximum_block_count()),
                cursor: 0,
                anchor: 0,
                undo: Seq::empty(),
                redo: Seq::empty(),
                ..old(self).buffer()
            }),
    {
        let kept = limit_blocks(chars_of(t), self.maximum_block_count);
        let text = string_of(&kept);
        self.inner.set_plain_text(text.as_str());
        proof {
            if self.maximum_block_count > 0 {
                lemma_keep_last_blocks_count(t@, self.maximum_block_count as nat);
            }
        }
    }

    /// Sets the block limit (zero for none), dropping leading blocks beyond it.
    pub fn set_maximum_block_count(&mut self, n: usize)
        requires
            old(self).wf(),
        ensures
            final(self).wf(),
            final(self).spec_maximum_block_count() == n,
            n == 0 || block_count(old(self).buffer().text) <= n ==> final(self).buffer() == old(
                self,
            ).buffer(),
            n > 0 && block_count(old(self).buffer().text) > n ==> final(self).buffer() == (
            TextEditView {
                text: keep_last_blocks(old(self).buffer().text, n as nat),
                cursor: 0,
                anchor: 0,
                undo: Seq::empty(),
                redo: Seq::empty(),
                ..old(self).buffer()
            }),
    {
        self.maximum_block_count = n;
        self.trim_blocks();
    }

    /// The block limit (zero for none).
    pub fn maximum_block_count(&self) -> (r: usize)
        ensures
            r == self.spec_maximum_block_count(),
    {
        self.maximum_block_count
    }

    /// Appends `line` as a new block (directly when the text is empty), then
    /// applies the block limit.
    pub fn append_plain_text(&mut self, line: &str)
        requires
            old(self).wf(),
        ensures
            final(self).wf(),
            final(self).spec_maximum_block_count() == old(self).spec_maximum_block_count(),
            ({
                let o = old(self).buffer();
                let joined = if o.text.len() == 0 {
                    line@
                } else {
                    o.text.push('\n') + line@
                };
                final(self).buffer() == (TextEditView {
                    text: keep_last_blocks(joined, old(self).spec_maximum_block_count()),
                    cursor: 0,
                    anchor: 0,
                    undo: Seq::empty(),
                    redo: Seq::empty(),
                    ..o
                })
            }),
    {
        let mut s = chars_of(self.to_plain_text().as_str());
        if s.len() > 0 {
            s.push('\n');
        }
        push_str_chars(&mut s, line);
        let joined = string_of(&s);
        self.set_plain_text(joined.as_str());
    }

    /// Appends `line` as a new block (alias of [`PlainTextEdit::append_plain_text`]).
    pub fn append_line(&mut self, line: &str)
        requires
            old(self).wf(),
        ensures
            final(self).wf(),
            final(self).spec_maximum_block_count() == old(self).spec_maximum_block_count(),
            ({
                let o = old(self).buffer();
                let joined = if o.text.len() == 0 {
                    line@
                } else {
                    o.text.push('\n') + line@
                };
                final(self).buffer() == (TextEditView {
                    text: keep_last_blocks(joined, old(self).spec_maximum_block_count()),
                    cursor: 0,
                    anchor: 0,
                    undo: Seq::empty(),
                    redo: Seq::empty(),
                    ..o
                })
            }),
    {
        self.append_plain_text(line)
    }

    /// Drops the leading blocks beyond the limit, if there are any.
    fn trim_blocks(&mut self)
        requires
            old(self).inner.wf(),
        ensures
            final(self).wf(),
            final(self).maximum_block_count == old(self).maximum_block_count,
            old(self).maximum_block_count == 0 || block_count(old(self).buffer().text)
                <= old(self).maximum_block_count ==> final(self).buffer() == old(self).buffer(),
            old(self).maximum_block_count > 0 && block_count(old(self).buffer().text)
                > old(self).maximum_block_count ==> final(self).buffer() == (TextEditView {
                text: keep_last_blocks(old(self).buffer().text, old(self).maximum_block_count as nat),
                cursor: 0,
                anchor: 0,
                undo: Seq::empty(),
                redo: Seq::empty(),
                ..old(self).buffer()
            }),
    {
        if self.maximum_block_count > 0 {
            let text = chars_of(self.inner.to_plain_text().as_str());
            let nl = count_newlines(&text);
            if nl >= self.maximum_block_count {
                let kept = drop_lines_from(&text, nl - (self.maximum_block_count - 1));
                let s = string_of(&kept);
                self.inner.set_plain_text(s.as_str());
                proof {
                    lemma_keep_last_blocks_count(old(self).buffer().text, self.maximum_block_count as nat);
                }
            }
        }
    }

    /// Forbids or allows user input.
    pub fn set_read_only(&mut self, v: bool)
        requires
            old(self).wf(),
        ensures
            final(self).wf(),
            final(self).spec_maximum_block_count() == old(self).spec_maximum_block_count(),
            final(self).buffer() == (TextEditView { read_only: v, ..old(self).buffer() }),
    {
        self.inner.set_read_only(v)
    }

    /// Whether user input may edit the text.
    pub fn is_read_only(&self) -> (r: bool)
        ensures
            r == self.buffer().read_only,
    {
        self.inner.is_read_only()
    }

    /// The cursor position, in characters.
    pub fn cursor_position(&self) -> (r: usize)
        ensures
            r == self.buffer().cursor,
    {
        self.inner.cursor_position()
    }

    /// Moves the cursor (limited to the text's end) and clears the selection.
    pub fn set_cursor_position(&mut self, p: usize)
        requires
            old(self).wf(),
        ensures
            final(self).wf(),
            final(self).spec_maximum_block_count() == old(self).spec_maximum_block_count(),
            ({
                let o = old(self).buffer();
                let c = if p <= o.text.len() {
                    p as nat
                } else {
                    o.text.len()
                };
                final(self).buffer() == (TextEditView { cursor: c, anchor: c, ..o })
            }),
    {
        self.inner.set_cursor_position(p)
    }

    /// Selects the whole text.
    pub fn select_all(&mut self)
        requires
            old(self).wf(),
        ensures
            final(self).wf(),
            final(self).spec_maximum_block_count() == old(self).spec_maximum_block_count(),
            final(self).buffer() == (TextEditView {
                anchor: 0,
                cursor: old(self).buffer().text.len(),
                ..old(self).buffer()
            }),
    {
        self.inner.select_all()
    }

    /// The selected text.
    pub fn selected_text(&self) -> (r: String)
        requires
            self.wf(),
        ensures
            r@ == self.buffer().text.subrange(
                crate::text_edit::selection_start(self.buffer()) as int,
                crate::text_edit::selection_end(self.buffer()) as int,
            ),
    {
        self.inner.selected_text()
    }

    /// Replaces the selection with `t`, then applies the block limit.
    pub fn insert_text(&mut self, t: &str)
        requires
            old(self).wf(),
        ensures
            final(self).wf(),
            final(self).spec_maximum_block_count() == old(self).spec_maximum_block_count(),
            ({
                let o = old(self).buffer();
                let a = crate::text_edit::selection_start(o);
                let b = crate::text_edit::selection_end(o);
                let text = o.text.subrange(0, a as int) + t@ + o.text.subrange(
                    b as int,
                    o.text.len() as int,
                );
                let cap = old(self).spec_maximum_block_count();
                if cap == 0 || block_count(text) <= cap {
                    final(self).buffer() == (TextEditView {
                        text,
                        cursor: a + t@.len(),
                        anchor: a + t@.len(),
                        undo: o.undo.push((o.text, o.cursor)),
                        redo: Seq::empty(),
                        ..o
                    })
                } else {
                    final(self).buffer() == (TextEditView {
                        text: keep_last_blocks(text, cap),
                        cursor: 0,
                        anchor: 0,
                        undo: Seq::empty(),
                        redo: Seq::empty(),
                        ..o
                    })
                }
            }),
    {
        self.inner.insert_text(t);
        self.trim_blocks();
    }

    /// Undoes the last edit, then applies the block limit.
    pub fn undo(&mut self)
        requires
            old(self).wf(),
        ensures
            final(self).wf(),
            final(self).spec_maximum_block_count() == old(self).spec_maximum_block_count(),
    {
        self.inner.undo();
        self.trim_blocks()
    }

    /// Redoes the last undone edit, then applies the block limit.
    pub fn redo(&mut self)
        requires
            old(self).wf(),
        ensures
            final(self).wf(),
            final(self).spec_maximum_block_count() == old(self).spec_maximum_block_count(),
    {
        self.inner.redo();
        self.trim_blocks()
    }
}

} // verus!
