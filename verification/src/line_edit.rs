//! Single-line text input (`QLineEdit`): text, cursor and selection, echo
//! modes, the length limit and the editing keys.
//!
//! Positions, cursor moves, selections, Backspace and Delete count Unicode
//! scalar values (`char`s), not grapheme clusters: a combining mark, each
//! part of an emoji sequence joined by zero-width joiners, and each half of
//! a CR LF pair is a position of its own. Text made of characters that each
//! form a cluster of their own (ASCII, most scripts without combining marks)
//! is edited exactly as cluster-based editing would.

use vstd::prelude::*;

use crate::text::{chars_of, string_of, str_to_string};

verus! {

/// How the text of a line edit is presented (`QLineEdit::EchoMode`).
#[derive(Debug, Clone, Copy, PartialEq, Eq, Structural)]
pub enum EchoMode {
    /// The characters as entered.
    Normal,
    /// A bullet for each character.
    Password,
    /// Nothing at all.
    NoEcho,
    /// The characters while editing, bullets otherwise.
    PasswordEchoOnEdit,
}

impl Default for EchoMode {
    fn default() -> (r: EchoMode)
        ensures
            r == EchoMode::Normal,
    {
        EchoMode::Normal
    }
}

/// `s` without carriage returns and line feeds, in order.
pub open spec fn without_newlines(s: Seq<char>) -> Seq<char>
    decreases s.len(),
{
    if s.len() == 0 {
        s
    } else {
        let rest = without_newlines(s.drop_last());
        if s.last() != '\r' && s.last() != '\n' {
            rest.push(s.last())
        } else {
            rest
        }
    }
}

/// A line edit as plain values.
pub struct LineEditView {
    pub text: Seq<char>,
    pub placeholder: Seq<char>,
    pub echo_mode: EchoMode,
    pub cursor: nat,
    pub anchor: Option<nat>,
    pub cursor_visible: bool,
    pub read_only: bool,
    pub max_length: nat,
    pub enabled: bool,
    pub preedit: Seq<char>,
    pub preedit_cursor: int,
}

/// The cursor lies within the text. (The anchor may lie past the end after
/// Backspace at the end of a collapsed selection; it counts as the end.)
pub open spec fn line_edit_wf(v: LineEditView) -> bool {
    &&& v.cursor <= v.text.len()
    &&& v.max_length <= usize::MAX
    &&& v.text.len() <= usize::MAX
}

/// The selected span as (start, end), when the anchor is set apart from the cursor.
pub open spec fn selection_of(v: LineEditView) -> Option<(nat, nat)> {
    match v.anchor {
        Some(a0) => {
            let a = if a0 > v.text.len() {
                v.text.len()
            } else {
                a0
            };
            if a == v.cursor {
            None
        } else if a < v.cursor {
            Some((a, v.cursor))
        } else {
            Some((v.cursor, a))
        }
        },
        None => None,
    }
}

/// The selected characters (none without a selection).
pub open spec fn selected_of(v: LineEditView) -> Seq<char> {
    match selection_of(v) {
        Some((s, e)) => v.text.subrange(s as int, e as int),
        None => Seq::empty(),
    }
}

/// Removes the selection, the cursor going to its start. Returns whether
/// there was one.
pub open spec fn spec_delete_selection(v: LineEditView) -> (LineEditView, bool) {
    match selection_of(v) {
        Some((s, e)) => (
            LineEditView {
                text: v.text.subrange(0, s as int) + v.text.subrange(e as int, v.text.len() as int),
                cursor: s,
                anchor: None,
                ..v
            },
            true,
        ),
        None => (v, false),
    }
}

/// `insertText`: nothing when read-only; otherwise the selection goes, and
/// `s` without line breaks goes in at the cursor unless the text would
/// exceed the length limit.
pub open spec fn spec_insert(v: LineEditView, s: Seq<char>) -> LineEditView {
    if v.read_only {
        v
    } else {
        let w = spec_delete_selection(v).0;
        let f = without_newlines(s);
        if w.text.len() + f.len() > w.max_length {
            w
        } else {
            LineEditView {
                text: w.text.subrange(0, w.cursor as int) + f + w.text.subrange(w.cursor as int, w.text.len() as int),
                cursor: w.cursor + f.len(),
                anchor: None,
                ..w
            }
        }
    }
}

/// Moving the cursor to `to`: with Shift the anchor stays (set at the
/// cursor when missing), otherwise the selection is dropped.
pub open spec fn spec_move(v: LineEditView, to: nat, shift: bool) -> LineEditView {
    LineEditView {
        anchor: if shift {
            match v.anchor {
                Some(a) => Some(a),
                None => Some(v.cursor),
            }
        } else {
            None
        },
        cursor: to,
        ..v
    }
}

/// Whether Control is held.
pub open spec fn le_ctrl(modifiers: u32) -> bool {
    modifiers & 0x0400_0000 != 0 || modifiers & 2 != 0
}

/// Whether Shift is held.
pub open spec fn le_shift(modifiers: u32) -> bool {
    modifiers & 0x0200_0000 != 0 || modifiers & 1 != 0
}

/// What a key press asks of the caller: text to put on the clipboard, and
/// whether Return was pressed (editing finished).
pub struct LineEditKeyResult {
    pub to_clipboard: Option<String>,
    pub return_pressed: bool,
}

/// The text that `copy` puts on the clipboard: the selection, when there is
/// one and the echo mode shows the characters.
pub open spec fn copied_of(v: LineEditView) -> Option<Seq<char>> {
    if selected_of(v).len() > 0 && v.echo_mode == EchoMode::Normal {
        Some(selected_of(v))
    } else {
        None
    }
}

/// A key pressed on the line edit (`keyPressEvent`), `clipboard` being the
/// clipboard's text for pasting: the new state, the text for the clipboard
/// and whether Return was pressed. Left, Right, Backspace and Delete move or
/// remove one character, not one grapheme cluster.
pub open spec fn spec_key(v: LineEditView, key: u32, modifiers: u32, clipboard: Seq<char>) -> (LineEditView, Option<Seq<char>>, bool) {
    let ctrl = le_ctrl(modifiers);
    let shift = le_shift(modifiers);
    let n = v.text.len();
    if !v.enabled {
        (v, None, false)
    } else if ctrl && (key == 0x41 || key == 0x61) {
        (if n > 0 {
            LineEditView { anchor: Some(0), cursor: n, ..v }
        } else {
            v
        }, None, false)
    } else if ctrl && (key == 0x43 || key == 0x63) {
        (v, copied_of(v), false)
    } else if ctrl && (key == 0x58 || key == 0x78) {
        if v.read_only {
            (v, None, false)
        } else {
            (spec_delete_selection(v).0, copied_of(v), false)
        }
    } else if ctrl && (key == 0x56 || key == 0x76) {
        (if !v.read_only && clipboard.len() > 0 {
            spec_insert(v, clipboard)
        } else {
            v
        }, None, false)
    } else if key == 0x25 || key == 0x0100_0012 {
        (spec_move(v, if v.cursor > 0 {
            (v.cursor - 1) as nat
        } else {
            v.cursor
        }, shift), None, false)
    } else if key == 0x27 || key == 0x0100_0014 {
        (spec_move(v, if v.cursor < n {
            v.cursor + 1
        } else {
            v.cursor
        }, shift), None, false)
    } else if key == 0x24 || key == 0x0100_0010 {
        (spec_move(v, 0, shift), None, false)
    } else if key == 0x23 || key == 0x0100_0011 {
        (spec_move(v, n, shift), None, false)
    } else if key == 0x08 || key == 0x0100_0003 {
        if v.read_only {
            (v, None, false)
        } else {
            let (w, deleted) = spec_delete_selection(v);
            if !deleted && v.cursor > 0 {
                (LineEditView {
                    text: v.text.remove(v.cursor - 1),
                    cursor: (v.cursor - 1) as nat,
                    ..v
                }, None, false)
            } else {
                (w, None, false)
            }
        }
    } else if key == 0x2E || key == 0x0100_0007 {
        if v.read_only {
            (v, None, false)
        } else {
            let (w, deleted) = spec_delete_selection(v);
            if !deleted && v.cursor < n {
                (LineEditView { text: v.text.remove(v.cursor as int), ..v }, None, false)
            } else {
                (w, None, false)
            }
        }
    } else if key == 0x0D || key == 0x0100_0004 || key == 0x0100_0005 {
        (v, None, true)
    } else if !ctrl && 32 <= key <= 126 {
        (spec_insert(v, seq![key as char]), None, false)
    } else {
        (v, None, false)
    }
}

/// A fresh line edit: empty, enabled, editable, normal echo, a limit of
/// 32767 characters, the cursor hidden.
pub open spec fn fresh_line_edit() -> LineEditView {
    LineEditView {
        text: Seq::empty(),
        placeholder: Seq::empty(),
        echo_mode: EchoMode::Normal,
        cursor: 0,
        anchor: None,
        cursor_visible: false,
        read_only: false,
        max_length: 32767,
        enabled: true,
        preedit: Seq::empty(),
        preedit_cursor: 0,
    }
}

/// Single-line text input; positions count characters, not grapheme clusters.
pub struct LineEdit {
    text: Vec<char>,
    placeholder: String,
    echo_mode: EchoMode,
    cursor: usize,
    anchor: Option<usize>,
    cursor_visible: bool,
    read_only: bool,
    max_length: usize,
    enabled: bool,
    preedit: String,
    preedit_cursor: i32,
}

impl View for LineEdit {
    type V = LineEditView;

    closed spec fn view(&self) -> LineEditView {
        LineEditView {
            text: self.text@,
            placeholder: self.placeholder@,
            echo_mode: self.echo_mode,
            cursor: self.cursor as nat,
            anchor: match self.anchor {
                Some(a) => Some(a as nat),
                None => None,
            },
            cursor_visible: self.cursor_visible,
            read_only: self.read_only,
            max_length: self.max_length as nat,
            enabled: self.enabled,
            preedit: self.preedit@,
            preedit_cursor: self.preedit_cursor as int,
        }
    }
}

/// `s` without line breaks, computed.
fn strip_newlines(s: &Vec<char>) -> (r: Vec<char>)
    ensures
        r@ == without_newlines(s@),
{
    let mut out: Vec<char> = Vec::new();
    let mut i: usize = 0;
    while i < s.len()
        invariant
            0 <= i <= s@.len(),
            out@ == without_newlines(s@.subrange(0, i as int)),
        decreases s@.len() - i,
    {
        proof {
            let p = s@.subrange(0, i + 1);
            assert(p.drop_last() =~= s@.subrange(0, i as int));
        }
        let c = s[i];
        if c != '\r' && c != '\n' {
            out.push(c);
        }
        i = i + 1;
    }
    assert(s@.subrange(0, s@.len() as int) =~= s@);
    out
}

/// The characters of `v` from `s` up to `e`, computed.
fn sub_chars(v: &Vec<char>, s: usize, e: usize) -> (r: Vec<char>)
    requires
        s <= e <= v@.len(),
    ensures
        r@ == v@.subrange(s as int, e as int),
{
    let mut out: Vec<char> = Vec::new();
    let mut i: usize = s;
    while i < e
        invariant
            s <= i <= e <= v@.len(),
            out@ == v@.subrange(s as int, i as int),
        decreases e - i,
    {
        out.push(v[i]);
        i = i + 1;
        assert(out@ =~= v@.subrange(s as int, i as int));
    }
    out
}

/// `a` followed by `b`, computed.
fn concat_chars(a: &Vec<char>, b: &Vec<char>) -> (r: Vec<char>)
    ensures
        r@ == a@ + b@,
{
    let mut out: Vec<char> = Vec::new();
    let mut i: usize = 0;
    while i < a.len()
        invariant
            0 <= i <= a@.len(),
            out@ == a@.subrange(0, i as int),
        decreases a@.len() - i,
    {
        out.push(a[i]);
        i = i + 1;
        assert(out@ =~= a@.subrange(0, i as int));
    }
    let mut j: usize = 0;
    while j < b.len()
        invariant
            0 <= j <= b@.len(),
            i == a@.len(),
            out@ == a@ + b@.subrange(0, j as int),
        decreases b@.len() - j,
    {
        out.push(b[j]);
        j = j + 1;
        assert(out@ =~= a@ + b@.subrange(0, j as int));
    }
    assert(a@.subrange(0, a@.len() as int) =~= a@);
    assert(b@.subrange(0, b@.len() as int) =~= b@);
    out
}

impl LineEdit {
    /// The invariant of the line edit.
    pub open spec fn wf(&self) -> bool {
        line_edit_wf(self@)
    }

    /// A fresh line edit ([`fresh_line_edit`]).
    pub fn new() -> (r: LineEdit)
        ensures
            r.wf(),
            r@ == fresh_line_edit(),
    {
        let r = LineEdit {
            text: Vec::new(),
            placeholder: String::new(),
            echo_mode: EchoMode::Normal,
            cursor: 0,
            anchor: None,
            cursor_visible: false,
            read_only: false,
            max_length: 32767,
            enabled: true,
            preedit: String::new(),
            preedit_cursor: 0,
        };
        assert(r@.text =~= Seq::<char>::empty());
        r
    }

    /// A line edit holding `text`, the cursor at its end.
    pub fn with_text(text: &str) -> (r: LineEdit)
        ensures
            r.wf(),
            r@ == (LineEditView { text: text@, cursor: text@.len(), ..fresh_line_edit() }),
    {
        let mut r = LineEdit::new();
        r.set_text(text);
        r
    }

    /// The text.
    pub fn text(&self) -> (r: String)
        ensures
            r@ == self@.text,
    {
        string_of(&self.text)
    }

    /// Replaces the text; the cursor goes to its end and the selection is dropped.
    pub fn set_text(&mut self, text: &str)
        requires
            old(self).wf(),
        ensures
            final(self).wf(),
            final(self)@ == (LineEditView { text: text@, cursor: text@.len(), anchor: None, ..old(self)@ }),
    {
        self.text = chars_of(text);
        self.cursor = self.text.len();
        self.anchor = None;
    }

    pub fn placeholder_text(&self) -> (r: &str)
        ensures
            r@ == self@.placeholder,
    {
        self.placeholder.as_str()
    }

    pub fn set_placeholder_text(&mut self, text: &str)
        requires
            old(self).wf(),
        ensures
            final(self).wf(),
            final(self)@ == (LineEditView { placeholder: text@, ..old(self)@ }),
    {
        self.placeholder = str_to_string(text);
    }

    pub fn echo_mode(&self) -> (r: EchoMode)
        ensures
            r == self@.echo_mode,
    {
        self.echo_mode
    }

    pub fn set_echo_mode(&mut self, mode: EchoMode)
        requires
            old(self).wf(),
        ensures
            final(self).wf(),
            final(self)@ == (LineEditView { echo_mode: mode, ..old(self)@ }),
    {
        self.echo_mode = mode;
    }

    pub fn cursor_position(&self) -> (r: usize)
        ensures
            r == self@.cursor,
    {
        self.cursor
    }

    /// Moves the cursor to `pos`, at most the end of the text.
    pub fn set_cursor_position(&mut self, pos: usize)
        requires
            old(self).wf(),
        ensures
            final(self).wf(),
            final(self)@ == (LineEditView {
                cursor: if pos < old(self)@.text.len() {
                    pos as nat
                } else {
                    old(self)@.text.len()
                },
                ..old(self)@
            }),
    {
        self.cursor = if pos < self.text.len() {
            pos
        } else {
            self.text.len()
        };
    }

    pub fn is_read_only(&self) -> (r: bool)
        ensures
            r == self@.read_only,
    {
        self.read_only
    }

    pub fn set_read_only(&mut self, read_only: bool)
        requires
            old(self).wf(),
        ensures
            final(self).wf(),
            final(self)@ == (LineEditView { read_only, ..old(self)@ }),
    {
        self.read_only = read_only;
    }

    pub fn max_length(&self) -> (r: usize)
        ensures
            r == self@.max_length,
    {
        self.max_length
    }

    /// Sets the length limit; text already longer stays.
    pub fn set_max_length(&mut self, len: usize)
        requires
            old(self).wf(),
        ensures
            final(self).wf(),
            final(self)@ == (LineEditView { max_length: len as nat, ..old(self)@ }),
    {
        self.max_length = len;
    }

    pub fn is_enabled(&self) -> (r: bool)
        ensures
            r == self@.enabled,
    {
        self.enabled
    }

    pub fn set_enabled(&mut self, enabled: bool)
        requires
            old(self).wf(),
        ensures
            final(self).wf(),
            final(self)@ == (LineEditView { enabled, ..old(self)@ }),
    {
        self.enabled = enabled;
    }

    pub fn is_cursor_visible(&self) -> (r: bool)
        ensures
            r == self@.cursor_visible,
    {
        self.cursor_visible
    }

    /// Whether some text is selected.
    pub fn has_selected_text(&self) -> (r: bool)
        requires
            self.wf(),
        ensures
            r == (selection_of(self@) is Some),
    {
        match self.selection_range() {
            Some(_) => true,
            None => false,
        }
    }

    /// The selected span as (start, end) ([`selection_of`]).
    pub fn selection_range(&self) -> (r: Option<(usize, usize)>)
        requires
            self.wf(),
        ensures
            match selection_of(self@) {
                Some((s, e)) => r == Some((s as usize, e as usize)),
                None => r is None,
            },
    {
        match self.anchor {
            Some(a0) => {
                let a = if a0 > self.text.len() {
                    self.text.len()
                } else {
                    a0
                };
                if a == self.cursor {
                    None
                } else if a < self.cursor {
                    Some((a, self.cursor))
                } else {
                    Some((self.cursor, a))
                }
            },
            None => None,
        }
    }

    /// The selected text ([`selected_of`]).
    pub fn selected_text(&self) -> (r: String)
        requires
            self.wf(),
        ensures
            r@ == selected_of(self@),
    {
        match self.selection_range() {
            Some((s, e)) => {
                let part = sub_chars(&self.text, s, e);
                assert(part@ =~= self@.text.subrange(s as int, e as int));
                string_of(&part)
            },
            None => String::new(),
        }
    }

    /// Selects the whole text, the cursor at its end; nothing for empty text.
    pub fn select_all(&mut self)
        requires
            old(self).wf(),
        ensures
            final(self).wf(),
            final(self)@ == if old(self)@.text.len() > 0 {
                LineEditView { anchor: Some(0), cursor: old(self)@.text.len(), ..old(self)@ }
            } else {
                old(self)@
            },
    {
        if self.text.len() > 0 {
            self.anchor = Some(0);
            self.cursor = self.text.len();
        }
    }

    /// Drops the selection.
    pub fn deselect(&mut self)
        requires
            old(self).wf(),
        ensures
            final(self).wf(),
            final(self)@ == (LineEditView { anchor: None, ..old(self)@ }),
    {
        self.anchor = None;
    }

    /// Empties the text.
    pub fn clear(&mut self)
        requires
            old(self).wf(),
        ensures
            final(self).wf(),
            final(self)@ == (LineEditView { text: Seq::empty(), cursor: 0, anchor: None, ..old(self)@ }),
    {
        self.text = Vec::new();
        self.cursor = 0;
        self.anchor = None;
        assert(self@.text =~= Seq::<char>::empty());
    }

    /// The text `copy` puts on the clipboard ([`copied_of`]).
    pub fn copy(&self) -> (r: Option<String>)
        requires
            self.wf(),
        ensures
            match copied_of(self@) {
                Some(t) => r matches Some(s) && s@ == t,
                None => r is None,
            },
    {
        let sel = self.selected_text();
        if vstd::string::StrSliceExecFns::unicode_len(sel.as_str()) > 0 && matches!(self.echo_mode, EchoMode::Normal) {
            Some(sel)
        } else {
            None
        }
    }

    /// Removes the selection ([`spec_delete_selection`]); returns whether there was one.
    fn delete_selection(&mut self) -> (deleted: bool)
        requires
            old(self).wf(),
        ensures
            final(self).wf(),
            (final(self)@, deleted) == spec_delete_selection(old(self)@),
    {
        match self.selection_range() {
            Some((s, e)) => {
                let head = sub_chars(&self.text, 0, s);
                let tail = sub_chars(&self.text, e, self.text.len());
                let joined = concat_chars(&head, &tail);
                assert(joined@ =~= self@.text.subrange(0, s as int) + self@.text.subrange(e as int, self@.text.len() as int));
                self.text = joined;
                self.cursor = s;
                self.anchor = None;
                true
            },
            None => false,
        }
    }

    /// Cuts the selection: returns the text for the clipboard and removes
    /// the selection; nothing when read-only.
    pub fn cut(&mut self) -> (r: Option<String>)
        requires
            old(self).wf(),
        ensures
            final(self).wf(),
            old(self)@.read_only ==> final(self)@ == old(self)@ && r is None,
            !old(self)@.read_only ==> final(self)@ == spec_delete_selection(old(self)@).0 && match copied_of(old(self)@) {
                Some(t) => r matches Some(s) && s@ == t,
                None => r is None,
            },
    {
        if self.read_only {
            return None;
        }
        let c = self.copy();
        self.delete_selection();
        c
    }

    /// Inserts `s` at the cursor ([`spec_insert`]).
    pub fn insert_text(&mut self, s: &str)
        requires
            old(self).wf(),
        ensures
            final(self).wf(),
            final(self)@ == spec_insert(old(self)@, s@),
    {
        if self.read_only {
            return;
        }
        self.delete_selection();
        let raw = chars_of(s);
        let f = strip_newlines(&raw);
        if f.len() > self.max_length || self.text.len() > self.max_length - f.len() {
            return;
        }
        let head = sub_chars(&self.text, 0, self.cursor);
        let tail = sub_chars(&self.text, self.cursor, self.text.len());
        let first = concat_chars(&head, &f);
        let joined = concat_chars(&first, &tail);
        assert(joined@ =~= self@.text.subrange(0, self.cursor as int) + f@ + self@.text.subrange(self.cursor as int, self@.text.len() as int));
        self.cursor = self.cursor + f.len();
        self.text = joined;
        self.anchor = None;
    }

    /// Pastes `clipboard` at the cursor; nothing when read-only or empty.
    pub fn paste(&mut self, clipboard: &str)
        requires
            old(self).wf(),
        ensures
            final(self).wf(),
            final(self)@ == if !old(self)@.read_only && clipboard@.len() > 0 {
                spec_insert(old(self)@, clipboard@)
            } else {
                old(self)@
            },
    {
        if self.read_only {
            return;
        }
        if vstd::string::StrSliceExecFns::unicode_len(clipboard) > 0 {
            self.insert_text(clipboard);
        }
    }

    /// The text as shown: as typed, a bullet per character for the password
    /// modes, nothing for no echo.
    pub fn display_text(&self) -> (r: String)
        ensures
            r@ == match self@.echo_mode {
                EchoMode::Normal => self@.text,
                EchoMode::NoEcho => Seq::empty(),
                _ => Seq::new(self@.text.len(), |i: int| '\u{2022}'),
            },
    {
        match self.echo_mode {
            EchoMode::Normal => string_of(&self.text),
            EchoMode::NoEcho => String::new(),
            _ => {
                let mut v: Vec<char> = Vec::new();
                let mut i: usize = 0;
                while i < self.text.len()
                    invariant
                        0 <= i <= self@.text.len(),
                        v@ == Seq::new(i as nat, |k: int| '\u{2022}'),
                    decreases self@.text.len() - i,
                {
                    v.push('\u{2022}');
                    i = i + 1;
                    assert(v@ =~= Seq::new(i as nat, |k: int| '\u{2022}'));
                }
                string_of(&v)
            },
        }
    }

    /// The focus comes in: the cursor shows.
    pub fn focus_in_event(&mut self)
        requires
            old(self).wf(),
        ensures
            final(self).wf(),
            final(self)@ == (LineEditView { cursor_visible: true, ..old(self)@ }),
    {
        self.cursor_visible = true;
    }

    /// The focus leaves: the cursor hides and the selection is dropped
    /// (editing is finished).
    pub fn focus_out_event(&mut self)
        requires
            old(self).wf(),
        ensures
            final(self).wf(),
            final(self)@ == (LineEditView { cursor_visible: false, anchor: None, ..old(self)@ }),
    {
        self.cursor_visible = false;
        self.anchor = None;
    }

    /// A mouse button goes down on the character boundary `index` (the one
    /// nearest the pointer): the left button of an enabled line edit puts the
    /// cursor there and drops the selection.
    pub fn mouse_press_event(&mut self, button: u32, index: usize)
        requires
            old(self).wf(),
            index <= old(self)@.text.len(),
        ensures
            final(self).wf(),
            final(self)@ == if old(self)@.enabled && button == 1 {
                LineEditView { cursor: index as nat, anchor: None, ..old(self)@ }
            } else {
                old(self)@
            },
    {
        if !self.enabled || button != 1 {
            return;
        }
        self.cursor = index;
        self.anchor = None;
    }

    /// Input method text: committed text is inserted and the pre-edit text
    /// cleared; otherwise the pre-edit text and its cursor are kept.
    pub fn input_method_event(&mut self, commit: &str, preedit: &str, cursor: i32)
        requires
            old(self).wf(),
        ensures
            final(self).wf(),
            commit@.len() > 0 ==> final(self)@ == (LineEditView { preedit: Seq::empty(), ..spec_insert(old(self)@, commit@) }),
            commit@.len() == 0 ==> final(self)@ == (LineEditView { preedit: preedit@, preedit_cursor: cursor as int, ..old(self)@ }),
    {
        if vstd::string::StrSliceExecFns::unicode_len(commit) > 0 {
            self.insert_text(commit);
            self.preedit = String::new();
        } else {
            self.preedit = str_to_string(preedit);
            self.preedit_cursor = cursor;
        }
    }

    fn move_cursor(&mut self, to: usize, shift: bool)
        requires
            old(self).wf(),
            to <= old(self)@.text.len(),
        ensures
            final(self).wf(),
            final(self)@ == spec_move(old(self)@, to as nat, shift),
    {
        if shift {
            if self.anchor.is_none() {
                self.anchor = Some(self.cursor);
            }
        } else {
            self.anchor = None;
        }
        self.cursor = to;
    }

    /// A key goes down ([`spec_key`]); `clipboard` is the clipboard's text
    /// for pasting.
    pub fn key_press_event(&mut self, key: u32, modifiers: u32, clipboard: &str) -> (r: LineEditKeyResult)
        requires
            old(self).wf(),
        ensures
            final(self).wf(),
            final(self)@ == spec_key(old(self)@, key, modifiers, clipboard@).0,
            r.return_pressed == spec_key(old(self)@, key, modifiers, clipboard@).2,
            match spec_key(old(self)@, key, modifiers, clipboard@).1 {
                Some(t) => r.to_clipboard matches Some(s) && s@ == t,
                None => r.to_clipboard is None,
            },
    {
        let none = LineEditKeyResult { to_clipboard: None, return_pressed: false };
        if !self.enabled {
            return none;
        }
        let ctrl = modifiers & 0x0400_0000 != 0 || modifiers & 2 != 0;
        let shift = modifiers & 0x0200_0000 != 0 || modifiers & 1 != 0;
        let n = self.text.len();
        if ctrl && (key == 0x41 || key == 0x61) {
            self.select_all();
            return none;
        }
        if ctrl && (key == 0x43 || key == 0x63) {
            let c = self.copy();
            return LineEditKeyResult { to_clipboard: c, return_pressed: false };
        }
        if ctrl && (key == 0x58 || key == 0x78) {
            let c = self.cut();
            return LineEditKeyResult { to_clipboard: c, return_pressed: false };
        }
        if ctrl && (key == 0x56 || key == 0x76) {
            self.paste(clipboard);
            return none;
        }
        if key == 0x25 || key == 0x0100_0012 {
            let to = if self.cursor > 0 {
                self.cursor - 1
            } else {
                self.cursor
            };
            self.move_cursor(to, shift);
        } else if key == 0x27 || key == 0x0100_0014 {
            let to = if self.cursor < n {
                self.cursor + 1
            } else {
                self.cursor
            };
            self.move_cursor(to, shift);
        } else if key == 0x24 || key == 0x0100_0010 {
            self.move_cursor(0, shift);
        } else if key == 0x23 || key == 0x0100_0011 {
            self.move_cursor(n, shift);
        } else if key == 0x08 || key == 0x0100_0003 {
            if !self.read_only {
                let ghost v0 = self@;
                if !self.delete_selection() && self.cursor > 0 {
                    let _ = self.text.remove(self.cursor - 1);
                    self.cursor = self.cursor - 1;
                    assert(self@.text =~= v0.text.remove(v0.cursor - 1));
                }
            }
        } else if key == 0x2E || key == 0x0100_0007 {
            if !self.read_only {
                let ghost v0 = self@;
                if !self.delete_selection() && self.cursor < self.text.len() {
                    let _ = self.text.remove(self.cursor);
                    assert(self@.text =~= v0.text.remove(v0.cursor as int));
                }
            }
        } else if key == 0x0D || key == 0x0100_0004 || key == 0x0100_0005 {
            return LineEditKeyResult { to_clipboard: None, return_pressed: true };
        } else if !ctrl && 32 <= key && key <= 126 {
            let c = (key as u8) as char;
            let mut one = String::new();
            crate::text::push_char(&mut one, c);
            assert(one@ =~= seq![key as char]);
            self.insert_text(one.as_str());
        }
        none
    }
}

} // verus!
