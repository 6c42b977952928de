//! Application-wide state (`QApplication`): the registry of top-level
//! windows, the active window, the focus widget and the interaction settings.

use vstd::prelude::*;

verus! {

/// `ws` without any entry `id`, in order.
pub open spec fn without_id(ws: Seq<u64>, id: u64) -> Seq<u64>
    decreases ws.len(),
{
    if ws.len() == 0 {
        ws
    } else {
        let rest = without_id(ws.drop_last(), id);
        if ws.last() != id {
            rest.push(ws.last())
        } else {
            rest
        }
    }
}

/// Appending one identifier: kept unless it is `id`.
proof fn lemma_without_push(ws: Seq<u64>, w: u64, id: u64)
    ensures
        without_id(ws.push(w), id) == if w != id {
            without_id(ws, id).push(w)
        } else {
            without_id(ws, id)
        },
{
    assert(ws.push(w).drop_last() =~= ws);
}

/// What is left is what was there, but for `id`.
proof fn lemma_without_contains(ws: Seq<u64>, id: u64)
    ensures
        forall|w: u64| #[trigger] without_id(ws, id).contains(w) <==> (ws.contains(w) && w != id),
    decreases ws.len(),
{
    if ws.len() > 0 {
        let init = ws.drop_last();
        lemma_without_contains(init, id);
        assert(ws =~= init.push(ws.last()));
        let r = without_id(init, id);
        assert forall|w: u64| #[trigger] without_id(ws, id).contains(w) <==> (ws.contains(w) && w != id) by {
            assert(ws.contains(w) <==> (init.contains(w) || w == ws.last())) by {
                if ws.contains(w) {
                    let i = choose|i: int| 0 <= i < ws.len() && ws[i] == w;
                    if i < ws.len() - 1 {
                        assert(init[i] == w);
                        assert(init.contains(w));
                    }
                }
                if init.contains(w) {
                    let i = choose|i: int| 0 <= i < init.len() && init[i] == w;
                    assert(ws[i] == w);
                }
                if w == ws.last() {
                    assert(ws[ws.len() - 1] == w);
                }
            }
            if ws.last() != id {
                let r2 = r.push(ws.last());
                assert(r2.contains(w) <==> (r.contains(w) || w == ws.last())) by {
                    if r2.contains(w) {
                        let j = choose|j: int| 0 <= j < r2.len() && r2[j] == w;
                        if j < r.len() {
                            assert(r[j] == w);
                            assert(r.contains(w));
                        }
                    }
                    if r.contains(w) {
                        let j = choose|j: int| 0 <= j < r.len() && r[j] == w;
                        assert(r2[j] == w);
                    }
                    if w == ws.last() {
                        assert(r2[r.len() as int] == w);
                    }
                }
            }
        }
    }
}

/// No window is registered twice.
pub open spec fn no_duplicates(ws: Seq<u64>) -> bool {
    forall|i: int, j: int| 0 <= i < j < ws.len() ==> ws[i] != ws[j]
}

/// The application state as plain values.
pub struct ApplicationView {
    pub windows: Seq<u64>,
    pub active_window: Option<u64>,
    pub focus_widget: Option<u64>,
    pub double_click_interval: u32,
    pub cursor_flash_time: u32,
    pub wheel_scroll_lines: i32,
    pub start_drag_distance: i32,
    pub start_drag_time: u32,
}

/// The state right after start-up: no windows, nothing active or focused,
/// double click 400 ms, cursor flash 1000 ms, three wheel lines, drag after
/// 10 pixels or 500 ms.
pub open spec fn initial_application() -> ApplicationView {
    ApplicationView {
        windows: Seq::empty(),
        active_window: None,
        focus_widget: None,
        double_click_interval: 400,
        cursor_flash_time: 1000,
        wheel_scroll_lines: 3,
        start_drag_distance: 10,
        start_drag_time: 500,
    }
}

/// A change of the focus widget, as (previous, new) identifiers.
pub type FocusChange = (Option<u64>, Option<u64>);

/// Application state: windows by identifier, focus and settings.
pub struct Application {
    windows: Vec<u64>,
    active_window: Option<u64>,
    focus_widget: Option<u64>,
    double_click_interval: u32,
    cursor_flash_time: u32,
    wheel_scroll_lines: i32,
    start_drag_distance: i32,
    start_drag_time: u32,
}

impl View for Application {
    type V = ApplicationView;

    closed spec fn view(&self) -> ApplicationView {
        ApplicationView {
            windows: self.windows@,
            active_window: self.active_window,
            focus_widget: self.focus_widget,
            double_click_interval: self.double_click_interval,
            cursor_flash_time: self.cursor_flash_time,
            wheel_scroll_lines: self.wheel_scroll_lines,
            start_drag_distance: self.start_drag_distance,
            start_drag_time: self.start_drag_time,
        }
    }
}

/// The registry after registering `id`: appended unless already present.
pub open spec fn registered(ws: Seq<u64>, id: u64) -> Seq<u64> {
    if ws.contains(id) {
        ws
    } else {
        ws.push(id)
    }
}

/// Registering a window keeps every window once; registering it again
/// changes nothing.
pub proof fn lemma_register_idempotent(ws: Seq<u64>, id: u64)
    requires
        no_duplicates(ws),
    ensures
        no_duplicates(registered(ws, id)),
        registered(ws, id).contains(id),
        registered(registered(ws, id), id) == registered(ws, id),
{
    let r = registered(ws, id);
    if !ws.contains(id) {
        assert(r[r.len() - 1] == id);
        assert forall|i: int, j: int| 0 <= i < j < r.len() implies r[i] != r[j] by {
            if j == r.len() - 1 {
                assert(ws[i] == r[i]);
            }
        }
    }
    assert(r.contains(id)) by {
        if ws.contains(id) {
        } else {
            assert(r[r.len() - 1] == id);
        }
    }
}

/// Unregistering a window leaves no entry for it and keeps the others.
pub proof fn lemma_unregister_removes(ws: Seq<u64>, id: u64)
    ensures
        !without_id(ws, id).contains(id),
        forall|w: u64| w != id ==> (ws.contains(w) <==> #[trigger] without_id(ws, id).contains(w)),
{
    lemma_without_contains(ws, id);
}

/// Registering a new window and unregistering it again restores the registry.
pub proof fn lemma_register_unregister(ws: Seq<u64>, id: u64)
    requires
        !ws.contains(id),
    ensures
        without_id(registered(ws, id), id) == ws,
{
    lemma_without_push(ws, id, id);
    lemma_without_absent(ws, id);
}

/// Taking out an identifier that does not occur keeps the sequence.
proof fn lemma_without_absent(ws: Seq<u64>, id: u64)
    requires
        !ws.contains(id),
    ensures
        without_id(ws, id) == ws,
    decreases ws.len(),
{
    if ws.len() > 0 {
        let init = ws.drop_last();
        assert(!init.contains(id)) by {
            if init.contains(id) {
                let i = choose|i: int| 0 <= i < init.len() && init[i] == id;
                assert(ws[i] == id);
            }
        }
        lemma_without_absent(init, id);
        assert(ws.last() != id) by {
            assert(ws[ws.len() - 1] == ws.last());
        }
        assert(init.push(ws.last()) =~= ws);
    }
}

/// Taking out an identifier keeps a sequence free of duplicates.
proof fn lemma_without_no_duplicates(ws: Seq<u64>, id: u64)
    requires
        no_duplicates(ws),
    ensures
        no_duplicates(without_id(ws, id)),
    decreases ws.len(),
{
    if ws.len() > 0 {
        let init = ws.drop_last();
        assert(no_duplicates(init));
        lemma_without_no_duplicates(init, id);
        lemma_without_contains(init, id);
        let r = without_id(init, id);
        if ws.last() != id {
            assert(!init.contains(ws.last())) by {
                if init.contains(ws.last()) {
                    let i = choose|i: int| 0 <= i < init.len() && init[i] == ws.last();
                    assert(ws[i] == ws[ws.len() - 1]);
                }
            }
            assert(!r.contains(ws.last()));
            let r2 = r.push(ws.last());
            assert forall|i: int, j: int| 0 <= i < j < r2.len() implies r2[i] != r2[j] by {
                if j == r2.len() - 1 {
                    assert(r2[i] == r[i]);
                    assert(r.contains(r[i]));
                } else {
                    assert(r2[i] == r[i] && r2[j] == r[j]);
                }
            }
        }
    }
}

impl Application {
    /// The invariant: every registered window occurs once.
    pub open spec fn wf(&self) -> bool {
        no_duplicates(self@.windows)
    }

    /// The application at start-up ([`initial_application`]).
    pub fn new() -> (r: Application)
        ensures
            r.wf(),
            r@ == initial_application(),
    {
        let r = Application {
            windows: Vec::new(),
            active_window: None,
            focus_widget: None,
            double_click_interval: 400,
            cursor_flash_time: 1000,
            wheel_scroll_lines: 3,
            start_drag_distance: 10,
            start_drag_time: 500,
        };
        assert(r@.windows =~= Seq::<u64>::empty());
        r
    }

    /// Registers top-level window `id` (once).
    pub fn register_window(&mut self, id: u64)
        requires
            old(self).wf(),
        ensures
            final(self).wf(),
            final(self)@ == (ApplicationView { windows: registered(old(self)@.windows, id), ..old(self)@ }),
    {
        proof {
            lemma_register_idempotent(self@.windows, id);
        }
        let mut k: usize = 0;
        while k < self.windows.len()
            invariant
                0 <= k <= self.windows@.len(),
                self@ == old(self)@,
                no_duplicates(self@.windows),
                forall|i: int| 0 <= i < k ==> self.windows@[i] != id,
            decreases self.windows@.len() - k,
        {
            if self.windows[k] == id {
                assert(self.windows@.contains(id));
                return;
            }
            k = k + 1;
        }
        assert(!self.windows@.contains(id));
        self.windows.push(id);
    }

    /// Unregisters window `id`: its entry goes, and it is no longer the
    /// active window. Returns whether the application should quit: no
    /// window is left and `quit_on_last_window_closed` is set.
    pub fn unregister_window(&mut self, id: u64, quit_on_last_window_closed: bool) -> (quit: bool)
        requires
            old(self).wf(),
        ensures
            final(self).wf(),
            final(self)@ == (ApplicationView {
                windows: without_id(old(self)@.windows, id),
                active_window: if old(self)@.active_window == Some(id) {
                    None
                } else {
                    old(self)@.active_window
                },
                ..old(self)@
            }),
            quit == (without_id(old(self)@.windows, id).len() == 0 && quit_on_last_window_closed),
    {
        let ghost ws = self.windows@;
        let mut kept: Vec<u64> = Vec::new();
        let mut k: usize = 0;
        while k < self.windows.len()
            invariant
                0 <= k <= ws.len(),
                self.windows@ == ws,
                self@ == old(self)@,
                no_duplicates(ws),
                kept@ == without_id(ws.subrange(0, k as int), id),
            decreases ws.len() - k,
        {
            let w = self.windows[k];
            proof {
                assert(ws.subrange(0, k + 1) =~= ws.subrange(0, k as int).push(w));
                lemma_without_push(ws.subrange(0, k as int), w, id);
            }
            if w != id {
                kept.push(w);
            }
            k = k + 1;
        }
        assert(ws.subrange(0, ws.len() as int) =~= ws);
        proof {
            lemma_without_no_duplicates(ws, id);
        }
        self.windows = kept;
        if self.active_window == Some(id) {
            self.active_window = None;
        }
        self.windows.len() == 0 && quit_on_last_window_closed
    }

    /// The registered windows, in the order they were registered.
    pub fn top_level_windows(&self) -> (r: Vec<u64>)
        ensures
            r@ == self@.windows,
    {
        self.windows.clone()
    }

    pub fn active_window(&self) -> (r: Option<u64>)
        ensures
            r == self@.active_window,
    {
        self.active_window
    }

    pub fn set_active_window(&mut self, id: Option<u64>)
        requires
            old(self).wf(),
        ensures
            final(self).wf(),
            final(self)@ == (ApplicationView { active_window: id, ..old(self)@ }),
    {
        self.active_window = id;
    }

    pub fn focus_widget(&self) -> (r: Option<u64>)
        ensures
            r == self@.focus_widget,
    {
        self.focus_widget
    }

    /// Sets the focus widget; returns the change (previous, new) when the
    /// focus moved to another widget.
    pub fn set_focus_widget(&mut self, id: Option<u64>) -> (r: Option<FocusChange>)
        requires
            old(self).wf(),
        ensures
            final(self).wf(),
            final(self)@ == (ApplicationView { focus_widget: id, ..old(self)@ }),
            r == if old(self)@.focus_widget != id {
                Some((old(self)@.focus_widget, id))
            } else {
                None
            },
    {
        let previous = self.focus_widget;
        self.focus_widget = id;
        if previous != id {
            Some((previous, id))
        } else {
            None
        }
    }

    pub fn double_click_interval(&self) -> (r: u32)
        ensures
            r == self@.double_click_interval,
    {
        self.double_click_interval
    }

    pub fn set_double_click_interval(&mut self, ms: u32)
        requires
            old(self).wf(),
        ensures
            final(self).wf(),
            final(self)@ == (ApplicationView { double_click_interval: ms, ..old(self)@ }),
    {
        self.double_click_interval = ms;
    }

    pub fn cursor_flash_time(&self) -> (r: u32)
        ensures
            r == self@.cursor_flash_time,
    {
        self.cursor_flash_time
    }

    pub fn set_cursor_flash_time(&mut self, ms: u32)
        requires
            old(self).wf(),
        ensures
            final(self).wf(),
            final(self)@ == (ApplicationView { cursor_flash_time: ms, ..old(self)@ }),
    {
        self.cursor_flash_time = ms;
    }

    pub fn wheel_scroll_lines(&self) -> (r: i32)
        ensures
            r == self@.wheel_scroll_lines,
    {
        self.wheel_scroll_lines
    }

    pub fn set_wheel_scroll_lines(&mut self, lines: i32)
        requires
            old(self).wf(),
        ensures
            final(self).wf(),
            final(self)@ == (ApplicationView { wheel_scroll_lines: lines, ..old(self)@ }),
    {
        self.wheel_scroll_lines = lines;
    }

    pub fn start_drag_distance(&self) -> (r: i32)
        ensures
            r == self@.start_drag_distance,
    {
        self.start_drag_distance
    }

    pub fn set_start_drag_distance(&mut self, distance: i32)
        requires
            old(self).wf(),
        ensures
            final(self).wf(),
            final(self)@ == (ApplicationView { start_drag_distance: distance, ..old(self)@ }),
    {
        self.start_drag_distance = distance;
    }

    pub fn start_drag_time(&self) -> (r: u32)
        ensures
            r == self@.start_drag_time,
    {
        self.start_drag_time
    }

    pub fn set_start_drag_time(&mut self, ms: u32)
        requires
            old(self).wf(),
        ensures
            final(self).wf(),
            final(self)@ == (ApplicationView { start_drag_time: ms, ..old(self)@ }),
    {
        self.start_drag_time = ms;
    }

    /// Back to the start-up state ([`initial_application`]).
    pub fn reset(&mut self)
        ensures
            final(self).wf(),
            final(self)@ == initial_application(),
    {
        *self = Application::new();
    }
}

} // verus!
