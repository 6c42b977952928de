//! Radio buttons (`QRadioButton`) and button groups (`QButtonGroup`).
//!
//! Checking a radio button unchecks the other radio buttons that share its
//! parent, so that among siblings at most one is checked.

use vstd::prelude::*;

use crate::text::str_to_string;

verus! {

/// One radio button as plain values.
#[derive(Debug, Clone, Copy, PartialEq, Eq, Structural)]
pub struct RadioView {
    pub checked: bool,
    pub enabled: bool,
    pub group_id: Option<i32>,
}

/// A radio button: its text, checked and enabled state, and optional group id.
pub struct RadioButton {
    text: String,
    checked: bool,
    enabled: bool,
    group_id: Option<i32>,
}

impl RadioButton {
    /// The button's state as plain values.
    pub closed spec fn state(&self) -> RadioView {
        RadioView { checked: self.checked, enabled: self.enabled, group_id: self.group_id }
    }

    /// The text.
    pub closed spec fn spec_text(&self) -> Seq<char> {
        self.text@
    }

    /// An unchecked, enabled radio button showing `text`, in no group.
    pub fn new(text: &str) -> (r: RadioButton)
        ensures
            r.spec_text() == text@,
            r.state() == (RadioView { checked: false, enabled: true, group_id: None }),
    {
        RadioButton { text: str_to_string(text), checked: false, enabled: true, group_id: None }
    }

    pub fn text(&self) -> (r: &str)
        ensures
            r@ == self.spec_text(),
    {
        self.text.as_str()
    }

    pub fn set_text(&mut self, text: &str)
        ensures
            final(self).spec_text() == text@,
            final(self).state() == old(self).state(),
    {
        self.text = str_to_string(text);
    }

    pub fn is_checked(&self) -> (r: bool)
        ensures
            r == self.state().checked,
    {
        self.checked
    }

    pub fn is_enabled(&self) -> (r: bool)
        ensures
            r == self.state().enabled,
    {
        self.enabled
    }

    pub fn set_enabled(&mut self, enabled: bool)
        ensures
            final(self).spec_text() == old(self).spec_text(),
            final(self).state() == (RadioView { enabled, ..old(self).state() }),
    {
        self.enabled = enabled;
    }

    /// The id of the button group the button belongs to, if any.
    pub fn group_id(&self) -> (r: Option<i32>)
        ensures
            r == self.state().group_id,
    {
        self.group_id
    }

    pub fn set_group_id(&mut self, id: Option<i32>)
        ensures
            final(self).spec_text() == old(self).spec_text(),
            final(self).state() == (RadioView { group_id: id, ..old(self).state() }),
    {
        self.group_id = id;
    }

    /// Sets the checked state of a button without siblings; returns whether
    /// it changed (and the toggled notification is sent).
    pub fn set_checked(&mut self, checked: bool) -> (changed: bool)
        ensures
            changed == (checked != old(self).state().checked),
            final(self).spec_text() == old(self).spec_text(),
            final(self).state() == (RadioView { checked, ..old(self).state() }),
    {
        if self.checked != checked {
            self.checked = checked;
            true
        } else {
            false
        }
    }
}

/// Sibling radio buttons after checking button `i`: it is checked and every
/// other one unchecked.
pub open spec fn checked_only(s: Seq<RadioView>, i: int) -> Seq<RadioView> {
    Seq::new(s.len(), |j: int| RadioView { checked: j == i, ..s[j] })
}

/// At most one of the buttons is checked.
pub open spec fn at_most_one_checked(s: Seq<RadioView>) -> bool {
    forall|a: int, b: int| 0 <= a < s.len() && 0 <= b < s.len() && s[a].checked && s[b].checked ==> a == b
}

/// The radio buttons that share one parent widget, in the parent's order.
pub struct RadioSiblings {
    buttons: Vec<RadioButton>,
}

impl RadioSiblings {
    /// The buttons' states, in order.
    pub closed spec fn states(&self) -> Seq<RadioView> {
        self.buttons@.map_values(|b: RadioButton| b.state())
    }

    /// No buttons yet.
    pub fn new() -> (r: RadioSiblings)
        ensures
            r.states() == Seq::<RadioView>::empty(),
    {
        let r = RadioSiblings { buttons: Vec::new() };
        assert(r.states() =~= Seq::<RadioView>::empty());
        r
    }

    /// Adds a button under the same parent; returns its index.
    pub fn add(&mut self, button: RadioButton) -> (i: usize)
        ensures
            i == old(self).states().len(),
            final(self).states() == old(self).states().push(button.state()),
    {
        let i = self.buttons.len();
        self.buttons.push(button);
        assert(self.states() =~= old(self).states().push(button.state()));
        i
    }

    /// Number of buttons.
    pub fn len(&self) -> (r: usize)
        ensures
            r == self.states().len(),
    {
        self.buttons.len()
    }

    /// Button `i`.
    pub fn button(&self, i: usize) -> (r: &RadioButton)
        requires
            i < self.states().len(),
        ensures
            r.state() == self.states()[i as int],
    {
        &self.buttons[i]
    }

    /// Whether button `i` is checked.
    pub fn is_checked(&self, i: usize) -> (r: bool)
        requires
            i < self.states().len(),
        ensures
            r == self.states()[i as int].checked,
    {
        self.buttons[i].checked
    }

    /// Enables or disables button `i`.
    pub fn set_enabled(&mut self, i: usize, enabled: bool)
        requires
            i < old(self).states().len(),
        ensures
            final(self).states() == old(self).states().update(
                i as int,
                RadioView { enabled, ..old(self).states()[i as int] },
            ),
    {
        self.buttons[i].enabled = enabled;
        assert(self.states() =~= old(self).states().update(
            i as int,
            RadioView { enabled, ..old(self).states()[i as int] },
        ));
    }

    /// Checks or unchecks button `i`; checking it unchecks its siblings.
    /// Returns whether button `i` changed.
    pub fn set_checked(&mut self, i: usize, checked: bool) -> (changed: bool)
        requires
            i < old(self).states().len(),
        ensures
            changed == (checked != old(self).states()[i as int].checked),
            !changed ==> final(self).states() == old(self).states(),
            changed && checked ==> final(self).states() == checked_only(old(self).states(), i as int),
            changed && !checked ==> final(self).states() == old(self).states().update(
                i as int,
                RadioView { checked: false, ..old(self).states()[i as int] },
            ),
    {
        if self.buttons[i].checked == checked {
            return false;
        }
        self.buttons[i].checked = checked;
        if checked {
            let n = self.buttons.len();
            let mut j: usize = 0;
            while j < n
                invariant
                    0 <= j <= n == self.buttons@.len() == old(self).buttons@.len(),
                    i < n,
                    checked,
                    forall|k: int| 0 <= k < n ==> (#[trigger] self.buttons@[k]).text@ == old(self).buttons@[k].text@,
                    forall|k: int|
                        0 <= k < n ==> (#[trigger] self.buttons@[k]).state() == if k < j {
                            RadioView { checked: k == i, ..old(self).buttons@[k].state() }
                        } else if k == i {
                            RadioView { checked: true, ..old(self).buttons@[k].state() }
                        } else {
                            old(self).buttons@[k].state()
                        },
                decreases n - j,
            {
                if j != i && self.buttons[j].checked {
                    self.buttons[j].checked = false;
                }
                j = j + 1;
            }
            assert(self.states() =~= checked_only(old(self).states(), i as int));
        } else {
            assert(self.states() =~= old(self).states().update(
                i as int,
                RadioView { checked: false, ..old(self).states()[i as int] },
            ));
        }
        true
    }

    /// Clicks button `i`: an enabled, unchecked button becomes the checked one.
    /// Returns whether it changed.
    pub fn click(&mut self, i: usize) -> (changed: bool)
        requires
            i < old(self).states().len(),
        ensures
            changed == (old(self).states()[i as int].enabled && !old(self).states()[i as int].checked),
            changed ==> final(self).states() == checked_only(old(self).states(), i as int),
            !changed ==> final(self).states() == old(self).states(),
    {
        if self.buttons[i].enabled && !self.buttons[i].checked {
            self.set_checked(i, true)
        } else {
            false
        }
    }

    /// A mouse button goes down on button `i`: the left button clicks it.
    /// Returns whether the event was handled.
    pub fn mouse_press_event(&mut self, i: usize, button: u32) -> (handled: bool)
        requires
            i < old(self).states().len(),
        ensures
            handled == (button == 1),
            handled && old(self).states()[i as int].enabled && !old(self).states()[i as int].checked
                ==> final(self).states() == checked_only(old(self).states(), i as int),
            !(handled && old(self).states()[i as int].enabled && !old(self).states()[i as int].checked)
                ==> final(self).states() == old(self).states(),
    {
        if button == 1 {
            self.click(i);
            true
        } else {
            false
        }
    }

    /// A key goes down on button `i`: Space clicks it. Returns whether the
    /// event was handled.
    pub fn key_press_event(&mut self, i: usize, key: u32) -> (handled: bool)
        requires
            i < old(self).states().len(),
        ensures
            handled == (key == 0x20),
            handled && old(self).states()[i as int].enabled && !old(self).states()[i as int].checked
                ==> final(self).states() == checked_only(old(self).states(), i as int),
            !(handled && old(self).states()[i as int].enabled && !old(self).states()[i as int].checked)
                ==> final(self).states() == old(self).states(),
    {
        if key == 0x20 {
            self.click(i);
            true
        } else {
            false
        }
    }
}

/// Checking a radio button leaves it the only checked one among its siblings.
pub proof fn lemma_checked_only_single(s: Seq<RadioView>, i: int)
    requires
        0 <= i < s.len(),
    ensures
        at_most_one_checked(checked_only(s, i)),
        checked_only(s, i)[i].checked,
{
}

/// Unchecking a button keeps at most one sibling checked.
pub proof fn lemma_uncheck_keeps_single(s: Seq<RadioView>, i: int)
    requires
        0 <= i < s.len(),
        at_most_one_checked(s),
    ensures
        at_most_one_checked(s.update(i, RadioView { checked: false, ..s[i] })),
{
}

/// A group of buttons with integer ids tracking the checked one (`QButtonGroup`).
pub struct ButtonGroup {
    exclusive: bool,
    buttons: Vec<(u64, i32)>,
    checked_id: Option<i32>,
}

/// A button group as plain values: the buttons by widget identifier with
/// their ids, in the order they were added.
pub struct ButtonGroupView {
    pub exclusive: bool,
    pub buttons: Seq<(u64, i32)>,
    pub checked_id: Option<i32>,
}

impl View for ButtonGroup {
    type V = ButtonGroupView;

    closed spec fn view(&self) -> ButtonGroupView {
        ButtonGroupView { exclusive: self.exclusive, buttons: self.buttons@, checked_id: self.checked_id }
    }
}

/// `s` without the entries for widget `b`.
pub open spec fn without_button(s: Seq<(u64, i32)>, b: u64) -> Seq<(u64, i32)>
    decreases s.len(),
{
    if s.len() == 0 {
        s
    } else if s.last().0 == b {
        without_button(s.drop_last(), b)
    } else {
        without_button(s.drop_last(), b).push(s.last())
    }
}

/// Whether some entry has id `id`.
pub open spec fn has_id(s: Seq<(u64, i32)>, id: i32) -> bool {
    exists|k: int| 0 <= k < s.len() && #[trigger] s[k].1 == id
}

/// The id of the first entry for widget `b`.
pub open spec fn first_id(s: Seq<(u64, i32)>, b: u64) -> Option<i32>
    decreases s.len(),
{
    if s.len() == 0 {
        None
    } else if s[0].0 == b {
        Some(s[0].1)
    } else {
        first_id(s.drop_first(), b)
    }
}

/// What a group reports when a button changes (`buttonClicked`, `buttonToggled`).
#[derive(Debug, Clone, Copy, PartialEq, Eq, Structural)]
pub enum GroupNotice {
    /// A button became the checked one: it was clicked, then toggled on.
    Checked(i32),
    /// The checked button was unchecked: toggled off.
    Unchecked(i32),
}

/// `s` without widget `b`'s entries, computed.
fn drop_button(s: &Vec<(u64, i32)>, b: u64) -> (r: Vec<(u64, i32)>)
    ensures
        r@ == without_button(s@, b),
{
    let mut out: Vec<(u64, i32)> = Vec::new();
    let mut i: usize = 0;
    while i < s.len()
        invariant
            0 <= i <= s@.len(),
            out@ == without_button(s@.subrange(0, i as int), b),
        decreases s@.len() - i,
    {
        proof {
            let p = s@.subrange(0, i as int + 1);
            assert(p.drop_last() =~= s@.subrange(0, i as int));
        }
        if s[i].0 != b {
            out.push(s[i]);
        }
        i = i + 1;
    }
    assert(s@.subrange(0, i as int) =~= s@);
    out
}

impl ButtonGroup {
    /// An exclusive group without buttons.
    pub fn new() -> (r: ButtonGroup)
        ensures
            r@ == (ButtonGroupView { exclusive: true, buttons: Seq::empty(), checked_id: None }),
    {
        let r = ButtonGroup { exclusive: true, buttons: Vec::new(), checked_id: None };
        assert(r@.buttons =~= Seq::<(u64, i32)>::empty());
        r
    }

    pub fn is_exclusive(&self) -> (r: bool)
        ensures
            r == self@.exclusive,
    {
        self.exclusive
    }

    pub fn set_exclusive(&mut self, exclusive: bool)
        ensures
            final(self)@ == (ButtonGroupView { exclusive, ..old(self)@ }),
    {
        self.exclusive = exclusive;
    }

    /// The buttons by widget identifier with their ids, in order.
    pub fn buttons(&self) -> (r: &[(u64, i32)])
        ensures
            r@ == self@.buttons,
    {
        self.buttons.as_slice()
    }

    /// Adds widget `button` with `id`, replacing an earlier entry for it.
    pub fn add_button(&mut self, button: u64, id: i32)
        ensures
            final(self)@ == (ButtonGroupView {
                buttons: without_button(old(self)@.buttons, button).push((button, id)),
                ..old(self)@
            }),
    {
        let mut kept = drop_button(&self.buttons, button);
        kept.push((button, id));
        self.buttons = kept;
    }

    /// Removes widget `button`; the checked id is forgotten when no remaining
    /// button has it.
    pub fn remove_button(&mut self, button: u64)
        ensures
            ({
                let rest = without_button(old(self)@.buttons, button);
                final(self)@ == (ButtonGroupView {
                    buttons: rest,
                    checked_id: match old(self)@.checked_id {
                        Some(id) => if has_id(rest, id) {
                            Some(id)
                        } else {
                            None
                        },
                        None => None,
                    },
                    ..old(self)@
                })
            }),
    {
        self.buttons = drop_button(&self.buttons, button);
        if let Some(id) = self.checked_id {
            let mut found = false;
            let mut k: usize = 0;
            while k < self.buttons.len()
                invariant
                    0 <= k <= self.buttons@.len(),
                    found == exists|j: int| 0 <= j < k && #[trigger] self.buttons@[j].1 == id,
                decreases self.buttons@.len() - k,
            {
                if self.buttons[k].1 == id {
                    found = true;
                }
                k = k + 1;
            }
            if !found {
                self.checked_id = None;
            }
        }
    }

    /// The id of the checked button, if any.
    pub fn checked_id(&self) -> (r: Option<i32>)
        ensures
            r == self@.checked_id,
    {
        self.checked_id
    }

    /// A button with `id` changed its checked state; returns what the group
    /// reports, if anything.
    pub fn set_checked(&mut self, id: i32, checked: bool) -> (r: Option<GroupNotice>)
        ensures
            checked && old(self)@.checked_id != Some(id) ==> r == Some(GroupNotice::Checked(id))
                && final(self)@ == (ButtonGroupView { checked_id: Some(id), ..old(self)@ }),
            !checked && old(self)@.checked_id == Some(id) ==> r == Some(GroupNotice::Unchecked(id))
                && final(self)@ == (ButtonGroupView { checked_id: None, ..old(self)@ }),
            (checked && old(self)@.checked_id == Some(id)) || (!checked && old(self)@.checked_id != Some(
                id,
            )) ==> r is None && final(self)@ == old(self)@,
    {
        let is_current = match self.checked_id {
            Some(c) => c == id,
            None => false,
        };
        if checked {
            if !is_current {
                self.checked_id = Some(id);
                return Some(GroupNotice::Checked(id));
            }
            None
        } else if is_current {
            self.checked_id = None;
            Some(GroupNotice::Unchecked(id))
        } else {
            None
        }
    }

    /// The id of widget `button`, if it is in the group.
    pub fn id_of(&self, button: u64) -> (r: Option<i32>)
        ensures
            r == first_id(self@.buttons, button),
    {
        let mut k: usize = 0;
        assert(self.buttons@.subrange(0, self.buttons@.len() as int) =~= self.buttons@);
        while k < self.buttons.len()
            invariant
                0 <= k <= self.buttons@.len(),
                first_id(self.buttons@.subrange(k as int, self.buttons@.len() as int), button) == first_id(
                    self.buttons@,
                    button,
                ),
            decreases self.buttons@.len() - k,
        {
            let ghost rest = self.buttons@.subrange(k as int, self.buttons@.len() as int);
            if self.buttons[k].0 == button {
                return Some(self.buttons[k].1);
            }
            assert(rest.drop_first() =~= self.buttons@.subrange(k + 1, self.buttons@.len() as int));
            k = k + 1;
        }
        None
    }
}

impl Default for ButtonGroup {
    fn default() -> (r: ButtonGroup)
        ensures
            r@ == (ButtonGroupView { exclusive: true, buttons: Seq::empty(), checked_id: None }),
    {
        ButtonGroup::new()
    }
}

} // verus!
