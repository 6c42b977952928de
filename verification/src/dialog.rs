//! Dialogs (`QDialog`): modality, showing, and the result they finish with.

use vstd::prelude::*;

verus! {

/// Result code a dialog finishes with (`QDialog::DialogCode`).
#[derive(Debug, Clone, Copy, PartialEq, Eq, Structural)]
pub enum DialogCode {
    Rejected,
    Accepted,
}

impl Default for DialogCode {
    fn default() -> (r: DialogCode)
        ensures
            r == DialogCode::Rejected,
    {
        DialogCode::Rejected
    }
}

impl DialogCode {
    /// The numeric code: 0 for `Rejected`, 1 for `Accepted`.
    pub fn code(self) -> (r: i32)
        ensures
            r == if self == DialogCode::Accepted {
                1i32
            } else {
                0i32
            },
    {
        match self {
            DialogCode::Rejected => 0,
            DialogCode::Accepted => 1,
        }
    }
}

/// A dialog as plain values.
pub struct DialogView {
    pub modal: bool,
    pub result: DialogCode,
    pub visible: bool,
}

/// Modal or modeless dialog window.
pub struct Dialog {
    modal: bool,
    result: DialogCode,
    visible: bool,
}

impl View for Dialog {
    type V = DialogView;

    closed spec fn view(&self) -> DialogView {
        DialogView { modal: self.modal, result: self.result, visible: self.visible }
    }
}

/// A finished dialog: hidden, with its result.
pub open spec fn finished(v: DialogView, result: DialogCode) -> DialogView {
    DialogView { result, visible: false, ..v }
}

impl Dialog {
    /// A new modal dialog with the result `Rejected`, visible like every new widget.
    pub fn new() -> (r: Dialog)
        ensures
            r@ == (DialogView { modal: true, result: DialogCode::Rejected, visible: true }),
    {
        Dialog { modal: true, result: DialogCode::Rejected, visible: true }
    }

    pub fn is_modal(&self) -> (r: bool)
        ensures
            r == self@.modal,
    {
        self.modal
    }

    pub fn set_modal(&mut self, modal: bool)
        ensures
            final(self)@ == (DialogView { modal, ..old(self)@ }),
    {
        self.modal = modal;
    }

    /// The result the dialog last finished with.
    pub fn result(&self) -> (r: DialogCode)
        ensures
            r == self@.result,
    {
        self.result
    }

    pub fn is_visible(&self) -> (r: bool)
        ensures
            r == self@.visible,
    {
        self.visible
    }

    /// Shows the dialog.
    pub fn open(&mut self)
        ensures
            final(self)@ == (DialogView { visible: true, ..old(self)@ }),
    {
        self.visible = true;
    }

    /// Hides the dialog and records `result` (`QDialog::done`); the
    /// `accepted` or `rejected` and then the `finished` notifications follow.
    pub fn done(&mut self, result: DialogCode)
        ensures
            final(self)@ == finished(old(self)@, result),
    {
        self.result = result;
        self.visible = false;
    }

    /// Finishes with `Accepted`.
    pub fn accept(&mut self)
        ensures
            final(self)@ == finished(old(self)@, DialogCode::Accepted),
    {
        self.done(DialogCode::Accepted);
    }

    /// Finishes with `Rejected`.
    pub fn reject(&mut self)
        ensures
            final(self)@ == finished(old(self)@, DialogCode::Rejected),
    {
        self.done(DialogCode::Rejected);
    }

    /// A key goes down: Escape (Win32 or Qt code) rejects the dialog. Returns
    /// whether the event was handled.
    pub fn key_press_event(&mut self, key: u32) -> (handled: bool)
        ensures
            handled == (key == 0x1B || key == 0x0100_0000),
            final(self)@ == if handled {
                finished(old(self)@, DialogCode::Rejected)
            } else {
                old(self)@
            },
    {
        if key == 0x1B || key == 0x0100_0000 {
            self.reject();
            true
        } else {
            false
        }
    }
}

impl Default for Dialog {
    fn default() -> (r: Dialog)
        ensures
            r@ == (DialogView { modal: true, result: DialogCode::Rejected, visible: true }),
    {
        Dialog::new()
    }
}

} // verus!
