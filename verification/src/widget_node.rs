use vstd::prelude::*;

use crate::accessibility::{AccessibleAction, AccessibleRole};
use crate::focus::FocusPolicy;
use crate::geometry::Rect;

verus! {

/// A snapshot of one widget and its subtree, holding the properties that
/// focus navigation and accessibility read from a live widget hierarchy.
pub struct WidgetNode {
    pub id: u64,
    /// Position and extent within the parent.
    pub geometry: Rect,
    pub visible: bool,
    pub enabled: bool,
    pub has_focus: bool,
    pub focus_policy: FocusPolicy,
    pub accessible_role: AccessibleRole,
    pub accessible_name: String,
    pub accessible_value: Option<String>,
    pub accessible_actions: Vec<AccessibleAction>,
    pub children: Vec<WidgetNode>,
}

} // verus!
