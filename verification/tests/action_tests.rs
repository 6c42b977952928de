use qtrs_widgets::action::{ActionEvent, ActionSet, ExclusionPolicy};
use qtrs_widgets::key_sequence::KeySequence;

fn checkable(set: &mut ActionSet, text: &str) -> usize {
    let a = set.add_action(text);
    set.set_checkable(a, true);
    a
}

#[test]
fn new_action_defaults() {
    let mut set = ActionSet::new();
    let a = set.add_action("&Open");
    let act = set.action(a);
    assert_eq!(act.text(), "&Open");
    assert!(!act.is_checkable());
    assert!(!act.is_checked());
    assert!(!act.is_separator());
    assert!(!act.has_action_group());
    assert!(set.is_enabled(a));
    assert!(set.is_visible(a));
    assert_eq!(set.action_count(), 1);
}

#[test]
fn display_text_and_mnemonic() {
    let mut set = ActionSet::new();
    let a = set.add_action("&File");
    let b = set.add_action("Save && Exit");
    let c = set.add_action("e&xit");
    assert_eq!(set.action(a).display_text(), "File");
    assert_eq!(set.action(a).mnemonic(), Some('F'));
    assert_eq!(set.action(b).display_text(), "Save & Exit");
    assert_eq!(set.action(b).mnemonic(), None);
    assert_eq!(set.action(c).mnemonic(), Some('X'));
}

#[test]
fn icon_text_and_tool_tip_fall_back_to_display_text() {
    let mut set = ActionSet::new();
    let a = set.add_action("&Print");
    assert_eq!(set.action(a).icon_text(), "Print");
    assert_eq!(set.action(a).tool_tip(), "Print");
    set.set_icon_text(a, "Pr");
    set.set_tool_tip(a, "Print the page");
    set.set_status_tip(a, "Prints");
    assert_eq!(set.action(a).icon_text(), "Pr");
    assert_eq!(set.action(a).tool_tip(), "Print the page");
    assert_eq!(set.action(a).status_tip(), "Prints");
}

#[test]
fn separator_action() {
    let mut set = ActionSet::new();
    let s = set.add_separator();
    assert!(set.action(s).is_separator());
    assert_eq!(set.action(s).text(), "");
}

#[test]
fn set_checked_ignored_unless_checkable() {
    let mut set = ActionSet::new();
    let a = set.add_action("Bold");
    set.set_checked(a, true);
    assert!(!set.action(a).is_checked());
    set.set_checkable(a, true);
    set.set_checked(a, true);
    assert!(set.action(a).is_checked());
    set.toggle(a);
    assert!(!set.action(a).is_checked());
}

#[test]
fn unsetting_checkable_unchecks() {
    let mut set = ActionSet::new();
    let g = set.add_group();
    let a = checkable(&mut set, "A");
    set.group_add_action(g, a);
    set.set_checked(a, true);
    assert_eq!(set.group(g).checked_action(), Some(a));
    set.set_checkable(a, false);
    assert!(!set.action(a).is_checked());
    assert_eq!(set.group(g).checked_action(), None);
}

#[test]
fn exclusive_group_keeps_one_checked() {
    let mut set = ActionSet::new();
    let g = set.add_group();
    assert_eq!(set.group(g).exclusion_policy(), ExclusionPolicy::Exclusive);
    let a = checkable(&mut set, "Left");
    let b = checkable(&mut set, "Center");
    let c = checkable(&mut set, "Right");
    set.group_add_action(g, a);
    set.group_add_action(g, b);
    set.group_add_action(g, c);
    assert_eq!(set.group(g).actions(), vec![a, b, c]);
    set.set_checked(a, true);
    assert_eq!(set.group(g).checked_action(), Some(a));
    set.set_checked(b, true);
    assert!(!set.action(a).is_checked());
    assert!(set.action(b).is_checked());
    assert_eq!(set.group(g).checked_action(), Some(b));
    assert_eq!(set.trigger(c), Some(true));
    let checked: Vec<usize> = [a, b, c].iter().copied().filter(|&x| set.action(x).is_checked()).collect();
    assert_eq!(checked, vec![c]);
    assert!(set.is_exclusive_in_group(c));
}

#[test]
fn exclusive_checked_member_stays_checked_when_triggered() {
    let mut set = ActionSet::new();
    let g = set.add_group();
    let a = checkable(&mut set, "A");
    set.group_add_action(g, a);
    set.set_checked(a, true);
    assert_eq!(set.trigger(a), Some(true));
    assert!(set.action(a).is_checked());
    assert_eq!(set.group(g).checked_action(), Some(a));
}

#[test]
fn optional_group_member_can_be_unchecked() {
    let mut set = ActionSet::new();
    let g = set.add_group();
    set.set_exclusion_policy(g, ExclusionPolicy::ExclusiveOptional);
    let a = checkable(&mut set, "A");
    let b = checkable(&mut set, "B");
    set.group_add_action(g, a);
    set.group_add_action(g, b);
    assert_eq!(set.trigger(a), Some(true));
    assert_eq!(set.trigger(a), Some(false));
    assert!(!set.action(a).is_checked());
    assert!(!set.action(b).is_checked());
    assert_eq!(set.group(g).checked_action(), None);
}

#[test]
fn non_exclusive_group_allows_many_checked() {
    let mut set = ActionSet::new();
    let g = set.add_group();
    set.set_exclusive(g, false);
    assert!(!set.group(g).is_exclusive());
    let a = checkable(&mut set, "A");
    let b = checkable(&mut set, "B");
    set.group_add_action(g, a);
    set.group_add_action(g, b);
    set.set_checked(a, true);
    set.set_checked(b, true);
    assert!(set.action(a).is_checked());
    assert!(set.action(b).is_checked());
    assert!(!set.is_exclusive_in_group(a));
}

#[test]
fn disabled_action_ignores_trigger() {
    let mut set = ActionSet::new();
    let a = checkable(&mut set, "A");
    set.set_enabled(a, false);
    assert_eq!(set.trigger(a), None);
    assert!(!set.action(a).is_checked());
    set.set_enabled(a, true);
    assert_eq!(set.trigger(a), Some(true));
}

#[test]
fn group_enabled_and_visible_apply_to_members() {
    let mut set = ActionSet::new();
    let g = set.add_group();
    let a = set.add_action("A");
    set.group_add_action(g, a);
    set.set_group_enabled(g, false);
    set.set_group_visible(g, false);
    assert!(!set.is_enabled(a));
    assert!(!set.is_visible(a));
    assert!(!set.group(g).is_enabled());
    assert_eq!(set.trigger(a), None);
    set.set_group_enabled(g, true);
    set.set_group_visible(g, true);
    assert!(set.is_enabled(a));
    assert!(set.is_visible(a));
    set.set_visible(a, false);
    assert!(!set.is_visible(a));
}

#[test]
fn moving_checked_action_between_groups() {
    let mut set = ActionSet::new();
    let g1 = set.add_group();
    let g2 = set.add_group();
    let a = checkable(&mut set, "A");
    let b = checkable(&mut set, "B");
    set.group_add_action(g1, a);
    set.set_checked(a, true);
    set.group_add_action(g2, b);
    set.set_checked(b, true);
    assert_eq!(set.group_add_action(g2, a), a);
    assert_eq!(set.group(g1).actions(), Vec::<usize>::new());
    assert_eq!(set.group(g1).checked_action(), None);
    assert_eq!(set.group(g2).actions(), vec![b, a]);
    assert_eq!(set.group(g2).checked_action(), Some(a));
    assert!(!set.action(b).is_checked());
}

#[test]
fn adding_a_member_again_changes_nothing() {
    let mut set = ActionSet::new();
    let g = set.add_group();
    let a = set.add_action("A");
    set.group_add_action(g, a);
    set.group_add_action(g, a);
    assert_eq!(set.group(g).actions(), vec![a]);
}

#[test]
fn removing_an_action_from_its_group() {
    let mut set = ActionSet::new();
    let g = set.add_group();
    let a = checkable(&mut set, "A");
    let b = set.group_add_new_action(g, "B");
    set.group_add_action(g, a);
    set.set_checked(a, true);
    set.group_remove_action(g, a);
    assert!(!set.action(a).has_action_group());
    assert!(set.action(a).is_checked());
    assert_eq!(set.group(g).actions(), vec![b]);
    assert_eq!(set.group(g).checked_action(), None);
    // Removing a non-member changes nothing.
    set.group_remove_action(g, a);
    assert_eq!(set.group(g).actions(), vec![b]);
}

#[test]
fn shortcut_round_trip() {
    let mut set = ActionSet::new();
    let a = set.add_action("Copy");
    set.set_shortcut(a, KeySequence::from_portable_string("Ctrl+C"));
    assert_eq!(set.action(a).shortcut().to_portable_string(), "Ctrl+C");
    set.set_text(a, "&Copy");
    assert_eq!(set.action(a).text(), "&Copy");
}

#[test]
fn hover_changes_nothing() {
    let mut set = ActionSet::new();
    let a = checkable(&mut set, "A");
    assert_eq!(set.activate(a, ActionEvent::Hover), None);
    assert!(!set.action(a).is_checked());
    assert_eq!(set.activate(a, ActionEvent::Trigger), Some(true));
}

#[test]
fn exclusion_policy_default() {
    assert_eq!(ExclusionPolicy::default(), ExclusionPolicy::Exclusive);
}

#[test]
fn data_menu_and_hover() {
    let mut set = ActionSet::new();
    let a = set.add_action("&Recent");
    assert_eq!(set.action(a).data(), None);
    assert_eq!(set.action(a).menu(), None);
    set.set_data(a, Some(42));
    set.set_menu(a, Some(9));
    assert_eq!(set.action(a).data(), Some(42));
    assert_eq!(set.action(a).menu(), Some(9));
    assert_eq!(set.hover(a), None);
    let g = set.add_group();
    set.group_add_action(g, a);
    assert_eq!(set.hover(a), Some(g));
    set.set_menu(a, None);
    assert_eq!(set.action(a).menu(), None);
}
