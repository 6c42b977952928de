//! UI widget models: size policies, layout distribution, focus navigation,
//! accessibility trees, actions, key sequences and the value logic of input widgets.

pub mod accessibility;
pub mod action;
pub mod action_keys;
pub mod application;
pub mod button;
pub mod calendar_widget;
pub mod checkbox;
pub mod combo_box;
pub mod command_link_button;
pub mod date;
pub mod date_time_edit;
pub mod dial;
pub mod dialog;
pub mod dock_widget;
pub mod focus;
pub mod font_combo_box;
pub mod frame;
pub mod geometry;
pub mod group_box;
pub mod hit_test;
pub mod input_keys;
pub mod item_view;
pub mod item_widget;
pub mod key_sequence;
pub mod key_sequence_edit;
pub mod label;
pub mod layout;
pub mod line_edit;
pub mod lcd_number;
pub mod main_window;
pub mod menu;
pub mod menu_bar;
pub mod plain_text_edit;
pub mod popup;
pub mod progress_bar;
pub mod radio_button;
pub mod scroll;
pub mod size_policy;
pub mod slider;
pub mod text;
pub mod text_edit;
pub mod widget_node;
