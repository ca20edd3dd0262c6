//! Higher-level UI abstractions: layout helpers, focus navigation and the
//! state logic of a widget toolkit.
use vstd::prelude::*;

pub mod accessibility;
pub mod accordion;
pub mod button;
pub mod checkbox;
pub mod color;
pub mod color_picker;
pub mod context_menu;
pub mod cyclic;
pub mod date_picker;
pub mod draw;
pub mod dropdown;
pub mod flex;
pub mod focus;
pub mod icon;
pub mod input;
pub mod input_field;
pub mod layout;
pub mod list_view;
pub mod menu_bar;
pub mod modal;
pub mod panel;
pub mod progress_bar;
pub mod radio;
pub mod rich_text;
pub mod slider;
pub mod spin_box;
pub mod spinner;
pub mod split_pane;
pub mod states;
pub mod styles;
pub mod sums;
pub mod tab_bar;
pub mod table;
pub mod text;
pub mod theme;
pub mod thin_client;
pub mod toast;
pub mod toggle;
pub mod tooltip;
pub mod tree_view;
pub mod usb_descriptors;
pub mod usb_log;

verus! {
}
