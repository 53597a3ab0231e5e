//! Status bar and tab bar rendering for a Zellij plugin with a Chinese interface.
//!
//! The library decides every character that the bars show: mode names and key
//! hints, the layout of the ribbons across the terminal width, the truncation of
//! text that does not fit, and the plugin's reaction to host events. Display
//! widths come from `unicode-width` and the wire format of a UI component from
//! `zellij-tile`; both are reached through the trusted items of `width` and
//! `ui_text`.

pub mod i18n;
pub mod pane_count;
pub mod plugin;
pub mod render_status;
pub mod render_tab;
pub mod strings;
pub mod style;
pub mod ui_decode;
pub mod ui_text;
pub mod width;
