//! Verified core of the argus terminal UI: the pure decision logic behind
//! scrolling, notifications, key encoding, fuzzy finding, translations and
//! layout, with the terminal/IO plumbing kept outside.

pub mod stable_scroll;
pub mod input;
pub mod scroll_coalesce;
pub mod clock;
pub mod notification;
pub mod text;
pub mod terminal_protocol;
pub mod text_input;
pub mod paste_coalesce;
pub mod scroll;
pub mod layout;
pub mod i18n;
pub mod icons;
pub mod pty_output;
pub mod paths;
pub mod preview_subject;
pub mod fuzzy_finder;
pub mod preview;
pub mod modal;
pub mod app_model;
pub mod explorer;
pub mod reports;
pub mod keys;
pub mod mouse;
pub mod events;
pub mod view;
pub mod border;
pub mod desktop;
pub mod laws;
pub mod git;
pub mod highlight;
