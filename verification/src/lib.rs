//! Verified core of a tray application that watches the balance of a
//! DeepSeek account: the rules that decide what the tray shows, when the
//! user is warned, how the settings form is validated, and how the tray icon
//! is laid out.

pub mod book;
pub mod config;
pub mod i18n;
pub mod icon;
pub mod money;
pub mod monitor;
pub mod text;
