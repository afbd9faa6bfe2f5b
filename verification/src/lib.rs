//! Shortcut-configuration library for a desktop overlay utility.
//!
//! The crate covers the logic that keeps two user-configurable global
//! shortcuts consistent across three places: a JSON settings file, an
//! in-memory state cell, and the set of live hotkey registrations.
//! Reading and writing the actual file, and installing hotkeys with the
//! operating system, are left to the surrounding program; everything the
//! library decides is stated in contracts and verified.

pub mod chars;
pub mod codec;
pub mod hotkey;
pub mod overlay;
pub mod registrar;
pub mod service;
pub mod settings;

pub use settings::ShortcutSettings;
