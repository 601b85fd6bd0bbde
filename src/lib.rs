//! A soundboard core: global hotkeys bound to short PCM clips.
//!
//! Hotkey strings are parsed into canonical identities, an explicitly
//! owned state machine turns raw hotkey notifications into edge-triggered
//! press and release events, a cursor streams a clip sample by sample, and a
//! dispatcher decides which stream to start or stop and which synthetic input
//! to emit alongside it.

pub mod hotkey;
pub mod hotkey_manager;
pub mod sample_cursor;
pub mod app;
pub mod app_ui;

pub use hotkey::{JGlobalHotkey, JGlobalHotkeyErrors};
pub use hotkey_manager::{JGlobalHotKeyEvent, JGlobalHotkeyManager};
pub use sample_cursor::SoundDataIter;
pub use app_ui::JAppUI;
pub use app::{error_message_of, JApp, JAppAction, JAppEvent, JAppState, JMouseButton, JMouseInput, Sound, SoundId};
