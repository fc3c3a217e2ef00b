//! The rules the desktop-facing parts of Scribe follow: what the cleanup pass
//! sends and accepts, where the speech models live and when they count as
//! installed, how text is typed, what the tray menu holds, and how dictation
//! moves from one step to the next. The windows, the microphone, D-Bus and
//! HTTP themselves are driven by the application around this library.

pub mod cleanup;
pub mod engine;
pub mod inject;
pub mod tray;
pub mod recorder;
pub mod application;
pub mod models;
pub mod overlay;
pub mod shell;
pub mod shortcut;
pub mod portal;
pub mod window;
