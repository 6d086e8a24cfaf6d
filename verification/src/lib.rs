//! Hold Ctrl+Alt+Shift+E for ten seconds to restart `explorer.exe`.
//!
//! This crate decides everything the utility does: when the hotkey counts as
//! held, when the countdown starts, is cancelled or fires, what the overlay
//! shows, which commands install and remove the program, and what goes into
//! the registry. Talking to Windows is left to the program around it, which
//! performs the actions decided here and reports back what came of them.

pub mod commands;
pub mod countdown;
pub mod countdown_laws;
pub mod double;
pub mod hotkey;
pub mod launch;
pub mod overlay;
pub mod overlay_laws;
pub mod paint;
pub mod path;
pub mod registry;
pub mod setup;
pub mod setup_laws;
pub mod text;
