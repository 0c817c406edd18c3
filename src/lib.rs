//! Load and save a Game of Life board together with its display settings,
//! in a byte-exact big-endian file format.
//!
//! The settings model lives in [`settings`]; the file format (its parser,
//! its serializer and the laws that tie them together) in `settings::golfile`.
use vstd::prelude::*;

pub mod settings;

pub use settings::{GOLFileError, RGBA, Settings, SettingsView, StartingView};

verus! {

} // verus!
