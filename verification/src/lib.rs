//! ARMtemp's sensor logic for ARM64 Windows machines (Snapdragon X / X2 and
//! the rest of the Windows-on-ARM lineup): identifying the chip from its raw
//! identity signals, classifying cores, deciding what the tray icon shows and
//! how it is drawn, and the settings and overheat-protection rules. Every
//! label is derived from real evidence; nothing here fabricates a reading.
use vstd::prelude::*;

pub mod chips;
pub mod glyph;
pub mod identity;
pub mod render;
pub mod settings;
pub mod summary;
pub mod taskbar;
pub mod text;
pub mod topology;
pub mod tray;
pub mod types;

verus! {

} // verus!
