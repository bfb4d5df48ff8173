//! Editor state and persistence for a tile-grid level designer: a grid of
//! tile codes with a painted border, a bounded list of enemy spawn markers,
//! the controller that turns pointer and key events into edits, and the
//! conversions used to save, load and emit the level as source code.
pub mod grid;
pub mod markers;
pub mod emit;
pub mod snapshot;
pub mod editor;
