//! An incremental fuzzy multi-select picker: ranking of a fixed catalog
//! against typed text, the selection state machine driven by key events,
//! and the sequence of terminal operations that paints each state.

pub mod score;
pub mod rank;
pub mod text;
pub mod model;
pub mod keys;
pub mod catalog;
pub mod render;
pub mod session;
