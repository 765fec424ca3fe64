//! A fixed-rate, double-buffered character-grid display engine.
//!
//! The engine keeps two grids of display cells — a back buffer that
//! mutation effects write into, and a front buffer holding the state
//! last flushed to the terminal. A declarative action table maps
//! triggers (key presses or a recurring tick) to a closed set of
//! effects; each render tick drains the queued effects in a fixed
//! order, applies them, and emits the minimal set of cell writes.
//! Alongside the engine live two small utilities: a randomized maze
//! generator and a fixed-length move record.

pub mod action;
pub mod cell;
pub mod engine;
pub mod grid;
pub mod maze;
pub mod moveset;
pub mod text;
pub mod utility;
