//! A Conway's Game of Life simulation core: a finite rectangular grid of
//! cells, Moore-neighborhood counting, the B3/S23 transition rule, and the
//! small mode machine that gates editing, reset and generation advance.
//!
//! Rendering and windowing are left to a host program; this crate exposes the
//! grid state, the input-interpretation entry points, and the integer
//! coordinate mapping between a surface and the grid.

pub mod grid;
pub mod state;
