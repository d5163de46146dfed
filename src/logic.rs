//! The puzzle's core: rails and crossings derived from the cells, the loop
//! tracer, clues and satisfaction, grid growth, and the grid's text forms.
pub mod rails;
pub mod intersection;
pub mod grid;
pub mod trace;
pub mod constraints;
mod random;
pub mod generator;
pub mod text;
pub mod metadata;
