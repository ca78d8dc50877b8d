//! A retained-mode layout engine for character-cell user interfaces.
//!
//! Elements live in an arena, `element::UiTree`, and refer to their children
//! by handle (`ElemRef`); a child may be reached from several containers. A
//! layout pass measures an element under an optional bound per axis, then
//! arranges it into a rectangle, then renders it into a list of paint steps
//! that the terminal host carries out (`ui_root::UiRoot` runs all three).
//!
//! Two containers do the real work:
//! - `grid::Grid`, whose rows and columns are static, weighted or sized to
//!   content. Weighted tracks share the space that the constraint leaves,
//!   with the boundaries between them rounded to the nearest cell, so that
//!   the shares always add up to the free space.
//! - `wrap_box::WrapBox`, which lays children along a line and wraps to a
//!   new line when the next child would overflow the constraint. Its
//!   alignments other than `Begin` are accepted and lay out as `Begin`.
//!
//! Sizes are `i32`; sums beyond the range of `i32` are clamped to it, and an
//! unconstrained or negative measured extent counts as zero.

pub mod geometry;
pub mod grid;
pub mod wrap_box;
pub mod element;
pub mod measure;
pub mod arrange;
pub mod render;
pub mod center_test;
pub mod test_view;
pub mod ui_root;
pub mod match_box;
pub mod reddit_codes;
