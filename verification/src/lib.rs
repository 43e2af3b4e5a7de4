//! A verified flexbox layout engine.
//!
//! The library turns a declarative tree of style nodes into concrete
//! geometry — a position and a size for every node — following the
//! flexible-box layout model: main/cross axis selection, flex basis
//! resolution, grow/shrink distribution with iterative min/max clamping,
//! wrapping into lines, justification and alignment, and absolute
//! positioning. All lengths are integer layout units; the whole computation
//! is a pure function of its input, and its result is pinned down by a
//! specification-level model of the same algorithm.

pub mod api;
pub mod engine;
pub mod laws;
pub mod model;
pub mod place;
pub mod solver;
pub mod style;
pub mod tree;
pub mod units;

pub use api::compute_layout;
pub use style::LayoutStyle;
pub use tree::LayoutError;
pub use tree::LayoutNode;
pub use tree::LayoutNodeResult;
pub use tree::LayoutResult;
pub use tree::create_layout_node;
