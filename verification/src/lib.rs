//! Turns the features of one vector tile into an ordered list of draw
//! operations: geometry command streams become paths, and the features of
//! the label layer become text that never overlaps text placed before it.
//!
//! Nothing here paints or measures. A caller lists the labels of a tile with
//! [`places::label_candidates`], has their texts measured by whatever will
//! paint them, and hands the widths to [`render_tile`], which returns what is
//! to be drawn, in order.
//!
//! All lengths are whole numbers of steps, 65536 to the logical unit (see
//! [`units`]); the one place that rounds is the rescaling of a delta in
//! [`delta::de_zig_zag`].

pub mod collider;
pub mod delta;
pub mod draw;
pub mod error;
pub mod label;
pub mod path;
pub mod places;
pub mod render;
pub mod shapes;
pub mod tile;
pub mod units;

pub use collider::Collider;
pub use render::render_tile;
