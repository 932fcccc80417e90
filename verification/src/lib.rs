//! Detection of overlapping axis-aligned rectangles.
//!
//! A scene is an ordered sequence of rectangles, each given by its origin
//! `(x, y)`, its `width` and `height`, and a `name`. The y axis grows
//! downwards from the origin: a rectangle spans from `y - height` (bottom)
//! to `y` (top). The library computes the area of the rectangular
//! intersection of two such rectangles and enumerates every unordered pair
//! of distinct rectangles in a scene whose intersection area is positive,
//! each pair exactly once.

pub mod detect;
pub mod overlap;
pub mod rect;

pub use detect::detect_overlapping_pairs;
pub use overlap::compute_overlap;
pub use rect::{calculate_rect_area, RectFlags, RectObj, RectProps};
