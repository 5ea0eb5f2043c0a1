use vstd::prelude::*;

pub mod animation;
pub mod geometry;
pub mod playback;
pub mod sheet;
pub mod transform;

pub use animation::Animation;
pub use geometry::Rect;
pub use sheet::SpriteSheet;
pub use transform::Orientation;
pub use transform::Transform;

verus! {

/// The conditions a sprite sheet can report: registering an animation with no
/// frames, and advancing (or playing) an animation whose name is not in the
/// table.
#[derive(Debug, Clone, Copy, PartialEq, Eq, Structural)]
pub enum SpriteSheetError {
    EmptyAnimation,
    UnknownAnimation,
}

} // verus!
