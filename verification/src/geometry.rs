use vstd::prelude::*;

verus! {

/// An axis-aligned rectangle: origin `(x, y)` and extent `(w, h)`, in texture
/// pixels. Used both for the destination rectangle and for the source
/// sub-rectangle sampled out of the sheet.
#[derive(Debug, PartialEq, Eq, Structural, Clone, Copy)]
pub struct Rect {
    pub x: i32,
    pub y: i32,
    pub w: i32,
    pub h: i32,
}

/// The effect of redefining the frame cell size on a source rectangle: the
/// origin is kept, only the extent changes.
pub open spec fn with_frame_size(r: Rect, w: i32, h: i32) -> Rect {
    Rect { x: r.x, y: r.y, w, h }
}

/// The effect of repositioning the view origin on a source rectangle: the
/// extent is kept, only the origin changes.
pub open spec fn with_frame_view(r: Rect, x: i32, y: i32) -> Rect {
    Rect { x, y, w: r.w, h: r.h }
}

/// Law: once both the cell size and the view origin have been applied, the
/// source rectangle is exactly `[x, y, w, h]`, whichever of the two setters
/// came last.
pub proof fn lemma_frame_geometry_commutes(r: Rect, x: i32, y: i32, w: i32, h: i32)
    ensures
        with_frame_view(with_frame_size(r, w, h), x, y) == (Rect { x, y, w, h }),
        with_frame_size(with_frame_view(r, x, y), w, h) == (Rect { x, y, w, h }),
{
}

} // verus!
