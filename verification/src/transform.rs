use vstd::prelude::*;

verus! {

/// Per-axis mirror state, tracked independently for the horizontal and the
/// vertical axis.
#[derive(Debug, Clone, Copy, PartialEq, Eq, Structural)]
pub enum Orientation {
    Normal,
    Flipped,
}

/// A 2D affine transform, row-major:
///
/// ```text
/// | xx  xy  tx |
/// | yx  yy  ty |
/// ```
#[derive(Debug, Clone, Copy, PartialEq, Eq, Structural)]
pub struct Transform {
    pub xx: i64,
    pub xy: i64,
    pub tx: i64,
    pub yx: i64,
    pub yy: i64,
    pub ty: i64,
}

/// The diagonal entry for one axis: the scale factor, negated when the axis
/// is mirrored.
pub open spec fn flip_sign(o: Orientation, s: int) -> int {
    if o is Flipped {
        -s
    } else {
        s
    }
}

/// The translation entry for one axis. Mirroring about the local origin alone
/// would land the sprite on the wrong side of its position, so a flipped axis
/// is first translated by twice the frame extent (in pre-scale units) to
/// compensate.
pub open spec fn flip_offset(o: Orientation, p: int, extent: int) -> int {
    if o is Flipped {
        p + 2 * extent
    } else {
        p
    }
}

/// What the composer yields: translate(px, py), then scale(sx, sy), then the
/// mirrors that the orientation pair selects. Translation is applied before
/// scale, so the scale factors never touch the translation entries.
pub open spec fn composed(
    px: int,
    py: int,
    sx: int,
    sy: int,
    horz: Orientation,
    vert: Orientation,
    w: int,
    h: int,
) -> Transform {
    Transform {
        xx: flip_sign(horz, sx) as i64,
        xy: 0,
        tx: flip_offset(horz, px, w) as i64,
        yx: 0,
        yy: flip_sign(vert, sy) as i64,
        ty: flip_offset(vert, py, h) as i64,
    }
}

/// Composes the affine transform for one draw from the pose and the frame
/// extent: base translate-then-scale, with a horizontal and/or vertical
/// mirror on top as the orientation pair directs. The four-way orientation
/// table is total; no fallback case exists.
pub fn compose(
    px: i32,
    py: i32,
    sx: i32,
    sy: i32,
    horz: Orientation,
    vert: Orientation,
    w: i32,
    h: i32,
) -> (t: Transform)
    ensures
        t == composed(px as int, py as int, sx as int, sy as int, horz, vert, w as int, h as int),
{
    let xx: i64 = match horz {
        Orientation::Normal => sx as i64,
        Orientation::Flipped => -(sx as i64),
    };
    let yy: i64 = match vert {
        Orientation::Normal => sy as i64,
        Orientation::Flipped => -(sy as i64),
    };
    let tx: i64 = match horz {
        Orientation::Normal => px as i64,
        Orientation::Flipped => px as i64 + 2 * (w as i64),
    };
    let ty: i64 = match vert {
        Orientation::Normal => py as i64,
        Orientation::Flipped => py as i64 + 2 * (h as i64),
    };
    Transform { xx, xy: 0, tx, yx: 0, yy, ty }
}

} // verus!
