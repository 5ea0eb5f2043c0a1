use spritesheet::Animation;
use spritesheet::Orientation;
use spritesheet::Rect;
use spritesheet::SpriteSheet;
use spritesheet::Transform;

fn posed_sheet() -> SpriteSheet<()> {
    let mut s = SpriteSheet::new((), 700, 700);
    s.set_pos(10, 20, 0);
    s.set_scale(2, 2);
    s.set_frame_size(70, 70);
    s
}

fn transform_of(s: &mut SpriteSheet<()>) -> Transform {
    let (_, _, t) = s.render();
    t
}

#[test]
fn transform_normal_normal() {
    let mut s = posed_sheet();
    s.set_orientation(Orientation::Normal, Orientation::Normal);
    assert_eq!(
        transform_of(&mut s),
        Transform { xx: 2, xy: 0, tx: 10, yx: 0, yy: 2, ty: 20 }
    );
}

#[test]
fn transform_flipped_normal() {
    let mut s = posed_sheet();
    s.set_orientation(Orientation::Flipped, Orientation::Normal);
    // 10 + 2 * 70 = 150, and the horizontal scale is mirrored
    assert_eq!(
        transform_of(&mut s),
        Transform { xx: -2, xy: 0, tx: 150, yx: 0, yy: 2, ty: 20 }
    );
}

#[test]
fn transform_normal_flipped() {
    let mut s = posed_sheet();
    s.set_orientation(Orientation::Normal, Orientation::Flipped);
    assert_eq!(
        transform_of(&mut s),
        Transform { xx: 2, xy: 0, tx: 10, yx: 0, yy: -2, ty: 160 }
    );
}

#[test]
fn transform_flipped_flipped() {
    let mut s = posed_sheet();
    s.set_orientation(Orientation::Flipped, Orientation::Flipped);
    assert_eq!(
        transform_of(&mut s),
        Transform { xx: -2, xy: 0, tx: 150, yx: 0, yy: -2, ty: 160 }
    );
}

#[test]
fn frame_size_then_view_and_view_then_size_agree() {
    let mut a = SpriteSheet::new((), 700, 700);
    a.set_frame_size(70, 70);
    a.set_frame_view(35, 140);
    assert_eq!(a.src_rect, Rect { x: 35, y: 140, w: 70, h: 70 });
    assert_eq!(a.rect, Rect { x: 0, y: 0, w: 70, h: 70 });

    let mut b = SpriteSheet::new((), 700, 700);
    b.set_frame_view(35, 140);
    b.set_frame_size(70, 70);
    assert_eq!(b.src_rect, a.src_rect);
}

#[test]
fn set_src_rect_replaces_wholesale() {
    let mut s = SpriteSheet::new((), 700, 700);
    s.set_src_rect(1, 2, 3, 4);
    assert_eq!(s.src_rect, Rect { x: 1, y: 2, w: 3, h: 4 });
}

#[test]
fn render_advances_view_to_emitted_frame() {
    let mut s = posed_sheet();
    s.add_animation(Animation::new(
        String::from("walk"),
        12,
        vec![(0, 0), (70, 0), (140, 0)],
    ))
    .unwrap();
    s.play("walk");
    let (rect, src, _) = s.render();
    assert_eq!(rect, Rect { x: 0, y: 0, w: 70, h: 70 });
    assert_eq!(src, Rect { x: 0, y: 0, w: 70, h: 70 });
    let (_, src, _) = s.render();
    assert_eq!(src, Rect { x: 70, y: 0, w: 70, h: 70 });
    let (_, src, _) = s.render();
    assert_eq!(src, Rect { x: 140, y: 0, w: 70, h: 70 });
    // one full cycle later the sequence starts over
    let (_, src, _) = s.render();
    assert_eq!(src, Rect { x: 0, y: 0, w: 70, h: 70 });
}

#[test]
fn render_without_playback_holds_still() {
    let mut s = posed_sheet();
    s.set_frame_view(35, 70);
    let before = s.src_rect;
    let (rect, src, _) = s.render();
    assert_eq!(rect, s.rect);
    assert_eq!(src, before);
    assert_eq!(s.src_rect, before);
    assert_eq!(s.current_frame, 0);
}

#[test]
fn negative_scale_passes_through() {
    let mut s = posed_sheet();
    s.set_scale(-2, -3);
    s.set_orientation(Orientation::Normal, Orientation::Normal);
    assert_eq!(
        transform_of(&mut s),
        Transform { xx: -2, xy: 0, tx: 10, yx: 0, yy: -3, ty: 20 }
    );
}
