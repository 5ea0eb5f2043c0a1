use spritesheet::Animation;
use spritesheet::Orientation;
use spritesheet::Rect;
use spritesheet::SpriteSheet;
use spritesheet::SpriteSheetError;

fn walk_frames() -> Vec<(i32, i32)> {
    vec![(0, 0), (70, 0), (140, 0)]
}

fn sheet() -> SpriteSheet<()> {
    SpriteSheet::new((), 256, 128)
}

#[test]
fn animation_new_keeps_fields() {
    let a = Animation::new(String::from("walk"), 12, vec![(1, 2), (3, 4)]);
    assert_eq!(a.name, "walk");
    assert_eq!(a.framerate, 12);
    assert_eq!(a.frames, vec![(1, 2), (3, 4)]);
}

#[test]
fn new_initial_state() {
    let s = sheet();
    assert_eq!(s.width, 256);
    assert_eq!(s.height, 128);
    assert_eq!(s.scale, (1, 1));
    assert_eq!(s.pos, (0, 0, 0));
    assert_eq!(s.rect, Rect { x: 0, y: 0, w: 256, h: 128 });
    assert_eq!(s.src_rect, s.rect);
    assert!(s.playing.is_none());
    assert_eq!(s.current_frame, 0);
    assert_eq!(s.orient_horz, Orientation::Normal);
    assert_eq!(s.orient_vert, Orientation::Normal);
    assert_eq!(s.animations.len(), 0);
}

#[test]
fn full_cycle_emits_frames_in_order() {
    let mut s = sheet();
    let frames = walk_frames();
    s.add_animation(Animation::new(String::from("walk"), 12, frames.clone()))
        .unwrap();
    s.play("walk");
    let mut emitted: Vec<(i32, i32)> = Vec::new();
    for _ in 0..3 {
        emitted.push(s.update_animation_frame("walk").unwrap());
    }
    assert_eq!(emitted, frames);
    assert_eq!(s.current_frame, 0);
}

#[test]
fn single_frame_animation_is_static() {
    let mut s = sheet();
    s.add_animation(Animation::new(String::from("idle"), 4, vec![(35, 70)]))
        .unwrap();
    s.play("idle");
    for _ in 0..4 {
        assert_eq!(s.update_animation_frame("idle").unwrap(), (35, 70));
        assert_eq!(s.current_frame, 0);
    }
}

#[test]
fn empty_animation_is_rejected() {
    let mut s = sheet();
    let r = s.add_animation(Animation::new(String::from("broken"), 8, Vec::new()));
    assert_eq!(r, Err(SpriteSheetError::EmptyAnimation));
    assert_eq!(s.animations.len(), 0);
}

#[test]
fn bulk_merge_is_all_or_nothing() {
    let mut s = sheet();
    let mut batch = vec![
        Animation::new(String::from("walk"), 12, walk_frames()),
        Animation::new(String::from("broken"), 8, Vec::new()),
    ];
    let r = s.add_animations(&mut batch);
    assert_eq!(r, Err(SpriteSheetError::EmptyAnimation));
    assert_eq!(s.animations.len(), 0);
    assert_eq!(batch.len(), 2);
}

#[test]
fn bulk_merge_last_entry_wins() {
    let mut s = sheet();
    let mut batch = vec![
        Animation::new(String::from("idle"), 4, vec![(0, 70)]),
        Animation::new(String::from("walk"), 12, vec![(9, 9)]),
        Animation::new(String::from("walk"), 12, walk_frames()),
    ];
    s.add_animations(&mut batch).unwrap();
    assert_eq!(batch.len(), 0);
    s.play("walk");
    let mut emitted: Vec<(i32, i32)> = Vec::new();
    for _ in 0..3 {
        emitted.push(s.update_animation_frame("walk").unwrap());
    }
    assert_eq!(emitted, walk_frames());
    assert_eq!(s.update_animation_frame("idle").unwrap(), (0, 70));
}

#[test]
fn switching_animations_preserves_frame_index() {
    let mut s = sheet();
    s.add_animation(Animation::new(String::from("a"), 12, walk_frames()))
        .unwrap();
    s.add_animation(Animation::new(String::from("b"), 12, vec![(7, 7), (8, 8)]))
        .unwrap();
    s.play("a");
    s.update_animation_frame("a").unwrap();
    s.update_animation_frame("a").unwrap();
    assert_eq!(s.current_frame, 2);
    s.play("b");
    assert_eq!(s.current_frame, 2);
    // index 2 is past the end of "b": defensive fallback, then wrap to start
    assert_eq!(s.update_animation_frame("b").unwrap(), (0, 0));
    assert_eq!(s.current_frame, 0);
    assert_eq!(s.update_animation_frame("b").unwrap(), (7, 7));
}

#[test]
fn cancel_resets_playback() {
    let mut s = sheet();
    s.add_animation(Animation::new(String::from("walk"), 12, walk_frames()))
        .unwrap();
    s.play("walk");
    s.update_animation_frame("walk").unwrap();
    assert_eq!(s.current_frame, 1);
    s.cancel(None);
    assert!(s.playing.is_none());
    assert_eq!(s.current_frame, 0);
    s.play("walk");
    assert_eq!(s.update_animation_frame("walk").unwrap(), (0, 0));
    assert_eq!(s.current_frame, 1);
}

#[test]
fn cancel_with_explicit_frame() {
    let mut s = sheet();
    s.play("walk");
    s.cancel(Some(5));
    assert!(s.playing.is_none());
    assert_eq!(s.current_frame, 5);
}

#[test]
fn play_of_absent_name_fails_lazily() {
    let mut s = sheet();
    s.play("nope");
    assert_eq!(s.playing.as_deref(), Some("nope"));
    assert_eq!(
        s.update_animation_frame("nope"),
        Err(SpriteSheetError::UnknownAnimation)
    );
}

#[test]
fn removing_playing_animation_surfaces_at_next_advance() {
    let mut s = sheet();
    s.add_animation(Animation::new(String::from("walk"), 12, walk_frames()))
        .unwrap();
    s.play("walk");
    s.render();
    let held = s.src_rect;
    let frame: usize = s.current_frame;
    s.remove_animation("walk");
    assert_eq!(
        s.update_animation_frame("walk"),
        Err(SpriteSheetError::UnknownAnimation)
    );
    assert_eq!(s.src_rect, held);
    assert_eq!(s.current_frame, frame);
    // the render loop itself degrades to holding the last valid frame
    let (_, src, _) = s.render();
    assert_eq!(src, held);
}

#[test]
fn remove_and_clear_animations() {
    let mut s = sheet();
    s.add_animation(Animation::new(String::from("a"), 1, vec![(1, 1)]))
        .unwrap();
    s.add_animation(Animation::new(String::from("b"), 1, vec![(2, 2)]))
        .unwrap();
    s.remove_animation("a");
    assert_eq!(s.animations.len(), 1);
    // removal of an absent name is a no-op
    s.remove_animation("a");
    assert_eq!(s.animations.len(), 1);
    s.clear_animations();
    assert_eq!(s.animations.len(), 0);
}

#[test]
fn overwriting_an_animation_keeps_one_entry() {
    let mut s = sheet();
    s.add_animation(Animation::new(String::from("walk"), 12, vec![(9, 9)]))
        .unwrap();
    s.add_animation(Animation::new(String::from("walk"), 12, walk_frames()))
        .unwrap();
    assert_eq!(s.animations.len(), 1);
    s.play("walk");
    assert_eq!(s.update_animation_frame("walk").unwrap(), (0, 0));
    assert_eq!(s.update_animation_frame("walk").unwrap(), (70, 0));
}

#[test]
fn pose_setters_and_getters() {
    let mut s = sheet();
    s.set_scale(2, 3);
    s.set_pos(10, 20, 30);
    s.set_orientation(Orientation::Flipped, Orientation::Flipped);
    assert_eq!(s.orient_horz, Orientation::Flipped);
    assert_eq!(s.orient_vert, Orientation::Flipped);
    s.set_orientation_h(Orientation::Normal);
    assert_eq!(s.orient_horz, Orientation::Normal);
    s.set_orientation_v(Orientation::Normal);
    assert_eq!(s.orient_vert, Orientation::Normal);
    assert_eq!(s.scale, (2, 3));
    assert_eq!(s.pos, (10, 20, 30));
}

#[test]
fn consuming_getters() {
    let mut s = sheet();
    s.set_scale(-2, 4);
    assert_eq!(s.get_scale(), (-2, 4));
    let mut s = sheet();
    s.set_pos(-5, 6, 7);
    assert_eq!(s.get_pos(), (-5, 6, 7));
}
