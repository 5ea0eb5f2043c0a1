use vstd::prelude::*;

use crate::SpriteSheetError;
use crate::animation::Animation;
use crate::animation::last_with_name;
use crate::animation::names_include;
use crate::geometry::Rect;
use crate::geometry::with_frame_size;
use crate::geometry::with_frame_view;
use crate::playback::frame_at;
use crate::playback::next_frame_index;
use crate::transform::Orientation;
use crate::transform::Transform;
use crate::transform::compose;
use crate::transform::composed;

verus! {

/// How one more batch entry changes the merged view of a prefix: the entry's
/// own name now maps to its position, every other name is as before.
proof fn lemma_prefix_merge_step(s: Seq<Animation>, k: int, n: Seq<char>)
    requires
        0 <= k < s.len(),
    ensures
        names_include(s.take(k + 1), n) <==> (names_include(s.take(k), n) || s[k].name@ == n),
        s[k].name@ == n ==> last_with_name(s.take(k + 1), n) == k,
        s[k].name@ != n ==> last_with_name(s.take(k + 1), n) == last_with_name(s.take(k), n),
{
    assert(s.take(k + 1).drop_last() =~= s.take(k));
    assert(s.take(k + 1).last() == s[k]);
    if names_include(s.take(k + 1), n) {
        let j = choose|j: int|
            0 <= j < s.take(k + 1).len() && (#[trigger] s.take(k + 1)[j]).name@ == n;
        if j < k {
            assert(s.take(k)[j].name@ == n);
        }
    }
    if names_include(s.take(k), n) {
        let j = choose|j: int| 0 <= j < s.take(k).len() && (#[trigger] s.take(k)[j]).name@ == n;
        assert(s.take(k + 1)[j].name@ == n);
    }
    if s[k].name@ == n {
        assert(s.take(k + 1)[k].name@ == n);
    }
}

/// The aggregate root: one texture handle with its pixel size cached, the
/// animation table, the current pose, the frame geometry and the playback
/// state. `T` is whatever handle the rasterizer wants back; the sheet only
/// stores it.
pub struct SpriteSheet<T> {
    pub sprite_texture: T,
    pub width: u32,
    pub height: u32,
    pub animations: Vec<Animation>,
    pub scale: (i32, i32),
    pub pos: (i32, i32, i32),
    pub rect: Rect,
    pub src_rect: Rect,
    pub playing: Option<String>,
    pub current_frame: usize,
    pub orient_horz: Orientation,
    pub orient_vert: Orientation,
}

impl<T> SpriteSheet<T> {
    /// Well-formedness of the animation table: every registered animation has
    /// at least one frame, and names are unique keys. Every method keeps it.
    pub open spec fn wf(&self) -> bool {
        &&& forall|i: int|
            0 <= i < self.animations@.len() ==> (#[trigger] self.animations@[i]).frames@.len()
                >= 1
        &&& forall|i: int, j: int|
            0 <= i < j < self.animations@.len() ==> self.animations@[i].name@
                != self.animations@[j].name@
    }

    /// Whether the table holds an animation under this name.
    pub open spec fn has_animation(&self, name: Seq<char>) -> bool {
        names_include(self.animations@, name)
    }

    /// The position of the animation under this name; meaningful only when
    /// `has_animation` holds, and then unique under `wf`.
    pub open spec fn index_named(&self, name: Seq<char>) -> int {
        choose|i: int| 0 <= i < self.animations@.len() && (#[trigger] self.animations@[i]).name@ == name
    }

    /// The animation registered under this name.
    pub open spec fn animation_named(&self, name: Seq<char>) -> Animation {
        self.animations@[self.index_named(name)]
    }

    proof fn lemma_index_named_is(&self, name: Seq<char>, i: int)
        requires
            self.wf(),
            0 <= i < self.animations@.len(),
            self.animations@[i].name@ == name,
        ensures
            self.has_animation(name),
            self.index_named(name) == i,
            self.animation_named(name) == self.animations@[i],
    {
        assert(self.has_animation(name));
        let j = self.index_named(name);
        if j < i {
            assert(self.animations@[j].name@ != self.animations@[i].name@);
        } else if j > i {
            assert(self.animations@[i].name@ != self.animations@[j].name@);
        }
    }

    /// Builds a sheet around an already-resolved texture handle with the given
    /// pixel size: full-texture geometry, neutral pose, no animation playing.
    /// The caller decodes the texture; a source that cannot be decoded must
    /// abort construction before reaching this point.
    pub fn new(sprite_texture: T, width: u32, height: u32) -> (s: SpriteSheet<T>)
        requires
            width <= i32::MAX,
            height <= i32::MAX,
        ensures
            s.width == width,
            s.height == height,
            s.animations@.len() == 0,
            s.scale == (1i32, 1i32),
            s.pos == (0i32, 0i32, 0i32),
            s.rect == (Rect { x: 0, y: 0, w: width as i32, h: height as i32 }),
            s.src_rect == s.rect,
            s.playing is None,
            s.current_frame == 0,
            s.orient_horz == Orientation::Normal,
            s.orient_vert == Orientation::Normal,
            s.wf(),
    {
        let full = Rect { x: 0, y: 0, w: width as i32, h: height as i32 };
        SpriteSheet {
            sprite_texture,
            width,
            height,
            animations: Vec::new(),
            scale: (1, 1),
            pos: (0, 0, 0),
            rect: full,
            src_rect: full,
            playing: None,
            current_frame: 0,
            orient_horz: Orientation::Normal,
            orient_vert: Orientation::Normal,
        }
    }

    /// Replaces the source rectangle wholesale.
    pub fn set_src_rect(&mut self, x: i32, y: i32, w: i32, h: i32)
        ensures
            *final(self) == (SpriteSheet { src_rect: Rect { x, y, w, h }, ..*old(self) }),
    {
        self.src_rect = Rect { x, y, w, h };
    }

    /// Sets the per-axis scale factors. Unconditional: a negative scale
    /// mirrors by design and is not an error.
    pub fn set_scale(&mut self, sx: i32, sy: i32)
        ensures
            *final(self) == (SpriteSheet { scale: (sx, sy), ..*old(self) }),
    {
        self.scale = (sx, sy);
    }

    pub fn get_scale(self) -> (r: (i32, i32))
        ensures
            r == self.scale,
    {
        let (sx, sy) = self.scale;
        (sx, sy)
    }

    /// Sets the position. Unconditional: off-screen placement is permitted.
    /// `z` is retained but unused by rendering.
    pub fn set_pos(&mut self, x: i32, y: i32, z: i32)
        ensures
            *final(self) == (SpriteSheet { pos: (x, y, z), ..*old(self) }),
    {
        self.pos = (x, y, z);
    }

    pub fn get_pos(self) -> (r: (i32, i32, i32))
        ensures
            r == self.pos,
    {
        let (px, py, pz) = self.pos;
        (px, py, pz)
    }

    /// Redefines the frame cell size: the destination rectangle becomes
    /// `[0, 0, w, h]`, and the source rectangle keeps its origin while taking
    /// the new extent.
    pub fn set_frame_size(&mut self, w: i32, h: i32)
        ensures
            *final(self) == (SpriteSheet {
                rect: Rect { x: 0, y: 0, w, h },
                src_rect: with_frame_size(old(self).src_rect, w, h),
                ..*old(self)
            }),
    {
        self.rect = Rect { x: 0, y: 0, w, h };
        self.src_rect = Rect { x: self.src_rect.x, y: self.src_rect.y, w, h };
    }

    /// Repositions the source rectangle's origin without touching its extent.
    /// This is the primitive the frame-advance algorithm feeds every tick.
    pub fn set_frame_view(&mut self, x: i32, y: i32)
        ensures
            *final(self) == (SpriteSheet {
                src_rect: with_frame_view(old(self).src_rect, x, y),
                ..*old(self)
            }),
    {
        self.src_rect = Rect { x, y, w: self.src_rect.w, h: self.src_rect.h };
    }

    pub fn set_orientation(&mut self, horz: Orientation, vert: Orientation)
        ensures
            *final(self) == (SpriteSheet { orient_horz: horz, orient_vert: vert, ..*old(self) }),
    {
        self.orient_horz = horz;
        self.orient_vert = vert;
    }

    pub fn set_orientation_h(&mut self, horz: Orientation)
        ensures
            *final(self) == (SpriteSheet { orient_horz: horz, ..*old(self) }),
    {
        self.orient_horz = horz;
    }

    pub fn set_orientation_v(&mut self, vert: Orientation)
        ensures
            *final(self) == (SpriteSheet { orient_vert: vert, ..*old(self) }),
    {
        self.orient_vert = vert;
    }

    /// Marks the named animation as the playback target. The frame index is
    /// deliberately not reset, so a later `play` resumes where the previous
    /// one left off. The name is not validated here: a missing animation
    /// surfaces lazily, at the next advance.
    pub fn play(&mut self, name: &str)
        ensures
            final(self).playing matches Some(s) && s@ == name@,
            final(self).current_frame == old(self).current_frame,
            *final(self) == (SpriteSheet { playing: final(self).playing, ..*old(self) }),
    {
        self.playing = Some(name.to_owned());
    }

    /// Stops playback: clears the target and sets the frame index to the
    /// given value, or to 0 when none is given.
    pub fn cancel(&mut self, frame: Option<usize>)
        ensures
            *final(self) == (SpriteSheet {
                playing: None,
                current_frame: match frame {
                    Some(k) => k,
                    None => 0,
                },
                ..*old(self)
            }),
    {
        self.playing = None;
        self.current_frame = match frame {
            Some(k) => k,
            None => 0,
        };
    }

    /// Drops every animation from the table.
    pub fn clear_animations(&mut self)
        ensures
            final(self).animations@.len() == 0,
            final(self).wf(),
            forall|n: Seq<char>| !final(self).has_animation(n),
            *final(self) == (SpriteSheet { animations: final(self).animations, ..*old(self) }),
    {
        self.animations.clear();
    }

    /// Registers an animation under its own name, overwriting any existing
    /// entry with the same name. An animation with no frames is rejected with
    /// `EmptyAnimation` before it can ever reach the advance algorithm.
    pub fn add_animation(&mut self, animation: Animation) -> (r: Result<(), SpriteSheetError>)
        requires
            old(self).wf(),
        ensures
            final(self).wf(),
            r is Err <==> animation.frames@.len() == 0,
            r is Err ==> r == Err::<(), SpriteSheetError>(SpriteSheetError::EmptyAnimation)
                && *final(self) == *old(self),
            r is Ok ==> ({
                &&& final(self).has_animation(animation.name@)
                &&& final(self).animation_named(animation.name@) == animation
                &&& forall|n: Seq<char>|
                    n != animation.name@ ==> #[trigger] final(self).has_animation(n) == old(
                        self,
                    ).has_animation(n)
                &&& forall|n: Seq<char>|
                    n != animation.name@ && old(self).has_animation(n)
                        ==> #[trigger] final(self).animation_named(n) == old(
                        self,
                    ).animation_named(n)
                &&& *final(self) == (SpriteSheet {
                    animations: final(self).animations,
                    ..*old(self)
                })
            }),
    {
        if animation.frames.len() == 0 {
            return Err(SpriteSheetError::EmptyAnimation);
        }
        let ghost anim = animation;
        let found = self.find_animation(&animation.name);
        match found {
            Some(i) => {
                self.animations.remove(i);
                self.animations.insert(i, animation);
                proof {
                    let pre = old(self).animations@;
                    let post = self.animations@;
                    assert(post =~= pre.update(i as int, anim));
                    assert forall|p: int| 0 <= p < post.len() implies (#[trigger] post[p]).name@
                        == pre[p].name@ by {}
                    self.lemma_table_preserved_same_names(*old(self), anim.name@, i as int);
                }
            },
            None => {
                self.animations.push(animation);
                proof {
                    self.lemma_table_preserved_push(*old(self), anim);
                }
            },
        }
        Ok(())
    }

    /// After replacing the entry at `at` by one with the same name, the table
    /// keeps its shape: well-formed, same names present, and every other
    /// entry unchanged.
    proof fn lemma_table_preserved_same_names(&self, pre: Self, name: Seq<char>, at: int)
        requires
            pre.wf(),
            0 <= at < pre.animations@.len(),
            pre.animations@[at].name@ == name,
            self.animations@ == pre.animations@.update(at, self.animations@[at]),
            self.animations@[at].name@ == name,
            self.animations@[at].frames@.len() >= 1,
        ensures
            self.wf(),
            self.has_animation(name),
            self.animation_named(name) == self.animations@[at],
            forall|n: Seq<char>|
                n != name ==> #[trigger] self.has_animation(n) == pre.has_animation(n),
            forall|n: Seq<char>|
                n != name && pre.has_animation(n) ==> #[trigger] self.animation_named(n)
                    == pre.animation_named(n),
    {
        let post = self.animations@;
        let prea = pre.animations@;
        assert forall|p: int| 0 <= p < post.len() implies (#[trigger] post[p]).name@
            == prea[p].name@ by {}
        assert(self.wf());
        self.lemma_index_named_is(name, at);
        assert forall|n: Seq<char>| n != name implies #[trigger] self.has_animation(n)
            == pre.has_animation(n) by {
            if self.has_animation(n) {
                let j = choose|j: int| 0 <= j < post.len() && (#[trigger] post[j]).name@ == n;
                assert(prea[j].name@ == n);
            }
            if pre.has_animation(n) {
                let j = choose|j: int| 0 <= j < prea.len() && (#[trigger] prea[j]).name@ == n;
                assert(post[j].name@ == n);
            }
        }
        assert forall|n: Seq<char>| n != name && pre.has_animation(n) implies #[trigger] self
            .animation_named(n) == pre.animation_named(n) by {
            let j = choose|j: int| 0 <= j < prea.len() && (#[trigger] prea[j]).name@ == n;
            assert(post[j].name@ == n);
            assert(j != at);
            self.lemma_index_named_is(n, j);
            pre.lemma_index_named_is(n, j);
        }
    }

    /// After appending an entry whose name was absent, the table keeps its
    /// shape: well-formed, the old entries untouched, the new name present.
    proof fn lemma_table_preserved_push(&self, pre: Self, added: Animation)
        requires
            pre.wf(),
            !pre.has_animation(added.name@),
            added.frames@.len() >= 1,
            self.animations@ == pre.animations@.push(added),
        ensures
            self.wf(),
            self.has_animation(added.name@),
            self.animation_named(added.name@) == added,
            forall|n: Seq<char>|
                n != added.name@ ==> #[trigger] self.has_animation(n) == pre.has_animation(n),
            forall|n: Seq<char>|
                n != added.name@ && pre.has_animation(n) ==> #[trigger] self.animation_named(n)
                    == pre.animation_named(n),
    {
        let post = self.animations@;
        let prea = pre.animations@;
        let last = prea.len() as int;
        assert(post[last] == added);
        assert forall|p: int, q: int| 0 <= p < q < post.len() implies post[p].name@
            != post[q].name@ by {
            if q == last {
                assert(prea[p].name@ != added.name@);
            }
        }
        assert(self.wf());
        self.lemma_index_named_is(added.name@, last);
        assert forall|n: Seq<char>| n != added.name@ implies #[trigger] self.has_animation(n)
            == pre.has_animation(n) by {
            if self.has_animation(n) {
                let j = choose|j: int| 0 <= j < post.len() && (#[trigger] post[j]).name@ == n;
                assert(j < last);
                assert(prea[j].name@ == n);
            }
            if pre.has_animation(n) {
                let j = choose|j: int| 0 <= j < prea.len() && (#[trigger] prea[j]).name@ == n;
                assert(post[j].name@ == n);
            }
        }
        assert forall|n: Seq<char>| n != added.name@ && pre.has_animation(n) implies #[trigger] self
            .animation_named(n) == pre.animation_named(n) by {
            let j = choose|j: int| 0 <= j < prea.len() && (#[trigger] prea[j]).name@ == n;
            assert(post[j].name@ == n);
            self.lemma_index_named_is(n, j);
            pre.lemma_index_named_is(n, j);
        }
    }

    /// Bulk merge: registers every animation of the given batch in order,
    /// draining the batch; a later entry overwrites an earlier one (or an
    /// existing one) with the same name. All-or-nothing validation: if any
    /// entry of the batch has no frames, the whole merge is rejected with
    /// `EmptyAnimation` and neither the sheet nor the batch changes.
    pub fn add_animations(&mut self, animations: &mut Vec<Animation>) -> (r: Result<
        (),
        SpriteSheetError,
    >)
        requires
            old(self).wf(),
        ensures
            final(self).wf(),
            r is Err <==> exists|j: int|
                0 <= j < old(animations)@.len() && (#[trigger] old(animations)@[j]).frames@.len()
                    == 0,
            r is Err ==> r == Err::<(), SpriteSheetError>(SpriteSheetError::EmptyAnimation)
                && *final(self) == *old(self) && final(animations)@ == old(animations)@,
            r is Ok ==> ({
                &&& final(animations)@.len() == 0
                &&& forall|n: Seq<char>|
                    #[trigger] final(self).has_animation(n) <==> (old(self).has_animation(n)
                        || names_include(old(animations)@, n))
                &&& forall|n: Seq<char>|
                    names_include(old(animations)@, n) ==> #[trigger] final(self).animation_named(
                        n,
                    ) == old(animations)@[last_with_name(old(animations)@, n)]
                &&& forall|n: Seq<char>|
                    !names_include(old(animations)@, n) && old(self).has_animation(n)
                        ==> #[trigger] final(self).animation_named(n) == old(
                        self,
                    ).animation_named(n)
                &&& *final(self) == (SpriteSheet {
                    animations: final(self).animations,
                    ..*old(self)
                })
            }),
    {
        let mut i: usize = 0;
        while i < animations.len()
            invariant
                i <= animations@.len(),
                animations@ == old(animations)@,
                *self == *old(self),
                self.wf(),
                forall|j: int| 0 <= j < i ==> (#[trigger] animations@[j]).frames@.len() >= 1,
            decreases animations@.len() - i,
        {
            if animations[i].frames.len() == 0 {
                return Err(SpriteSheetError::EmptyAnimation);
            }
            i = i + 1;
        }
        let ghost orig = animations@;
        let ghost mut k: int = 0;
        proof {
            assert(orig.take(0) =~= Seq::<Animation>::empty());
        }
        while animations.len() > 0
            invariant
                self.wf(),
                0 <= k <= orig.len(),
                orig == old(animations)@,
                animations@ == orig.skip(k),
                forall|j: int| 0 <= j < orig.len() ==> (#[trigger] orig[j]).frames@.len() >= 1,
                old(self).wf(),
                forall|n: Seq<char>|
                    #[trigger] self.has_animation(n) <==> (old(self).has_animation(n)
                        || names_include(orig.take(k), n)),
                forall|n: Seq<char>|
                    names_include(orig.take(k), n) ==> #[trigger] self.animation_named(n)
                        == orig[last_with_name(orig.take(k), n)],
                forall|n: Seq<char>|
                    !names_include(orig.take(k), n) && old(self).has_animation(n)
                        ==> #[trigger] self.animation_named(n) == old(self).animation_named(n),
                *self == (SpriteSheet { animations: self.animations, ..*old(self) }),
            decreases animations@.len(),
        {
            proof {
                assert(orig.skip(k).remove(0) =~= orig.skip(k + 1));
            }
            let a = animations.remove(0);
            let ghost ga = a;
            let ghost pre = *self;
            assert(ga == orig[k]);
            let res = self.add_animation(a);
            assert(res is Ok);
            proof {
                assert forall|n: Seq<char>|
                    #[trigger] self.has_animation(n) <==> (old(self).has_animation(n)
                        || names_include(orig.take(k + 1), n)) by {
                    lemma_prefix_merge_step(orig, k, n);
                    if n != ga.name@ {
                        assert(self.has_animation(n) == pre.has_animation(n));
                    }
                }
                assert forall|n: Seq<char>|
                    names_include(orig.take(k + 1), n) implies #[trigger] self.animation_named(n)
                    == orig[last_with_name(orig.take(k + 1), n)] by {
                    lemma_prefix_merge_step(orig, k, n);
                    if n == ga.name@ {
                        assert(self.animation_named(n) == ga);
                    } else {
                        assert(names_include(orig.take(k), n));
                        assert(pre.has_animation(n));
                        assert(self.animation_named(n) == pre.animation_named(n));
                    }
                }
                assert forall|n: Seq<char>|
                    !names_include(orig.take(k + 1), n) && old(self).has_animation(n)
                        implies #[trigger] self.animation_named(n) == old(
                    self,
                ).animation_named(n) by {
                    lemma_prefix_merge_step(orig, k, n);
                    assert(n != ga.name@);
                    assert(!names_include(orig.take(k), n));
                    assert(pre.has_animation(n));
                }
                k = k + 1;
            }
        }
        proof {
            assert(orig.skip(k).len() == 0);
            assert(k == orig.len());
            assert(orig.take(k) =~= orig);
        }
        Ok(())
    }

    /// Removes the animation under this name, if any; removing an absent
    /// name is a no-op, not an error. A playback target left pointing at the
    /// removed name goes stale and surfaces at the next advance.
    pub fn remove_animation(&mut self, name: &str)
        requires
            old(self).wf(),
        ensures
            final(self).wf(),
            !final(self).has_animation(name@),
            forall|n: Seq<char>|
                n != name@ ==> #[trigger] final(self).has_animation(n) == old(
                    self,
                ).has_animation(n),
            forall|n: Seq<char>|
                n != name@ && old(self).has_animation(n)
                    ==> #[trigger] final(self).animation_named(n) == old(self).animation_named(n),
            *final(self) == (SpriteSheet { animations: final(self).animations, ..*old(self) }),
    {
        let key: String = name.to_owned();
        let found = self.find_animation(&key);
        match found {
            None => {
            },
            Some(i) => {
                self.animations.remove(i);
                proof {
                    self.lemma_table_preserved_remove(*old(self), name@, i as int);
                }
            },
        }
    }

    /// After taking out the entry at `at`, the table keeps its shape: still
    /// well-formed, the removed name gone, every other name untouched.
    proof fn lemma_table_preserved_remove(&self, pre: Self, name: Seq<char>, at: int)
        requires
            pre.wf(),
            0 <= at < pre.animations@.len(),
            pre.animations@[at].name@ == name,
            self.animations@ == pre.animations@.remove(at),
        ensures
            self.wf(),
            !self.has_animation(name),
            forall|n: Seq<char>|
                n != name ==> #[trigger] self.has_animation(n) == pre.has_animation(n),
            forall|n: Seq<char>|
                n != name && pre.has_animation(n) ==> #[trigger] self.animation_named(n)
                    == pre.animation_named(n),
    {
        let post = self.animations@;
        let prea = pre.animations@;
        // each surviving index maps to its pre-removal position
        assert forall|p: int| 0 <= p < post.len() implies #[trigger] post[p] == prea[
            if p < at {
                p
            } else {
                p + 1
            }
        ] by {}
        assert forall|p: int, q: int| 0 <= p < q < post.len() implies post[p].name@
            != post[q].name@ by {
            let p0 = if p < at { p } else { p + 1 };
            let q0 = if q < at { q } else { q + 1 };
            assert(prea[p0].name@ != prea[q0].name@);
        }
        assert(self.wf());
        assert forall|n: Seq<char>| n != name implies #[trigger] self.has_animation(n)
            == pre.has_animation(n) by {
            if self.has_animation(n) {
                let j = choose|j: int| 0 <= j < post.len() && (#[trigger] post[j]).name@ == n;
                let j0 = if j < at { j } else { j + 1 };
                assert(prea[j0].name@ == n);
            }
            if pre.has_animation(n) {
                let j = choose|j: int| 0 <= j < prea.len() && (#[trigger] prea[j]).name@ == n;
                assert(j != at);
                let j1 = if j < at { j } else { j - 1 };
                assert(post[j1].name@ == n);
            }
        }
        if self.has_animation(name) {
            let j = choose|j: int| 0 <= j < post.len() && (#[trigger] post[j]).name@ == name;
            let j0 = if j < at { j } else { j + 1 };
            assert(prea[j0].name@ == name);
            if j0 < at {
                assert(prea[j0].name@ != prea[at].name@);
            } else {
                assert(prea[at].name@ != prea[j0].name@);
            }
            assert(false);
        }
        assert forall|n: Seq<char>| n != name && pre.has_animation(n) implies #[trigger] self
            .animation_named(n) == pre.animation_named(n) by {
            let j = choose|j: int| 0 <= j < prea.len() && (#[trigger] prea[j]).name@ == n;
            assert(j != at);
            let j1 = if j < at { j } else { j - 1 };
            assert(post[j1].name@ == n);
            assert(post[j1] == prea[j]);
            self.lemma_index_named_is(n, j1);
            pre.lemma_index_named_is(n, j);
        }
    }

    /// One tick of the frame-advance algorithm against the named animation:
    /// emits the origin at the pre-advance index (with the defensive (0, 0)
    /// fallback for an index gone stale), then wraps or increments the index.
    /// A name no longer in the table is a recoverable condition: the state is
    /// left untouched and `UnknownAnimation` is reported.
    pub fn update_animation_frame(&mut self, name: &str) -> (r: Result<(i32, i32), SpriteSheetError>)
        requires
            old(self).wf(),
        ensures
            final(self).wf(),
            r is Ok <==> old(self).has_animation(name@),
            !old(self).has_animation(name@) ==> r == Err::<(i32, i32), SpriteSheetError>(
                SpriteSheetError::UnknownAnimation,
            ) && *final(self) == *old(self),
            old(self).has_animation(name@) ==> ({
                let frames = old(self).animation_named(name@).frames@;
                &&& r == Ok::<(i32, i32), SpriteSheetError>(
                    frame_at(frames, old(self).current_frame as int),
                )
                &&& *final(self) == (SpriteSheet {
                    current_frame: next_frame_index(
                        old(self).current_frame as int,
                        frames.len() as int,
                    ) as usize,
                    ..*old(self)
                })
            }),
    {
        let key: String = name.to_owned();
        let found = self.find_animation(&key);
        match found {
            None => Err(SpriteSheetError::UnknownAnimation),
            Some(i) => {
                proof {
                    self.lemma_index_named_is(name@, i as int);
                }
                let n: usize = self.animations[i].frames.len();
                let frame: usize = self.current_frame;
                let is_last = frame >= n - 1;
                self.current_frame = if is_last {
                    0
                } else {
                    frame + 1
                };
                let xy = if frame < n {
                    self.animations[i].frames[frame]
                } else {
                    (0i32, 0i32)
                };
                Ok(xy)
            },
        }
    }

    /// The per-tick entry point. When an animation is playing and still
    /// registered, one frame advance is taken and the source view moves to
    /// the emitted origin; a stale playback target skips the tick and keeps
    /// the prior source rectangle (a dropped frame must never crash the
    /// render loop); with nothing playing the sheet holds still. Yields the
    /// destination rectangle, the source rectangle and the composed transform
    /// for the external rasterizer.
    pub fn render(&mut self) -> (out: (Rect, Rect, Transform))
        requires
            old(self).wf(),
        ensures
            final(self).wf(),
            old(self).playing is None ==> *final(self) == *old(self),
            old(self).playing matches Some(nm) ==> if old(self).has_animation(nm@) {
                let frames = old(self).animation_named(nm@).frames@;
                let xy = frame_at(frames, old(self).current_frame as int);
                *final(self) == (SpriteSheet {
                    current_frame: next_frame_index(
                        old(self).current_frame as int,
                        frames.len() as int,
                    ) as usize,
                    src_rect: with_frame_view(old(self).src_rect, xy.0, xy.1),
                    ..*old(self)
                })
            } else {
                *final(self) == *old(self)
            },
            out.0 == final(self).rect,
            out.1 == final(self).src_rect,
            out.2 == composed(
                final(self).pos.0 as int,
                final(self).pos.1 as int,
                final(self).scale.0 as int,
                final(self).scale.1 as int,
                final(self).orient_horz,
                final(self).orient_vert,
                final(self).src_rect.w as int,
                final(self).src_rect.h as int,
            ),
    {
        let playing = match &self.playing {
            Some(s) => Some(s.clone()),
            None => None,
        };
        match playing {
            Some(nm) => {
                let adv = self.update_animation_frame(nm.as_str());
                match adv {
                    Ok((fx, fy)) => {
                        self.set_frame_view(fx, fy);
                    },
                    Err(_) => {},
                }
            },
            None => {},
        }
        let t = compose(
            self.pos.0,
            self.pos.1,
            self.scale.0,
            self.scale.1,
            self.orient_horz,
            self.orient_vert,
            self.src_rect.w,
            self.src_rect.h,
        );
        (self.rect, self.src_rect, t)
    }

    fn find_animation(&self, name: &String) -> (r: Option<usize>)
        ensures
            match r {
                Some(i) => i < self.animations@.len() && self.animations@[i as int].name@
                    == name@,
                None => !self.has_animation(name@),
            },
    {
        let mut i: usize = 0;
        while i < self.animations.len()
            invariant
                i <= self.animations@.len(),
                forall|j: int| 0 <= j < i ==> (#[trigger] self.animations@[j]).name@ != name@,
            decreases self.animations@.len() - i,
        {
            if self.animations[i].name == *name {
                return Some(i);
            }
            i = i + 1;
        }
        None
    }
}

} // verus!
