use vstd::prelude::*;

verus! {

/// The wrap-to-start advance policy: looping is the only playback mode. A
/// current index at or past the last frame wraps to the start; any other
/// index moves one frame forward.
pub open spec fn next_frame_index(current: int, n: int) -> int {
    if current >= n - 1 {
        0
    } else {
        current + 1
    }
}

/// The frame origin emitted for an index, with the defensive fallback of
/// (0, 0) when the index lies outside the sequence. The fallback is reachable
/// only through an index gone stale by switching animations.
pub open spec fn frame_at(frames: Seq<(i32, i32)>, i: int) -> (i32, i32) {
    if 0 <= i < frames.len() {
        frames[i]
    } else {
        (0i32, 0i32)
    }
}

/// The frame index reached by `k` successive advances against a sequence of
/// `n` frames.
pub open spec fn index_after(start: int, n: int, k: nat) -> int
    decreases k,
{
    if k == 0 {
        start
    } else {
        next_frame_index(index_after(start, n, (k - 1) as nat), n)
    }
}

/// The frame origins emitted by `k` successive advances: each advance emits
/// the origin at its pre-advance index.
pub open spec fn emitted(start: int, frames: Seq<(i32, i32)>, k: nat) -> Seq<(i32, i32)>
    decreases k,
{
    if k == 0 {
        Seq::empty()
    } else {
        emitted(start, frames, (k - 1) as nat).push(
            frame_at(frames, index_after(start, frames.len() as int, (k - 1) as nat)),
        )
    }
}

proof fn lemma_cycle_prefix(frames: Seq<(i32, i32)>, k: nat)
    requires
        frames.len() >= 1,
        k <= frames.len(),
    ensures
        index_after(0, frames.len() as int, k) == if k == frames.len() {
            0int
        } else {
            k as int
        },
        emitted(0, frames, k) == frames.take(k as int),
    decreases k,
{
    if k == 0 {
        assert(emitted(0, frames, 0) =~= frames.take(0));
    } else {
        lemma_cycle_prefix(frames, (k - 1) as nat);
        assert(emitted(0, frames, k) =~= frames.take(k as int));
    }
}

/// Law: starting from frame 0, advancing exactly once per frame of the
/// animation emits the whole frame sequence in order and returns the index to
/// 0 — playback is cyclic.
pub proof fn lemma_full_cycle(frames: Seq<(i32, i32)>)
    requires
        frames.len() >= 1,
    ensures
        index_after(0, frames.len() as int, frames.len() as nat) == 0,
        emitted(0, frames, frames.len() as nat) == frames,
{
    lemma_cycle_prefix(frames, frames.len() as nat);
    assert(frames.take(frames.len() as int) =~= frames);
}

/// Law: a one-frame animation is static. However many advances are taken from
/// frame 0, the index stays 0 and every advance emits the single frame.
pub proof fn lemma_single_frame_static(frames: Seq<(i32, i32)>, k: nat)
    requires
        frames.len() == 1,
    ensures
        index_after(0, 1, k) == 0,
        emitted(0, frames, k).len() == k,
        forall|i: int| 0 <= i < k ==> emitted(0, frames, k)[i] == frames[0],
    decreases k,
{
    if k > 0 {
        lemma_single_frame_static(frames, (k - 1) as nat);
    }
}

/// Law: whatever index an advance starts from, it leaves the index strictly
/// inside the animation it was advanced against.
pub proof fn lemma_advance_stays_in_bounds(current: int, n: int)
    requires
        0 <= current,
        n >= 1,
    ensures
        0 <= next_frame_index(current, n) < n,
{
}

/// Law: an index left at or past the end of a (shorter) animation is handled
/// without any out-of-bounds access — the advance emits the defensive (0, 0)
/// fallback and wraps the index back to 0.
pub proof fn lemma_stale_index_wraps(frames: Seq<(i32, i32)>, current: int)
    requires
        frames.len() >= 1,
        current >= frames.len(),
    ensures
        next_frame_index(current, frames.len() as int) == 0,
        frame_at(frames, current) == (0i32, 0i32),
{
}

} // verus!
