//! The frame cycler: once per rendered frame the host hands each entity the
//! elapsed wall-clock time; the entity's timer accumulates it and the frame
//! index advances one step per full interval, wrapping from the clip's last
//! frame back to its first. A single call drains the accumulator fully, so a
//! stalled frame catches up by several steps at once, and the accumulator
//! keeps the remainder rather than snapping to zero: sustained low frame
//! rates cause no drift.

use vstd::prelude::*;
use vstd::arithmetic::div_mod::{
    lemma_fundamental_div_mod,
    lemma_fundamental_div_mod_converse_div,
    lemma_fundamental_div_mod_converse_mod,
};
use crate::entity::AnimatedEntity;
use crate::table::FrameRange;

verus! {

/// One advance of the ring counter: from the clip's last frame back to its
/// first, otherwise one frame forward.
pub open spec fn step_frame(frames: FrameRange, i: int) -> int {
    if i == frames.end {
        frames.start as int
    } else {
        i + 1
    }
}

/// `n` advances of the ring counter.
pub open spec fn step_frame_n(frames: FrameRange, i: int, n: nat) -> int
    decreases n,
{
    if n == 0 {
        i
    } else {
        step_frame(frames, step_frame_n(frames, i, (n - 1) as nat))
    }
}

/// Any number of advances keeps the index inside the clip's range.
pub proof fn lemma_step_frame_n_in_range(frames: FrameRange, i: int, n: nat)
    requires
        frames.wf(),
        frames.contains(i),
    ensures
        frames.contains(step_frame_n(frames, i, n)),
    decreases n,
{
    if n > 0 {
        lemma_step_frame_n_in_range(frames, i, (n - 1) as nat);
    }
}

/// Wrap law: from the clip's last frame, one more advance lands on the
/// clip's first frame, not past the end.
pub proof fn lemma_wrap_to_start(frames: FrameRange)
    requires
        frames.wf(),
    ensures
        step_frame(frames, frames.end as int) == frames.start,
{
}

/// Advancing `a + b` times is advancing `a` times, then `b` times.
pub proof fn lemma_step_frame_n_add(frames: FrameRange, i: int, a: nat, b: nat)
    ensures
        step_frame_n(frames, i, a + b) == step_frame_n(frames, step_frame_n(frames, i, a), b),
    decreases b,
{
    if b > 0 {
        lemma_step_frame_n_add(frames, i, a, (b - 1) as nat);
    }
}

/// The state after one cycler call with `dt` milliseconds elapsed: the timer
/// keeps the remainder and the index advances once per full interval.
pub open spec fn ticked(e: AnimatedEntity, dt: nat) -> AnimatedEntity {
    let interval = e.advance_interval as int;
    let total = e.elapsed_since_last_advance as int + dt;
    AnimatedEntity {
        current_frame_index: step_frame_n(
            e.frames,
            e.current_frame_index as int,
            (total / interval) as nat,
        ) as usize,
        elapsed_since_last_advance: (total % interval) as u64,
        ..e
    }
}

/// A cycler call preserves the entity invariant and touches nothing but the
/// timer and the frame index.
pub proof fn lemma_ticked_wf(e: AnimatedEntity, dt: nat)
    requires
        e.wf(),
    ensures
        ticked(e, dt).wf(),
        ticked(e, dt).elapsed_since_last_advance < e.advance_interval,
{
    let interval = e.advance_interval as int;
    let total = e.elapsed_since_last_advance as int + dt;
    lemma_step_frame_n_in_range(e.frames, e.current_frame_index as int, (total / interval) as nat);
}

impl AnimatedEntity {
    /// The cycler's per-entity step. Adds `dt` milliseconds to the timer and
    /// advances the frame index once per full interval, wrapping inside the
    /// clip's range and keeping the timer's remainder.
    pub fn tick(&mut self, dt: u64)
        requires
            old(self).wf(),
            old(self).elapsed_since_last_advance + dt <= u64::MAX,
        ensures
            final(self).wf(),
            *final(self) == ticked(*old(self), dt as nat),
    {
        self.elapsed_since_last_advance = self.elapsed_since_last_advance + dt;
        let ghost mut n: nat = 0;
        while self.elapsed_since_last_advance >= self.advance_interval
            invariant
                self.frames == old(self).frames,
                self.advance_interval == old(self).advance_interval,
                self.scale == old(self).scale,
                self.vertical_translation == old(self).vertical_translation,
                self.horizontal_translation == old(self).horizontal_translation,
                self.depth == old(self).depth,
                self.advance_interval >= 1,
                self.frames.wf(),
                self.frames.contains(self.current_frame_index as int),
                self.current_frame_index == step_frame_n(
                    old(self).frames,
                    old(self).current_frame_index as int,
                    n,
                ),
                old(self).elapsed_since_last_advance + dt == n * (self.advance_interval as int)
                    + self.elapsed_since_last_advance,
            decreases self.elapsed_since_last_advance,
        {
            self.elapsed_since_last_advance = self.elapsed_since_last_advance
                - self.advance_interval;
            self.current_frame_index = advance_frame(self.frames, self.current_frame_index);
            proof {
                let interval = self.advance_interval as int;
                assert((n + 1) * interval == n * interval + interval) by (nonlinear_arith);
                n = n + 1;
            }
        }
        proof {
            let total = old(self).elapsed_since_last_advance as int + dt;
            let interval = old(self).advance_interval as int;
            lemma_fundamental_div_mod_converse_div(
                total,
                interval,
                n as int,
                self.elapsed_since_last_advance as int,
            );
            lemma_fundamental_div_mod_converse_mod(
                total,
                interval,
                n as int,
                self.elapsed_since_last_advance as int,
            );
        }
    }
}

/// Timer accumulation law: splitting the elapsed time over two cycler calls
/// leaves exactly the same state as one call with their sum; the remainder
/// accounting is exact and no drift accumulates.
pub proof fn lemma_tick_additive(e: AnimatedEntity, d1: nat, d2: nat)
    requires
        e.wf(),
    ensures
        ticked(ticked(e, d1), d2) == ticked(e, d1 + d2),
{
    let interval = e.advance_interval as int;
    let i0 = e.current_frame_index as int;
    let e0 = e.elapsed_since_last_advance as int;
    let t1 = e0 + d1;
    let n1 = t1 / interval;
    let r1 = t1 % interval;
    lemma_fundamental_div_mod(t1, interval);
    let e1 = ticked(e, d1);
    lemma_step_frame_n_in_range(e.frames, i0, n1 as nat);
    assert(e1.elapsed_since_last_advance == r1);
    assert(e1.current_frame_index == step_frame_n(e.frames, i0, n1 as nat));
    let t2 = r1 + d2;
    let n2 = t2 / interval;
    let r2 = t2 % interval;
    lemma_fundamental_div_mod(t2, interval);
    let t = e0 + d1 + d2;
    assert(t == interval * n1 + interval * n2 + r2);
    assert((n1 + n2) * interval == interval * n1 + interval * n2) by (nonlinear_arith);
    lemma_fundamental_div_mod_converse_div(t, interval, n1 + n2, r2);
    lemma_fundamental_div_mod_converse_mod(t, interval, n1 + n2, r2);
    lemma_step_frame_n_add(e.frames, i0, n1 as nat, n2 as nat);
    assert(ticked(e1, d2).current_frame_index == step_frame_n(
        e.frames,
        i0,
        (n1 + n2) as nat,
    ) as usize);
}

/// The state after a whole run of cycler calls, first to last.
pub open spec fn ticked_seq(e: AnimatedEntity, dts: Seq<nat>) -> AnimatedEntity
    decreases dts.len(),
{
    if dts.len() == 0 {
        e
    } else {
        ticked_seq(ticked(e, dts[0]), dts.drop_first())
    }
}

/// Invariant: every entity state reachable from a well-formed state through
/// any run of cycler calls keeps its frame index inside the clip's range,
/// and never changes clip.
pub proof fn lemma_reachable_in_range(e: AnimatedEntity, dts: Seq<nat>)
    requires
        e.wf(),
    ensures
        ticked_seq(e, dts).wf(),
        ticked_seq(e, dts).frames == e.frames,
    decreases dts.len(),
{
    if dts.len() > 0 {
        lemma_ticked_wf(e, dts[0]);
        lemma_reachable_in_range(ticked(e, dts[0]), dts.drop_first());
    }
}

/// The wrap rule as executable code: one step of the ring counter.
pub fn advance_frame(frames: FrameRange, index: usize) -> (r: usize)
    requires
        frames.wf(),
        frames.contains(index as int),
    ensures
        r == step_frame(frames, index as int),
        frames.contains(r as int),
{
    if index == frames.end {
        frames.start
    } else {
        index + 1
    }
}

/// The per-frame cycler entry point: advances every entity by the same
/// elapsed time. Entities are independent; order does not matter.
pub fn animate_sprite_sheet_system(entities: &mut Vec<AnimatedEntity>, dt: u64)
    requires
        forall|k: int| 0 <= k < old(entities)@.len() ==> (#[trigger] old(entities)@[k]).wf(),
        forall|k: int|
            0 <= k < old(entities)@.len() ==> (#[trigger] old(
                entities,
            )@[k]).elapsed_since_last_advance + dt <= u64::MAX,
    ensures
        final(entities)@.len() == old(entities)@.len(),
        forall|k: int|
            0 <= k < old(entities)@.len() ==> final(entities)@[k] == ticked(
                #[trigger] old(entities)@[k],
                dt as nat,
            ),
        forall|k: int| 0 <= k < final(entities)@.len() ==> (#[trigger] final(entities)@[k]).wf(),
{
    let n = entities.len();
    let mut idx: usize = 0;
    while idx < n
        invariant
            n == entities@.len(),
            entities@.len() == old(entities)@.len(),
            idx <= n,
            forall|k: int| 0 <= k < old(entities)@.len() ==> (#[trigger] old(entities)@[k]).wf(),
            forall|k: int|
                0 <= k < old(entities)@.len() ==> (#[trigger] old(
                    entities,
                )@[k]).elapsed_since_last_advance + dt <= u64::MAX,
            forall|k: int| idx <= k < n ==> entities@[k] == old(entities)@[k],
            forall|k: int|
                0 <= k < idx ==> entities@[k] == ticked(#[trigger] old(entities)@[k], dt as nat),
            forall|k: int| 0 <= k < idx ==> (#[trigger] entities@[k]).wf(),
        decreases n - idx,
    {
        let mut e = entities[idx];
        e.tick(dt);
        entities[idx] = e;
        idx += 1;
    }
}

} // verus!
