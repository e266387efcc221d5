//! The runtime unit the core operates on: one animated sprite with its clip
//! range, ring-counter frame index, accumulating timer, scale and position.
//! Durations are whole milliseconds; positions are whole pixels in a
//! screen-centred coordinate frame.

use vstd::prelude::*;
use crate::table::{AnimationClip, AnimationTable, FrameRange};

verus! {

/// One animated sprite. The host engine owns its lifetime; the core mutates
/// only `current_frame_index`, `elapsed_since_last_advance` and
/// `vertical_translation`.
#[derive(Clone, Copy, Debug, PartialEq, Eq, Structural)]
pub struct AnimatedEntity {
    /// The frame range of the entity's clip, fixed for its lifetime.
    pub frames: FrameRange,
    /// Ring counter, always inside `frames`.
    pub current_frame_index: usize,
    /// Milliseconds accumulated since the last frame advance.
    pub elapsed_since_last_advance: u64,
    /// Milliseconds between frame advances, at least one.
    pub advance_interval: u64,
    /// Uniform visual scale factor.
    pub scale: u32,
    /// World-space position, in pixels from the screen centre.
    pub vertical_translation: i64,
    pub horizontal_translation: i64,
    pub depth: i64,
}

impl AnimatedEntity {
    /// The entity invariant: the frame index stays inside the clip's range
    /// and the timer interval is positive.
    pub open spec fn wf(self) -> bool {
        &&& self.frames.wf()
        &&& self.frames.contains(self.current_frame_index as int)
        &&& self.advance_interval >= 1
    }

    /// Entity construction: the initial frame index is the clip's first
    /// frame and the timer starts empty.
    pub fn new(
        table: &AnimationTable,
        clip: AnimationClip,
        scale: u32,
        advance_interval: u64,
        horizontal_translation: i64,
        depth: i64,
    ) -> (e: AnimatedEntity)
        requires
            table.wf(),
            advance_interval >= 1,
        ensures
            e.wf(),
            e.frames == table.ranges@[clip.index_spec()],
            e.current_frame_index == e.frames.start,
            e.elapsed_since_last_advance == 0,
            e.advance_interval == advance_interval,
            e.scale == scale,
            e.vertical_translation == 0,
            e.horizontal_translation == horizontal_translation,
            e.depth == depth,
    {
        let frames = table.lookup(clip);
        AnimatedEntity {
            frames,
            current_frame_index: frames.start,
            elapsed_since_last_advance: 0,
            advance_interval,
            scale,
            vertical_translation: 0,
            horizontal_translation,
            depth,
        }
    }
}

/// The entity the original overlay spawns: the sleeping cat, scaled six
/// times, advancing five frames per second.
pub fn default_cat_entity() -> (e: AnimatedEntity)
    ensures
        e.wf(),
        e.frames == (FrameRange { start: 48, end: 51 }),
        e.current_frame_index == 48,
        e.elapsed_since_last_advance == 0,
        e.advance_interval == 200,
        e.scale == 6,
        e.vertical_translation == 0,
        e.horizontal_translation == 0,
        e.depth == 0,
{
    let table = crate::table::cat_table();
    AnimatedEntity::new(&table, AnimationClip::Sleep, 6, 200, 0, 0)
}

} // verus!
