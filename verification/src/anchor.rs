//! The bottom anchor: once per frame, after any frame advance, each entity's
//! vertical translation is recomputed so the current frame's scaled bottom
//! edge sits flush with the bottom of the display's client area. The origin
//! is the screen centre, so the sprite moves down by half the display height
//! and back up by half its own scaled pixel height. When the display height
//! or the frame's geometry entry cannot be resolved this frame, the entity's
//! position is left untouched and the next frame retries.

use vstd::prelude::*;
use crate::entity::AnimatedEntity;

verus! {

/// Read-only per-frame sprite geometry: the rendered pixel height of each
/// frame in the sheet, by frame index. Frames may be trimmed to different
/// heights, so the height is looked up per index, not per sheet.
#[derive(Debug)]
pub struct FrameGeometry {
    pub frame_heights: Vec<u32>,
}

/// The geometry entry for a frame index, or nothing when the index has no
/// entry.
pub open spec fn height_entry(heights: Seq<u32>, i: int) -> Option<u32> {
    if 0 <= i < heights.len() {
        Some(heights[i])
    } else {
        None
    }
}

impl FrameGeometry {
    /// Looks up the rendered pixel height of one frame.
    pub fn height_of(&self, index: usize) -> (r: Option<u32>)
        ensures
            r == height_entry(self.frame_heights@, index as int),
    {
        if index < self.frame_heights.len() {
            Some(self.frame_heights[index])
        } else {
            None
        }
    }
}

/// The anchoring formula: down by half the display height, up by half the
/// current frame's scaled pixel height, each half taken in whole pixels.
pub open spec fn bottom_anchor_spec(display_height: u32, frame_height: u32, scale: u32) -> int {
    (frame_height * scale) / 2 - display_height / 2
}

/// Computes the anchored vertical translation, exactly as the formula says.
pub fn bottom_anchor_translation(display_height: u32, frame_height: u32, scale: u32) -> (r: i64)
    ensures
        r == bottom_anchor_spec(display_height, frame_height, scale),
{
    proof {
        assert((frame_height as int) * (scale as int) <= 0xffff_ffff * 0xffff_ffff)
            by (nonlinear_arith)
            requires
                0 <= frame_height as int <= 0xffff_ffff,
                0 <= scale as int <= 0xffff_ffff,
        ;
    }
    let scaled: u64 = (frame_height as u64) * (scale as u64);
    let half_sprite: u64 = scaled / 2;
    let half_screen: u32 = display_height / 2;
    (half_sprite as i64) - (half_screen as i64)
}

/// The state after one bottom-anchor pass: the vertical translation is
/// recomputed from the current frame's geometry when both the display
/// height and the geometry entry resolve, and kept unchanged otherwise.
pub open spec fn anchored(
    e: AnimatedEntity,
    display_height: Option<u32>,
    heights: Seq<u32>,
) -> AnimatedEntity {
    match (display_height, height_entry(heights, e.current_frame_index as int)) {
        (Some(dh), Some(h)) => AnimatedEntity {
            vertical_translation: bottom_anchor_spec(dh, h, e.scale) as i64,
            ..e
        },
        _ => e,
    }
}

impl AnimatedEntity {
    /// The bottom anchor's per-entity step. Writes the vertical translation
    /// only when both the display height and the current frame's geometry
    /// entry are available; otherwise this frame's positional update is
    /// skipped and the previous value stands.
    pub fn sit_at_bottom(&mut self, display_height: Option<u32>, geometry: &FrameGeometry)
        ensures
            *final(self) == anchored(*old(self), display_height, geometry.frame_heights@),
            old(self).wf() ==> final(self).wf(),
    {
        match display_height {
            Some(dh) => {
                match geometry.height_of(self.current_frame_index) {
                    Some(h) => {
                        self.vertical_translation = bottom_anchor_translation(dh, h, self.scale);
                    },
                    None => {},
                }
            },
            None => {},
        }
    }
}

/// Idempotence: a second bottom-anchor pass under the same display height
/// and geometry leaves exactly the state the first produced; in particular
/// the vertical translation comes out the same both times.
pub proof fn lemma_anchor_idempotent(
    e: AnimatedEntity,
    display_height: Option<u32>,
    heights: Seq<u32>,
)
    ensures
        anchored(anchored(e, display_height, heights), display_height, heights) == anchored(
            e,
            display_height,
            heights,
        ),
{
}

/// The per-frame anchor entry point: repositions every entity against the
/// same freshly read display height. When the display cannot be resolved
/// this frame, no entity's position is written at all.
pub fn sit_at_bottom_system(
    entities: &mut Vec<AnimatedEntity>,
    display_height: Option<u32>,
    geometry: &FrameGeometry,
)
    ensures
        final(entities)@.len() == old(entities)@.len(),
        forall|k: int|
            0 <= k < old(entities)@.len() ==> final(entities)@[k] == anchored(
                #[trigger] old(entities)@[k],
                display_height,
                geometry.frame_heights@,
            ),
        display_height is None ==> final(entities)@ == old(entities)@,
{
    let n = entities.len();
    let mut idx: usize = 0;
    while idx < n
        invariant
            n == entities@.len(),
            entities@.len() == old(entities)@.len(),
            idx <= n,
            forall|k: int| idx <= k < n ==> entities@[k] == old(entities)@[k],
            forall|k: int|
                0 <= k < idx ==> entities@[k] == anchored(
                    #[trigger] old(entities)@[k],
                    display_height,
                    geometry.frame_heights@,
                ),
        decreases n - idx,
    {
        let mut e = entities[idx];
        e.sit_at_bottom(display_height, geometry);
        entities[idx] = e;
        idx += 1;
    }
    proof {
        if display_height is None {
            assert(entities@ =~= old(entities)@);
        }
    }
}

} // verus!
