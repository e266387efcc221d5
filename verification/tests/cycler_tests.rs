use desk_pet::cycler::advance_frame;
use desk_pet::entity::{default_cat_entity, AnimatedEntity};
use desk_pet::table::{cat_table, AnimationClip, FrameRange};

fn sleeping_cat_at(index: usize) -> AnimatedEntity {
    AnimatedEntity {
        frames: FrameRange { start: 48, end: 51 },
        current_frame_index: index,
        elapsed_since_last_advance: 0,
        advance_interval: 200,
        scale: 6,
        vertical_translation: 0,
        horizontal_translation: 0,
        depth: 0,
    }
}

#[test]
fn scenario_wrap_with_remainder() {
    // Sleep clip [48, 51], at the last frame, one call with a quarter
    // second: the index wraps to 48 and 50 ms of timer remain.
    let mut e = sleeping_cat_at(51);
    e.tick(250);
    assert_eq!(e.current_frame_index, 48);
    assert_eq!(e.elapsed_since_last_advance, 50);
}

#[test]
fn wrap_law_at_end() {
    // One threshold crossing at the clip's end lands on start, not end + 1.
    let mut e = sleeping_cat_at(51);
    e.tick(200);
    assert_eq!(e.current_frame_index, 48);
    assert_eq!(e.elapsed_since_last_advance, 0);
    assert_eq!(advance_frame(FrameRange { start: 48, end: 51 }, 51), 48);
}

#[test]
fn timer_accumulation_is_exact() {
    // Four calls of 50 ms match one call of 200 ms: same index, zero
    // leftover, no drift.
    let mut split = sleeping_cat_at(48);
    split.tick(50);
    split.tick(50);
    split.tick(50);
    split.tick(50);
    let mut whole = sleeping_cat_at(48);
    whole.tick(200);
    assert_eq!(split.current_frame_index, whole.current_frame_index);
    assert_eq!(split.current_frame_index, 49);
    assert_eq!(split.elapsed_since_last_advance, 0);
    assert_eq!(whole.elapsed_since_last_advance, 0);
}

#[test]
fn zero_dt_changes_nothing() {
    let mut e = sleeping_cat_at(50);
    let before = e;
    e.tick(0);
    assert_eq!(e, before);
}

#[test]
fn stalled_frame_drains_every_interval() {
    // A stalled 450 ms frame advances twice and keeps the 50 ms remainder.
    let mut e = sleeping_cat_at(48);
    e.tick(450);
    assert_eq!(e.current_frame_index, 50);
    assert_eq!(e.elapsed_since_last_advance, 50);
}

#[test]
fn full_cycle_returns_to_start() {
    // Four advances walk the whole Sleep clip and wrap back to its start.
    let mut e = sleeping_cat_at(48);
    e.tick(800);
    assert_eq!(e.current_frame_index, 48);
    assert_eq!(e.elapsed_since_last_advance, 0);
}

#[test]
fn new_entity_starts_at_clip_start() {
    let table = cat_table();
    let e = AnimatedEntity::new(&table, AnimationClip::Walk, 6, 200, 0, 0);
    assert_eq!(e.frames, FrameRange { start: 56, end: 61 });
    assert_eq!(e.current_frame_index, 56);
    assert_eq!(e.elapsed_since_last_advance, 0);
}

#[test]
fn default_cat_is_the_sleeping_cat() {
    let e = default_cat_entity();
    assert_eq!(e.frames, FrameRange { start: 48, end: 51 });
    assert_eq!(e.current_frame_index, 48);
    assert_eq!(e.advance_interval, 200);
    assert_eq!(e.scale, 6);
}

#[test]
fn system_ticks_every_entity() {
    let mut entities = vec![sleeping_cat_at(48), sleeping_cat_at(51)];
    desk_pet::cycler::animate_sprite_sheet_system(&mut entities, 250);
    assert_eq!(entities[0].current_frame_index, 49);
    assert_eq!(entities[1].current_frame_index, 48);
    assert_eq!(entities[0].elapsed_since_last_advance, 50);
    assert_eq!(entities[1].elapsed_since_last_advance, 50);
}
