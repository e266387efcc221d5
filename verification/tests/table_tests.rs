use desk_pet::table::{
    cat_table, AnimationClip, AnimationTable, ConfigError, FrameRange, CAT_SHEET_FRAMES,
};

fn range(start: usize, end: usize) -> FrameRange {
    FrameRange { start, end }
}

fn cat_ranges() -> Vec<FrameRange> {
    vec![
        range(0, 3),
        range(8, 11),
        range(16, 19),
        range(24, 27),
        range(32, 39),
        range(40, 47),
        range(48, 51),
        range(56, 61),
        range(64, 70),
        range(72, 79),
    ]
}

#[test]
fn cat_table_clip_ranges() {
    let table = cat_table();
    assert_eq!(table.lookup(AnimationClip::Idle1), range(0, 3));
    assert_eq!(table.lookup(AnimationClip::Idle2), range(8, 11));
    assert_eq!(table.lookup(AnimationClip::Clean1), range(16, 19));
    assert_eq!(table.lookup(AnimationClip::Clean2), range(24, 27));
    assert_eq!(table.lookup(AnimationClip::Run1), range(32, 39));
    assert_eq!(table.lookup(AnimationClip::Run2), range(40, 47));
    assert_eq!(table.lookup(AnimationClip::Sleep), range(48, 51));
    assert_eq!(table.lookup(AnimationClip::Walk), range(56, 61));
    assert_eq!(table.lookup(AnimationClip::Leap), range(64, 70));
    assert_eq!(table.lookup(AnimationClip::Stretch), range(72, 79));
    assert_eq!(table.frame_count, CAT_SHEET_FRAMES);
}

#[test]
fn valid_configuration_accepted() {
    let table = AnimationTable::new(cat_ranges(), CAT_SHEET_FRAMES).unwrap();
    assert_eq!(table.lookup(AnimationClip::Sleep), range(48, 51));
}

#[test]
fn overlapping_ranges_rejected() {
    // Sleep and Walk both claim frame 51: initialization must fail before
    // any frame runs.
    let mut ranges = cat_ranges();
    ranges[7] = range(51, 61);
    let result = AnimationTable::new(ranges, CAT_SHEET_FRAMES);
    assert_eq!(result.unwrap_err(), ConfigError::OverlappingRanges);
}

#[test]
fn out_of_bounds_range_rejected() {
    let mut ranges = cat_ranges();
    ranges[9] = range(72, 80);
    let result = AnimationTable::new(ranges, CAT_SHEET_FRAMES);
    assert_eq!(result.unwrap_err(), ConfigError::RangeOutOfBounds);
}

#[test]
fn backwards_range_rejected() {
    let mut ranges = cat_ranges();
    ranges[0] = range(3, 0);
    let result = AnimationTable::new(ranges, CAT_SHEET_FRAMES);
    assert_eq!(result.unwrap_err(), ConfigError::RangeOutOfBounds);
}

#[test]
fn wrong_clip_count_rejected() {
    let mut ranges = cat_ranges();
    ranges.pop();
    let result = AnimationTable::new(ranges, CAT_SHEET_FRAMES);
    assert_eq!(result.unwrap_err(), ConfigError::WrongClipCount);
}
