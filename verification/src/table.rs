//! The animation table: a closed set of named clips, each mapped to an
//! inclusive frame-index range inside one shared sprite sheet. The table is
//! configuration, checked once for well-formedness (ordered ranges, in
//! bounds, mutually disjoint) before any frame runs.

use vstd::prelude::*;

verus! {

/// How many named clips the closed set holds.
pub const CLIP_COUNT: usize = 10;

/// Total number of frames in the cat sprite sheet (8 columns by 10 rows).
pub const CAT_SHEET_FRAMES: usize = 80;

/// An inclusive range `[start, end]` of frame indices in the sprite sheet.
#[derive(Clone, Copy, Debug, PartialEq, Eq, Structural)]
pub struct FrameRange {
    pub start: usize,
    pub end: usize,
}

impl FrameRange {
    /// A range is well formed when it runs forwards.
    pub open spec fn wf(self) -> bool {
        self.start <= self.end
    }

    /// The frame indices the range covers.
    pub open spec fn contains(self, i: int) -> bool {
        self.start <= i <= self.end
    }
}

/// Two ranges are disjoint when neither reaches into the other.
pub open spec fn ranges_disjoint(a: FrameRange, b: FrameRange) -> bool {
    a.end < b.start || b.end < a.start
}

/// Every range runs forwards and ends inside the sheet.
pub open spec fn ranges_in_bounds(rs: Seq<FrameRange>, frame_count: nat) -> bool {
    forall|k: int| 0 <= k < rs.len() ==> (#[trigger] rs[k]).wf() && rs[k].end < frame_count
}

/// No two distinct ranges share a frame index.
pub open spec fn pairwise_disjoint(rs: Seq<FrameRange>) -> bool {
    forall|p: int, q: int|
        0 <= p < q < rs.len() ==> ranges_disjoint(#[trigger] rs[p], #[trigger] rs[q])
}

/// Each range ends strictly before the next begins.
pub open spec fn ranges_ordered(rs: Seq<FrameRange>) -> bool {
    forall|i: int| 0 <= i && i + 1 < rs.len() ==> (#[trigger] rs[i]).end < rs[i + 1].start
}

/// A table is valid when it names every clip, every range lies inside the
/// sheet, and the ranges are mutually disjoint.
pub open spec fn table_valid(rs: Seq<FrameRange>, frame_count: nat) -> bool {
    &&& rs.len() == CLIP_COUNT
    &&& ranges_in_bounds(rs, frame_count)
    &&& pairwise_disjoint(rs)
}

proof fn lemma_ordered_chain(rs: Seq<FrameRange>, i: int, j: int)
    requires
        ranges_ordered(rs),
        forall|k: int| 0 <= k < rs.len() ==> (#[trigger] rs[k]).wf(),
        0 <= i < j < rs.len(),
    ensures
        rs[i].end < rs[j].start,
    decreases j - i,
{
    if i + 1 < j {
        lemma_ordered_chain(rs, i, j - 1);
        assert(rs[j - 1].wf());
    }
}

/// Ranges listed in strictly increasing order are mutually disjoint.
pub proof fn lemma_ordered_disjoint(rs: Seq<FrameRange>)
    requires
        ranges_ordered(rs),
        forall|k: int| 0 <= k < rs.len() ==> (#[trigger] rs[k]).wf(),
    ensures
        pairwise_disjoint(rs),
{
    assert forall|p: int, q: int|
        0 <= p < q < rs.len() implies ranges_disjoint(#[trigger] rs[p], #[trigger] rs[q]) by {
        lemma_ordered_chain(rs, p, q);
    }
}

/// The closed set of clip names in the cat sprite sheet.
#[derive(Clone, Copy, Debug, PartialEq, Eq, Structural)]
pub enum AnimationClip {
    Idle1,
    Idle2,
    Clean1,
    Clean2,
    Run1,
    Run2,
    Sleep,
    Walk,
    Leap,
    Stretch,
}

impl AnimationClip {
    /// The clip's row in the animation table.
    pub open spec fn index_spec(self) -> int {
        match self {
            AnimationClip::Idle1 => 0,
            AnimationClip::Idle2 => 1,
            AnimationClip::Clean1 => 2,
            AnimationClip::Clean2 => 3,
            AnimationClip::Run1 => 4,
            AnimationClip::Run2 => 5,
            AnimationClip::Sleep => 6,
            AnimationClip::Walk => 7,
            AnimationClip::Leap => 8,
            AnimationClip::Stretch => 9,
        }
    }

    /// The clip's row in the animation table.
    pub fn index(self) -> (i: usize)
        ensures
            i == self.index_spec(),
            i < CLIP_COUNT,
    {
        match self {
            AnimationClip::Idle1 => 0,
            AnimationClip::Idle2 => 1,
            AnimationClip::Clean1 => 2,
            AnimationClip::Clean2 => 3,
            AnimationClip::Run1 => 4,
            AnimationClip::Run2 => 5,
            AnimationClip::Sleep => 6,
            AnimationClip::Walk => 7,
            AnimationClip::Leap => 8,
            AnimationClip::Stretch => 9,
        }
    }
}

/// A malformed animation table, rejected at initialization.
#[derive(Clone, Copy, Debug, PartialEq, Eq, Structural)]
pub enum ConfigError {
    /// The table does not hold exactly one range per clip name.
    WrongClipCount,
    /// Some range runs backwards or reaches past the end of the sheet.
    RangeOutOfBounds,
    /// Two distinct clips share a frame index.
    OverlappingRanges,
}

/// The clip-to-range mapping, one row per clip name, over a sheet of
/// `frame_count` frames.
#[derive(Debug)]
pub struct AnimationTable {
    pub ranges: Vec<FrameRange>,
    pub frame_count: usize,
}

impl AnimationTable {
    /// The table invariant: validated configuration.
    pub open spec fn wf(self) -> bool {
        table_valid(self.ranges@, self.frame_count as nat)
    }

    /// Checks a proposed configuration once, before any frame runs; a
    /// malformed table is rejected as fatal, never carried into the loop.
    pub fn new(ranges: Vec<FrameRange>, frame_count: usize) -> (r: Result<
        AnimationTable,
        ConfigError,
    >)
        ensures
            r is Ok <==> table_valid(ranges@, frame_count as nat),
            r matches Ok(t) ==> t.ranges@ == ranges@ && t.frame_count == frame_count && t.wf(),
            ranges@.len() != CLIP_COUNT ==> r == Err::<AnimationTable, ConfigError>(
                ConfigError::WrongClipCount,
            ),
            ranges@.len() == CLIP_COUNT && !ranges_in_bounds(ranges@, frame_count as nat) ==> r
                == Err::<AnimationTable, ConfigError>(ConfigError::RangeOutOfBounds),
            ranges@.len() == CLIP_COUNT && ranges_in_bounds(ranges@, frame_count as nat)
                && !pairwise_disjoint(ranges@) ==> r == Err::<AnimationTable, ConfigError>(
                ConfigError::OverlappingRanges,
            ),
    {
        if ranges.len() != CLIP_COUNT {
            return Err(ConfigError::WrongClipCount);
        }
        let n = ranges.len();
        let mut i: usize = 0;
        while i < n
            invariant
                n == ranges@.len(),
                n == CLIP_COUNT,
                i <= n,
                forall|k: int|
                    0 <= k < i ==> (#[trigger] ranges@[k]).wf() && ranges@[k].end < frame_count,
            decreases n - i,
        {
            if ranges[i].start > ranges[i].end || ranges[i].end >= frame_count {
                assert(!ranges_in_bounds(ranges@, frame_count as nat));
                return Err(ConfigError::RangeOutOfBounds);
            }
            i += 1;
        }
        assert(ranges_in_bounds(ranges@, frame_count as nat));
        let mut p: usize = 0;
        while p < n
            invariant
                n == ranges@.len(),
                n == CLIP_COUNT,
                p <= n,
                ranges_in_bounds(ranges@, frame_count as nat),
                forall|a: int, b: int|
                    0 <= a < p && a < b < n ==> ranges_disjoint(
                        #[trigger] ranges@[a],
                        #[trigger] ranges@[b],
                    ),
            decreases n - p,
        {
            let mut q: usize = p + 1;
            while q < n
                invariant
                    n == ranges@.len(),
                    n == CLIP_COUNT,
                    p < q <= n,
                    p < n,
                    ranges_in_bounds(ranges@, frame_count as nat),
                    forall|a: int, b: int|
                        0 <= a < p && a < b < n ==> ranges_disjoint(
                            #[trigger] ranges@[a],
                            #[trigger] ranges@[b],
                        ),
                    forall|b: int|
                        p < b < q ==> ranges_disjoint(ranges@[p as int], #[trigger] ranges@[b]),
                decreases n - q,
            {
                if !(ranges[p].end < ranges[q].start || ranges[q].end < ranges[p].start) {
                    assert(!ranges_disjoint(ranges@[p as int], ranges@[q as int]));
                    assert(!pairwise_disjoint(ranges@));
                    return Err(ConfigError::OverlappingRanges);
                }
                q += 1;
            }
            p += 1;
        }
        assert(pairwise_disjoint(ranges@));
        Ok(AnimationTable { ranges, frame_count })
    }

    /// Total, pure lookup of a clip's frame range; cannot fail on a valid
    /// table.
    pub fn lookup(&self, clip: AnimationClip) -> (r: FrameRange)
        requires
            self.wf(),
        ensures
            r == self.ranges@[clip.index_spec()],
            r.wf(),
            r.end < self.frame_count,
    {
        let i = clip.index();
        self.ranges[i]
    }
}

/// The cat sprite sheet's clip ranges, one row per clip, in clip order.
pub open spec fn cat_ranges_spec() -> Seq<FrameRange> {
    seq![
        FrameRange { start: 0, end: 3 },
        FrameRange { start: 8, end: 11 },
        FrameRange { start: 16, end: 19 },
        FrameRange { start: 24, end: 27 },
        FrameRange { start: 32, end: 39 },
        FrameRange { start: 40, end: 47 },
        FrameRange { start: 48, end: 51 },
        FrameRange { start: 56, end: 61 },
        FrameRange { start: 64, end: 70 },
        FrameRange { start: 72, end: 79 },
    ]
}

/// The cat configuration is a valid table over its 80-frame sheet.
pub proof fn lemma_cat_config_valid()
    ensures
        table_valid(cat_ranges_spec(), CAT_SHEET_FRAMES as nat),
{
    let rs = cat_ranges_spec();
    assert(rs.len() == CLIP_COUNT);
    assert forall|k: int|
        0 <= k < rs.len() implies (#[trigger] rs[k]).wf() && rs[k].end < CAT_SHEET_FRAMES by {}
    assert forall|i: int|
        0 <= i && i + 1 < rs.len() implies (#[trigger] rs[i]).end < rs[i + 1].start by {}
    lemma_ordered_disjoint(rs);
}

/// Builds the cat clip ranges as executable data.
pub fn cat_clip_ranges() -> (v: Vec<FrameRange>)
    ensures
        v@ == cat_ranges_spec(),
{
    let mut v: Vec<FrameRange> = Vec::new();
    v.push(FrameRange { start: 0, end: 3 });
    v.push(FrameRange { start: 8, end: 11 });
    v.push(FrameRange { start: 16, end: 19 });
    v.push(FrameRange { start: 24, end: 27 });
    v.push(FrameRange { start: 32, end: 39 });
    v.push(FrameRange { start: 40, end: 47 });
    v.push(FrameRange { start: 48, end: 51 });
    v.push(FrameRange { start: 56, end: 61 });
    v.push(FrameRange { start: 64, end: 70 });
    v.push(FrameRange { start: 72, end: 79 });
    assert(v@ =~= cat_ranges_spec());
    v
}

/// The cat's animation table, proved valid once and for all.
pub fn cat_table() -> (t: AnimationTable)
    ensures
        t.wf(),
        t.ranges@ == cat_ranges_spec(),
        t.frame_count == CAT_SHEET_FRAMES,
{
    let ranges = cat_clip_ranges();
    proof {
        lemma_cat_config_valid();
    }
    AnimationTable { ranges, frame_count: CAT_SHEET_FRAMES }
}

} // verus!
