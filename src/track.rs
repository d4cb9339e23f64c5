//! Road segments and the road position tracker.
use vstd::prelude::*;

use crate::convert::i128_as_index;
use crate::fixed::abs;

verus! {

/// The length (in Z) of a single road segment (15.0).
pub const SEGMENT_LENGTH: i64 = 15 * 65536;

/// Road colors switch at every interval of Z (0.5).
pub const COLOR_SWITCH_Z_INTERVAL: i64 = 32768;

/// The largest on-screen height the drawn road can take.
pub const MAX_ROAD_DRAW_HEIGHT: usize = 170;

/// A fixed-length stretch of road; curve and hill are rates per unit of Z.
#[derive(Clone, Copy, Debug, PartialEq, Eq, Structural)]
pub struct RoadSegment {
    pub curve: i32,
    pub hill: i32,
}

/// The segment at `idx`, where indices past the end read the last segment.
pub open spec fn bounded_seg(segs: Seq<RoadSegment>, idx: int) -> RoadSegment {
    if idx < segs.len() - 1 {
        segs[idx]
    } else {
        segs[segs.len() - 1]
    }
}

/// The road state that changes every frame: the racer's position on the
/// track and the tables projected from it.
pub struct RoadDynamic {
    /// The height that this road takes up on-screen when drawn.
    pub draw_height: usize,
    /// Road center X offset at each depth row; affected by curvature.
    pub x_map: Vec<i128>,
    /// The depth row drawn on each on-screen pixel line; affected by hills.
    pub y_map: Vec<usize>,
    /// The racer's offset from the center of the road.
    pub x_offset: i32,
    /// Distance travelled, modulo two color intervals; shifts road colors.
    pub z_offset: i64,
    /// The index of the segment the racer is in.
    pub seg_idx: usize,
    /// The racer's Z position within that segment.
    pub seg_pos: i64,
    pub segs: Vec<RoadSegment>,
}

/// A bound on every entry of the road's X table.
pub const XMAP_BOUND: i128 = 0x8000_0000_0000_0000_0000_0000;

/// Distance from the start of the track of a segment index and offset.
pub open spec fn track_z(seg_idx: int, seg_pos: int) -> int {
    seg_idx * SEGMENT_LENGTH + seg_pos
}

impl RoadDynamic {
    /// The segment list is not empty, the position lies inside its segment
    /// and the color offset inside two color intervals.
    pub open spec fn wf(&self) -> bool {
        &&& self.segs.len() >= 1
        &&& 0 <= self.seg_pos < SEGMENT_LENGTH
        &&& 0 <= self.z_offset < 2 * COLOR_SWITCH_Z_INTERVAL
    }

    /// The projected tables fit a depth table of `rows` rows: lines below the
    /// draw height map to a row, the lines above it to `rows`.
    pub open spec fn tables_wf(&self, rows: nat) -> bool {
        &&& self.x_map.len() == rows
        &&& self.y_map.len() == MAX_ROAD_DRAW_HEIGHT
        &&& self.draw_height <= MAX_ROAD_DRAW_HEIGHT
        &&& forall|k: int|
            0 <= k < MAX_ROAD_DRAW_HEIGHT ==> (k < self.draw_height ==> #[trigger] self.y_map[k] < rows) && (
            k >= self.draw_height ==> self.y_map[k] == rows)
        &&& forall|i: int| 0 <= i < rows ==> abs(#[trigger] self.x_map[i] as int) <= XMAP_BOUND
    }

    /// The height, in pixel lines, of the drawn road.
    pub fn get_draw_height_pixels(&self) -> (r: usize)
        ensures
            r == self.draw_height,
    {
        self.draw_height
    }

    /// The racer's segment index and offset within that segment.
    pub fn current_segment_and_offset(&self) -> (r: (usize, i64))
        ensures
            r == (self.seg_idx, self.seg_pos),
    {
        (self.seg_idx, self.seg_pos)
    }

    /// Moves forward by `advance_amount_z`, rolling over into as many
    /// following segments as the distance covers.
    pub fn advance_z(&mut self, advance_amount_z: i64)
        requires
            old(self).wf(),
            advance_amount_z >= 0,
            old(self).seg_pos + advance_amount_z <= i64::MAX,
            old(self).seg_idx + (old(self).seg_pos + advance_amount_z) / (SEGMENT_LENGTH as int) <= usize::MAX,
        ensures
            final(self).wf(),
            track_z(final(self).seg_idx as int, final(self).seg_pos as int)
                == track_z(old(self).seg_idx as int, old(self).seg_pos as int) + advance_amount_z,
            final(self).seg_idx == old(self).seg_idx + (old(self).seg_pos + advance_amount_z) / (SEGMENT_LENGTH as int),
            final(self).z_offset == (old(self).z_offset + advance_amount_z) % (2 * COLOR_SWITCH_Z_INTERVAL as int),
            final(self).segs == old(self).segs,
            final(self).x_offset == old(self).x_offset,
            final(self).x_map == old(self).x_map,
            final(self).y_map == old(self).y_map,
            final(self).draw_height == old(self).draw_height,
    {
        let pos: i64 = self.seg_pos + advance_amount_z;
        let num_advance_segs: i64 = pos / SEGMENT_LENGTH;
        self.seg_idx = self.seg_idx + i128_as_index(num_advance_segs as i128);
        self.seg_pos = pos % SEGMENT_LENGTH;
        let ghost old_z_offset = self.z_offset;
        self.z_offset = (self.z_offset + advance_amount_z % (2 * COLOR_SWITCH_Z_INTERVAL)) % (2
            * COLOR_SWITCH_Z_INTERVAL);
        proof {
            let m = 2 * COLOR_SWITCH_Z_INTERVAL as int;
            vstd::arithmetic::div_mod::lemma_add_mod_noop(old_z_offset as int, advance_amount_z as int, m);
            vstd::arithmetic::div_mod::lemma_small_mod(old_z_offset as nat, m as nat);
            vstd::arithmetic::div_mod::lemma_mod_twice(advance_amount_z as int, m);
            vstd::arithmetic::div_mod::lemma_fundamental_div_mod(pos as int, SEGMENT_LENGTH as int);
        }
    }

    /// The segment `pos_offset` ahead of the racer; past the end of the
    /// list, the last segment.
    pub fn query_segment_at(&self, pos_offset: i64) -> (r: RoadSegment)
        requires
            self.wf(),
            pos_offset >= 0,
            self.seg_pos + pos_offset <= i64::MAX,
        ensures
            r == bounded_seg(self.segs@, self.seg_idx + (self.seg_pos + pos_offset) / (SEGMENT_LENGTH as int)),
    {
        let ahead: i64 = (self.seg_pos + pos_offset) / SEGMENT_LENGTH;
        let last: usize = self.segs.len() - 1;
        let idx: usize = if self.seg_idx >= last || ahead as u64 >= (last - self.seg_idx) as u64 {
            last
        } else {
            self.seg_idx + i128_as_index(ahead as i128)
        };
        get_bounded_seg(&self.segs, idx)
    }

    /// The curvature `pos_offset` ahead of the racer.
    pub fn get_seg_curvature(&self, pos_offset: i64) -> (r: i32)
        requires
            self.wf(),
            pos_offset >= 0,
            self.seg_pos + pos_offset <= i64::MAX,
        ensures
            r == bounded_seg(self.segs@, self.seg_idx + (self.seg_pos + pos_offset) / (SEGMENT_LENGTH as int)).curve,
    {
        self.query_segment_at(pos_offset).curve
    }
}

/// The segment at `idx`, clamped to the bounds of the list.
pub fn get_bounded_seg(segs: &Vec<RoadSegment>, idx: usize) -> (r: RoadSegment)
    requires
        segs.len() >= 1,
    ensures
        r == bounded_seg(segs@, idx as int),
{
    let actual_idx: usize = if idx < segs.len() - 1 {
        idx
    } else {
        segs.len() - 1
    };
    segs[actual_idx]
}

} // verus!
