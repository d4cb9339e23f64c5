//! World-to-screen placement of objects on the road.
use vstd::prelude::*;

use crate::depth::RoadStatic;
use crate::fixed::{abs, fixed_mul, fmul};
use crate::project::{converge, converge_x};
use crate::render::{PAVEMENT_WIDTH, RUMBLE_STRIP_WIDTH};
use crate::track::RoadDynamic;

verus! {

/// Where and how large to draw an object.
pub struct DrawParams {
    pub scale: i64,
    /// Screen X (fixed point) and the pixel line, counted from the bottom.
    pub draw_pos: (i128, usize),
}

/// Depth `world_z` falls in row `row`: at or past its depth, short of the
/// next row's.
pub open spec fn in_row(z: Seq<i64>, world_z: int, row: int) -> bool {
    0 <= row < z.len() - 1 && z[row] <= world_z < z[row + 1]
}

/// The first pixel line at or after `k` that draws row `row` or a farther one.
pub open spec fn first_line_from(y_map: Seq<usize>, row: int, k: int) -> int
    decreases y_map.len() - k,
{
    if k >= y_map.len() || k < 0 {
        y_map.len() as int
    } else if y_map[k] >= row {
        k
    } else {
        first_line_from(y_map, row, k + 1)
    }
}

/// The first pixel line that draws row `row` or a farther one.
pub open spec fn first_line(y_map: Seq<usize>, row: int) -> int {
    first_line_from(y_map, row, 0)
}

/// The number of depth rows at or before `world_z`.
fn rows_at_or_before(road_static: &RoadStatic, world_z: i64) -> (r: usize)
    requires
        road_static.wf(),
    ensures
        r <= road_static.rows(),
        forall|k: int| 0 <= k < r ==> road_static.z_map[k] <= world_z,
        forall|k: int| r <= k < road_static.rows() ==> road_static.z_map[k] > world_z,
{
    let mut lo: usize = 0;
    let mut hi: usize = road_static.z_map.len();
    while lo < hi
        invariant
            road_static.wf(),
            0 <= lo <= hi <= road_static.rows(),
            forall|k: int| 0 <= k < lo ==> road_static.z_map[k] <= world_z,
            forall|k: int| hi <= k < road_static.rows() ==> road_static.z_map[k] > world_z,
        decreases hi - lo,
    {
        let mid: usize = lo + (hi - lo) / 2;
        if road_static.z_map[mid] <= world_z {
            lo = mid + 1;
        } else {
            hi = mid;
        }
    }
    lo
}

/// The first pixel line that draws `row` or a farther one.
fn line_of_row(y_map: &Vec<usize>, row: usize) -> (r: usize)
    ensures
        r == first_line(y_map@, row as int),
        r <= y_map.len(),
{
    let mut k: usize = 0;
    while k < y_map.len() && y_map[k] < row
        invariant
            k <= y_map.len(),
            first_line_from(y_map@, row as int, k as int) == first_line(y_map@, row as int),
        decreases y_map.len() - k,
    {
        k = k + 1;
    }
    k
}

/// Places an object at world (`x_pos`, `z_pos`) on screen: `None` when it
/// is behind the camera, at or beyond the farthest row, or hidden behind a
/// hill crest (no drawn line reaches its row).
pub fn get_draw_params_on_road(road_static: &RoadStatic, road_dyn: &RoadDynamic, x_pos: i64, z_pos: i64) -> (r:
    Option<DrawParams>)
    requires
        road_static.wf(),
        road_dyn.tables_wf(road_static.rows()),
    ensures
        (z_pos < road_static.z_map[0] || z_pos >= road_static.z_map[road_static.rows() - 1]) ==> r.is_none(),
        z_pos <= 0 ==> r.is_none(),
        forall|row: int|
            0 <= row < road_static.rows() - 1 && z_pos == road_static.z_map[row] && first_line(road_dyn.y_map@, row)
                < road_dyn.draw_height ==> (r matches Some(p) && p.scale == #[trigger] road_static.scale_map[row]),
        forall|row: int|
            #[trigger] in_row(road_static.z_map@, z_pos as int, row) ==> {
                let y = first_line(road_dyn.y_map@, row);
                &&& r.is_some() <==> y < road_dyn.draw_height
                &&& r matches Some(p) ==> {
                    &&& p.scale == road_static.scale_map[row]
                    &&& p.draw_pos.0 == road_dyn.x_map[row] + converge(x_pos as int, row, road_static.rows() as int)
                    &&& p.draw_pos.1 == y
                }
            },
{
    let n: usize = road_static.z_map.len();
    proof {
        assert forall|row: int|
            0 <= row < road_static.rows() - 1 && z_pos == road_static.z_map[row] implies in_row(
            road_static.z_map@,
            z_pos as int,
            row,
        ) by {
            assert(road_static.z_map[row] < road_static.z_map[row + 1]);
        }
    }
    let search_result_idx: usize = rows_at_or_before(road_static, z_pos);
    if search_result_idx == 0 || search_result_idx >= n {
        return None;
    }
    let map_idx: usize = search_result_idx - 1;
    assert(in_row(road_static.z_map@, z_pos as int, map_idx as int));
    assert forall|row: int| #[trigger] in_row(road_static.z_map@, z_pos as int, row) implies row == map_idx by {
        if row < map_idx {
            assert(road_static.z_map[row + 1] <= road_static.z_map[map_idx as int]);
        } else if row > map_idx {
            assert(road_static.z_map[map_idx + 1] <= road_static.z_map[row]);
        }
    }
    let scale: i64 = road_static.scale_map[map_idx];
    let y_map_idx: usize = line_of_row(&road_dyn.y_map, map_idx);
    if y_map_idx >= road_dyn.draw_height {
        return None;
    }
    let x_offset: i128 = converge_x(x_pos as i128, map_idx, n);
    Some(DrawParams { scale, draw_pos: (road_dyn.x_map[map_idx] + x_offset, y_map_idx) })
}

/// Whether the racer is past the rumble strip at the nearest row.
pub fn is_offroad(road_static: &RoadStatic, road_dyn: &RoadDynamic) -> (r: bool)
    requires
        road_static.wf(),
    ensures
        r == (abs(road_dyn.x_offset as int) > fmul(
            (PAVEMENT_WIDTH + RUMBLE_STRIP_WIDTH) as int,
            road_static.scale_map[0] as int,
        )),
{
    let scale0: i64 = road_static.scale_map[0];
    assert(scale0 <= 0x1_0000_0000) by {
        vstd::arithmetic::div_mod::lemma_div_is_ordered_by_denominator(0x1_0000_0000, 1, road_static.z_map[0] as int);
    }
    let limit: i128 = fixed_mul((PAVEMENT_WIDTH + RUMBLE_STRIP_WIDTH) as i128, scale0 as i128);
    let x: i128 = road_dyn.x_offset as i128;
    let mag: i128 = if x < 0 {
        -x
    } else {
        x
    };
    mag > limit
}

} // verus!
