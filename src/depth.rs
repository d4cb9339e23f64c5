//! The static depth and scale tables, reverse-projected from the camera.
use vstd::prelude::*;

use crate::convert::index_as_i128;
use crate::fixed::ONE;
use crate::render::RoadColors;

verus! {

/// Height of the play field, in pixels.
pub const FIELD_HEIGHT: u32 = 240;

/// Width of the play field, in pixels.
pub const FIELD_WIDTH: u32 = 320;

/// The number of pixel lines the depth tables stretch for, from the bottom of the screen.
pub const ROAD_DISTANCE: usize = 110;

/// The distance from the bottom of the screen at which the road fully converges (113.4).
pub const CONVERGE_DISTANCE: i32 = 7431782;

/// How high the camera is off the ground (75.0).
pub const CAMERA_HEIGHT: i32 = 75 * 65536;

/// The largest number of rows a depth table can have.
pub const MAX_ROWS: usize = 32768;

/// An upper bound on every depth a table can hold.
pub const MAX_DEPTH: i64 = 0x8000_0000_0000;

/// Screen row `i` measured from the convergence line, in fixed point.
pub open spec fn row_denom(field_height: int, converge_distance: int, i: int) -> int {
    (field_height * ONE - i * ONE) - (field_height * ONE - converge_distance)
}

/// World depth of screen row `i`: `camera_height / (screen_y - converge_y)`.
pub open spec fn row_depth(field_height: int, camera_height: int, converge_distance: int, i: int) -> int {
    (camera_height * ONE) / row_denom(field_height, converge_distance, i)
}

/// Scale of objects at depth `d`: `1 / d`.
pub open spec fn scale_of(d: int) -> int {
    (ONE * ONE) / d
}

/// Whether a camera configuration gives a usable depth table of `n` rows:
/// every row lies below the convergence line, and the depths it gives are
/// positive, strictly increasing, with strictly decreasing scales.
pub open spec fn config_ok(field_height: int, camera_height: int, converge_distance: int, n: int) -> bool {
    &&& n >= 1
    &&& camera_height > 0
    &&& forall|i: int| 0 <= i < n ==> row_denom(field_height, converge_distance, i) > 0
    &&& row_depth(field_height, camera_height, converge_distance, 0) > 0
    &&& forall|i: int|
        0 <= i < n - 1 ==> #[trigger] row_depth(field_height, camera_height, converge_distance, i)
            < row_depth(field_height, camera_height, converge_distance, i + 1)
    &&& forall|i: int|
        0 <= i < n - 1 ==> scale_of(#[trigger] row_depth(field_height, camera_height, converge_distance, i))
            > scale_of(row_depth(field_height, camera_height, converge_distance, i + 1))
}

/// The tables every frame reads and nobody changes.
pub struct RoadStatic {
    /// World depth of each row, nearest first.
    pub z_map: Vec<i64>,
    /// Scale of objects at each row's depth.
    pub scale_map: Vec<i64>,
    pub colors: RoadColors,
}

impl RoadStatic {
    /// The tables have the same length, depths are positive and strictly
    /// increasing, scales are `1 / depth` and strictly decreasing.
    pub open spec fn wf(&self) -> bool {
        &&& self.z_map.len() == self.scale_map.len()
        &&& 1 <= self.z_map.len() <= MAX_ROWS
        &&& 0 < self.z_map[0]
        &&& self.z_map[self.z_map.len() - 1] <= MAX_DEPTH
        &&& forall|i: int| 0 <= i < self.z_map.len() ==> self.scale_map[i] == scale_of(self.z_map[i] as int)
        &&& forall|i: int, j: int|
            0 <= i < j < self.z_map.len() ==> self.z_map[i] < self.z_map[j] && self.scale_map[i]
                > self.scale_map[j]
    }

    pub open spec fn rows(&self) -> nat {
        self.z_map@.len()
    }
}

/// Builds the depth and scale tables for `num_rows` rows, counted from the
/// bottom of a field `field_height` pixels high; `None` when the
/// configuration gives no usable table.
pub fn build_road_static(
    field_height: u32,
    camera_height: i32,
    converge_distance: i32,
    num_rows: usize,
    colors: RoadColors,
) -> (r: Option<RoadStatic>)
    ensures
        r.is_some() <==> config_ok(field_height as int, camera_height as int, converge_distance as int, num_rows as int),
        r matches Some(t) ==> {
            &&& t.wf()
            &&& t.rows() == num_rows
            &&& t.colors == colors
            &&& forall|i: int| 0 <= i < num_rows ==> t.z_map[i] == row_depth(field_height as int, camera_height as int, converge_distance as int, i)
        },
{
    let ghost fh = field_height as int;
    let ghost cam = camera_height as int;
    let ghost cd = converge_distance as int;
    if num_rows == 0 || camera_height <= 0 || converge_distance <= 0 {
        proof {
            if num_rows > 0 && camera_height > 0 {
                assert(row_denom(fh, cd, 0) == cd);
            }
        }
        return None;
    }
    let fh_fixed: i128 = (field_height as i128) * 65536;
    let converge_y: i128 = fh_fixed - converge_distance as i128;
    let mut z_map: Vec<i64> = Vec::new();
    let mut scale_map: Vec<i64> = Vec::new();
    let mut i: usize = 0;
    while i < num_rows
        invariant
            0 <= i <= num_rows,
            cam > 0,
            0 < cd < 0x8000_0000,
            cam == camera_height,
            cd == converge_distance,
            fh == field_height,
            camera_height > 0,
            fh_fixed == fh * ONE,
            converge_y == fh * ONE - cd,
            z_map.len() == i,
            scale_map.len() == i,
            i <= MAX_ROWS,
            forall|k: int| 0 <= k < i ==> row_denom(fh, cd, k) > 0,
            forall|k: int| 0 <= k < i ==> z_map[k] == row_depth(fh, cam, cd, k),
            forall|k: int| 0 <= k < i ==> 0 < #[trigger] z_map[k] <= MAX_DEPTH,
            forall|k: int| 0 <= k < i ==> scale_map[k] == scale_of(z_map[k] as int),
            forall|k: int| 0 <= k < i - 1 ==> #[trigger] row_depth(fh, cam, cd, k) < row_depth(fh, cam, cd, k + 1),
            forall|k: int|
                0 <= k < i - 1 ==> scale_of(#[trigger] row_depth(fh, cam, cd, k)) > scale_of(row_depth(fh, cam, cd, k + 1)),
            forall|k: int, j: int| 0 <= k < j < i ==> z_map[k] < z_map[j] && scale_map[k] > scale_map[j],
        decreases num_rows - i,
    {
        if i >= MAX_ROWS {
            assert(row_denom(fh, cd, i as int) <= 0);
            return None;
        }
        let screen_y: i128 = fh_fixed - index_as_i128(i) * 65536;
        let denom: i128 = screen_y - converge_y;
        assert(denom == row_denom(fh, cd, i as int));
        if denom <= 0 {
            assert(row_denom(fh, cd, i as int) <= 0);
            return None;
        }
        let numer: u128 = (camera_height as u128) * 65536;
        let depth_u: u128 = numer / (denom as u128);
        proof {
            vstd::arithmetic::div_mod::lemma_div_is_ordered_by_denominator(numer as int, 1, denom as int);
            assert(numer as int / 1 == numer as int);
        }
        assert(depth_u == row_depth(fh, cam, cd, i as int));
        if depth_u == 0 {
            proof {
                if i > 0 {
                    assert(row_depth(fh, cam, cd, i - 1) >= row_depth(fh, cam, cd, (i - 1) + 1));
                }
            }
            return None;
        }
        let depth: i64 = depth_u as i64;
        let scale: i64 = (0x1_0000_0000u64 / (depth as u64)) as i64;
        if i > 0 {
            let prev_depth = z_map[i - 1];
            let prev_scale = scale_map[i - 1];
            if depth <= prev_depth || scale >= prev_scale {
                assert(row_depth(fh, cam, cd, i - 1) == prev_depth);
                assert(row_depth(fh, cam, cd, (i - 1) + 1) == depth);
                return None;
            }
        }
        z_map.push(depth);
        scale_map.push(scale);
        i = i + 1;
    }
    assert(z_map[0] > 0);
    assert(row_depth(fh, cam, cd, 0) > 0);
    Some(RoadStatic { z_map, scale_map, colors })
}

} // verus!
