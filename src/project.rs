//! The table projector: integrates segment curvature and hills over the
//! depth rows, and maps on-screen lines to depth rows.
use vstd::prelude::*;

use crate::convert::{i128_as_index, index_as_i128};
use crate::depth::{RoadStatic, FIELD_WIDTH, MAX_DEPTH, MAX_ROWS};
use crate::fixed::{abs, div_toward_zero, fixed_mul, fmul, lemma_tdiv_bound, tdiv, ONE};
use crate::track::{bounded_seg, RoadDynamic, RoadSegment, MAX_ROAD_DRAW_HEIGHT, SEGMENT_LENGTH, XMAP_BOUND};

verus! {

/// The smallest advancement through the depth rows per pixel line, so that
/// drawing always moves forward in the tables.
pub const ADVANCE_FLOOR: i128 = 1;

/// A bound on every value the quadratic projection produces.
pub const QUAD_BOUND: i128 = 0x4000_0000_0000_0000_0000_0000;

/// A bound on the initial value of a projection.
pub const INIT_BOUND: i128 = 0x4000_0000_0000_0000;

/// The screen-center X, where a straight road runs.
pub const ROAD_CENTER_X: i128 = (FIELD_WIDTH as i128) * 32768;

/// The road warps for curves or hills according to a quadratic function of
/// the segment's value.
#[derive(Clone, Copy, Debug, PartialEq, Eq, Structural)]
pub struct QuadraticCoefficients {
    pub x2: i64,
    pub x: i64,
}

/// Coefficients of at most one in magnitude.
pub open spec fn coeff_ok(c: QuadraticCoefficients) -> bool {
    abs(c.x2 as int) <= ONE && abs(c.x as int) <= ONE
}

/// Curvature integrates purely: `{x2: 1.0, x: 0.0}`.
pub open spec fn curve_coeff_spec() -> QuadraticCoefficients {
    QuadraticCoefficients { x2: 65536, x: 0 }
}

/// Hills respond half by integration, half at once: `{x2: 0.5, x: 0.5}`.
pub open spec fn hill_coeff_spec() -> QuadraticCoefficients {
    QuadraticCoefficients { x2: 32768, x: 32768 }
}

pub fn curve_coeff() -> (r: QuadraticCoefficients)
    ensures
        r == curve_coeff_spec(),
{
    QuadraticCoefficients { x2: 65536, x: 0 }
}

pub fn hill_coeff() -> (r: QuadraticCoefficients)
    ensures
        r == hill_coeff_spec(),
{
    QuadraticCoefficients { x2: 32768, x: 32768 }
}

/// Which value of a segment a projection reads.
#[derive(Clone, Copy, Debug, PartialEq, Eq, Structural)]
pub enum RoadParam {
    Curve,
    Hill,
}

pub open spec fn param_value(seg: RoadSegment, which: RoadParam) -> int {
    match which {
        RoadParam::Curve => seg.curve as int,
        RoadParam::Hill => seg.hill as int,
    }
}

/// The depth covered by row `i`: nothing for the first row.
pub open spec fn row_dz(z: Seq<i64>, i: int) -> int {
    if i == 0 {
        0
    } else {
        z[i] - z[i - 1]
    }
}

/// The number of segment boundaries passed to bring an offset back into
/// `(0, SEGMENT_LENGTH]`.
pub open spec fn crossings(pos: int) -> int {
    if pos > SEGMENT_LENGTH {
        (pos - 1) / (SEGMENT_LENGTH as int)
    } else {
        0
    }
}

/// The projection's state (segment index, offset in segment, rate, value)
/// after the first `i` rows.
pub open spec fn proj_state(
    c: QuadraticCoefficients,
    init: int,
    which: RoadParam,
    z: Seq<i64>,
    segs: Seq<RoadSegment>,
    idx0: int,
    pos0: int,
    i: nat,
) -> (int, int, int, int)
    decreases i,
{
    if i == 0 {
        (idx0, pos0, 0, init)
    } else {
        let s = proj_state(c, init, which, z, segs, idx0, pos0, (i - 1) as nat);
        let dz = row_dz(z, i - 1);
        let pos = s.1 + dz;
        let k = crossings(pos);
        let idx = s.0 + k;
        let p = param_value(bounded_seg(segs, idx), which);
        let delta = s.2 + fmul(fmul(p, c.x2 as int), dz);
        (idx, pos - k * SEGMENT_LENGTH, delta, s.3 + delta)
    }
}

/// The projected value at row `i`.
pub open spec fn quad_out(
    c: QuadraticCoefficients,
    init: int,
    which: RoadParam,
    z: Seq<i64>,
    segs: Seq<RoadSegment>,
    idx0: int,
    pos0: int,
    i: int,
) -> int {
    let s = proj_state(c, init, which, z, segs, idx0, pos0, (i + 1) as nat);
    s.3 + fmul(param_value(bounded_seg(segs, s.0), which), c.x as int)
}

/// `|fmul(a, b)| * ONE <= bound_a * bound_b`.
pub proof fn lemma_fmul_bound(a: int, b: int, bound_a: int, bound_b: int)
    requires
        abs(a) <= bound_a,
        abs(b) <= bound_b,
    ensures
        abs(fmul(a, b)) * 65536 <= bound_a * bound_b,
{
    lemma_tdiv_bound(a * b, ONE as int);
    assert(abs(a * b) <= bound_a * bound_b) by (nonlinear_arith)
        requires
            abs(a) <= bound_a,
            abs(b) <= bound_b,
    ;
}

/// Moves an in-segment offset forward by `delta_z`, stepping the segment
/// index (clamped to `last`) over every boundary crossed.
fn step_segment(pos: i64, delta_z: i64, cidx: usize, last: usize) -> (r: (i64, usize))
    requires
        0 <= pos <= SEGMENT_LENGTH,
        0 <= delta_z <= MAX_DEPTH,
        cidx <= last,
    ensures
        r.0 == (pos + delta_z) - crossings(pos + delta_z) * SEGMENT_LENGTH,
        0 <= r.0 <= SEGMENT_LENGTH,
        r.1 == (if cidx + crossings(pos + delta_z) < last {
            cidx + crossings(pos + delta_z)
        } else {
            last as int
        }),
{
    let p: i64 = pos + delta_z;
    if p > SEGMENT_LENGTH {
        let k: i64 = (p - 1) / SEGMENT_LENGTH;
        proof {
            vstd::arithmetic::div_mod::lemma_fundamental_div_mod((p - 1) as int, SEGMENT_LENGTH as int);
            vstd::arithmetic::div_mod::lemma_mod_pos_bound((p - 1) as int, SEGMENT_LENGTH as int);
            vstd::arithmetic::mul::lemma_mul_is_commutative(k as int, SEGMENT_LENGTH as int);
        }
        let idx: usize = if k as u64 >= (last - cidx) as u64 {
            last
        } else {
            cidx + i128_as_index(k as i128)
        };
        (p - k * SEGMENT_LENGTH, idx)
    } else {
        (p, cidx)
    }
}

/// One row of the quadratic: the new rate, the new value and the row's output.
fn step_quadratic(
    coeff: QuadraticCoefficients,
    parameter: i128,
    delta_z: i64,
    delta_value: i128,
    cur_value: i128,
    rows_done: usize,
) -> (r: (i128, i128, i128))
    requires
        coeff_ok(coeff),
        abs(parameter as int) <= 0x8000_0000,
        0 <= delta_z <= MAX_DEPTH,
        rows_done < MAX_ROWS,
        abs(delta_value as int) <= rows_done * 0x4000_0000_0000_0000,
        abs(cur_value as int) <= INIT_BOUND + rows_done * 0x2000_0000_0000_0000_0000,
    ensures
        r.0 == delta_value + fmul(fmul(parameter as int, coeff.x2 as int), delta_z as int),
        r.1 == cur_value + r.0,
        r.2 == r.1 + fmul(parameter as int, coeff.x as int),
        abs(r.0 as int) <= (rows_done + 1) * 0x4000_0000_0000_0000,
        abs(r.1 as int) <= INIT_BOUND + (rows_done + 1) * 0x2000_0000_0000_0000_0000,
        abs(r.2 as int) <= QUAD_BOUND,
{
    let rate: i128 = fixed_mul(parameter, coeff.x2 as i128);
    proof {
        lemma_fmul_bound(parameter as int, coeff.x2 as int, 0x8000_0000, 65536);
    }
    let step: i128 = fixed_mul(rate, delta_z as i128);
    proof {
        lemma_fmul_bound(rate as int, delta_z as int, 0x8000_0000, MAX_DEPTH as int);
    }
    let new_delta: i128 = delta_value + step;
    let new_value: i128 = cur_value + new_delta;
    let offset: i128 = fixed_mul(parameter, coeff.x as i128);
    proof {
        lemma_fmul_bound(parameter as int, coeff.x as int, 0x8000_0000, 65536);
    }
    (new_delta, new_value, new_value + offset)
}

/// Walks the depth rows from the position (`seg_idx`, `seg_pos`), and for
/// each row accumulates the active segment's value through the quadratic
/// `coeff`, writing the result to `out_map`.
pub fn map_road_quadratic(
    coeff: QuadraticCoefficients,
    initial_value: i128,
    which: RoadParam,
    road_static: &RoadStatic,
    segments: &Vec<RoadSegment>,
    seg_idx: usize,
    seg_pos: i64,
    out_map: &mut Vec<i128>,
)
    requires
        road_static.wf(),
        segments.len() >= 1,
        0 <= seg_pos <= SEGMENT_LENGTH,
        coeff_ok(coeff),
        abs(initial_value as int) <= INIT_BOUND,
        old(out_map).len() == road_static.rows(),
    ensures
        final(out_map).len() == road_static.rows(),
        forall|i: int|
            0 <= i < road_static.rows() ==> #[trigger] final(out_map)[i] == quad_out(
                coeff,
                initial_value as int,
                which,
                road_static.z_map@,
                segments@,
                seg_idx as int,
                seg_pos as int,
                i,
            ),
        forall|i: int| 0 <= i < road_static.rows() ==> abs(#[trigger] final(out_map)[i] as int) <= QUAD_BOUND,
{
    let n: usize = road_static.z_map.len();
    let last: usize = segments.len() - 1;
    let ghost z = road_static.z_map@;
    let ghost segs = segments@;
    let ghost init = initial_value as int;
    let mut cidx: usize = if seg_idx < last {
        seg_idx
    } else {
        last
    };
    let mut pos: i64 = seg_pos;
    let mut delta_value: i128 = 0;
    let mut cur_value: i128 = initial_value;
    let mut last_z: i64 = road_static.z_map[0];
    let mut i: usize = 0;
    while i < n
        invariant
            road_static.wf(),
            n == road_static.rows(),
            z == road_static.z_map@,
            segs == segments@,
            last == segs.len() - 1,
            coeff_ok(coeff),
            init == initial_value,
            abs(init) <= INIT_BOUND,
            out_map.len() == n,
            i <= n,
            ({
                let s = proj_state(coeff, init, which, z, segs, seg_idx as int, seg_pos as int, i as nat);
                &&& s.0 >= seg_idx
                &&& cidx == (if s.0 < last { s.0 } else { last as int })
                &&& pos == s.1
                &&& delta_value == s.2
                &&& cur_value == s.3
            }),
            0 <= pos <= SEGMENT_LENGTH,
            last_z == (if i == 0 { z[0] } else { z[i - 1] }),
            abs(delta_value as int) <= i * 0x4000_0000_0000_0000,
            abs(cur_value as int) <= INIT_BOUND + i * 0x2000_0000_0000_0000_0000,
            forall|k: int|
                0 <= k < i ==> #[trigger] out_map[k] == quad_out(
                    coeff,
                    init,
                    which,
                    z,
                    segs,
                    seg_idx as int,
                    seg_pos as int,
                    k,
                ),
            forall|k: int| 0 <= k < i ==> abs(#[trigger] out_map[k] as int) <= QUAD_BOUND,
        decreases n - i,
    {
        let ghost s = proj_state(coeff, init, which, z, segs, seg_idx as int, seg_pos as int, i as nat);
        let cur_z: i64 = road_static.z_map[i];
        assert(0 < z[0] <= last_z <= cur_z <= z[n - 1] <= MAX_DEPTH) by {
            if i > 0 {
                assert(z[0] <= z[i - 1]);
                assert(z[i - 1] < z[i as int]);
            }
            if i < n - 1 {
                assert(z[i as int] < z[n - 1]);
            }
        }
        let delta_z: i64 = cur_z - last_z;
        assert(delta_z == row_dz(z, i as int));
        let (new_pos, new_cidx) = step_segment(pos, delta_z, cidx, last);
        pos = new_pos;
        cidx = new_cidx;
        let ghost s1 = proj_state(coeff, init, which, z, segs, seg_idx as int, seg_pos as int, (i + 1) as nat);
        assert(s1.0 == s.0 + crossings(s.1 + row_dz(z, i as int)));
        let seg: RoadSegment = segments[cidx];
        assert(seg == bounded_seg(segs, s1.0));
        let parameter: i128 = match which {
            RoadParam::Curve => seg.curve as i128,
            RoadParam::Hill => seg.hill as i128,
        };
        assert(parameter == param_value(bounded_seg(segs, s1.0), which));
        let (new_delta, new_value, out) = step_quadratic(coeff, parameter, delta_z, delta_value, cur_value, i);
        delta_value = new_delta;
        cur_value = new_value;
        out_map[i] = out;
        last_z = cur_z;
        i = i + 1;
    }
}

/// The convergence toward the vanishing point: `x * (1 - i / n)`.
pub open spec fn converge(x: int, i: int, n: int) -> int {
    tdiv(x * (n - i), n)
}

/// Scales `x_pos` down linearly with the depth row, to nothing past the
/// last of `rows` rows.
pub fn converge_x(x_pos: i128, road_map_idx: usize, rows: usize) -> (r: i128)
    requires
        1 <= rows <= MAX_ROWS,
        road_map_idx <= rows,
        abs(x_pos as int) <= XMAP_BOUND,
    ensures
        r == converge(x_pos as int, road_map_idx as int, rows as int),
        abs(r as int) <= abs(x_pos as int),
{
    let remaining: i128 = index_as_i128(rows - road_map_idx);
    proof {
        assert(abs(x_pos as int) * remaining <= XMAP_BOUND * MAX_ROWS) by (nonlinear_arith)
            requires
                abs(x_pos as int) <= XMAP_BOUND,
                0 <= remaining <= MAX_ROWS,
        ;
        assert(abs(x_pos * remaining) == abs(x_pos as int) * remaining) by (nonlinear_arith)
            requires
                remaining >= 0,
        ;
        lemma_tdiv_bound(x_pos * remaining, rows as int);
        let q = tdiv(x_pos * remaining, rows as int);
        assert(abs(q) <= abs(x_pos as int)) by (nonlinear_arith)
            requires
                abs(q) * rows <= abs(x_pos as int) * remaining,
                0 <= remaining <= rows,
                rows >= 1,
                abs(x_pos as int) >= 0,
        ;
    }
    div_toward_zero(x_pos * remaining, index_as_i128(rows))
}

/// The road center X at row `i`: the integrated curvature, plus the
/// racer's offset converging toward the vanishing point.
pub open spec fn road_x(
    z: Seq<i64>,
    segs: Seq<RoadSegment>,
    seg_idx: int,
    seg_pos: int,
    x_offset: int,
    i: int,
) -> int {
    quad_out(curve_coeff_spec(), ROAD_CENTER_X as int, RoadParam::Curve, z, segs, seg_idx, seg_pos, i)
        + converge(x_offset, i, z.len() as int)
}

/// Recomputes the road's X table from the segments' curvature and the
/// racer's position and offset.
pub fn update_road_curvature(road_static: &RoadStatic, road_dyn: &mut RoadDynamic)
    requires
        road_static.wf(),
        old(road_dyn).wf(),
        old(road_dyn).x_map.len() == road_static.rows(),
    ensures
        final(road_dyn).x_map.len() == road_static.rows(),
        forall|i: int|
            0 <= i < road_static.rows() ==> #[trigger] final(road_dyn).x_map[i] == road_x(
                road_static.z_map@,
                old(road_dyn).segs@,
                old(road_dyn).seg_idx as int,
                old(road_dyn).seg_pos as int,
                old(road_dyn).x_offset as int,
                i,
            ),
        forall|i: int| 0 <= i < road_static.rows() ==> abs(#[trigger] final(road_dyn).x_map[i] as int) <= XMAP_BOUND,
        final(road_dyn).segs == old(road_dyn).segs,
        final(road_dyn).seg_idx == old(road_dyn).seg_idx,
        final(road_dyn).seg_pos == old(road_dyn).seg_pos,
        final(road_dyn).x_offset == old(road_dyn).x_offset,
        final(road_dyn).z_offset == old(road_dyn).z_offset,
        final(road_dyn).y_map == old(road_dyn).y_map,
        final(road_dyn).draw_height == old(road_dyn).draw_height,
{
    let ghost d0 = *road_dyn;
    let coeff = curve_coeff();
    map_road_quadratic(
        coeff,
        ROAD_CENTER_X,
        RoadParam::Curve,
        road_static,
        &road_dyn.segs,
        road_dyn.seg_idx,
        road_dyn.seg_pos,
        &mut road_dyn.x_map,
    );
    let ghost d1 = *road_dyn;
    let n: usize = road_static.z_map.len();
    let mut i: usize = 0;
    while i < n
        invariant
            road_static.wf(),
            n == road_static.rows(),
            i <= n,
            road_dyn.x_map.len() == n,
            road_dyn.segs == d0.segs,
            road_dyn.seg_idx == d0.seg_idx,
            road_dyn.seg_pos == d0.seg_pos,
            road_dyn.x_offset == d0.x_offset,
            road_dyn.z_offset == d0.z_offset,
            road_dyn.y_map == d0.y_map,
            road_dyn.draw_height == d0.draw_height,
            forall|k: int|
                i <= k < n ==> #[trigger] road_dyn.x_map[k] == quad_out(
                    curve_coeff_spec(),
                    ROAD_CENTER_X as int,
                    RoadParam::Curve,
                    road_static.z_map@,
                    d0.segs@,
                    d0.seg_idx as int,
                    d0.seg_pos as int,
                    k,
                ),
            forall|k: int| i <= k < n ==> abs(#[trigger] road_dyn.x_map[k] as int) <= QUAD_BOUND,
            forall|k: int|
                0 <= k < i ==> #[trigger] road_dyn.x_map[k] == road_x(
                    road_static.z_map@,
                    d0.segs@,
                    d0.seg_idx as int,
                    d0.seg_pos as int,
                    d0.x_offset as int,
                    k,
                ),
            forall|k: int| 0 <= k < i ==> abs(#[trigger] road_dyn.x_map[k] as int) <= XMAP_BOUND,
        decreases n - i,
    {
        let c: i128 = converge_x(road_dyn.x_offset as i128, i, n);
        let x: i128 = road_dyn.x_map[i] + c;
        road_dyn.x_map[i] = x;
        i = i + 1;
    }
}

/// The advancement through the depth rows per pixel line at row `i`: the
/// hill projection, never below the floor.
pub open spec fn advance_at(z: Seq<i64>, segs: Seq<RoadSegment>, seg_idx: int, seg_pos: int, i: int) -> int {
    let v = quad_out(hill_coeff_spec(), ONE as int, RoadParam::Hill, z, segs, seg_idx, seg_pos, i);
    if v < ADVANCE_FLOOR {
        ADVANCE_FLOOR as int
    } else {
        v
    }
}

/// The advancement table of a depth table `z` from the position
/// (`seg_idx`, `seg_pos`).
pub open spec fn advance_table(z: Seq<i64>, segs: Seq<RoadSegment>, seg_idx: int, seg_pos: int) -> Seq<i128> {
    Seq::new(z.len(), |i: int| advance_at(z, segs, seg_idx, seg_pos, i) as i128)
}

/// The fractional depth row reached after `k` pixel lines, each advancing
/// by the advancement of the row it stands on.
pub open spec fn scan_pos(adv: Seq<i128>, n: int, k: nat) -> int
    decreases k,
{
    if k == 0 {
        0
    } else {
        let p = scan_pos(adv, n, (k - 1) as nat);
        if p / (ONE as int) < n {
            p + adv[p / (ONE as int)]
        } else {
            p
        }
    }
}

/// The depth row drawn on pixel line `k`.
pub open spec fn scan_row(adv: Seq<i128>, n: int, k: int) -> int {
    scan_pos(adv, n, k as nat) / (ONE as int)
}

/// `y_map` and the draw height `dh` are the line-to-row map of the
/// advancement table `adv` over `n` rows: each line below `dh` draws the
/// row the advancement has reached, `dh` is the first line whose row is past
/// the table, and the lines from `dh` on hold `n`.
pub open spec fn y_map_matches(y_map: Seq<usize>, dh: int, adv: Seq<i128>, n: int) -> bool {
    &&& y_map.len() == MAX_ROAD_DRAW_HEIGHT
    &&& 0 <= dh <= MAX_ROAD_DRAW_HEIGHT
    &&& forall|k: int| 0 <= k < dh ==> #[trigger] scan_row(adv, n, k) < n
    &&& dh < MAX_ROAD_DRAW_HEIGHT ==> scan_row(adv, n, dh) >= n
    &&& forall|k: int|
        0 <= k < MAX_ROAD_DRAW_HEIGHT ==> #[trigger] y_map[k] == (if k < dh {
            scan_row(adv, n, k)
        } else {
            n
        })
}

/// The tables of `dy` are the projection of its track and position over
/// the depth table of `st`.
pub open spec fn projected(st: &RoadStatic, dy: &RoadDynamic) -> bool {
    &&& dy.x_map.len() == st.rows()
    &&& forall|i: int|
        0 <= i < st.rows() ==> #[trigger] dy.x_map[i] == road_x(
            st.z_map@,
            dy.segs@,
            dy.seg_idx as int,
            dy.seg_pos as int,
            dy.x_offset as int,
            i,
        )
    &&& y_map_matches(
        dy.y_map@,
        dy.draw_height as int,
        advance_table(st.z_map@, dy.segs@, dy.seg_idx as int, dy.seg_pos as int),
        st.rows() as int,
    )
}

/// Scratch space for the per-row advancement table.
pub struct HillScratchPad {
    pub y_advancement_map: Vec<i128>,
}

impl HillScratchPad {
    /// An advancement table of `rows` rows, one row per line.
    pub fn new(rows: usize) -> (r: HillScratchPad)
        ensures
            r.y_advancement_map.len() == rows,
            forall|i: int| 0 <= i < rows ==> #[trigger] r.y_advancement_map[i] == ONE,
    {
        HillScratchPad { y_advancement_map: vec![65536i128; rows] }
    }
}

/// Recomputes the advancement table from the segments' hills, and from it
/// which depth row each on-screen line draws and how many lines are road.
pub fn update_road_hills(road_static: &RoadStatic, road_dyn: &mut RoadDynamic, scratch_pad: &mut HillScratchPad)
    requires
        road_static.wf(),
        old(road_dyn).wf(),
        old(road_dyn).y_map.len() == MAX_ROAD_DRAW_HEIGHT,
        old(scratch_pad).y_advancement_map.len() == road_static.rows(),
    ensures
        final(scratch_pad).y_advancement_map.len() == road_static.rows(),
        forall|i: int|
            0 <= i < road_static.rows() ==> #[trigger] final(scratch_pad).y_advancement_map[i] == advance_at(
                road_static.z_map@,
                old(road_dyn).segs@,
                old(road_dyn).seg_idx as int,
                old(road_dyn).seg_pos as int,
                i,
            ),
        forall|i: int| 0 <= i < road_static.rows() ==> #[trigger] final(scratch_pad).y_advancement_map[i] > 0,
        final(scratch_pad).y_advancement_map@ == advance_table(
            road_static.z_map@,
            old(road_dyn).segs@,
            old(road_dyn).seg_idx as int,
            old(road_dyn).seg_pos as int,
        ),
        final(road_dyn).y_map.len() == MAX_ROAD_DRAW_HEIGHT,
        final(road_dyn).draw_height <= MAX_ROAD_DRAW_HEIGHT,
        forall|k: int|
            0 <= k < final(road_dyn).draw_height ==> #[trigger] scan_row(
                final(scratch_pad).y_advancement_map@,
                road_static.rows() as int,
                k,
            ) < road_static.rows(),
        final(road_dyn).draw_height < MAX_ROAD_DRAW_HEIGHT ==> scan_row(
            final(scratch_pad).y_advancement_map@,
            road_static.rows() as int,
            final(road_dyn).draw_height as int,
        ) >= road_static.rows(),
        forall|k: int|
            0 <= k < MAX_ROAD_DRAW_HEIGHT ==> #[trigger] final(road_dyn).y_map[k] == (if k < final(road_dyn).draw_height {
                scan_row(final(scratch_pad).y_advancement_map@, road_static.rows() as int, k)
            } else {
                road_static.rows() as int
            }),
        final(road_dyn).segs == old(road_dyn).segs,
        final(road_dyn).seg_idx == old(road_dyn).seg_idx,
        final(road_dyn).seg_pos == old(road_dyn).seg_pos,
        final(road_dyn).x_offset == old(road_dyn).x_offset,
        final(road_dyn).z_offset == old(road_dyn).z_offset,
        final(road_dyn).x_map == old(road_dyn).x_map,
{
    let ghost d0 = *road_dyn;
    let ghost z = road_static.z_map@;
    let coeff = hill_coeff();
    map_road_quadratic(
        coeff,
        65536,
        RoadParam::Hill,
        road_static,
        &road_dyn.segs,
        road_dyn.seg_idx,
        road_dyn.seg_pos,
        &mut scratch_pad.y_advancement_map,
    );
    let n: usize = road_static.z_map.len();
    let mut i: usize = 0;
    while i < n
        invariant
            road_static.wf(),
            n == road_static.rows(),
            z == road_static.z_map@,
            i <= n,
            scratch_pad.y_advancement_map.len() == n,
            forall|k: int|
                i <= k < n ==> #[trigger] scratch_pad.y_advancement_map[k] == quad_out(
                    hill_coeff_spec(),
                    ONE as int,
                    RoadParam::Hill,
                    z,
                    d0.segs@,
                    d0.seg_idx as int,
                    d0.seg_pos as int,
                    k,
                ),
            forall|k: int| 0 <= k < n ==> abs(#[trigger] scratch_pad.y_advancement_map[k] as int) <= QUAD_BOUND,
            forall|k: int|
                0 <= k < i ==> #[trigger] scratch_pad.y_advancement_map[k] == advance_at(
                    z,
                    d0.segs@,
                    d0.seg_idx as int,
                    d0.seg_pos as int,
                    k,
                ),
        decreases n - i,
    {
        if scratch_pad.y_advancement_map[i] < ADVANCE_FLOOR {
            scratch_pad.y_advancement_map[i] = ADVANCE_FLOOR;
        }
        i = i + 1;
    }
    let ghost adv = scratch_pad.y_advancement_map@;
    assert(adv =~= advance_table(z, d0.segs@, d0.seg_idx as int, d0.seg_pos as int));
    let mut draw_height: usize = MAX_ROAD_DRAW_HEIGHT;
    let mut flt_map_idx: i128 = 0;
    let mut cur_line: usize = 0;
    while cur_line < MAX_ROAD_DRAW_HEIGHT
        invariant_except_break
            draw_height == MAX_ROAD_DRAW_HEIGHT,
        invariant
            n == road_static.rows(),
            1 <= n <= MAX_ROWS,
            adv == scratch_pad.y_advancement_map@,
            adv.len() == n,
            forall|k: int| 0 <= k < n ==> 1 <= #[trigger] adv[k] <= QUAD_BOUND,
            cur_line <= MAX_ROAD_DRAW_HEIGHT,
            road_dyn.y_map.len() == MAX_ROAD_DRAW_HEIGHT,
            road_dyn.segs == d0.segs,
            road_dyn.seg_idx == d0.seg_idx,
            road_dyn.seg_pos == d0.seg_pos,
            road_dyn.x_offset == d0.x_offset,
            road_dyn.z_offset == d0.z_offset,
            road_dyn.x_map == d0.x_map,
            flt_map_idx == scan_pos(adv, n as int, cur_line as nat),
            0 <= flt_map_idx <= 0x8000_0000 + QUAD_BOUND,
            forall|k: int| 0 <= k < cur_line ==> #[trigger] scan_row(adv, n as int, k) < n,
            forall|k: int| 0 <= k < cur_line ==> #[trigger] road_dyn.y_map[k] == scan_row(adv, n as int, k),
        ensures
            draw_height <= MAX_ROAD_DRAW_HEIGHT,
            draw_height == cur_line,
            forall|k: int| 0 <= k < draw_height ==> #[trigger] road_dyn.y_map[k] == scan_row(adv, n as int, k),
            forall|k: int| 0 <= k < draw_height ==> #[trigger] scan_row(adv, n as int, k) < n,
            draw_height < MAX_ROAD_DRAW_HEIGHT ==> scan_row(adv, n as int, draw_height as int) >= n,
        decreases MAX_ROAD_DRAW_HEIGHT - cur_line,
    {
        let map_idx_wide: i128 = div_toward_zero(flt_map_idx, 65536);
        if map_idx_wide >= index_as_i128(n) {
            draw_height = cur_line;
            break;
        }
        let map_idx: usize = i128_as_index(map_idx_wide);
        road_dyn.y_map[cur_line] = map_idx;
        assert(map_idx_wide < n);
        assert(flt_map_idx < 0x8000_0000) by {
            vstd::arithmetic::div_mod::lemma_fundamental_div_mod(flt_map_idx as int, 65536);
            vstd::arithmetic::div_mod::lemma_mod_pos_bound(flt_map_idx as int, 65536);
        }
        let advancement: i128 = scratch_pad.y_advancement_map[map_idx];
        flt_map_idx = flt_map_idx + advancement;
        cur_line = cur_line + 1;
    }
    let mut line: usize = draw_height;
    while line < MAX_ROAD_DRAW_HEIGHT
        invariant
            draw_height <= line <= MAX_ROAD_DRAW_HEIGHT,
            road_dyn.y_map.len() == MAX_ROAD_DRAW_HEIGHT,
            road_dyn.segs == d0.segs,
            road_dyn.seg_idx == d0.seg_idx,
            road_dyn.seg_pos == d0.seg_pos,
            road_dyn.x_offset == d0.x_offset,
            road_dyn.z_offset == d0.z_offset,
            road_dyn.x_map == d0.x_map,
            forall|k: int| 0 <= k < draw_height ==> #[trigger] road_dyn.y_map[k] == scan_row(adv, n as int, k),
            forall|k: int| draw_height <= k < line ==> #[trigger] road_dyn.y_map[k] == n,
        decreases MAX_ROAD_DRAW_HEIGHT - line,
    {
        road_dyn.y_map[line] = n;
        line = line + 1;
    }
    road_dyn.draw_height = draw_height;
}

/// Recomputes every projected table of `road_dyn` for its current track
/// and position.
pub fn project_road(road_static: &RoadStatic, road_dyn: &mut RoadDynamic, scratch_pad: &mut HillScratchPad)
    requires
        road_static.wf(),
        old(road_dyn).wf(),
        old(road_dyn).x_map.len() == road_static.rows(),
        old(road_dyn).y_map.len() == MAX_ROAD_DRAW_HEIGHT,
        old(scratch_pad).y_advancement_map.len() == road_static.rows(),
    ensures
        final(road_dyn).wf(),
        final(road_dyn).tables_wf(road_static.rows()),
        projected(road_static, final(road_dyn)),
        final(scratch_pad).y_advancement_map.len() == road_static.rows(),
        final(road_dyn).segs == old(road_dyn).segs,
        final(road_dyn).seg_idx == old(road_dyn).seg_idx,
        final(road_dyn).seg_pos == old(road_dyn).seg_pos,
        final(road_dyn).x_offset == old(road_dyn).x_offset,
        final(road_dyn).z_offset == old(road_dyn).z_offset,
{
    update_road_curvature(road_static, road_dyn);
    update_road_hills(road_static, road_dyn, scratch_pad);
    proof {
        let n = road_static.rows() as int;
        let adv = scratch_pad.y_advancement_map@;
        assert forall|k: int| 0 <= k < MAX_ROAD_DRAW_HEIGHT implies (k < road_dyn.draw_height ==> #[trigger] road_dyn.y_map[k] < n) && (
            k >= road_dyn.draw_height ==> road_dyn.y_map[k] == n) by {
            if k < road_dyn.draw_height {
                assert(scan_row(adv, n, k) < n);
            }
        }
    }
}

/// A road on `segs` at the start of the track, with its tables projected.
pub fn build_road_dynamic(road_static: &RoadStatic, segs: Vec<RoadSegment>) -> (r: RoadDynamic)
    requires
        road_static.wf(),
        segs.len() >= 1,
    ensures
        r.wf(),
        r.tables_wf(road_static.rows()),
        projected(road_static, &r),
        r.segs == segs,
        r.seg_idx == 0,
        r.seg_pos == 0,
        r.x_offset == 0,
        r.z_offset == 0,
{
    let n: usize = road_static.z_map.len();
    let mut road_dyn = RoadDynamic {
        draw_height: n,
        x_map: vec![ROAD_CENTER_X; n],
        y_map: vec![0usize; MAX_ROAD_DRAW_HEIGHT],
        x_offset: 0,
        z_offset: 0,
        seg_idx: 0,
        seg_pos: 0,
        segs,
    };
    let mut scratch_pad = HillScratchPad::new(n);
    project_road(road_static, &mut road_dyn, &mut scratch_pad);
    road_dyn
}

} // verus!
