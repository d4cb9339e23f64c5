//! Properties that hold across the projection, stated over its spec
//! functions.
use vstd::prelude::*;

use crate::depth::RoadStatic;
use crate::fixed::{abs, fmul, lemma_tdiv_bound, tdiv, ONE};
use crate::project::{
    advance_at, advance_table, converge, crossings, curve_coeff_spec, hill_coeff_spec, param_value, proj_state,
    projected, quad_out, road_x, row_dz, scan_pos, scan_row, QuadraticCoefficients, RoadParam, ADVANCE_FLOOR,
    ROAD_CENTER_X,
};
use crate::query::{first_line, first_line_from, in_row};
use crate::track::{bounded_seg, RoadDynamic, RoadSegment, MAX_ROAD_DRAW_HEIGHT, SEGMENT_LENGTH};

verus! {

/// Depths grow and scales shrink from each row to the next, in every
/// table the builder accepts.
pub proof fn law_depth_monotonic(t: &RoadStatic)
    requires
        t.wf(),
    ensures
        forall|i: int|
            0 <= i < t.rows() - 1 ==> #[trigger] t.z_map[i] < t.z_map[i + 1] && t.scale_map[i] > t.scale_map[i + 1],
        forall|i: int| 0 <= i < t.rows() ==> #[trigger] t.z_map[i] > 0,
{
    assert forall|i: int| 0 <= i < t.rows() implies #[trigger] t.z_map[i] > 0 by {
        if i > 0 {
            assert(t.z_map[0] < t.z_map[i]);
        }
    }
}

/// Every segment carries zero for `which`.
pub open spec fn all_zero(segs: Seq<RoadSegment>, which: RoadParam) -> bool {
    forall|j: int| 0 <= j < segs.len() ==> param_value(#[trigger] segs[j], which) == 0
}

/// Where every segment carries zero, the projection never moves off its
/// initial value.
proof fn lemma_zero_state(
    c: QuadraticCoefficients,
    init: int,
    which: RoadParam,
    z: Seq<i64>,
    segs: Seq<RoadSegment>,
    idx0: int,
    pos0: int,
    i: nat,
)
    requires
        segs.len() >= 1,
        idx0 >= 0,
        all_zero(segs, which),
    ensures
        proj_state(c, init, which, z, segs, idx0, pos0, i).0 >= idx0,
        proj_state(c, init, which, z, segs, idx0, pos0, i).2 == 0,
        proj_state(c, init, which, z, segs, idx0, pos0, i).3 == init,
        param_value(bounded_seg(segs, proj_state(c, init, which, z, segs, idx0, pos0, i).0), which) == 0,
    decreases i,
{
    let s = proj_state(c, init, which, z, segs, idx0, pos0, i);
    if i > 0 {
        lemma_zero_state(c, init, which, z, segs, idx0, pos0, (i - 1) as nat);
        let prev = proj_state(c, init, which, z, segs, idx0, pos0, (i - 1) as nat);
        let pos = prev.1 + row_dz(z, i - 1);
        if pos > SEGMENT_LENGTH {
            vstd::arithmetic::div_mod::lemma_div_pos_is_pos(pos - 1, SEGMENT_LENGTH as int);
        }
        assert(crossings(pos) >= 0);
        let dz = row_dz(z, i - 1);
        assert(fmul(0, c.x2 as int) == 0);
        assert(fmul(0, dz) == 0);
    }
    if s.0 < segs.len() - 1 {
        assert(param_value(segs[s.0], which) == 0);
    } else {
        assert(param_value(segs[segs.len() - 1], which) == 0);
    }
}

/// Where every segment carries zero, each row's output is the initial value
/// plus the `x` term of nothing: the initial value.
proof fn lemma_zero_out(
    c: QuadraticCoefficients,
    init: int,
    which: RoadParam,
    z: Seq<i64>,
    segs: Seq<RoadSegment>,
    idx0: int,
    pos0: int,
    i: int,
)
    requires
        segs.len() >= 1,
        idx0 >= 0,
        i >= 0,
        all_zero(segs, which),
    ensures
        quad_out(c, init, which, z, segs, idx0, pos0, i) == init,
{
    lemma_zero_state(c, init, which, z, segs, idx0, pos0, (i + 1) as nat);
    assert(fmul(0, c.x as int) == 0);
}

/// A straight road: where no segment curves, every row's road center is the
/// screen center, moved by the racer's offset as it converges with depth.
pub proof fn law_straight_road(z: Seq<i64>, segs: Seq<RoadSegment>, seg_idx: int, seg_pos: int, x_offset: int)
    requires
        segs.len() >= 1,
        seg_idx >= 0,
        all_zero(segs, RoadParam::Curve),
    ensures
        forall|i: int|
            0 <= i < z.len() ==> #[trigger] road_x(z, segs, seg_idx, seg_pos, x_offset, i) == ROAD_CENTER_X
                + converge(x_offset, i, z.len() as int),
{
    assert forall|i: int| 0 <= i < z.len() implies #[trigger] road_x(z, segs, seg_idx, seg_pos, x_offset, i)
        == ROAD_CENTER_X + converge(x_offset, i, z.len() as int) by {
        lemma_zero_out(curve_coeff_spec(), ROAD_CENTER_X as int, RoadParam::Curve, z, segs, seg_idx, seg_pos, i);
    }
}

/// `converge(x, 0, n) == x`: the offset takes full effect at the nearest row.
proof fn lemma_converge_nearest(x: int, n: int)
    requires
        n >= 1,
    ensures
        converge(x, 0, n) == x,
{
    if x >= 0 {
        vstd::arithmetic::div_mod::lemma_div_multiples_vanish(x, n);
        assert(x * n == n * x) by (nonlinear_arith);
    } else {
        vstd::arithmetic::div_mod::lemma_div_multiples_vanish(-x, n);
        assert(-(x * n) == n * (-x)) by (nonlinear_arith);
        assert(x * n < 0) by (nonlinear_arith)
            requires
                x < 0,
                n >= 1,
        ;
    }
}

/// The convergence law: the racer's offset moves the nearest row of the
/// road by all of itself, and its share falls linearly with the row index,
/// to a `1 / n` share at the farthest row.
pub proof fn law_convergence(z: Seq<i64>, segs: Seq<RoadSegment>, seg_idx: int, seg_pos: int, x_offset: int)
    requires
        z.len() >= 1,
        segs.len() >= 1,
        seg_idx >= 0,
    ensures
        road_x(z, segs, seg_idx, seg_pos, x_offset, 0) == ROAD_CENTER_X + x_offset,
        forall|i: int|
            0 <= i < z.len() ==> #[trigger] road_x(z, segs, seg_idx, seg_pos, x_offset, i) - quad_out(
                curve_coeff_spec(),
                ROAD_CENTER_X as int,
                RoadParam::Curve,
                z,
                segs,
                seg_idx,
                seg_pos,
                i,
            ) == tdiv(x_offset * (z.len() - i), z.len() as int),
        abs(converge(x_offset, z.len() - 1, z.len() as int)) * z.len() <= abs(x_offset),
        all_zero(segs, RoadParam::Curve) ==> road_x(z, segs, seg_idx, seg_pos, x_offset, z.len() - 1)
            == ROAD_CENTER_X + converge(x_offset, z.len() - 1, z.len() as int),
{
    let n = z.len() as int;
    let c = curve_coeff_spec();
    let s = proj_state(c, ROAD_CENTER_X as int, RoadParam::Curve, z, segs, seg_idx, seg_pos, 1);
    assert(row_dz(z, 0) == 0);
    assert(fmul(fmul(param_value(bounded_seg(segs, s.0), RoadParam::Curve), c.x2 as int), 0) == 0);
    assert(fmul(param_value(bounded_seg(segs, s.0), RoadParam::Curve), 0) == 0);
    let s0 = proj_state(c, ROAD_CENTER_X as int, RoadParam::Curve, z, segs, seg_idx, seg_pos, 0);
    assert(s0.2 == 0 && s0.3 == ROAD_CENTER_X);
    let p = param_value(bounded_seg(segs, s0.0 + crossings(s0.1 + row_dz(z, 0))), RoadParam::Curve);
    assert(fmul(fmul(p, c.x2 as int), row_dz(z, 0)) == 0);
    assert(s.2 == 0);
    assert(s.3 == ROAD_CENTER_X);
    assert(quad_out(c, ROAD_CENTER_X as int, RoadParam::Curve, z, segs, seg_idx, seg_pos, 0) == ROAD_CENTER_X);
    lemma_converge_nearest(x_offset, n);
    assert(x_offset * (n - (n - 1)) == x_offset) by (nonlinear_arith);
    lemma_tdiv_bound(x_offset, n);
    if all_zero(segs, RoadParam::Curve) {
        law_straight_road(z, segs, seg_idx, seg_pos, x_offset);
    }
}

/// The advancement through the depth rows is positive at every row,
/// whatever the segments' hills.
pub proof fn law_advance_positive(z: Seq<i64>, segs: Seq<RoadSegment>, seg_idx: int, seg_pos: int)
    ensures
        forall|i: int|
            0 <= i < z.len() ==> #[trigger] advance_at(z, segs, seg_idx, seg_pos, i) >= ADVANCE_FLOOR
                && advance_at(z, segs, seg_idx, seg_pos, i) > 0,
{
}

/// On a flat road every pixel line advances one row.
proof fn lemma_flat_scan(adv: Seq<i128>, n: int, k: nat)
    requires
        k <= n,
        adv.len() == n,
        forall|i: int| 0 <= i < n ==> #[trigger] adv[i] == ONE,
    ensures
        scan_pos(adv, n, k) == k * ONE,
        scan_row(adv, n, k as int) == k,
    decreases k,
{
    if k > 0 {
        lemma_flat_scan(adv, n, (k - 1) as nat);
        vstd::arithmetic::div_mod::lemma_div_multiples_vanish((k - 1) as int, ONE as int);
        assert((k - 1) * ONE == ONE * (k - 1));
    }
    vstd::arithmetic::div_mod::lemma_div_multiples_vanish(k as int, ONE as int);
    assert(k * ONE == ONE * k);
}

/// The first line reaching `row` from line `k`, where each line `j` up to
/// `row` draws row `j`.
proof fn lemma_first_line_identity(y: Seq<usize>, row: int, k: int)
    requires
        0 <= k <= row < y.len(),
        forall|j: int| 0 <= j <= row ==> #[trigger] y[j] == j,
    ensures
        first_line_from(y, row, k) == row,
    decreases row - k,
{
    if k < row {
        lemma_first_line_identity(y, row, k + 1);
    }
}

/// A flat road maps line `k` to row `k`, so it is drawn over as many
/// lines as it has rows (up to the screen's limit), and placing an object at
/// a row's exact depth puts it on the line that draws that row.
pub proof fn law_flat_round_trip(st: &RoadStatic, dy: &RoadDynamic)
    requires
        st.wf(),
        dy.wf(),
        dy.seg_idx >= 0,
        projected(st, dy),
        all_zero(dy.segs@, RoadParam::Hill),
    ensures
        dy.draw_height == (if st.rows() < MAX_ROAD_DRAW_HEIGHT {
            st.rows() as int
        } else {
            MAX_ROAD_DRAW_HEIGHT as int
        }),
        forall|row: int|
            0 <= row < dy.draw_height ==> #[trigger] dy.y_map[row] == row && first_line(dy.y_map@, row) == row,
        forall|row: int| 0 <= row < st.rows() - 1 ==> #[trigger] in_row(st.z_map@, st.z_map[row] as int, row),
{
    let z = st.z_map@;
    let n = st.rows() as int;
    let adv = advance_table(z, dy.segs@, dy.seg_idx as int, dy.seg_pos as int);
    assert forall|i: int| 0 <= i < n implies #[trigger] adv[i] == ONE by {
        lemma_zero_out(hill_coeff_spec(), ONE as int, RoadParam::Hill, z, dy.segs@, dy.seg_idx as int, dy.seg_pos as int, i);
    }
    let dh = dy.draw_height as int;
    let lim = if n < MAX_ROAD_DRAW_HEIGHT { n } else { MAX_ROAD_DRAW_HEIGHT as int };
    if dh < lim {
        lemma_flat_scan(adv, n, dh as nat);
    }
    if dh > lim {
        lemma_flat_scan(adv, n, n as nat);
    }
    assert(dh == lim);
    assert forall|row: int| 0 <= row < dh implies #[trigger] dy.y_map[row] == row && first_line(dy.y_map@, row) == row by {
        assert forall|j: int| 0 <= j <= row implies #[trigger] dy.y_map@[j] == j by {
            lemma_flat_scan(adv, n, j as nat);
        }
        lemma_first_line_identity(dy.y_map@, row, 0);
    }
    assert forall|row: int| 0 <= row < n - 1 implies #[trigger] in_row(z, z[row] as int, row) by {
        assert(z[row] < z[row + 1]);
    }
}

} // verus!
