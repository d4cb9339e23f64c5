//! The scanline rasterizer.
use lebe::Endian;
use vstd::prelude::*;

use crate::depth::{RoadStatic, FIELD_WIDTH};
use crate::fixed::{abs, fixed_mul, fmul, ONE};
use crate::track::{RoadDynamic, COLOR_SWITCH_Z_INTERVAL, MAX_ROAD_DRAW_HEIGHT};

verus! {

/// Half-width of the pavement at scale one (125.0).
pub const PAVEMENT_WIDTH: i64 = 125 * 65536;

/// Half-width of the center line at scale one (2.0).
pub const CENTER_LINE_WIDTH: i64 = 2 * 65536;

/// Width of each rumble strip at scale one (20.0).
pub const RUMBLE_STRIP_WIDTH: i64 = 20 * 65536;

/// The number of pixels in the road's draw buffer: the field width times the
/// largest draw height.
pub const NUM_ROAD_PIXELS: usize = 320 * 170;

/// A color with its shifted tone; the tone in use alternates with depth.
#[derive(Clone, Copy, Debug, PartialEq, Eq, Structural)]
pub struct ShiftableColor(pub u32, pub u32);

/// The RGBA colors of each band of the road.
#[derive(Clone, Copy, Debug, PartialEq, Eq, Structural)]
pub struct RoadColors {
    pub offroad: ShiftableColor,
    pub rumble_strip: ShiftableColor,
    pub pavement: ShiftableColor,
    /// Shifts to match the pavement color.
    pub center_line: u32,
}

/// The road's default palette.
pub fn default_colors() -> (r: RoadColors)
    ensures
        r.center_line == 0xFFFFFFFFu32,
        r.offroad == ShiftableColor(0xFFFF91FFu32, 0xDADA91FFu32),
        r.rumble_strip == ShiftableColor(0xFFFFFFFFu32, 0xFF0000FFu32),
        r.pavement == ShiftableColor(0x303030FFu32, 0x333333FFu32),
{
    RoadColors {
        center_line: 0xFFFFFFFFu32,
        offroad: ShiftableColor(0xFFFF91FFu32, 0xDADA91FFu32),
        rumble_strip: ShiftableColor(0xFFFFFFFFu32, 0xFF0000FFu32),
        pavement: ShiftableColor(0x303030FFu32, 0x333333FFu32),
    }
}

/// `c` with its four bytes in reverse order.
pub open spec fn swap_bytes32(c: u32) -> u32 {
    ((c & 0xff) << 24u32) | ((c & 0xff00) << 8u32) | ((c >> 8u32) & 0xff00) | (c >> 24u32)
}

/// Relies on lebe's `Endian::from_current_into_big_endian` for `u32`: the
/// value unchanged on a big-endian machine, its bytes reversed on a
/// little-endian one.
#[verifier::external_body]
fn to_big_endian(c: u32) -> (r: u32)
    ensures
        r == c || r == swap_bytes32(c),
{
    c.from_current_into_big_endian()
}

/// Whether depth `depth` falls in an odd color interval, which draws the
/// shifted tones.
pub open spec fn shift_phase(depth: int, z_offset: int) -> bool {
    ((depth + z_offset) / (COLOR_SWITCH_Z_INTERVAL as int)) % 2 != 0
}

/// The band a pixel at `distance` from the road center falls in, given
/// the half-widths of the center line and pavement and the rumble strip's
/// width at the row's scale.
pub open spec fn band_color(colors: RoadColors, distance: int, center_line: int, pavement: int, rumble: int) -> ShiftableColor {
    if distance <= center_line {
        ShiftableColor(colors.center_line, colors.pavement.1)
    } else if distance <= pavement {
        colors.pavement
    } else if distance <= pavement + rumble {
        colors.rumble_strip
    } else {
        colors.offroad
    }
}

/// The color of pixel `x` on the line that draws depth row `row`.
pub open spec fn row_pixel_tone(st: &RoadStatic, dy: &RoadDynamic, row: int, x: int) -> u32 {
    let scale = st.scale_map[row] as int;
    let c = band_color(
        st.colors,
        abs(x * ONE - dy.x_map[row]),
        fmul(CENTER_LINE_WIDTH as int, scale),
        fmul(PAVEMENT_WIDTH as int, scale),
        fmul(RUMBLE_STRIP_WIDTH as int, scale),
    );
    if shift_phase(st.z_map[row] as int, dy.z_offset as int) {
        c.1
    } else {
        c.0
    }
}

/// The color of pixel `x` on buffer line `line` (counted from the top):
/// transparent where no road row is drawn.
pub open spec fn pixel_tone(st: &RoadStatic, dy: &RoadDynamic, line: int, x: int) -> u32 {
    let row = dy.y_map[(MAX_ROAD_DRAW_HEIGHT - 1) - line] as int;
    if row >= st.rows() {
        0
    } else {
        row_pixel_tone(st, dy, row, x)
    }
}

/// The pixel buffer the road is drawn into, reused every frame.
pub struct RoadDrawing {
    /// RGBA pixels, row-major from the top line.
    pub draw_buffer: Vec<u32>,
}

impl RoadDrawing {
    pub fn new() -> (r: RoadDrawing)
        ensures
            r.draw_buffer.len() == NUM_ROAD_PIXELS,
            forall|i: int| 0 <= i < NUM_ROAD_PIXELS ==> #[trigger] r.draw_buffer[i] == 0,
    {
        RoadDrawing { draw_buffer: vec![0u32; NUM_ROAD_PIXELS] }
    }
}

/// The band color of a pixel at `distance` from the road center.
fn classify(colors: RoadColors, distance: i128, center_line: i128, pavement: i128, rumble: i128) -> (r: ShiftableColor)
    requires
        i128::MIN <= pavement + rumble <= i128::MAX,
    ensures
        r == band_color(colors, distance as int, center_line as int, pavement as int, rumble as int),
{
    if distance <= center_line {
        ShiftableColor(colors.center_line, colors.pavement.1)
    } else if distance <= pavement {
        colors.pavement
    } else if distance <= pavement + rumble {
        colors.rumble_strip
    } else {
        colors.offroad
    }
}

/// Draws the road line by line, from the bottom, into `road_draw`; every
/// pixel is written, transparent above the road.
pub fn render_road(road_static: &RoadStatic, road_dyn: &RoadDynamic, road_draw: &mut RoadDrawing)
    requires
        road_static.wf(),
        road_dyn.wf(),
        road_dyn.tables_wf(road_static.rows()),
        old(road_draw).draw_buffer.len() == NUM_ROAD_PIXELS,
    ensures
        final(road_draw).draw_buffer.len() == NUM_ROAD_PIXELS,
        forall|line: int, x: int|
            0 <= line < MAX_ROAD_DRAW_HEIGHT && 0 <= x < FIELD_WIDTH ==> {
                let px = #[trigger] final(road_draw).draw_buffer[line * FIELD_WIDTH + x];
                let t = pixel_tone(road_static, road_dyn, line, x);
                px == t || px == swap_bytes32(t)
            },
{
    let field_width: usize = 320;
    let n: usize = road_static.z_map.len();
    let colors: RoadColors = road_static.colors;
    let mut cur_line: usize = MAX_ROAD_DRAW_HEIGHT;
    while cur_line > 0
        invariant
            road_static.wf(),
            road_dyn.wf(),
            road_dyn.tables_wf(road_static.rows()),
            n == road_static.rows(),
            colors == road_static.colors,
            field_width == FIELD_WIDTH,
            cur_line <= MAX_ROAD_DRAW_HEIGHT,
            road_draw.draw_buffer.len() == NUM_ROAD_PIXELS,
            forall|line: int, x: int|
                cur_line <= line < MAX_ROAD_DRAW_HEIGHT && 0 <= x < FIELD_WIDTH ==> {
                    let px = #[trigger] road_draw.draw_buffer[line * FIELD_WIDTH + x];
                    let t = pixel_tone(road_static, road_dyn, line, x);
                    px == t || px == swap_bytes32(t)
                },
        decreases cur_line,
    {
        cur_line = cur_line - 1;
        let base: usize = cur_line * 320;
        let map_idx: usize = road_dyn.y_map[(MAX_ROAD_DRAW_HEIGHT - 1) - cur_line];
        let ghost done_line = cur_line;
        if map_idx >= n {
            let mut x: usize = 0;
            while x < field_width
                invariant
                    field_width == FIELD_WIDTH,
                    x <= field_width,
                    base == cur_line * FIELD_WIDTH,
                    cur_line < MAX_ROAD_DRAW_HEIGHT,
                    map_idx >= n,
                    n == road_static.rows(),
                    map_idx == road_dyn.y_map[(MAX_ROAD_DRAW_HEIGHT - 1) - cur_line],
                    road_draw.draw_buffer.len() == NUM_ROAD_PIXELS,
                    forall|line: int, x2: int|
                        cur_line < line < MAX_ROAD_DRAW_HEIGHT && 0 <= x2 < FIELD_WIDTH ==> {
                            let px = #[trigger] road_draw.draw_buffer[line * FIELD_WIDTH + x2];
                            let t = pixel_tone(road_static, road_dyn, line, x2);
                            px == t || px == swap_bytes32(t)
                        },
                    forall|x2: int|
                        0 <= x2 < x ==> #[trigger] road_draw.draw_buffer[cur_line * FIELD_WIDTH + x2] == 0,
                decreases field_width - x,
            {
                proof {
                    lemma_cell_distinct(cur_line as int, x as int);
                }
                road_draw.draw_buffer[base + x] = 0;
                x = x + 1;
            }
            proof {
                assert forall|line: int, x2: int|
                    cur_line <= line < MAX_ROAD_DRAW_HEIGHT && 0 <= x2 < FIELD_WIDTH implies {
                        let px = #[trigger] road_draw.draw_buffer[line * FIELD_WIDTH + x2];
                        let t = pixel_tone(road_static, road_dyn, line, x2);
                        px == t || px == swap_bytes32(t)
                    } by {
                    if line == cur_line {
                        assert(road_draw.draw_buffer[cur_line * FIELD_WIDTH + x2] == 0);
                    }
                }
            }
        } else {
            let road_z: i64 = road_static.z_map[map_idx];
            let road_scale: i64 = road_static.scale_map[map_idx];
            assert(0 < road_z) by {
                if map_idx > 0 {
                    assert(road_static.z_map[0] < road_static.z_map[map_idx as int]);
                }
            }
            assert(road_scale <= 0x1_0000_0000) by {
                vstd::arithmetic::div_mod::lemma_div_is_ordered_by_denominator(0x1_0000_0000, 1, road_z as int);
            }
            let num_color_switches: i64 = (road_z + road_dyn.z_offset) / COLOR_SWITCH_Z_INTERVAL;
            let shift_color: bool = num_color_switches % 2 != 0;
            let road_center: i128 = road_dyn.x_map[map_idx];
            let road_width: i128 = fixed_mul(PAVEMENT_WIDTH as i128, road_scale as i128);
            let center_line_width: i128 = fixed_mul(CENTER_LINE_WIDTH as i128, road_scale as i128);
            let rumble_width: i128 = fixed_mul(RUMBLE_STRIP_WIDTH as i128, road_scale as i128);
            proof {
                crate::project::lemma_fmul_bound(PAVEMENT_WIDTH as int, road_scale as int, PAVEMENT_WIDTH as int, 0x1_0000_0000);
                crate::project::lemma_fmul_bound(RUMBLE_STRIP_WIDTH as int, road_scale as int, RUMBLE_STRIP_WIDTH as int, 0x1_0000_0000);
            }
            let mut x: usize = 0;
            while x < field_width
                invariant
                    field_width == FIELD_WIDTH,
                    x <= field_width,
                    base == cur_line * FIELD_WIDTH,
                    cur_line < MAX_ROAD_DRAW_HEIGHT,
                    map_idx < n,
                    n == road_static.rows(),
                    road_static.wf(),
                    road_dyn.tables_wf(road_static.rows()),
                    colors == road_static.colors,
                    map_idx == road_dyn.y_map[(MAX_ROAD_DRAW_HEIGHT - 1) - cur_line],
                    road_center == road_dyn.x_map[map_idx as int],
                    road_scale == road_static.scale_map[map_idx as int],
                    shift_color == shift_phase(road_static.z_map[map_idx as int] as int, road_dyn.z_offset as int),
                    road_width == fmul(PAVEMENT_WIDTH as int, road_scale as int),
                    center_line_width == fmul(CENTER_LINE_WIDTH as int, road_scale as int),
                    rumble_width == fmul(RUMBLE_STRIP_WIDTH as int, road_scale as int),
                    abs(road_width as int) <= 0x100_0000_0000_0000,
                    abs(rumble_width as int) <= 0x100_0000_0000_0000,
                    road_draw.draw_buffer.len() == NUM_ROAD_PIXELS,
                    forall|line: int, x2: int|
                        cur_line < line < MAX_ROAD_DRAW_HEIGHT && 0 <= x2 < FIELD_WIDTH ==> {
                            let px = #[trigger] road_draw.draw_buffer[line * FIELD_WIDTH + x2];
                            let t = pixel_tone(road_static, road_dyn, line, x2);
                            px == t || px == swap_bytes32(t)
                        },
                    forall|x2: int|
                        0 <= x2 < x ==> {
                            let px = #[trigger] road_draw.draw_buffer[cur_line * FIELD_WIDTH + x2];
                            let t = row_pixel_tone(road_static, road_dyn, map_idx as int, x2);
                            px == t || px == swap_bytes32(t)
                        },
                decreases field_width - x,
            {
                let px_x: i128 = (x as i128) * 65536;
                let diff: i128 = px_x - road_center;
                let distance_from_center: i128 = if diff < 0 {
                    -diff
                } else {
                    diff
                };
                let shiftable: ShiftableColor = classify(
                    colors,
                    distance_from_center,
                    center_line_width,
                    road_width,
                    rumble_width,
                );
                let color: u32 = if shift_color {
                    shiftable.1
                } else {
                    shiftable.0
                };
                proof {
                    lemma_cell_distinct(cur_line as int, x as int);
                }
                road_draw.draw_buffer[base + x] = to_big_endian(color);
                x = x + 1;
            }
            proof {
                assert forall|line: int, x2: int|
                    cur_line <= line < MAX_ROAD_DRAW_HEIGHT && 0 <= x2 < FIELD_WIDTH implies {
                        let px = #[trigger] road_draw.draw_buffer[line * FIELD_WIDTH + x2];
                        let t = pixel_tone(road_static, road_dyn, line, x2);
                        px == t || px == swap_bytes32(t)
                    } by {
                    if line == cur_line {
                        let px = road_draw.draw_buffer[cur_line * FIELD_WIDTH + x2];
                        let t = row_pixel_tone(road_static, road_dyn, map_idx as int, x2);
                        assert(px == t || px == swap_bytes32(t));
                    }
                }
            }
        }
    }
}

/// Cell (`line`, `x`) of the buffer is the only one at its index, and the
/// index lies inside the buffer.
proof fn lemma_cell_distinct(line: int, x: int)
    requires
        0 <= line < MAX_ROAD_DRAW_HEIGHT,
        0 <= x < FIELD_WIDTH,
    ensures
        line * FIELD_WIDTH + x < NUM_ROAD_PIXELS,
        forall|l2: int, x2: int|
            0 <= l2 < MAX_ROAD_DRAW_HEIGHT && 0 <= x2 < FIELD_WIDTH && (l2 != line || x2 != x) ==> #[trigger] (l2
                * FIELD_WIDTH + x2) != line * FIELD_WIDTH + x,
{
    assert(line * 320 + x < 320 * 170) by (nonlinear_arith)
        requires
            0 <= line < 170,
            0 <= x < 320,
    ;
    assert forall|l2: int, x2: int|
        0 <= l2 < MAX_ROAD_DRAW_HEIGHT && 0 <= x2 < FIELD_WIDTH && (l2 != line || x2 != x) implies #[trigger] (l2
            * FIELD_WIDTH + x2) != line * FIELD_WIDTH + x by {
        assert(l2 * 320 + x2 != line * 320 + x) by (nonlinear_arith)
            requires
                0 <= x < 320,
                0 <= x2 < 320,
                l2 != line || x2 != x,
        ;
    }
}

} // verus!
