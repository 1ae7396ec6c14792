use vstd::prelude::*;
use vstd::arithmetic::div_mod::{
    lemma_fundamental_div_mod_converse,
    lemma_div_is_ordered, lemma_div_multiples_vanish, lemma_div_is_ordered_by_denominator,
};
use crate::config::{Config, SCALE, EPSILON};
use crate::trig::{TrigTable, abs};

verus! {

#[derive(Clone, Copy, Debug, PartialEq, Eq, Structural)]
pub struct Rgb {
    pub r: u8,
    pub g: u8,
    pub b: u8,
}

/// Numerator of the projected wall height, in fixed pixel units.
pub open spec fn height_numerator(cfg: Config) -> int {
    cfg.wall_scale * cfg.render_x * SCALE * SCALE * SCALE
}

/// The ray that screen column `x` shows.
pub open spec fn ray_index(cfg: Config, x: int) -> int {
    let k = (x * cfg.rays_count) / (cfg.render_x as int);
    if k < cfg.rays_count - 1 {
        k
    } else {
        cfg.rays_count - 1
    }
}

/// A distance raised to at least `EPSILON`.
pub open spec fn at_least_epsilon(d: int) -> int {
    if d < EPSILON {
        EPSILON as int
    } else {
        d
    }
}

/// Magnitude of the angle between column `x` and the centre of view.
pub open spec fn screen_angle(cfg: Config, x: int) -> int {
    (abs(2 * x - cfg.render_x) * cfg.fov) / (2 * cfg.render_x)
}

/// The cosine of an angle from the table, kept positive.
pub open spec fn cos_at(trig: TrigTable, a: int) -> int {
    if trig.cos@[a] < 1 {
        1
    } else {
        trig.cos@[a] as int
    }
}

/// The tangent of half the field of view, kept positive.
pub open spec fn tan_half(cfg: Config, trig: TrigTable) -> int {
    if trig.tan@[(cfg.fov / 2) as int] < 1 {
        1
    } else {
        trig.tan@[(cfg.fov / 2) as int] as int
    }
}

/// Fisheye correction: the distance seen in column `x` scaled by the cosine
/// of its screen angle.
pub open spec fn corrected_spec(cfg: Config, trig: TrigTable, raw: int, x: int) -> int {
    at_least_epsilon((raw * cos_at(trig, screen_angle(cfg, x))) / (SCALE as int))
}

/// Projected wall height of a wall at corrected distance `dist`, in fixed
/// pixel units, clamped to the screen height.
pub open spec fn wall_height_spec(cfg: Config, trig: TrigTable, dist: int) -> int {
    let h = height_numerator(cfg) / (2 * tan_half(cfg, trig) * dist);
    if h > cfg.render_y * SCALE {
        cfg.render_y * SCALE
    } else {
        h
    }
}

/// First screen row of a wall slice of height `h`, rounded to the nearest row.
pub open spec fn wall_top(cfg: Config, h: int) -> int {
    (cfg.render_y * SCALE - h + SCALE) / (2 * SCALE)
}

/// Row just below a wall slice of height `h`, rounded to the nearest row.
pub open spec fn wall_bottom(cfg: Config, h: int) -> int {
    (cfg.render_y * SCALE + h + SCALE) / (2 * SCALE)
}

/// The projected height of the wall shown in column `x`, and its colour.
pub open spec fn column_spec(
    cfg: Config,
    trig: TrigTable,
    hrays: Seq<u64>,
    vrays: Seq<u64>,
    horiz: Rgb,
    vert: Rgb,
    x: int,
) -> (int, Rgb) {
    let k = ray_index(cfg, x);
    let h = at_least_epsilon(hrays[k] as int);
    let v = at_least_epsilon(vrays[k] as int);
    let raw = if h < v { h } else { v };
    let color = if h < v { horiz } else { vert };
    (wall_height_spec(cfg, trig, corrected_spec(cfg, trig, raw, x)), color)
}

/// The colour of pixel `(x, y)` of the projected view.
pub open spec fn pixel_spec(
    cfg: Config,
    trig: TrigTable,
    hrays: Seq<u64>,
    vrays: Seq<u64>,
    horiz: Rgb,
    vert: Rgb,
    background: Rgb,
    x: int,
    y: int,
) -> Rgb {
    let col = column_spec(cfg, trig, hrays, vrays, horiz, vert, x);
    if wall_top(cfg, col.0) <= y < wall_bottom(cfg, col.0) {
        col.1
    } else {
        background
    }
}

/// The ray that screen column `x` shows.
pub fn ray_index_for_column(cfg: &Config, x: usize) -> (k: usize)
    requires
        cfg.valid(),
        x < cfg.render_x,
    ensures
        k == ray_index(*cfg, x as int),
        k < cfg.rays_count,
{
    assert((x as int) * (cfg.rays_count as int) <= 4096 * 4096) by (nonlinear_arith)
        requires x <= 4096, cfg.rays_count <= 4096;
    let k = x * cfg.rays_count / cfg.render_x;
    if k < cfg.rays_count - 1 {
        k
    } else {
        cfg.rays_count - 1
    }
}

/// Screen angle of column `x`, as an index into the trig table.
fn screen_angle_exec(cfg: &Config, x: usize) -> (a: usize)
    requires
        cfg.valid(),
        x < cfg.render_x,
    ensures
        a == screen_angle(*cfg, x as int),
        a <= cfg.fov,
{
    let twice = 2 * x;
    let m: usize = if twice >= cfg.render_x { twice - cfg.render_x } else { cfg.render_x - twice };
    assert(m == abs(2 * x - cfg.render_x));
    let d: usize = 2 * cfg.render_x;
    proof {
        assert((m as int) * (cfg.fov as int) <= (d as int) * (cfg.fov as int)) by (nonlinear_arith)
            requires m <= d, cfg.fov >= 0;
        lemma_div_is_ordered((m as int) * (cfg.fov as int), (d as int) * (cfg.fov as int), d as int);
        lemma_div_multiples_vanish(cfg.fov as int, d as int);
        assert((m as int) * (cfg.fov as int) <= 4096 * 10800) by (nonlinear_arith)
            requires m <= 4096, cfg.fov <= 10800;
    }
    m * cfg.fov as usize / d
}

/// Fisheye correction of the raw distance shown in column `x`.
pub fn corrected_distance(cfg: &Config, trig: &TrigTable, raw: u64, x: usize) -> (d: u64)
    requires
        cfg.valid(),
        trig.wf(),
        x < cfg.render_x,
    ensures
        d == corrected_spec(*cfg, *trig, raw as int, x as int),
        1 <= d <= if raw < 1 { 1 } else { raw as int },
{
    let a = screen_angle_exec(cfg, x);
    assert(crate::trig::entries_ok(trig.tan@, trig.cot@, trig.cos@, a as int));
    let c: i64 = if trig.cos[a] < 1 { 1 } else { trig.cos[a] };
    assert((raw as int) * (c as int) <= (raw as int) * SCALE) by (nonlinear_arith)
        requires 1 <= c <= SCALE, raw >= 0;
    assert((raw as int) * SCALE <= 0xffff_ffff_ffff_ffff * 10000) by (nonlinear_arith)
        requires raw <= 0xffff_ffff_ffff_ffff, SCALE == 10000;
    let p: u128 = raw as u128 * c as u128;
    let q: u128 = p / SCALE as u128;
    assert(q <= raw) by {
        lemma_div_is_ordered(p as int, (raw as int) * SCALE, SCALE as int);
        lemma_div_multiples_vanish(raw as int, SCALE as int);
        assert((raw as int) * SCALE == (SCALE as int) * (raw as int));
    }
    if q < EPSILON as u128 {
        EPSILON as u64
    } else {
        q as u64
    }
}

/// Projected height, in fixed pixel units, of a wall at corrected distance
/// `dist`: inversely proportional to the distance, clamped to the screen.
pub fn wall_height(cfg: &Config, trig: &TrigTable, dist: u64) -> (h: u64)
    requires
        cfg.valid(),
        trig.wf(),
        dist >= 1,
    ensures
        h == wall_height_spec(*cfg, *trig, dist as int),
        0 <= h <= cfg.render_y * SCALE,
{
    assert(crate::trig::entries_ok(trig.tan@, trig.cot@, trig.cos@, (cfg.fov / 2) as int));
    let t: i64 = if trig.tan[(cfg.fov / 2) as usize] < 1 { 1 } else { trig.tan[(cfg.fov / 2) as usize] };
    assert(height_numerator(*cfg) <= 1000 * 4096 * 1000000000000) by (nonlinear_arith)
        requires height_numerator(*cfg) == cfg.wall_scale * cfg.render_x * SCALE * SCALE * SCALE,
            cfg.wall_scale <= 1000, cfg.render_x <= 4096, SCALE == 10000;
    assert(height_numerator(*cfg) >= 0) by (nonlinear_arith)
        requires height_numerator(*cfg) == cfg.wall_scale * cfg.render_x * SCALE * SCALE * SCALE;
    let num: u128 = cfg.wall_scale as u128 * cfg.render_x as u128 * 1000000000000u128;
    assert(2 * (t as int) * (dist as int) <= 2 * 100000000 * 0xffff_ffff_ffff_ffff) by (nonlinear_arith)
        requires 1 <= t <= 100000000, 1 <= dist <= 0xffff_ffff_ffff_ffff;
    assert(2 * (t as int) * (dist as int) >= 1) by (nonlinear_arith)
        requires 1 <= t, 1 <= dist;
    let den: u128 = 2 * t as u128 * dist as u128;
    let h = num / den;
    let cap: u128 = cfg.render_y as u128 * SCALE as u128;
    if h > cap {
        cap as u64
    } else {
        h as u64
    }
}

/// Rows `[top, bottom)` of the wall slice of height `h`.
pub fn wall_band(cfg: &Config, h: u64) -> (band: (u64, u64))
    requires
        cfg.valid(),
        h <= cfg.render_y * SCALE,
    ensures
        band.0 == wall_top(*cfg, h as int),
        band.1 == wall_bottom(*cfg, h as int),
        band.0 <= band.1 <= cfg.render_y,
{
    let ry: u64 = cfg.render_y as u64 * SCALE as u64;
    let top = (ry - h + SCALE as u64) / (2 * SCALE as u64);
    let bottom = (ry + h + SCALE as u64) / (2 * SCALE as u64);
    proof {
        lemma_div_is_ordered(ry - h + SCALE, ry + h + SCALE, 2 * SCALE);
        lemma_div_is_ordered(ry + h + SCALE, 2 * ry + SCALE, 2 * SCALE);
        assert((2 * ry + SCALE) / (2 * SCALE as int) == cfg.render_y);
    }
    (top, bottom)
}

/// A `width` x `height` grid of colours stored row by row.
#[derive(Debug)]
pub struct PixelBuffer {
    pub width: usize,
    pub height: usize,
    pub data: Vec<Rgb>,
}

impl PixelBuffer {
    pub open spec fn wf(&self) -> bool {
        &&& self.width <= 4096
        &&& self.height <= 4096
        &&& self.data@.len() == self.width * self.height
    }

    /// A buffer with every pixel set to `fill`.
    pub fn new(width: usize, height: usize, fill: Rgb) -> (b: PixelBuffer)
        requires
            width <= 4096,
            height <= 4096,
        ensures
            b.wf(),
            b.width == width,
            b.height == height,
            forall|k: int| 0 <= k < width * height ==> #[trigger] b.data@[k] == fill,
    {
        assert(width * height <= 4096 * 4096) by (nonlinear_arith)
            requires width <= 4096, height <= 4096;
        let n = width * height;
        let mut data: Vec<Rgb> = Vec::new();
        let mut k: usize = 0;
        while k < n
            invariant
                k <= n,
                data@.len() == k,
                forall|j: int| 0 <= j < k ==> #[trigger] data@[j] == fill,
            decreases n - k,
        {
            data.push(fill);
            k += 1;
        }
        PixelBuffer { width, height, data }
    }

    /// The pixels as RGB bytes, row by row, three bytes per pixel.
    pub fn to_rgb_bytes(&self) -> (bytes: Vec<u8>)
        requires
            self.wf(),
        ensures
            bytes@.len() == 3 * self.data@.len(),
            forall|k: int| 0 <= k < self.data@.len() ==> {
                &&& #[trigger] bytes@[3 * k] == self.data@[k].r
                &&& bytes@[3 * k + 1] == self.data@[k].g
                &&& bytes@[3 * k + 2] == self.data@[k].b
            },
    {
        assert(self.width * self.height <= 4096 * 4096) by (nonlinear_arith)
            requires self.width <= 4096, self.height <= 4096;
        let mut bytes: Vec<u8> = Vec::new();
        let mut k: usize = 0;
        while k < self.data.len()
            invariant
                self.wf(),
                self.data@.len() <= 4096 * 4096,
                k <= self.data@.len(),
                bytes@.len() == 3 * k,
                forall|j: int| 0 <= j < k ==> {
                    &&& #[trigger] bytes@[3 * j] == self.data@[j].r
                    &&& bytes@[3 * j + 1] == self.data@[j].g
                    &&& bytes@[3 * j + 2] == self.data@[j].b
                },
            decreases self.data@.len() - k,
        {
            let px = self.data[k];
            let ghost before = bytes@;
            bytes.push(px.r);
            bytes.push(px.g);
            bytes.push(px.b);
            assert forall|j: int| 0 <= j <= k implies {
                &&& #[trigger] bytes@[3 * j] == self.data@[j].r
                &&& bytes@[3 * j + 1] == self.data@[j].g
                &&& bytes@[3 * j + 2] == self.data@[j].b
            } by {
                if j < k {
                    assert(before[3 * j] == self.data@[j].r);
                }
            }
            k += 1;
        }
        bytes
    }

    /// The colour of pixel `(x, y)`.
    pub fn pixel(&self, x: usize, y: usize) -> (c: Rgb)
        requires
            self.wf(),
            x < self.width,
            y < self.height,
        ensures
            c == self.data@[y * self.width + x],
    {
        proof {
            crate::grid::lemma_cell_index(self.width as int, self.height as int, x as int, y as int);
            assert(self.width * self.height <= 4096 * 4096) by (nonlinear_arith)
                requires self.width <= 4096, self.height <= 4096;
        }
        self.data[y * self.width + x]
    }
}

/// The whole projected view, row by row.
pub open spec fn view_spec(
    cfg: Config,
    trig: TrigTable,
    hrays: Seq<u64>,
    vrays: Seq<u64>,
    horiz: Rgb,
    vert: Rgb,
    background: Rgb,
) -> Seq<Rgb> {
    Seq::new(
        (cfg.render_x * cfg.render_y) as nat,
        |k: int|
            pixel_spec(
                cfg,
                trig,
                hrays,
                vrays,
                horiz,
                vert,
                background,
                k % (cfg.render_x as int),
                k / (cfg.render_x as int),
            ),
    )
}

/// Fills every pixel of `pixels` with the view of the walls at the given ray
/// distances: per column, background above and below a wall slice whose
/// height falls with the fisheye-corrected distance, in `horiz` where the
/// horizontal-line march is nearer and in `vert` otherwise.
pub fn draw_walls_to_pixels(
    pixels: &mut PixelBuffer,
    hrays: &Vec<u64>,
    vrays: &Vec<u64>,
    horiz_color: Rgb,
    vert_color: Rgb,
    background_color: Rgb,
    cfg: &Config,
    trig: &TrigTable,
)
    requires
        cfg.valid(),
        trig.wf(),
        old(pixels).width == cfg.render_x,
        old(pixels).height == cfg.render_y,
        hrays@.len() == cfg.rays_count,
        vrays@.len() == cfg.rays_count,
    ensures
        final(pixels).width == old(pixels).width,
        final(pixels).height == old(pixels).height,
        final(pixels).wf(),
        final(pixels).data@ == view_spec(
            *cfg,
            *trig,
            hrays@,
            vrays@,
            horiz_color,
            vert_color,
            background_color,
        ),
{
    let w = cfg.render_x;
    let mut tops: Vec<u64> = Vec::new();
    let mut bottoms: Vec<u64> = Vec::new();
    let mut colors: Vec<Rgb> = Vec::new();
    let mut x: usize = 0;
    while x < w
        invariant
            cfg.valid(),
            trig.wf(),
            w == cfg.render_x,
            hrays@.len() == cfg.rays_count,
            vrays@.len() == cfg.rays_count,
            x <= w,
            tops@.len() == x,
            bottoms@.len() == x,
            colors@.len() == x,
            forall|c: int| 0 <= c < x ==> {
                let col = #[trigger] column_spec(*cfg, *trig, hrays@, vrays@, horiz_color, vert_color, c);
                &&& tops@[c] == wall_top(*cfg, col.0)
                &&& bottoms@[c] == wall_bottom(*cfg, col.0)
                &&& colors@[c] == col.1
                &&& tops@[c] <= bottoms@[c] <= cfg.render_y
            },
        decreases w - x,
    {
        let k = ray_index_for_column(cfg, x);
        let h: u64 = if hrays[k] < EPSILON as u64 { EPSILON as u64 } else { hrays[k] };
        let v: u64 = if vrays[k] < EPSILON as u64 { EPSILON as u64 } else { vrays[k] };
        let raw: u64 = if h < v { h } else { v };
        let color: Rgb = if h < v { horiz_color } else { vert_color };
        let d = corrected_distance(cfg, trig, raw, x);
        let wh = wall_height(cfg, trig, d);
        let band = wall_band(cfg, wh);
        tops.push(band.0);
        bottoms.push(band.1);
        colors.push(color);
        x += 1;
    }
    let hgt = cfg.render_y;
    let mut out: Vec<Rgb> = Vec::new();
    let mut y: usize = 0;
    while y < hgt
        invariant
            cfg.valid(),
            w == cfg.render_x,
            hgt == cfg.render_y,
            y <= hgt,
            tops@.len() == w,
            bottoms@.len() == w,
            colors@.len() == w,
            forall|c: int| 0 <= c < w ==> {
                let col = #[trigger] column_spec(*cfg, *trig, hrays@, vrays@, horiz_color, vert_color, c);
                &&& tops@[c] == wall_top(*cfg, col.0)
                &&& bottoms@[c] == wall_bottom(*cfg, col.0)
                &&& colors@[c] == col.1
            },
            out@.len() == y * w,
            forall|k: int| 0 <= k < out@.len() ==> #[trigger] out@[k] == pixel_spec(
                *cfg, *trig, hrays@, vrays@, horiz_color, vert_color, background_color,
                k % (w as int), k / (w as int)),
        decreases hgt - y,
    {
        let mut xx: usize = 0;
        while xx < w
            invariant
                cfg.valid(),
                w == cfg.render_x,
                hgt == cfg.render_y,
                y < hgt,
                xx <= w,
                tops@.len() == w,
                bottoms@.len() == w,
                colors@.len() == w,
                forall|c: int| 0 <= c < w ==> {
                    let col = #[trigger] column_spec(*cfg, *trig, hrays@, vrays@, horiz_color, vert_color, c);
                    &&& tops@[c] == wall_top(*cfg, col.0)
                    &&& bottoms@[c] == wall_bottom(*cfg, col.0)
                    &&& colors@[c] == col.1
                },
                out@.len() == y * w + xx,
                forall|k: int| 0 <= k < out@.len() ==> #[trigger] out@[k] == pixel_spec(
                    *cfg, *trig, hrays@, vrays@, horiz_color, vert_color, background_color,
                    k % (w as int), k / (w as int)),
            decreases w - xx,
        {
            let yy = y as u64;
            let c: Rgb = if tops[xx] <= yy && yy < bottoms[xx] { colors[xx] } else { background_color };
            proof {
                lemma_fundamental_div_mod_converse((y * w + xx) as int, w as int, y as int, xx as int);
            }
            out.push(c);
            xx += 1;
        }
        assert((y + 1) * w == y * w + w) by (nonlinear_arith);
        y += 1;
    }
    assert(hgt * w == w * hgt) by (nonlinear_arith);
    assert(out@ =~= view_spec(*cfg, *trig, hrays@, vrays@, horiz_color, vert_color, background_color));
    pixels.width = w;
    pixels.height = hgt;
    pixels.data = out;
}

/// Farther walls are drawn no taller, and every height lies between zero
/// and the screen height.
pub proof fn lemma_wall_height_monotone(cfg: Config, trig: TrigTable, near: int, far: int)
    requires
        cfg.valid(),
        trig.wf(),
        1 <= near <= far,
    ensures
        wall_height_spec(cfg, trig, far) <= wall_height_spec(cfg, trig, near),
        0 <= wall_height_spec(cfg, trig, far) <= cfg.render_y * SCALE,
{
    let t = tan_half(cfg, trig);
    assert(1 <= 2 * t * near <= 2 * t * far) by (nonlinear_arith) requires 1 <= t, 1 <= near <= far;
    assert(height_numerator(cfg) >= 0) by (nonlinear_arith)
        requires height_numerator(cfg) == cfg.wall_scale * cfg.render_x * SCALE * SCALE * SCALE;
    lemma_div_is_ordered_by_denominator(height_numerator(cfg), 2 * t * near, 2 * t * far);
    vstd::arithmetic::div_mod::lemma_div_pos_is_pos(height_numerator(cfg), 2 * t * far);
}

/// A column at the centre of view, where the screen angle is zero, sees no
/// fisheye correction: its corrected distance is the raw distance.
pub proof fn lemma_center_column_uncorrected(cfg: Config, trig: TrigTable, raw: int, x: int)
    requires
        cfg.valid(),
        trig.wf(),
        raw >= EPSILON,
        0 <= x < cfg.render_x,
        screen_angle(cfg, x) == 0,
    ensures
        corrected_spec(cfg, trig, raw, x) == raw,
{
    assert(cos_at(trig, 0) == SCALE);
    vstd::arithmetic::div_mod::lemma_div_multiples_vanish(raw, SCALE as int);
    assert(raw * SCALE == SCALE * raw) by (nonlinear_arith);
}

/// On an even-width screen the middle column is the centre of view.
pub proof fn lemma_center_column_angle(cfg: Config)
    requires
        cfg.valid(),
        cfg.render_x % 2 == 0,
    ensures
        screen_angle(cfg, (cfg.render_x / 2) as int) == 0,
{
    let m = abs(2 * ((cfg.render_x / 2) as int) - cfg.render_x);
    assert(m == 0);
    assert(m * cfg.fov == 0) by (nonlinear_arith) requires m == 0;
    vstd::arithmetic::div_mod::lemma_div_of0(2 * cfg.render_x);
}

/// Columns mirrored about the centre of view see the same screen angle.
pub proof fn lemma_screen_angle_symmetric(cfg: Config, x: int)
    requires
        cfg.valid(),
        0 <= x <= cfg.render_x,
    ensures
        screen_angle(cfg, x) == screen_angle(cfg, cfg.render_x - x),
{
    assert(abs(2 * x - cfg.render_x) == abs(2 * (cfg.render_x - x) - cfg.render_x));
}

/// The projection keeps nothing from the buffer it overwrites: two buffers
/// filled from the same distances and colours hold the same pixels.
pub proof fn lemma_redraw_identical(
    cfg: Config,
    trig: TrigTable,
    hrays: Seq<u64>,
    vrays: Seq<u64>,
    horiz: Rgb,
    vert: Rgb,
    background: Rgb,
    first: PixelBuffer,
    second: PixelBuffer,
)
    requires
        first.data@ == view_spec(cfg, trig, hrays, vrays, horiz, vert, background),
        second.data@ == view_spec(cfg, trig, hrays, vrays, horiz, vert, background),
    ensures
        first.data@ == second.data@,
{
}

} // verus!
