//! The animated scene: a gradient lattice, a clock, and the renderer over them.
use crate::color::{band_color, band_color_spec, intensity, intensity_spec, Rgba};
use crate::fade::{fade, fade_spec, ONE};
use rand::seq::SliceRandom;
use vstd::prelude::*;

verus! {

/// A gradient vector of the lattice.
pub type Gradient = (i8, i8, i8);

/// A point of noise space in fixed point: each coordinate is a multiple of `1 / ONE`.
pub type Point = (u64, u64, u64);

/// Coordinates of noise space stay below this bound.
pub const COORD_LIMIT: u64 = 0x1_0000_0000_0000;

pub open spec fn unit_sign(v: i8) -> bool {
    v == 1 || v == -1
}

pub open spec fn unit_gradient(g: Gradient) -> bool {
    unit_sign(g.0) && unit_sign(g.1) && unit_sign(g.2)
}

/// Linear index of lattice point `(x, y, z)` in a lattice of `n` gradients laid out with
/// row width `w`; the time axis has period ten and the index wraps round the lattice.
pub open spec fn grad_index(w: int, n: int, x: int, y: int, z: int) -> int {
    (y * w + x * 10 + z % 10) % n
}

/// Blend of `a` and `b` by the fixed-point weight `w`, scaled by `ONE` (`2^16`).
pub open spec fn lerp_spec(a: int, b: int, w: int) -> int {
    (65536 - w) * a + w * b
}

/// The lattice point in fixed point of pixel `(x, y)` at time `clock` (milliseconds), for the
/// lowest octave: space is divided by 256, time by 40 and then by 256. Time is taken modulo
/// ten cells, the lattice's period along that axis.
pub open spec fn pixel_point(x: int, y: int, clock: int) -> (int, int, int) {
    (x * 256, y * 256, (clock % 102400) * 65536 / 10240)
}

pub struct Scene {
    /// Canvas width and height in pixels.
    pub size: (u32, u32),
    /// One gradient per pixel of the canvas.
    pub gradients: Vec<Gradient>,
    /// Wall-clock milliseconds at construction.
    pub start: u128,
    /// Milliseconds from `start` to the last update.
    pub clock: u128,
}

/// Channel `k` of a colour: 0 red, 1 green, 2 blue, 3 alpha.
pub open spec fn channel(c: Rgba, k: int) -> u8 {
    if k == 0 {
        c.0
    } else if k == 1 {
        c.1
    } else if k == 2 {
        c.2
    } else {
        c.3
    }
}

/// Writes the four channels of `c` at `buf[at .. at + 4]`.
fn write_rgba(buf: &mut [u8], at: usize, c: Rgba)
    requires
        at + 4 <= old(buf)@.len(),
    ensures
        final(buf)@.len() == old(buf)@.len(),
        forall|k: int| at <= k < at + 4 ==> #[trigger] final(buf)@[k] == channel(c, k - at),
        forall|k: int|
            0 <= k < old(buf)@.len() && !(at <= k < at + 4) ==> #[trigger] final(buf)@[k]
                == old(buf)@[k],
{
    buf[at] = c.0;
    buf[at + 1] = c.1;
    buf[at + 2] = c.2;
    buf[at + 3] = c.3;
}

/// Relies on rand's `SliceRandom::choose` on a slice, drawing from `thread_rng`: on a
/// non-empty slice it returns one of the slice's elements.
#[verifier::external_body]
fn choose_from(choices: &[i8]) -> (r: i8)
    requires
        choices@.len() > 0,
    ensures
        choices@.contains(r),
{
    *choices.choose(&mut rand::thread_rng()).unwrap()
}

/// Relies on `SystemTime::now`, `SystemTime::duration_since(UNIX_EPOCH)` and
/// `Duration::as_millis`: the milliseconds since the Unix epoch, `None` if the system clock
/// stands before it.
#[verifier::external_body]
fn millis_since_epoch() -> (r: Option<u128>) {
    std::time::SystemTime::now().duration_since(std::time::UNIX_EPOCH).ok().map(|d| d.as_millis())
}

/// Wall-clock milliseconds since the Unix epoch; zero if the system clock stands before it.
pub fn now() -> u128 {
    match millis_since_epoch() {
        Some(ms) => ms,
        None => 0,
    }
}

/// The clock after an update at wall-clock time `now`: time since `start`, never negative.
pub open spec fn clock_at(start: u128, now: u128) -> u128 {
    if now >= start {
        (now - start) as u128
    } else {
        0
    }
}

/// A random sign, `-1` or `1`.
fn random_sign() -> (r: i8)
    ensures
        unit_sign(r),
{
    let choices: [i8; 2] = [-1, 1];
    let r = choose_from(&choices);
    proof {
        let j = choose|j: int| 0 <= j < choices@.len() && choices@[j] == r;
        assert(j == 0 || j == 1);
    }
    r
}

impl Scene {
    pub open spec fn width(&self) -> int {
        self.size.0 as int
    }

    pub open spec fn height(&self) -> int {
        self.size.1 as int
    }

    /// Every gradient has unit signs, and the canvas and lattice are non-empty.
    pub open spec fn wf(&self) -> bool {
        &&& self.size.0 >= 1
        &&& self.size.1 >= 1
        &&& self.gradients.len() > 0
        &&& forall|i: int| 0 <= i < self.gradients.len() ==> unit_gradient(#[trigger] self.gradients@[i])
    }

    pub open spec fn grad_spec(&self, x: int, y: int, z: int) -> Gradient {
        self.gradients@[grad_index(self.width(), self.gradients.len() as int, x, y, z)]
    }

    /// Dot product of the gradient at corner `(cx + ox, cy + oy, cz + oz)` with the
    /// displacement from that corner to the fractions `(tx, ty, tz)` of cell `(cx, cy, cz)`.
    pub open spec fn corner_spec(
        &self,
        cx: int,
        cy: int,
        cz: int,
        ox: int,
        oy: int,
        oz: int,
        tx: int,
        ty: int,
        tz: int,
    ) -> int {
        let g = self.grad_spec(cx + ox, cy + oy, cz + oz);
        g.0 * (tx - ox * ONE) + g.1 * (ty - oy * ONE) + g.2 * (tz - oz * ONE)
    }

    /// Noise within cell `(cx, cy, cz)` at fractions `(tx, ty, tz)` of it, in units of `ONE^4`:
    /// the eight corner values blended along x, then y, then z, each by its axis' smoothstep.
    pub open spec fn cell_noise(&self, cx: int, cy: int, cz: int, tx: int, ty: int, tz: int) -> int {
        let fx = fade_spec(tx);
        let fy = fade_spec(ty);
        let fz = fade_spec(tz);
        let x00 = lerp_spec(
            self.corner_spec(cx, cy, cz, 0, 0, 0, tx, ty, tz),
            self.corner_spec(cx, cy, cz, 1, 0, 0, tx, ty, tz),
            fx,
        );
        let x10 = lerp_spec(
            self.corner_spec(cx, cy, cz, 0, 1, 0, tx, ty, tz),
            self.corner_spec(cx, cy, cz, 1, 1, 0, tx, ty, tz),
            fx,
        );
        let x01 = lerp_spec(
            self.corner_spec(cx, cy, cz, 0, 0, 1, tx, ty, tz),
            self.corner_spec(cx, cy, cz, 1, 0, 1, tx, ty, tz),
            fx,
        );
        let x11 = lerp_spec(
            self.corner_spec(cx, cy, cz, 0, 1, 1, tx, ty, tz),
            self.corner_spec(cx, cy, cz, 1, 1, 1, tx, ty, tz),
            fx,
        );
        lerp_spec(lerp_spec(x00, x10, fy), lerp_spec(x01, x11, fy), fz)
    }

    /// Noise at a fixed-point point: the cell is the floor of each coordinate, the
    /// fractions what is left.
    pub open spec fn noise_spec(&self, p: (int, int, int)) -> int {
        self.cell_noise(p.0 / (ONE as int), p.1 / (ONE as int), p.2 / (ONE as int), p.0 % (ONE as int), p.1 % (ONE as int), p.2 % (ONE as int))
    }

    /// Three octaves at doubling frequency and halving amplitude, in units of `4 ONE^4`.
    pub open spec fn fractal_spec(&self, p: (int, int, int)) -> int {
        4 * self.noise_spec(p) + 2 * self.noise_spec((2 * p.0, 2 * p.1, 2 * p.2)) + self.noise_spec(
            (4 * p.0, 4 * p.1, 4 * p.2),
        )
    }

    /// The colour of pixel `j` of the canvas, counted in row-major order.
    #[verifier::opaque]
    pub open spec fn pixel_color(&self, j: int) -> Rgba {
        let p = pixel_point(j % self.width(), j / self.width(), self.clock as int);
        band_color_spec(intensity_spec(self.fractal_spec(p)))
    }

    /// Byte `k` (0 red, 1 green, 2 blue, 3 alpha) of pixel `j`.
    pub open spec fn pixel_byte(&self, j: int, k: int) -> u8 {
        channel(self.pixel_color(j), k)
    }

    /// The bytes of `count` pixels from pixel `first` on.
    pub open spec fn frame_bytes(&self, first: int, count: int) -> Seq<u8> {
        Seq::new((4 * count) as nat, |i: int| self.pixel_byte(first + i / 4, i % 4))
    }

    /// A scene over the given lattice, started at `start` with its clock at zero.
    pub fn with_gradients(width: u32, height: u32, gradients: Vec<Gradient>, start: u128) -> (r: Scene)
        requires
            width >= 1,
            height >= 1,
            gradients.len() > 0,
            forall|i: int| 0 <= i < gradients.len() ==> unit_gradient(#[trigger] gradients@[i]),
        ensures
            r.wf(),
            r.size == (width, height),
            r.gradients@ == gradients@,
            r.start == start,
            r.clock == 0,
    {
        Scene { size: (width, height), gradients, start, clock: 0 }
    }

    /// A scene of the given size with one random gradient per pixel, started now.
    pub fn new(width: u32, height: u32) -> (r: Scene)
        requires
            width >= 1,
            height >= 1,
            width * height <= usize::MAX,
        ensures
            r.wf(),
            r.size == (width, height),
            r.gradients.len() == width * height,
            r.clock == 0,
    {
        proof {
            assert(width * height >= 1) by (nonlinear_arith)
                requires
                    width >= 1,
                    height >= 1,
            ;
        }
        let g_size: usize = (width as usize) * (height as usize);
        let mut gradients: Vec<Gradient> = Vec::new();
        let mut i: usize = 0;
        while i < g_size
            invariant
                i <= g_size,
                gradients.len() == i,
                forall|k: int| 0 <= k < gradients.len() ==> unit_gradient(#[trigger] gradients@[k]),
            decreases g_size - i,
        {
            let gx = random_sign();
            let gy = random_sign();
            let gz = random_sign();
            gradients.push((gx, gy, gz));
            i = i + 1;
        }
        Scene::with_gradients(width, height, gradients, now())
    }

    /// The gradient at lattice point `p`.
    pub fn grad(&self, p: (u64, u64, u64)) -> (g: Gradient)
        requires
            self.wf(),
            p.0 <= COORD_LIMIT,
            p.1 <= COORD_LIMIT,
        ensures
            g == self.grad_spec(p.0 as int, p.1 as int, p.2 as int),
            unit_gradient(g),
    {
        proof {
            assert(p.1 * self.size.0 <= 0x1_0000_0000_0000 * 0x1_0000_0000) by (nonlinear_arith)
                requires
                    p.1 <= 0x1_0000_0000_0000,
                    self.size.0 <= 0x1_0000_0000,
            ;
        }
        let n = self.gradients.len() as u128;
        let i = ((p.1 as u128) * (self.size.0 as u128) + (p.0 as u128) * 10 + (p.2 % 10) as u128) % n;
        self.gradients[i as usize]
    }
}

/// `g . (dx, dy, dz)` for a gradient of unit signs.
fn dot(g: Gradient, dx: i128, dy: i128, dz: i128) -> (r: i128)
    requires
        unit_gradient(g),
        -ONE <= dx <= ONE,
        -ONE <= dy <= ONE,
        -ONE <= dz <= ONE,
    ensures
        r == g.0 * dx + g.1 * dy + g.2 * dz,
        -3 * ONE <= r <= 3 * ONE,
{
    let a = if g.0 > 0 { dx } else { -dx };
    let b = if g.1 > 0 { dy } else { -dy };
    let c = if g.2 > 0 { dz } else { -dz };
    a + b + c
}

/// A blend by a weight in `[0, 16 ONE]` of values bounded by `m` is bounded by `32 ONE m`
/// (`ONE` is `2^16`).
proof fn lemma_lerp_bound(a: int, b: int, w: int, m: int)
    requires
        0 <= w <= 1048576,
        0 <= m,
        -m <= a <= m,
        -m <= b <= m,
    ensures
        -983040 * m <= (65536 - w) * a <= 983040 * m,
        -1048576 * m <= w * b <= 1048576 * m,
        -2097152 * m <= lerp_spec(a, b, w) <= 2097152 * m,
{
    assert(-983040 * m <= (65536 - w) * a <= 983040 * m) by (nonlinear_arith)
        requires
            0 <= w <= 1048576,
            -m <= a <= m,
            0 <= m,
    ;
    assert(-1048576 * m <= w * b <= 1048576 * m) by (nonlinear_arith)
        requires
            0 <= w <= 1048576,
            -m <= b <= m,
            0 <= m,
    ;
    assert(lerp_spec(a, b, w) == (65536 - w) * a + w * b);
}

/// `lerp_spec(a, b, w)` in machine integers.
fn lerp(a: i128, b: i128, w: i128) -> (r: i128)
    requires
        0 <= w <= 16 * ONE,
        -1237940039285380274899124224 <= a <= 1237940039285380274899124224,
        -1237940039285380274899124224 <= b <= 1237940039285380274899124224,
    ensures
        r == lerp_spec(a as int, b as int, w as int),
{
    proof {
        lemma_lerp_bound(a as int, b as int, w as int, 1237940039285380274899124224);
    }
    (65536 - w) * a + w * b
}

/// Bound on the magnitude of a single noise value, in units of `ONE^4`.
pub const NOISE_BOUND: i128 = 1813388729421943762059264;

/// The fixed-point point of pixel `(x, y)` at time `clock`, as [`pixel_point`] gives it.
pub fn pixel_point_of(x: u32, y: u32, clock: u128) -> (p: Point)
    ensures
        (p.0 as int, p.1 as int, p.2 as int) == pixel_point(x as int, y as int, clock as int),
        p.0 < 0x100_0000_0000,
        p.1 < 0x100_0000_0000,
{
    let z = (clock % 102400) * 65536 / 10240;
    ((x as u64) * 256, (y as u64) * 256, z as u64)
}

/// Rows per band when `height` rows are shared among `workers` bands.
pub fn rows_per_band(height: u32, workers: u32) -> (r: u64)
    requires
        workers > 0,
    ensures
        r == height / workers + 1,
{
    (height / workers) as u64 + 1
}

impl Scene {
    /// The scene after an update at wall-clock time `now`.
    pub open spec fn updated(self, now: u128) -> Scene {
        Scene { clock: clock_at(self.start, now), ..self }
    }

    /// Noise at the fixed-point point `p`, in units of `ONE^4`.
    pub fn noise(&self, p: Point) -> (r: i128)
        requires
            self.wf(),
            p.0 < COORD_LIMIT,
            p.1 < COORD_LIMIT,
        ensures
            r == self.noise_spec((p.0 as int, p.1 as int, p.2 as int)),
            -NOISE_BOUND <= r <= NOISE_BOUND,
    {
        let cx = p.0 / 65536;
        let cy = p.1 / 65536;
        let cz = p.2 / 65536;
        let tx = (p.0 % 65536) as i128;
        let ty = (p.1 % 65536) as i128;
        let tz = (p.2 % 65536) as i128;

        let g0 = self.grad((cx, cy, cz));
        let g1 = self.grad((cx + 1, cy, cz));
        let g2 = self.grad((cx, cy + 1, cz));
        let g3 = self.grad((cx + 1, cy + 1, cz));
        let g4 = self.grad((cx, cy, cz + 1));
        let g5 = self.grad((cx + 1, cy, cz + 1));
        let g6 = self.grad((cx, cy + 1, cz + 1));
        let g7 = self.grad((cx + 1, cy + 1, cz + 1));

        let d0 = dot(g0, tx, ty, tz);
        let d1 = dot(g1, tx - ONE, ty, tz);
        let d2 = dot(g2, tx, ty - ONE, tz);
        let d3 = dot(g3, tx - ONE, ty - ONE, tz);
        let d4 = dot(g4, tx, ty, tz - ONE);
        let d5 = dot(g5, tx - ONE, ty, tz - ONE);
        let d6 = dot(g6, tx, ty - ONE, tz - ONE);
        let d7 = dot(g7, tx - ONE, ty - ONE, tz - ONE);

        let fade_t0 = fade(tx);
        let fade_t1 = fade(ty);
        let fade_t2 = fade(tz);

        proof {
            lemma_lerp_bound(d0 as int, d1 as int, fade_t0 as int, 196608);
            lemma_lerp_bound(d2 as int, d3 as int, fade_t0 as int, 196608);
            lemma_lerp_bound(d4 as int, d5 as int, fade_t0 as int, 196608);
            lemma_lerp_bound(d6 as int, d7 as int, fade_t0 as int, 196608);
        }
        let p0p1 = lerp(d0, d1, fade_t0);
        let p2p3 = lerp(d2, d3, fade_t0);
        let p4p5 = lerp(d4, d5, fade_t0);
        let p6p7 = lerp(d6, d7, fade_t0);
        proof {
            lemma_lerp_bound(p0p1 as int, p2p3 as int, fade_t1 as int, 412316860416);
            lemma_lerp_bound(p4p5 as int, p6p7 as int, fade_t1 as int, 412316860416);
        }
        let y1 = lerp(p0p1, p2p3, fade_t1);
        let y2 = lerp(p4p5, p6p7, fade_t1);
        proof {
            lemma_lerp_bound(y1 as int, y2 as int, fade_t2 as int, 864691128455135232);
        }
        lerp(y1, y2, fade_t2)
    }

    /// Three octaves of noise at `p`, `2 p` and `4 p`, weighted 4, 2 and 1: the sum with
    /// amplitudes 1, 1/2 and 1/4, in units of `4 ONE^4`.
    pub fn fractal(&self, p: Point) -> (r: i128)
        requires
            self.wf(),
            p.0 < COORD_LIMIT / 4,
            p.1 < COORD_LIMIT / 4,
            p.2 < COORD_LIMIT / 4,
        ensures
            r == self.fractal_spec((p.0 as int, p.1 as int, p.2 as int)),
            -7 * NOISE_BOUND <= r <= 7 * NOISE_BOUND,
    {
        let n0 = self.noise(p);
        let n1 = self.noise((2 * p.0, 2 * p.1, 2 * p.2));
        let n2 = self.noise((4 * p.0, 4 * p.1, 4 * p.2));
        4 * n0 + 2 * n1 + n2
    }

    /// The colour of pixel `j` of the canvas.
    pub fn pixel(&self, j: usize) -> (c: Rgba)
        requires
            self.wf(),
            j < self.width() * self.height(),
        ensures
            c == self.pixel_color(j as int),
    {
        let width = self.size.0 as usize;
        proof {
            vstd::arithmetic::div_mod::lemma_multiply_divide_lt(j as int, width as int, self.height());
        }
        let x = (j % width) as u32;
        let y = (j / width) as u32;
        let p = pixel_point_of(x, y, self.clock);
        proof {
            reveal(Scene::pixel_color);
        }
        band_color(intensity(self.fractal(p)))
    }

    /// Renders pixels `first ..` of the canvas into `band`, four bytes (RGBA) per pixel, for
    /// as many whole pixels as `band` holds; trailing bytes are left as they were.
    pub fn render_band(&self, band: &mut [u8], first: usize)
        requires
            self.wf(),
            first + old(band)@.len() / 4 <= self.width() * self.height(),
            first + old(band)@.len() / 4 <= usize::MAX,
        ensures
            final(band)@.len() == old(band)@.len(),
            forall|k: int|
                0 <= k < 4 * (old(band)@.len() / 4) ==> #[trigger] final(band)@[k] == self.pixel_byte(
                    first + k / 4,
                    k % 4,
                ),
            forall|k: int|
                4 * (old(band)@.len() / 4) <= k < old(band)@.len() ==> #[trigger] final(band)@[k]
                    == old(band)@[k],
    {
        let ghost orig = band@;
        let len = band.len();
        let n = len / 4;
        let width = self.size.0 as usize;
        let mut i: usize = 0;
        while i < n
            invariant
                self.wf(),
                n == orig.len() / 4,
                len == orig.len(),
                width == self.width(),
                first + n <= self.width() * self.height(),
                first + n <= usize::MAX,
                i <= n,
                band@.len() == orig.len(),
                forall|k: int| 0 <= k < 4 * i ==> #[trigger] band@[k] == self.pixel_byte(first + k / 4, k % 4),
                forall|k: int| 4 * i <= k < orig.len() ==> #[trigger] band@[k] == orig[k],
            decreases n - i,
        {
            let c = self.pixel(first + i);
            write_rgba(band, 4 * i, c);
            proof {
                assert forall|k: int| 0 <= k < 4 * (i + 1) implies #[trigger] band@[k] == self.pixel_byte(
                    first + k / 4,
                    k % 4,
                ) by {
                    if k >= 4 * i {
                        assert(k / 4 == i);
                        assert(k % 4 == k - 4 * i);
                    }
                }
            }
            i = i + 1;
        }
    }

    /// Renders the whole canvas into `frame`, four bytes (RGBA) per pixel in row-major order.
    pub fn draw(&self, frame: &mut [u8])
        requires
            self.wf(),
            old(frame)@.len() == 4 * (self.width() * self.height()),
        ensures
            final(frame)@ == self.frame_bytes(0, self.width() * self.height()),
    {
        let ghost total = self.width() * self.height();
        assert(4 * total / 4 == total);
        let len = frame.len();
        self.render_band(frame, 0);
        assert forall|k: int| 0 <= k < 4 * total implies #[trigger] frame@[k] == self.frame_bytes(0, total)[k] by {
        }
        assert(frame@ =~= self.frame_bytes(0, total));
    }

    /// Sets the clock to the time since `start` at wall-clock time `now` (zero if `now` is
    /// earlier).
    pub fn update_at(&mut self, now: u128)
        ensures
            *final(self) == old(self).updated(now),
    {
        self.clock = if now >= self.start { now - self.start } else { 0 };
    }

    /// Sets the clock to the time since `start`, read from the system clock.
    pub fn update(&mut self)
        ensures
            exists|t: u128| *final(self) == #[trigger] old(self).updated(t),
    {
        let t = now();
        self.update_at(t);
    }
}

/// Any run of whole pixels cut from the full frame is exactly what rendering that run on
/// its own gives: bands rendered apart, in any order, assemble into the sequential frame.
pub proof fn lemma_band_of_frame(s: Scene, total: int, first: int, count: int)
    requires
        0 <= first,
        0 <= count,
        first + count <= total,
    ensures
        s.frame_bytes(0, total).subrange(4 * first, 4 * (first + count)) == s.frame_bytes(
            first,
            count,
        ),
{
    assert forall|i: int| 0 <= i < 4 * count implies #[trigger] s.frame_bytes(0, total).subrange(
        4 * first,
        4 * (first + count),
    )[i] == s.frame_bytes(first, count)[i] by {
        assert((4 * first + i) / 4 == first + i / 4);
        assert((4 * first + i) % 4 == i % 4);
    }
    assert(s.frame_bytes(0, total).subrange(4 * first, 4 * (first + count)) =~= s.frame_bytes(
        first,
        count,
    ));
}

/// Two adjacent runs of pixels, rendered one after the other, make the run that covers both.
pub proof fn lemma_frame_concat(s: Scene, first: int, m: int, k: int)
    requires
        0 <= m,
        0 <= k,
    ensures
        s.frame_bytes(first, m) + s.frame_bytes(first + m, k) == s.frame_bytes(first, m + k),
{
    assert forall|i: int| 0 <= i < 4 * (m + k) implies #[trigger] (s.frame_bytes(first, m)
        + s.frame_bytes(first + m, k))[i] == s.frame_bytes(first, m + k)[i] by {
        if i >= 4 * m {
            assert((i - 4 * m) / 4 == i / 4 - m);
            assert((i - 4 * m) % 4 == i % 4);
        }
    }
    assert(s.frame_bytes(first, m) + s.frame_bytes(first + m, k) =~= s.frame_bytes(first, m + k));
}

/// Updating twice at the same instant is one update: the scene, and so every frame drawn
/// from it, is the same.
pub proof fn lemma_update_twice(s: Scene, now: u128, count: int)
    ensures
        s.updated(now).updated(now) == s.updated(now),
        s.updated(now).updated(now).frame_bytes(0, count) == s.updated(now).frame_bytes(0, count),
{
}

/// Noise is continuous across a cell face normal to x: the far face of a cell gives the
/// value that the near face of the next cell gives.
pub proof fn lemma_continuous_x(s: Scene, cx: int, cy: int, cz: int, ty: int, tz: int)
    ensures
        s.cell_noise(cx, cy, cz, ONE as int, ty, tz) == s.cell_noise(cx + 1, cy, cz, 0, ty, tz),
{
    crate::fade::lemma_fade_fixed_points();
}

/// Noise is continuous across a cell face normal to y.
pub proof fn lemma_continuous_y(s: Scene, cx: int, cy: int, cz: int, tx: int, tz: int)
    ensures
        s.cell_noise(cx, cy, cz, tx, ONE as int, tz) == s.cell_noise(cx, cy + 1, cz, tx, 0, tz),
{
    crate::fade::lemma_fade_fixed_points();
}

/// Noise is continuous across a cell face normal to the time axis.
pub proof fn lemma_continuous_z(s: Scene, cx: int, cy: int, cz: int, tx: int, ty: int)
    ensures
        s.cell_noise(cx, cy, cz, tx, ty, ONE as int) == s.cell_noise(cx, cy, cz + 1, tx, ty, 0),
{
    crate::fade::lemma_fade_fixed_points();
}

/// Where each octave lies in `[-1, 1]` (`ONE^4` in fixed point), the three-octave sum lies in
/// `[-1.75, 1.75]` (`7 ONE^4` in units of `4 ONE^4`).
pub proof fn lemma_fractal_bound(s: Scene, p: (int, int, int))
    requires
        -18446744073709551616 <= s.noise_spec(p) <= 18446744073709551616,
        -18446744073709551616 <= s.noise_spec((2 * p.0, 2 * p.1, 2 * p.2)) <= 18446744073709551616,
        -18446744073709551616 <= s.noise_spec((4 * p.0, 4 * p.1, 4 * p.2)) <= 18446744073709551616,
    ensures
        -7 * 18446744073709551616 <= s.fractal_spec(p) <= 7 * 18446744073709551616,
{
}

} // verus!
