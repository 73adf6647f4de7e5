use vstd::prelude::*;
use vstd::arithmetic::div_mod::{lemma_basic_div, lemma_fundamental_div_mod_converse};
use crate::color::{Rgb, MAX_HSV_DENOMINATOR, channel, hsv_spec, hsv_to_rgb};

verus! {

/// Fixed-point numbers here are integers in units of `1 / FIX_ONE`.
pub const FIX_ONE: i64 = 100000000;

/// The smallest zoom, in units of `1 / FIX_ONE`; the largest is `FIX_ONE`.
pub const MIN_ZOOM: i64 = 10;

pub const MIN_RESOLUTION: u32 = 100;

pub const MAX_RESOLUTION: u32 = 750;

pub const MIN_ITERATIONS: u32 = 25;

pub const MAX_ITERATIONS: u32 = 255;

/// The settings of the escape-time generator; zoom, resolution and
/// iteration cap are clamped to their ranges before use.
#[derive(Clone, Copy, Debug, PartialEq, Eq, Structural)]
pub struct EscapeParams {
    /// How far the view is zoomed in, in `[MIN_ZOOM, FIX_ONE]`.
    pub zoom: i64,
    /// Grid cells per side, in `[MIN_RESOLUTION, MAX_RESOLUTION]`.
    pub resolution: u32,
    /// The iteration cap, in `[MIN_ITERATIONS, MAX_ITERATIONS]`.
    pub max_iterations: u32,
    /// A point escapes once `|z|^2` reaches this.
    pub threshold: u32,
}

/// A setting the escape-time generator cannot draw.
#[derive(Clone, Copy, Debug, PartialEq, Eq, Structural)]
pub enum EscapeError {
    /// The grid has no cells.
    ZeroResolution,
}

pub open spec fn escape_error(p: EscapeParams) -> Option<EscapeError> {
    if p.resolution == 0 {
        Some(EscapeError::ZeroResolution)
    } else {
        None
    }
}

/// What the generator shows for `p`: the picture, or nothing when `p` is invalid.
pub open spec fn escape_output(p: EscapeParams) -> Seq<Pixel> {
    if escape_error(p) is None {
        mandelbrot_spec(p)
    } else {
        seq![]
    }
}

/// One grid cell of the escape-time picture.
#[derive(Clone, Copy, Debug, PartialEq, Eq, Structural)]
pub struct Pixel {
    pub x: u32,
    pub y: u32,
    pub color: Rgb,
}

pub open spec fn clamp(v: int, lo: int, hi: int) -> int {
    if v < lo {
        lo
    } else if v > hi {
        hi
    } else {
        v
    }
}

pub open spec fn zoom_of(p: EscapeParams) -> int {
    clamp(p.zoom as int, MIN_ZOOM as int, FIX_ONE as int)
}

pub open spec fn resolution_of(p: EscapeParams) -> nat {
    clamp(p.resolution as int, MIN_RESOLUTION as int, MAX_RESOLUTION as int) as nat
}

pub open spec fn iterations_of(p: EscapeParams) -> nat {
    clamp(p.max_iterations as int, MIN_ITERATIONS as int, MAX_ITERATIONS as int) as nat
}

pub open spec fn threshold_of(p: EscapeParams) -> nat {
    p.threshold as nat
}

/// How far each bound of the view moves in: `1 - zoom`.
pub open spec fn shrink(p: EscapeParams) -> int {
    FIX_ONE - zoom_of(p)
}

pub open spec fn re_min(p: EscapeParams) -> int {
    -2 * FIX_ONE + shrink(p)
}

pub open spec fn re_max(p: EscapeParams) -> int {
    47000000 - shrink(p)
}

pub open spec fn im_min(p: EscapeParams) -> int {
    -92000000 + shrink(p)
}

pub open spec fn im_max(p: EscapeParams) -> int {
    132000000 - shrink(p)
}

/// Sample `k` of `n` evenly spaced from `lo` to `hi`, rounded down.
pub open spec fn sample(lo: int, hi: int, k: int, n: int) -> int {
    lo + (hi - lo) * k / (n - 1)
}

/// `a / FIX_ONE`, rounded toward zero.
pub open spec fn tdiv(a: int) -> int {
    if a >= 0 {
        a / FIX_ONE as int
    } else {
        -((-a) / FIX_ONE as int)
    }
}

/// The iteration count reached from `z = re + im i` at count `i`: while
/// `i < max` and `|z|^2` stays below `limit`, `z` becomes `z^2 + c`.
pub open spec fn escape_from(
    re: int,
    im: int,
    cre: int,
    cim: int,
    i: nat,
    max: nat,
    limit: int,
) -> nat
    decreases max - i,
{
    if i < max && re * re + im * im < limit {
        escape_from(
            tdiv(re * re - im * im) + cre,
            tdiv(2 * re * im) + cim,
            cre,
            cim,
            i + 1,
            max,
            limit,
        )
    } else {
        i
    }
}

/// The escape count of `c`: starting at `z = c` with count 1, how far the
/// count gets before `|z|^2 >= threshold` or the count reaches `max`.
pub open spec fn escape_count(cre: int, cim: int, max: nat, threshold: nat) -> nat {
    escape_from(cre, cim, cre, cim, 1, max, threshold * FIX_ONE * FIX_ONE)
}

/// The color of a count: hue `360 * count / max` degrees, full saturation,
/// and value 1 for points that escaped, 0 for those that did not.
pub open spec fn escape_color(count: nat, max: nat) -> Rgb {
    hsv_spec(6 * count, max, max, if count < max { max } else { 0 })
}

pub open spec fn pixel_spec(p: EscapeParams, x: nat, y: nat) -> Pixel {
    let n = resolution_of(p) as int;
    let max = iterations_of(p);
    let count = escape_count(
        sample(re_min(p), re_max(p), x as int, n),
        sample(im_min(p), im_max(p), y as int, n),
        max,
        threshold_of(p),
    );
    Pixel { x: x as u32, y: y as u32, color: escape_color(count, max) }
}

/// The whole grid, column by column: cell `k` is at `(k / n, k % n)`.
pub open spec fn mandelbrot_spec(p: EscapeParams) -> Seq<Pixel> {
    let n = resolution_of(p);
    Seq::new(n * n, |k: int| pixel_spec(p, (k / n as int) as nat, (k % n as int) as nat))
}

fn tdiv_exec(a: i128) -> (r: i128)
    requires
        -0x4000_0000_0000_0000_0000_0000_0000_0000 <= a <= 0x4000_0000_0000_0000_0000_0000_0000_0000,
    ensures
        r == tdiv(a as int),
{
    if a >= 0 {
        a / 100000000
    } else {
        -((-a) / 100000000)
    }
}

/// A bound on the parts of a point that has not escaped at once.
pub const C_BOUND: i128 = 7000000000000;

/// A bound on the parts of `z` while the iteration runs.
pub const Z_BOUND: i128 = 500000000000000000;

/// The escape count of `c = cre + cim i`, both in fixed point.
pub fn escape_iterations(cre: i64, cim: i64, max_iterations: u32, threshold: u32) -> (r: u32)
    ensures
        r == escape_count(cre as int, cim as int, max_iterations as nat, threshold as nat),
{
    let limit: i128 = (threshold as i128) * 100000000 * 100000000;
    assert(0 <= cre * cre <= 0x4000_0000_0000_0000_0000_0000_0000_0000) by (nonlinear_arith)
        requires
            i64::MIN <= cre <= i64::MAX,
    ;
    assert(0 <= cim * cim <= 0x4000_0000_0000_0000_0000_0000_0000_0000) by (nonlinear_arith)
        requires
            i64::MIN <= cim <= i64::MAX,
    ;
    let cr2 = (cre as i128) * (cre as i128);
    let ci2 = (cim as i128) * (cim as i128);
    if cr2 >= limit || ci2 >= limit {
        return 1;
    }
    assert(-C_BOUND < cre < C_BOUND) by (nonlinear_arith)
        requires
            cre * cre < limit,
            limit <= 0xffff_ffff * 100000000 * 100000000,
    ;
    assert(-C_BOUND < cim < C_BOUND) by (nonlinear_arith)
        requires
            cim * cim < limit,
            limit <= 0xffff_ffff * 100000000 * 100000000,
    ;
    let mut re: i64 = cre;
    let mut im: i64 = cim;
    let mut i: u32 = 1;
    let mut escaped = false;
    while i < max_iterations && !escaped
        invariant
            1 <= i,
            i <= max_iterations || i == 1,
            limit == threshold * FIX_ONE * FIX_ONE,
            0 <= limit <= 0xffff_ffff * 100000000 * 100000000,
            -C_BOUND < cre < C_BOUND,
            -C_BOUND < cim < C_BOUND,
            -Z_BOUND <= re <= Z_BOUND,
            -Z_BOUND <= im <= Z_BOUND,
            escaped ==> re * re + im * im >= limit,
            escape_from(re as int, im as int, cre as int, cim as int, i as nat, max_iterations as nat, limit as int)
                == escape_count(cre as int, cim as int, max_iterations as nat, threshold as nat),
        decreases max_iterations - i + (if escaped { 0int } else { 1int }),
    {
        assert(0 <= re * re <= Z_BOUND * Z_BOUND) by (nonlinear_arith)
            requires
                -Z_BOUND <= re <= Z_BOUND,
        ;
        assert(0 <= im * im <= Z_BOUND * Z_BOUND) by (nonlinear_arith)
            requires
                -Z_BOUND <= im <= Z_BOUND,
        ;
        assert(-2 * Z_BOUND * Z_BOUND <= 2 * re * im <= 2 * Z_BOUND * Z_BOUND) by (nonlinear_arith)
            requires
                -Z_BOUND <= re <= Z_BOUND,
                -Z_BOUND <= im <= Z_BOUND,
        ;
        let r2 = (re as i128) * (re as i128);
        let i2 = (im as i128) * (im as i128);
        if r2 + i2 >= limit {
            escaped = true;
        } else {
            let a = r2 - i2;
            let b = 2 * (re as i128) * (im as i128);
            assert(-(r2 + i2) <= b <= r2 + i2) by (nonlinear_arith)
                requires
                    r2 == re * re,
                    i2 == im * im,
                    b == 2 * re * im,
            ;
            let nre = tdiv_exec(a) + (cre as i128);
            let nim = tdiv_exec(b) + (cim as i128);
            re = nre as i64;
            im = nim as i64;
            i = i + 1;
        }
    }
    i
}

/// The color of an escape count out of `max_iterations`.
pub fn escape_color_exec(count: u32, max_iterations: u32) -> (c: Rgb)
    requires
        0 < max_iterations <= MAX_HSV_DENOMINATOR,
    ensures
        c == escape_color(count as nat, max_iterations as nat),
{
    let max = max_iterations as u64;
    let v: u64 = if count < max_iterations {
        max
    } else {
        0
    };
    hsv_to_rgb(6 * (count as u64), max, max, v)
}

fn sample_exec(lo: i64, hi: i64, k: u32, n: u32) -> (r: i64)
    requires
        lo < hi,
        hi - lo <= 3 * FIX_ONE,
        2 <= n <= MAX_RESOLUTION,
        k < n,
    ensures
        r == sample(lo as int, hi as int, k as int, n as int),
        lo <= r <= hi,
{
    let span = (hi - lo) as u64;
    assert(span * k <= 3 * FIX_ONE * 750) by (nonlinear_arith)
        requires
            span <= 3 * FIX_ONE,
            k < 750,
    ;
    let prod = span * (k as u64);
    assert(prod <= span * ((n - 1) as u64)) by (nonlinear_arith)
        requires
            prod == span * k,
            k <= n - 1,
    ;
    let off = prod / ((n - 1) as u64);
    assert(off <= span) by (nonlinear_arith)
        requires
            off == prod / ((n - 1) as u64),
            prod <= span * (n - 1),
            n >= 2,
    ;
    lo + (off as i64)
}

proof fn lemma_index(k: int, n: int, x: int, y: int)
    requires
        n > 0,
        0 <= y < n,
        k == x * n + y,
    ensures
        k / n == x,
        k % n == y,
{
    lemma_fundamental_div_mod_converse(k, n, x, y);
}

/// The escape-time picture for `p`, one cell per grid point, column by
/// column; a zero resolution is an error, any other is clamped to its range.
pub fn mandelbrot_pixels(p: &EscapeParams) -> (r: Result<Vec<Pixel>, EscapeError>)
    ensures
        match r {
            Ok(v) => escape_error(*p) is None && v@ == mandelbrot_spec(*p),
            Err(e) => escape_error(*p) == Some(e),
        },
{
    if p.resolution == 0 {
        return Err(EscapeError::ZeroResolution);
    }
    let zoom: i64 = if p.zoom < MIN_ZOOM {
        MIN_ZOOM
    } else if p.zoom > FIX_ONE {
        FIX_ONE
    } else {
        p.zoom
    };
    let n: u32 = if p.resolution < MIN_RESOLUTION {
        MIN_RESOLUTION
    } else if p.resolution > MAX_RESOLUTION {
        MAX_RESOLUTION
    } else {
        p.resolution
    };
    let max: u32 = if p.max_iterations < MIN_ITERATIONS {
        MIN_ITERATIONS
    } else if p.max_iterations > MAX_ITERATIONS {
        MAX_ITERATIONS
    } else {
        p.max_iterations
    };
    let threshold: u32 = p.threshold;
    let shrink = FIX_ONE - zoom;
    let re_lo = -2 * FIX_ONE + shrink;
    let re_hi = 47000000 - shrink;
    let im_lo = -92000000 + shrink;
    let im_hi = 132000000 - shrink;
    let ghost nn = n as int;
    let mut out: Vec<Pixel> = Vec::new();
    let mut x: u32 = 0;
    while x < n
        invariant
            x <= n,
            n as nat == resolution_of(*p),
            max as nat == iterations_of(*p),
            threshold as nat == threshold_of(*p),
            re_lo == re_min(*p),
            re_hi == re_max(*p),
            im_lo == im_min(*p),
            im_hi == im_max(*p),
            zoom == zoom_of(*p),
            MIN_RESOLUTION <= n <= MAX_RESOLUTION,
            nn == n as int,
            out@.len() == x * n,
            forall|k: int|
                0 <= k < out@.len() ==> out@[k] == pixel_spec(*p, (k / nn) as nat, (k % nn) as nat),
        decreases n - x,
    {
        let mut y: u32 = 0;
        while y < n
            invariant
                x < n,
                y <= n,
                n as nat == resolution_of(*p),
                max as nat == iterations_of(*p),
                threshold as nat == threshold_of(*p),
                re_lo == re_min(*p),
                re_hi == re_max(*p),
                im_lo == im_min(*p),
                im_hi == im_max(*p),
                zoom == zoom_of(*p),
                MIN_RESOLUTION <= n <= MAX_RESOLUTION,
                nn == n as int,
                out@.len() == x * n + y,
                forall|k: int|
                    0 <= k < out@.len() ==> out@[k] == pixel_spec(*p, (k / nn) as nat, (k % nn) as nat),
            decreases n - y,
        {
            let cre = sample_exec(re_lo, re_hi, x, n);
            let cim = sample_exec(im_lo, im_hi, y, n);
            let count = escape_iterations(cre, cim, max, threshold);
            let color = escape_color_exec(count, max);
            proof {
                lemma_index(out@.len() as int, nn, x as int, y as int);
            }
            out.push(Pixel { x, y, color });
            y = y + 1;
        }
        assert(x * n + n == (x + 1) * n) by (nonlinear_arith);
        x = x + 1;
    }
    assert(out@ =~= mandelbrot_spec(*p));
    Ok(out)
}

proof fn lemma_origin_from(i: nat, max: nat, limit: int)
    requires
        i <= max,
        limit > 0,
    ensures
        escape_from(0, 0, 0, 0, i, max, limit) == max,
    decreases max - i,
{
    if i < max {
        assert(tdiv(0int * 0int - 0int * 0int) == 0);
        assert(tdiv(2 * 0int * 0int) == 0);
        lemma_origin_from(i + 1, max, limit);
    }
}

/// The point `c = 0` never escapes: its count reaches the cap exactly, and
/// the cap's color is black (value 0).
pub proof fn lemma_origin_never_escapes(max: nat, threshold: nat)
    requires
        max >= 1,
        threshold >= 1,
    ensures
        escape_count(0, 0, max, threshold) == max,
        escape_color(max, max) == (Rgb { r: 0, g: 0, b: 0 }),
{
    assert(threshold * FIX_ONE * FIX_ONE > 0) by (nonlinear_arith)
        requires
            threshold >= 1,
    ;
    lemma_origin_from(1, max, threshold * FIX_ONE * FIX_ONE);
    let d3 = max * max * max;
    assert(d3 > 0) by (nonlinear_arith)
        requires
            max >= 1,
            d3 == max * max * max,
    ;
    assert(0 * max * max == 0);
    lemma_basic_div(d3 - 1, d3 as int);
    assert(((0 + d3 - 1) as nat) / d3 == 0);
    let f: nat = (6 * max) % max;
    assert(0 * ((max - max) as nat) * max == 0);
    assert(0 * ((max * max - f * max) as nat) == 0);
    assert(0 * ((max * max - ((max - f) as nat) * max) as nat) == 0);
}

/// With the usual threshold 4, a point on the real axis farther than 2 from
/// the origin escapes within two iterations.
pub proof fn lemma_far_real_point_escapes(cre: int, max: nat)
    requires
        cre > 2 * FIX_ONE || cre < -2 * FIX_ONE,
    ensures
        escape_count(cre, 0, max, 4) <= 2,
{
    assert(cre * cre > 4 * FIX_ONE * FIX_ONE) by (nonlinear_arith)
        requires
            cre > 2 * FIX_ONE || cre < -2 * FIX_ONE,
    ;
}

/// The color rule: black exactly for the points that reached the cap, and
/// for the others a fully bright hue, with at least one channel at 255.
pub proof fn lemma_escape_color_rule(count: nat, max: nat)
    requires
        max >= 1,
    ensures
        (escape_color(count, max) == (Rgb { r: 0, g: 0, b: 0 })) == (count >= max),
        count < max ==> {
            let c = escape_color(count, max);
            c.r == 255 || c.g == 255 || c.b == 255
        },
{
    let d3 = max * max * max;
    assert(d3 > 0) by (nonlinear_arith)
        requires
            max >= 1,
            d3 == max * max * max,
    ;
    let f: nat = (6 * count) % max;
    if count < max {
        lemma_fundamental_div_mod_converse(255 * d3 + d3 - 1, d3 as int, 255, d3 - 1);
        assert(channel(d3, d3) == 255);
        assert(max * max * max == d3);
    } else {
        lemma_basic_div(d3 - 1, d3 as int);
        assert(channel(0, d3) == 0);
        assert(0 * max * max == 0);
        assert(0 * ((max - max) as nat) * max == 0);
        assert(0 * ((max * max - f * max) as nat) == 0);
        assert(0 * ((max * max - ((max - f) as nat) * max) as nat) == 0);
    }
}

pub open spec fn default_escape_params() -> EscapeParams {
    EscapeParams { zoom: FIX_ONE, resolution: 255, max_iterations: 80, threshold: 4 }
}

/// An escape-time generator: its current settings, and the picture last
/// computed together with the settings it was computed for.
pub struct Mandelbrot {
    params: EscapeParams,
    last: Option<EscapeParams>,
    shapes: Vec<Pixel>,
    error: Option<EscapeError>,
}

impl Mandelbrot {
    pub closed spec fn params_spec(&self) -> EscapeParams {
        self.params
    }

    pub closed spec fn last_spec(&self) -> Option<EscapeParams> {
        self.last
    }

    pub closed spec fn shapes_spec(&self) -> Seq<Pixel> {
        self.shapes@
    }

    pub closed spec fn error_spec(&self) -> Option<EscapeError> {
        self.error
    }

    /// The cached picture and error match the settings they were computed for.
    pub open spec fn wf(&self) -> bool {
        match self.last_spec() {
            Some(p) => self.shapes_spec() == escape_output(p) && self.error_spec() == escape_error(p),
            None => self.shapes_spec().len() == 0 && self.error_spec() is None,
        }
    }

    pub open spec fn is_stale(&self) -> bool {
        self.last_spec() != Some(self.params_spec())
    }

    pub fn new() -> (r: Self)
        ensures
            r.params_spec() == default_escape_params(),
            r.last_spec() is None,
            r.wf(),
    {
        Mandelbrot {
            params: EscapeParams { zoom: FIX_ONE, resolution: 255, max_iterations: 80, threshold: 4 },
            last: None,
            shapes: Vec::new(),
            error: None,
        }
    }

    pub fn params(&self) -> (r: EscapeParams)
        ensures
            r == self.params_spec(),
    {
        self.params
    }

    /// Changes the settings; the cache is left as it is until the next refresh.
    pub fn set_params(&mut self, params: EscapeParams)
        ensures
            final(self).params_spec() == params,
            final(self).last_spec() == old(self).last_spec(),
            final(self).shapes_spec() == old(self).shapes_spec(),
            final(self).error_spec() == old(self).error_spec(),
    {
        self.params = params;
    }

    pub fn needs_recompute(&self) -> (r: bool)
        ensures
            r == self.is_stale(),
    {
        match self.last {
            Some(p) => p != self.params,
            None => true,
        }
    }

    pub fn shapes(&self) -> (r: &Vec<Pixel>)
        ensures
            r@ == self.shapes_spec(),
    {
        &self.shapes
    }

    /// The configuration error of the settings last computed, if any.
    pub fn error(&self) -> (r: Option<EscapeError>)
        ensures
            r == self.error_spec(),
    {
        self.error
    }

    /// Brings the cached picture up to date. When the settings are unchanged
    /// nothing is touched; otherwise the picture is rebuilt in full, or
    /// cleared with the error recorded when the resolution is zero. Returns
    /// whether the cache was rebuilt.
    pub fn refresh(&mut self) -> (recomputed: bool)
        requires
            old(self).wf(),
        ensures
            recomputed == old(self).is_stale(),
            !recomputed ==> *final(self) == *old(self),
            final(self).shapes_spec() == escape_output(old(self).params_spec()),
            final(self).error_spec() == escape_error(old(self).params_spec()),
            final(self).params_spec() == old(self).params_spec(),
            final(self).last_spec() == Some(final(self).params_spec()),
            final(self).wf(),
    {
        if !self.needs_recompute() {
            return false;
        }
        match mandelbrot_pixels(&self.params) {
            Ok(v) => {
                self.shapes = v;
                self.error = None;
            },
            Err(e) => {
                self.shapes = Vec::new();
                self.error = Some(e);
            },
        }
        self.last = Some(self.params);
        true
    }
}

impl Default for Mandelbrot {
    fn default() -> (r: Self)
        ensures
            r.params_spec() == default_escape_params(),
            r.last_spec() is None,
            r.wf(),
    {
        Mandelbrot::new()
    }
}

} // verus!
