use vstd::prelude::*;

verus! {

/// An 8-bit-per-channel color.
#[derive(Clone, Copy, Debug, PartialEq, Eq, Structural)]
pub struct Rgb {
    pub r: u8,
    pub g: u8,
    pub b: u8,
}

impl Rgb {
    /// The color with every channel replaced by its complement.
    pub open spec fn inverted_spec(self) -> Rgb {
        Rgb { r: (255 - self.r) as u8, g: (255 - self.g) as u8, b: (255 - self.b) as u8 }
    }

    pub fn inverted(&self) -> (r: Rgb)
        ensures
            r == self.inverted_spec(),
    {
        Rgb { r: 255 - self.r, g: 255 - self.g, b: 255 - self.b }
    }
}

/// The largest denominator `hsv_to_rgb` accepts, so that its products fit.
pub const MAX_HSV_DENOMINATOR: u64 = 65535;

/// `a / b` rounded up.
pub open spec fn ceil_div(a: nat, b: nat) -> nat {
    ((a + b - 1) as nat) / b
}

/// An 8-bit channel for the fraction `x / d`, rounded up.
pub open spec fn channel(x: nat, d: nat) -> u8 {
    ceil_div(255 * x, d) as u8
}

/// The standard six-sector HSV to RGB conversion. The hue is `h6 / den`
/// sixths of a full turn (so `60 * h6 / den` degrees), the saturation
/// `s / den` and the value `v / den`; all intermediate values are exact
/// fractions over `den^3`, and each channel is rounded up.
pub open spec fn hsv_spec(h6: nat, den: nat, s: nat, v: nat) -> Rgb {
    let sector = (h6 / den) % 6;
    let f = h6 % den;
    let d3 = den * den * den;
    let vv = v * den * den;
    let p = v * ((den - s) as nat) * den;
    let q = v * ((den * den - f * s) as nat);
    let t = v * ((den * den - ((den - f) as nat) * s) as nat);
    let (r, g, b) = if sector == 0 {
        (vv, t, p)
    } else if sector == 1 {
        (q, vv, p)
    } else if sector == 2 {
        (p, vv, t)
    } else if sector == 3 {
        (p, q, vv)
    } else if sector == 4 {
        (t, p, vv)
    } else {
        (vv, p, q)
    };
    Rgb { r: channel(r, d3), g: channel(g, d3), b: channel(b, d3) }
}

fn channel_exec(x: u64, d: u64) -> (c: u8)
    requires
        0 < d <= 0x1_0000_0000_0000,
        x <= d,
    ensures
        c == channel(x as nat, d as nat),
        c as nat == ceil_div(255 * x as nat, d as nat),
{
    let n = 255 * x + d - 1;
    assert(n < 256 * d);
    let q = n / d;
    assert(q < 256) by (nonlinear_arith)
        requires
            q == n / d,
            n < 256 * d,
            d > 0,
    ;
    q as u8
}

/// Converts a color from HSV to RGB by `hsv_spec`.
pub fn hsv_to_rgb(h6: u64, den: u64, s: u64, v: u64) -> (c: Rgb)
    requires
        0 < den <= MAX_HSV_DENOMINATOR,
        s <= den,
        v <= den,
    ensures
        c == hsv_spec(h6 as nat, den as nat, s as nat, v as nat),
{
    let sector = (h6 / den) % 6;
    let f = h6 % den;
    assert(den * den <= 0x1_0000_0000) by (nonlinear_arith)
        requires
            den <= 65535,
    ;
    let dd = den * den;
    assert(dd * den <= 0x1_0000_0000_0000) by (nonlinear_arith)
        requires
            den <= 65535,
            dd == den * den,
    ;
    let d3 = dd * den;
    assert(d3 > 0) by (nonlinear_arith)
        requires
            den > 0,
            dd == den * den,
            d3 == dd * den,
    ;
    assert(f * s <= dd) by (nonlinear_arith)
        requires
            f < den,
            s <= den,
            dd == den * den,
    ;
    assert((den - f) * s <= dd) by (nonlinear_arith)
        requires
            f < den,
            s <= den,
            dd == den * den,
    ;
    let qf = dd - f * s;
    let tf = dd - (den - f) * s;
    assert(v * dd <= d3) by (nonlinear_arith)
        requires
            v <= den,
            d3 == dd * den,
    ;
    assert(v * (den - s) <= dd) by (nonlinear_arith)
        requires
            v <= den,
            s <= den,
            dd == den * den,
    ;
    assert(v * (den - s) * den <= d3) by (nonlinear_arith)
        requires
            v * (den - s) <= dd,
            d3 == dd * den,
    ;
    assert(v * qf <= d3) by (nonlinear_arith)
        requires
            v <= den,
            qf <= dd,
            d3 == dd * den,
    ;
    assert(v * tf <= d3) by (nonlinear_arith)
        requires
            v <= den,
            tf <= dd,
            d3 == dd * den,
    ;
    let vv = v * dd;
    let p = v * (den - s) * den;
    let q = v * qf;
    let t = v * tf;
    assert(vv == v * den * den) by (nonlinear_arith)
        requires
            vv == v * dd,
            dd == den * den,
    ;
    assert(d3 == den * den * den);
    let (r, g, b) = if sector == 0 {
        (vv, t, p)
    } else if sector == 1 {
        (q, vv, p)
    } else if sector == 2 {
        (p, vv, t)
    } else if sector == 3 {
        (p, q, vv)
    } else if sector == 4 {
        (t, p, vv)
    } else {
        (vv, p, q)
    };
    Rgb { r: channel_exec(r, d3), g: channel_exec(g, d3), b: channel_exec(b, d3) }
}

} // verus!
