use vstd::prelude::*;
use crate::arith::{clamp_int, round_div, clamp_i64, round_div_i64};
use crate::arith::{lemma_round_div_exact, lemma_round_div_bounds};
use crate::dct::{Ypbpr, ypbpr_wf, DecodedPixel, decoded_wf};

verus! {

/// An 8-bit-per-channel RGB pixel, the raster-side pixel format.
#[derive(Clone, Copy, Debug, PartialEq, Eq, Structural)]
pub struct Rgb {
    pub red: u8,
    pub green: u8,
    pub blue: u8,
}

/// Luma numerator over 255000 of an RGB pixel:
/// `y = 0.299 R + 0.587 G + 0.114 B` on unit-scaled channels.
pub open spec fn spec_y(r: int, g: int, b: int) -> int {
    299 * r + 587 * g + 114 * b
}

/// Blue-difference numerator over 451860 (= 255 * 1772):
/// `pb = (B - y) / 1.772` on unit-scaled channels.
pub open spec fn spec_pb(r: int, g: int, b: int) -> int {
    -299 * r - 587 * g + 886 * b
}

/// Red-difference numerator over 357510 (= 255 * 1402):
/// `pr = (R - y) / 1.402` on unit-scaled channels.
pub open spec fn spec_pr(r: int, g: int, b: int) -> int {
    701 * r - 587 * g - 114 * b
}

/// The red sample reconstructed from luma `yn / yd` and red-difference
/// chroma `prn / prd`: `round(255 * clamp(y + 1.402 * pr, 0, 1))`, written
/// over the common denominator `500 * yd * prd`.
pub open spec fn spec_red(yn: int, yd: int, prn: int, prd: int) -> int
    recommends
        yd > 0,
        prd > 0,
{
    round_div(255 * clamp_int(500 * prd * yn + 701 * yd * prn, 0, 500 * yd * prd), 500 * yd * prd)
}

/// The green sample: `round(255 * clamp(y - 0.344136... * pb
/// - 0.714136... * pr, 0, 1))` with the exact rational coefficients
/// `202008 / 587000` and `419198 / 587000`, over the common denominator
/// `587000 * yd * pbd * prd`.
pub open spec fn spec_green(yn: int, yd: int, pbn: int, pbd: int, prn: int, prd: int) -> int
    recommends
        yd > 0,
        pbd > 0,
        prd > 0,
{
    round_div(
        255 * clamp_int(
            587000 * pbd * prd * yn - 202008 * yd * prd * pbn - 419198 * yd * pbd * prn,
            0,
            587000 * yd * pbd * prd,
        ),
        587000 * yd * pbd * prd,
    )
}

/// The blue sample: `round(255 * clamp(y + 1.772 * pb, 0, 1))`, written over
/// the common denominator `250 * yd * pbd`.
pub open spec fn spec_blue(yn: int, yd: int, pbn: int, pbd: int) -> int
    recommends
        yd > 0,
        pbd > 0,
{
    round_div(255 * clamp_int(250 * pbd * yn + 443 * yd * pbn, 0, 250 * yd * pbd), 250 * yd * pbd)
}

/// The color transform pair is exactly invertible: converting an RGB pixel
/// to component video and back, with no quantization in between, reproduces
/// every channel exactly. Round-trip error of the whole codec is therefore
/// bounded by the quantization stages alone.
pub proof fn lemma_color_inverse(r: int, g: int, b: int)
    requires
        0 <= r <= 255,
        0 <= g <= 255,
        0 <= b <= 255,
    ensures
        spec_red(spec_y(r, g, b), 255000, spec_pr(r, g, b), 357510) == r,
        spec_green(spec_y(r, g, b), 255000, spec_pb(r, g, b), 451860, spec_pr(r, g, b), 357510)
            == g,
        spec_blue(spec_y(r, g, b), 255000, spec_pb(r, g, b), 451860) == b,
{
    let yn = spec_y(r, g, b);
    let pbn = spec_pb(r, g, b);
    let prn = spec_pr(r, g, b);

    let rden: int = 500int * 255000 * 357510;
    assert(rden == 45582525000000);
    assert(500 * 357510 * yn + 701 * 255000 * prn == 178755000000 * r) by (nonlinear_arith)
        requires
            yn == 299 * r + 587 * g + 114 * b,
            prn == 701 * r - 587 * g - 114 * b,
    ;
    assert(0 <= 178755000000 * r <= rden);
    assert(clamp_int(500 * 357510 * yn + 701 * 255000 * prn, 0, rden) == 178755000000 * r);
    assert(255 * (178755000000 * r) == r * 45582525000000) by (nonlinear_arith);
    lemma_round_div_exact(r, rden);

    let bden: int = 250int * 255000 * 451860;
    assert(bden == 28806075000000);
    assert(250 * 451860 * yn + 443 * 255000 * pbn == 112965000000 * b) by (nonlinear_arith)
        requires
            yn == 299 * r + 587 * g + 114 * b,
            pbn == -299 * r - 587 * g + 886 * b,
    ;
    assert(0 <= 112965000000 * b <= bden);
    assert(clamp_int(250 * 451860 * yn + 443 * 255000 * pbn, 0, bden) == 112965000000 * b);
    assert(255 * (112965000000 * b) == b * 28806075000000) by (nonlinear_arith);
    lemma_round_div_exact(b, bden);

    let gden: int = 587000int * 255000 * 451860 * 357510;
    assert(gden == 24180783782391000000000);
    assert(587000 * 451860 * 357510 * yn - 202008 * 255000 * 357510 * pbn - 419198 * 255000
        * 451860 * prn == 94826603068200000000 * g) by (nonlinear_arith)
        requires
            yn == 299 * r + 587 * g + 114 * b,
            pbn == -299 * r - 587 * g + 886 * b,
            prn == 701 * r - 587 * g - 114 * b,
    ;
    assert(0 <= 94826603068200000000 * g <= gden);
    assert(clamp_int(
        587000 * 451860 * 357510 * yn - 202008 * 255000 * 357510 * pbn - 419198 * 255000 * 451860
            * prn,
        0,
        gden,
    ) == 94826603068200000000 * g);
    assert(255 * (94826603068200000000 * g) == g * 24180783782391000000000) by (nonlinear_arith);
    lemma_round_div_exact(g, gden);
}

/// The color space converter, forward direction: an RGB pixel to its exact
/// fixed-point component-video representation.
pub fn to_component_video(r: u8, g: u8, b: u8) -> (p: Ypbpr)
    ensures
        p.y as int == spec_y(r as int, g as int, b as int),
        p.pb as int == spec_pb(r as int, g as int, b as int),
        p.pr as int == spec_pr(r as int, g as int, b as int),
        ypbpr_wf(p),
{
    let ri = r as i32;
    let gi = g as i32;
    let bi = b as i32;
    Ypbpr {
        y: 299 * ri + 587 * gi + 114 * bi,
        pb: 886 * bi - 299 * ri - 587 * gi,
        pr: 701 * ri - 587 * gi - 114 * bi,
    }
}

/// The color space converter, inverse direction: a decoded component-video
/// pixel (luma over 25550, table chroma over 1000) back to an RGB pixel,
/// each channel clamped to [0, 1] before scaling to [0, 255].
pub fn to_rgb(p: &DecodedPixel) -> (rgb: Rgb)
    requires
        decoded_wf(*p),
    ensures
        rgb.red as int == spec_red(p.y as int, 25550, p.pr as int, 1000),
        rgb.green as int == spec_green(p.y as int, 25550, p.pb as int, 1000, p.pr as int, 1000),
        rgb.blue as int == spec_blue(p.y as int, 25550, p.pb as int, 1000),
{
    let y = p.y as i64;
    let pb = p.pb as i64;
    let pr = p.pr as i64;

    let rnum = clamp_i64(500000 * y + 17910550 * pr, 0, 12775000000);
    let red = round_div_i64(255 * rnum, 12775000000);
    proof {
        lemma_round_div_bounds(255 * rnum as int, 12775000000, 0, 255);
    }

    let gnum = clamp_i64(
        587000000000 * y - 5161304400000 * pb - 10710508900000 * pr,
        0,
        14997850000000000,
    );
    let green = round_div_i64(255 * gnum, 14997850000000000);
    proof {
        lemma_round_div_bounds(255 * gnum as int, 14997850000000000, 0, 255);
    }

    let bnum = clamp_i64(250000 * y + 11318650 * pb, 0, 6387500000);
    let blue = round_div_i64(255 * bnum, 6387500000);
    proof {
        lemma_round_div_bounds(255 * bnum as int, 6387500000, 0, 255);
    }

    Rgb { red: red as u8, green: green as u8, blue: blue as u8 }
}

} // verus!
