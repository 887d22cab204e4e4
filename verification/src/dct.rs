use vstd::prelude::*;
use crate::arith::{clamp_int, round_div, clamp_i64, round_div_i64};
use crate::arith::{lemma_round_div_exact, lemma_round_div_bounds};
use crate::chroma::{spec_index_of_chroma, index_of_chroma};

verus! {

/// A component-video pixel in exact fixed point. `y` is the luma numerator
/// over 255000 (so `y/255000` lies in [0,1]); `pb` is the blue-difference
/// chroma numerator over 451860 and `pr` the red-difference numerator over
/// 357510 (each quotient lies in [-0.5, 0.5]).
#[derive(Clone, Copy, Debug)]
pub struct Ypbpr {
    pub y: i32,
    pub pb: i32,
    pub pr: i32,
}

/// Range invariant of a component-video pixel: luma in [0,1] and chroma in
/// [-0.5, 0.5], stated on the numerators.
pub open spec fn ypbpr_wf(p: Ypbpr) -> bool {
    &&& 0 <= p.y <= 255000
    &&& -225930 <= p.pb <= 225930
    &&& -178755 <= p.pr <= 178755
}

/// One block's quantized coefficients: the average term `a` in [0, 511], the
/// gradient terms `b`, `c`, `d` in [-15, 15], and the two chroma table
/// indices in [0, 15], shared by the whole block.
#[derive(Clone, Copy, Debug)]
pub struct PixelBlockValues {
    pub a: u32,
    pub b: i32,
    pub c: i32,
    pub d: i32,
    pub avg_pb: usize,
    pub avg_pr: usize,
}

/// The field ranges that fit the 9/5/5/5/4/4-bit codeword layout.
pub open spec fn block_values_wf(v: PixelBlockValues) -> bool {
    &&& v.a <= 511
    &&& -15 <= v.b <= 15
    &&& -15 <= v.c <= 15
    &&& -15 <= v.d <= 15
    &&& v.avg_pb < 16
    &&& v.avg_pr < 16
}

/// Sum of the four luma numerators: the average coefficient `a`, times 4
/// (a numerator over 4 * 255000 = 1020000).
pub open spec fn block_a(s: Seq<Ypbpr>) -> int
    recommends
        s.len() == 4,
{
    s[3].y + s[2].y + s[1].y + s[0].y
}

/// Numerator over 1020000 of the gradient coefficient
/// `b = (y3 + y2 - y1 - y0) / 4`.
pub open spec fn block_b(s: Seq<Ypbpr>) -> int
    recommends
        s.len() == 4,
{
    s[3].y + s[2].y - s[1].y - s[0].y
}

/// Numerator over 1020000 of `c = (y3 - y2 + y1 - y0) / 4`.
pub open spec fn block_c(s: Seq<Ypbpr>) -> int
    recommends
        s.len() == 4,
{
    s[3].y - s[2].y + s[1].y - s[0].y
}

/// Numerator over 1020000 of `d = (y3 - y2 - y1 + y0) / 4`.
pub open spec fn block_d(s: Seq<Ypbpr>) -> int
    recommends
        s.len() == 4,
{
    s[3].y - s[2].y - s[1].y + s[0].y
}

/// Sum of the four blue-difference numerators: 4 times the block's mean
/// chroma-blue (a numerator over 4 * 451860 = 1807440).
pub open spec fn block_pb_sum(s: Seq<Ypbpr>) -> int
    recommends
        s.len() == 4,
{
    s[0].pb + s[1].pb + s[2].pb + s[3].pb
}

/// Sum of the four red-difference numerators, over 4 * 357510 = 1430040.
pub open spec fn block_pr_sum(s: Seq<Ypbpr>) -> int
    recommends
        s.len() == 4,
{
    s[0].pr + s[1].pr + s[2].pr + s[3].pr
}

/// Quantize the average term: `round(clamp(a, 0, 1) * 511)` for `a` given as
/// the exact fraction `num / den`.
pub open spec fn spec_quant_a(num: int, den: int) -> int
    recommends
        den > 0,
{
    round_div(511 * clamp_int(num, 0, den), den)
}

/// Quantize a gradient term: `round(clamp(x, -0.3, 0.3) * 50)` for `x` given
/// as `num / den`; the clamp and the scale by 50 commute, so this is
/// `round(clamp(50 * x, -15, 15))`.
pub open spec fn spec_quant_bcd(num: int, den: int) -> int
    recommends
        den > 0,
{
    round_div(clamp_int(50 * num, -15 * den, 15 * den), den)
}

/// Dequantize the average term: `clamp(a, 0, 511) / 511`, returned as a
/// numerator over 25550 (= 50 * 511).
pub open spec fn spec_dequant_a(a: int) -> int {
    50 * clamp_int(a, 0, 511)
}

/// Dequantize a gradient term: `clamp(x, -15, 15) / 50`, returned as a
/// numerator over 25550.
pub open spec fn spec_dequant_bcd(x: int) -> int {
    511 * clamp_int(x, -15, 15)
}

/// Quantization idempotence for the average term: any exact representation
/// `num / den` of a grid point `q / 511` quantizes back to `q`.
pub proof fn lemma_quant_a_idempotent(q: int, num: int, den: int)
    requires
        den > 0,
        0 <= q <= 511,
        511 * num == q * den,
    ensures
        spec_quant_a(num, den) == q,
{
    assert(0 <= num <= den) by (nonlinear_arith)
        requires
            den > 0,
            0 <= q <= 511,
            511 * num == q * den,
    ;
    assert(511 * clamp_int(num, 0, den) == q * den);
    lemma_round_div_exact(q, den);
}

/// Quantization idempotence for a gradient term: any exact representation
/// `num / den` of a grid point `q / 50` quantizes back to `q`.
pub proof fn lemma_quant_bcd_idempotent(q: int, num: int, den: int)
    requires
        den > 0,
        -15 <= q <= 15,
        50 * num == q * den,
    ensures
        spec_quant_bcd(num, den) == q,
{
    assert(-15 * den <= 50 * num <= 15 * den) by (nonlinear_arith)
        requires
            den > 0,
            -15 <= q <= 15,
            50 * num == q * den,
    ;
    lemma_round_div_exact(q, den);
}

/// The average-term quantizer loses at most half a grid step: the quantized
/// value `q` satisfies `|num/den - q/511| <= 1/1022`, written here without
/// fractions. With `lemma_quant_a_idempotent` this pins the quantizer: grid
/// points pass through exactly, everything else moves to a nearest grid
/// point.
pub proof fn lemma_quant_a_error(num: int, den: int)
    requires
        den > 0,
        0 <= num <= den,
    ensures
        -den <= 2 * (511 * num - spec_quant_a(num, den) * den) <= den,
{
    let q = round_div(511 * num, den);
    assert(spec_quant_a(num, den) == q);
    crate::arith::lemma_round_div_near(511 * num, den);
    assert(-den <= 2 * (511 * num - q * den) <= den) by (nonlinear_arith)
        requires
            2 * q * den - den <= 2 * (511 * num) <= 2 * q * den + den,
    ;
}

/// The gradient quantizer loses at most half a grid step on any value
/// inside the clamp range: `|num/den - q/50| <= 1/100`, written without
/// fractions.
pub proof fn lemma_quant_bcd_error(num: int, den: int)
    requires
        den > 0,
        -15 * den <= 50 * num <= 15 * den,
    ensures
        -den <= 2 * (50 * num - spec_quant_bcd(num, den) * den) <= den,
{
    let q = round_div(50 * num, den);
    assert(spec_quant_bcd(num, den) == q);
    crate::arith::lemma_round_div_near(50 * num, den);
    assert(-den <= 2 * (50 * num - q * den) <= den) by (nonlinear_arith)
        requires
            2 * q * den - den <= 2 * (50 * num) <= 2 * q * den + den,
    ;
}

/// Clamp saturation: every gradient value at or beyond the 0.3 clamp bound
/// quantizes to the extreme field value, exactly as the bound itself does.
pub proof fn lemma_quant_bcd_saturates(num: int, den: int)
    requires
        den > 0,
    ensures
        10 * num >= 3 * den ==> spec_quant_bcd(num, den) == 15,
        10 * num <= -3 * den ==> spec_quant_bcd(num, den) == -15,
{
    if 10 * num >= 3 * den {
        assert(50 * num >= 15 * den);
        lemma_round_div_exact(15, den);
    }
    if 10 * num <= -3 * den {
        assert(50 * num <= -15 * den);
        lemma_round_div_exact(-15, den);
    }
}

/// The transform and its inverse are exact algebraic inverses: for any four
/// luma values, the four coefficient numerators `a = y0+y1+y2+y3` (etc.,
/// each 4 times the real coefficient) recombine to exactly 4 times each
/// input luma value, so with no quantization in between the inverse
/// transform reproduces its input.
pub proof fn lemma_transform_inverse(y0: int, y1: int, y2: int, y3: int)
    ensures
        ({
            let a = y3 + y2 + y1 + y0;
            let b = y3 + y2 - y1 - y0;
            let c = y3 - y2 + y1 - y0;
            let d = y3 - y2 - y1 + y0;
            &&& a - b - c + d == 4 * y0
            &&& a - b + c - d == 4 * y1
            &&& a + b - c - d == 4 * y2
            &&& a + b + c + d == 4 * y3
        }),
{
}

fn quant_a_i64(num: i64) -> (q: u32)
    requires
        0 <= num <= 1020000,
    ensures
        q as int == spec_quant_a(num as int, 1020000),
        q <= 511,
{
    let r = round_div_i64(511 * num, 1020000);
    proof {
        lemma_round_div_bounds(511 * num as int, 1020000, 0, 511);
    }
    r as u32
}

fn quant_bcd_i64(num: i64) -> (q: i32)
    requires
        -510000 <= num <= 510000,
    ensures
        q as int == spec_quant_bcd(num as int, 1020000),
        -15 <= q <= 15,
{
    let clamped = clamp_i64(50 * num, -15 * 1020000, 15 * 1020000);
    let r = round_div_i64(clamped, 1020000);
    proof {
        lemma_round_div_bounds(
            clamp_int(50 * num as int, (-15) * 1020000, 15int * 1020000),
            1020000,
            -15,
            15,
        );
    }
    r as i32
}

/// The forward transform and quantizer for one block, on a sequence known to
/// be a whole 2x2 block: four component-video pixels in row-major order.
pub fn dct_block(pixels: &Vec<Ypbpr>) -> (v: PixelBlockValues)
    requires
        pixels@.len() == 4,
        forall|i: int| 0 <= i < 4 ==> ypbpr_wf(#[trigger] pixels@[i]),
    ensures
        v.a as int == spec_quant_a(block_a(pixels@), 1020000),
        v.b as int == spec_quant_bcd(block_b(pixels@), 1020000),
        v.c as int == spec_quant_bcd(block_c(pixels@), 1020000),
        v.d as int == spec_quant_bcd(block_d(pixels@), 1020000),
        v.avg_pb as int == spec_index_of_chroma(block_pb_sum(pixels@), 1807440),
        v.avg_pr as int == spec_index_of_chroma(block_pr_sum(pixels@), 1430040),
        block_values_wf(v),
{
    let y0 = pixels[0].y as i64;
    let y1 = pixels[1].y as i64;
    let y2 = pixels[2].y as i64;
    let y3 = pixels[3].y as i64;
    let a = quant_a_i64(y3 + y2 + y1 + y0);
    let b = quant_bcd_i64(y3 + y2 - y1 - y0);
    let c = quant_bcd_i64(y3 - y2 + y1 - y0);
    let d = quant_bcd_i64(y3 - y2 - y1 + y0);
    let pb_sum = pixels[0].pb as i64 + pixels[1].pb as i64 + pixels[2].pb as i64
        + pixels[3].pb as i64;
    let pr_sum = pixels[0].pr as i64 + pixels[1].pr as i64 + pixels[2].pr as i64
        + pixels[3].pr as i64;
    let avg_pb = index_of_chroma(pb_sum, 1807440);
    let avg_pr = index_of_chroma(pr_sum, 1430040);
    PixelBlockValues { a, b, c, d, avg_pb, avg_pr }
}

/// The malformed in-memory inputs the codec core signals to its caller.
#[derive(Clone, Copy, Debug, PartialEq, Eq, Structural)]
pub enum CodecError {
    /// A pixel block that does not hold exactly 4 pixels.
    WrongBlockSize,
    /// A coefficient field outside the bit width of its codeword field.
    FieldOverflow,
}

/// The forward transform and quantizer, signalling a wrong block size to the
/// caller: maps a whole 2x2 block of component-video pixels to its quantized
/// block coefficients.
pub fn discrete_cosine_transfer(pixels: Vec<Ypbpr>) -> (r: Result<
    PixelBlockValues,
    CodecError,
>)
    requires
        forall|i: int| 0 <= i < pixels@.len() ==> ypbpr_wf(#[trigger] pixels@[i]),
    ensures
        r is Ok <==> pixels@.len() == 4,
        r is Err ==> r->Err_0 == CodecError::WrongBlockSize,
        r is Ok ==> {
            let v = r->Ok_0;
            &&& v.a as int == spec_quant_a(block_a(pixels@), 1020000)
            &&& v.b as int == spec_quant_bcd(block_b(pixels@), 1020000)
            &&& v.c as int == spec_quant_bcd(block_c(pixels@), 1020000)
            &&& v.d as int == spec_quant_bcd(block_d(pixels@), 1020000)
            &&& v.avg_pb as int == spec_index_of_chroma(block_pb_sum(pixels@), 1807440)
            &&& v.avg_pr as int == spec_index_of_chroma(block_pr_sum(pixels@), 1430040)
            &&& block_values_wf(v)
        },
{
    if pixels.len() != 4 {
        Err(CodecError::WrongBlockSize)
    } else {
        Ok(dct_block(&pixels))
    }
}

/// A decoded component-video pixel, produced by the inverse transform. `y`
/// is the luma numerator over 25550; `pb` and `pr` are representative
/// chroma values from the fixed table, scaled by 1000.
#[derive(Clone, Copy, Debug)]
pub struct DecodedPixel {
    pub y: i32,
    pub pb: i32,
    pub pr: i32,
}

/// Ranges of a decoded pixel: the luma quotient lies in [-0.9, 1.9] (no
/// clamp is applied between dequantization and the color converter) and the
/// chroma values are table entries.
pub open spec fn decoded_wf(p: DecodedPixel) -> bool {
    &&& -22995 <= p.y <= 48545
    &&& -350 <= p.pb <= 350
    &&& -350 <= p.pr <= 350
}

/// Luma numerator (over 25550) of pixel `k` (row-major in the 2x2 block)
/// reconstructed from the quantized coefficients of a block: the inverse
/// transform applied to the dequantized coefficients.
pub open spec fn spec_decoded_y(v: PixelBlockValues, k: int) -> int
    recommends
        0 <= k < 4,
{
    let da = spec_dequant_a(v.a as int);
    let db = spec_dequant_bcd(v.b as int);
    let dc = spec_dequant_bcd(v.c as int);
    let dd = spec_dequant_bcd(v.d as int);
    if k == 0 {
        da - db - dc + dd
    } else if k == 1 {
        da - db + dc - dd
    } else if k == 2 {
        da + db - dc - dd
    } else {
        da + db + dc + dd
    }
}

/// The dequantizer and inverse transform for one block: reconstructs the
/// four component-video pixels, in row-major order, that the block's
/// quantized coefficients stand for. The whole block shares the two
/// representative chroma values of its stored table indices.
pub fn inverse_discrete_cosine_transfer(v: &PixelBlockValues) -> (pixels: Vec<DecodedPixel>)
    requires
        v.avg_pb < 16,
        v.avg_pr < 16,
    ensures
        pixels@.len() == 4,
        forall|k: int|
            0 <= k < 4 ==> (#[trigger] pixels@[k]).y as int == spec_decoded_y(*v, k),
        forall|k: int|
            0 <= k < 4 ==> (#[trigger] pixels@[k]).pb as int == crate::chroma::chroma_num(
                v.avg_pb as int,
            ),
        forall|k: int|
            0 <= k < 4 ==> (#[trigger] pixels@[k]).pr as int == crate::chroma::chroma_num(
                v.avg_pr as int,
            ),
        forall|k: int| 0 <= k < 4 ==> decoded_wf(#[trigger] pixels@[k]),
{
    let a64: i64 = clamp_i64(v.a as i64, 0, 511);
    let b64: i64 = clamp_i64(v.b as i64, -15, 15);
    let c64: i64 = clamp_i64(v.c as i64, -15, 15);
    let d64: i64 = clamp_i64(v.d as i64, -15, 15);
    let da: i32 = (50 * a64) as i32;
    let db: i32 = (511 * b64) as i32;
    let dc: i32 = (511 * c64) as i32;
    let dd: i32 = (511 * d64) as i32;
    let pb = crate::chroma::chroma_of_index(v.avg_pb);
    let pr = crate::chroma::chroma_of_index(v.avg_pr);
    let mut pixels: Vec<DecodedPixel> = Vec::new();
    pixels.push(DecodedPixel { y: da - db - dc + dd, pb, pr });
    pixels.push(DecodedPixel { y: da - db + dc - dd, pb, pr });
    pixels.push(DecodedPixel { y: da + db - dc - dd, pb, pr });
    pixels.push(DecodedPixel { y: da + db + dc + dd, pb, pr });
    pixels
}

} // verus!
