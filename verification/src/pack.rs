use vstd::prelude::*;
use crate::dct::{PixelBlockValues, block_values_wf, CodecError};

verus! {

/// The 5-bit two's-complement pattern of a gradient field value in
/// [-16, 15].
pub open spec fn tc5(x: int) -> int {
    if x < 0 {
        x + 32
    } else {
        x
    }
}

/// The signed value of a 5-bit pattern: the inverse of `tc5`.
pub open spec fn sign5(p: int) -> int {
    if p >= 16 {
        p - 32
    } else {
        p
    }
}

/// The packed 32-bit codeword of one block's coefficients, with the fixed
/// layout (widths 9/5/5/5/4/4, `a` highest): `a` in bits 23..32, `b` in
/// 18..23, `c` in 13..18, `d` in 8..13, `pb` in 4..8, `pr` in 0..4.
pub open spec fn spec_pack(a: int, b: int, c: int, d: int, pb: int, pr: int) -> int {
    a * 0x800000 + tc5(b) * 0x40000 + tc5(c) * 0x2000 + tc5(d) * 0x100 + pb * 16 + pr
}

/// Field extraction from a codeword: the average term, bits 23..32.
pub open spec fn spec_unpack_a(w: int) -> int {
    w / 0x800000
}

/// The gradient field `b`, bits 18..23, sign-extended.
pub open spec fn spec_unpack_b(w: int) -> int {
    sign5((w / 0x40000) % 32)
}

/// The gradient field `c`, bits 13..18, sign-extended.
pub open spec fn spec_unpack_c(w: int) -> int {
    sign5((w / 0x2000) % 32)
}

/// The gradient field `d`, bits 8..13, sign-extended.
pub open spec fn spec_unpack_d(w: int) -> int {
    sign5((w / 0x100) % 32)
}

/// The chroma-blue index, bits 4..8.
pub open spec fn spec_unpack_pb(w: int) -> int {
    (w / 16) % 16
}

/// The chroma-red index, bits 0..4.
pub open spec fn spec_unpack_pr(w: int) -> int {
    w % 16
}

/// Packing is lossless: unpacking the packed codeword of any in-range field
/// tuple reproduces the exact field values.
pub proof fn lemma_pack_roundtrip(a: int, b: int, c: int, d: int, pb: int, pr: int)
    requires
        0 <= a <= 511,
        -16 <= b <= 15,
        -16 <= c <= 15,
        -16 <= d <= 15,
        0 <= pb <= 15,
        0 <= pr <= 15,
    ensures
        0 <= spec_pack(a, b, c, d, pb, pr) < 0x100000000,
        spec_unpack_a(spec_pack(a, b, c, d, pb, pr)) == a,
        spec_unpack_b(spec_pack(a, b, c, d, pb, pr)) == b,
        spec_unpack_c(spec_pack(a, b, c, d, pb, pr)) == c,
        spec_unpack_d(spec_pack(a, b, c, d, pb, pr)) == d,
        spec_unpack_pb(spec_pack(a, b, c, d, pb, pr)) == pb,
        spec_unpack_pr(spec_pack(a, b, c, d, pb, pr)) == pr,
{
    let tb = tc5(b);
    let tc = tc5(c);
    let td = tc5(d);
    let w = spec_pack(a, b, c, d, pb, pr);
    assert(0 <= tb < 32 && 0 <= tc < 32 && 0 <= td < 32);
    assert(w / 0x800000 == a && (w / 0x40000) % 32 == tb && (w / 0x2000) % 32 == tc && (w
        / 0x100) % 32 == td && (w / 16) % 16 == pb && w % 16 == pr) by (nonlinear_arith)
        requires
            w == a * 0x800000 + tb * 0x40000 + tc * 0x2000 + td * 0x100 + pb * 16 + pr,
            0 <= a <= 511,
            0 <= tb < 32,
            0 <= tc < 32,
            0 <= td < 32,
            0 <= pb <= 15,
            0 <= pr <= 15,
    ;
}

fn tc5_u32(x: i32) -> (p: u32)
    requires
        -16 <= x <= 15,
    ensures
        p as int == tc5(x as int),
        p < 32,
{
    if x < 0 {
        (x + 32) as u32
    } else {
        x as u32
    }
}

fn sign5_i32(p: u32) -> (x: i32)
    requires
        p < 32,
    ensures
        x as int == sign5(p as int),
        -16 <= x <= 15,
{
    if p >= 16 {
        (p as i32) - 32
    } else {
        p as i32
    }
}

/// Pack one block's coefficients into their codeword. Callers that already
/// know the fields are in range use this directly; `pack` is the checked
/// front end.
pub fn pack_fields(v: &PixelBlockValues) -> (w: u32)
    requires
        block_values_wf(*v),
    ensures
        w as int == spec_pack(v.a as int, v.b as int, v.c as int, v.d as int, v.avg_pb as int, v.avg_pr as int),
{
    let tb = tc5_u32(v.b);
    let tc = tc5_u32(v.c);
    let td = tc5_u32(v.d);
    v.a * 0x800000 + tb * 0x40000 + tc * 0x2000 + td * 0x100 + (v.avg_pb as u32) * 16 + (
    v.avg_pr as u32)
}

/// Pack one block's coefficients, signalling a field outside its declared
/// bit width to the caller instead of producing a malformed codeword.
pub fn pack(v: &PixelBlockValues) -> (r: Result<u32, CodecError>)
    ensures
        r is Ok <==> block_values_wf(*v),
        r is Err ==> r->Err_0 == CodecError::FieldOverflow,
        r is Ok ==> r->Ok_0 as int == spec_pack(
            v.a as int,
            v.b as int,
            v.c as int,
            v.d as int,
            v.avg_pb as int,
            v.avg_pr as int,
        ),
{
    if v.a <= 511 && -15 <= v.b && v.b <= 15 && -15 <= v.c && v.c <= 15 && -15 <= v.d && v.d <= 15
        && v.avg_pb < 16 && v.avg_pr < 16 {
        Ok(pack_fields(v))
    } else {
        Err(CodecError::FieldOverflow)
    }
}

/// Unpack a codeword into its block coefficients: each field extracted at
/// its fixed offset and width, the gradient fields sign-extended.
pub fn unpack(w: u32) -> (v: PixelBlockValues)
    ensures
        v.a as int == spec_unpack_a(w as int),
        v.b as int == spec_unpack_b(w as int),
        v.c as int == spec_unpack_c(w as int),
        v.d as int == spec_unpack_d(w as int),
        v.avg_pb as int == spec_unpack_pb(w as int),
        v.avg_pr as int == spec_unpack_pr(w as int),
        v.a <= 511,
        -16 <= v.b <= 15,
        -16 <= v.c <= 15,
        -16 <= v.d <= 15,
        v.avg_pb < 16,
        v.avg_pr < 16,
{
    let a = w / 0x800000;
    let b = sign5_i32((w / 0x40000) % 32);
    let c = sign5_i32((w / 0x2000) % 32);
    let d = sign5_i32((w / 0x100) % 32);
    let avg_pb = ((w / 16) % 16) as usize;
    let avg_pr = (w % 16) as usize;
    PixelBlockValues { a, b, c, d, avg_pb, avg_pr }
}

} // verus!
