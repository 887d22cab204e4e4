use vstd::prelude::*;
use vstd::arithmetic::div_mod::lemma_fundamental_div_mod_converse;
use crate::arith::lemma_round_div_exact;
use crate::chroma::{spec_index_of_chroma, chroma_num};
use crate::color::{Rgb, spec_y, spec_pb, spec_pr, spec_red, spec_green, spec_blue};
use crate::color::{to_component_video, to_rgb};
use crate::dct::{Ypbpr, PixelBlockValues, dct_block, inverse_discrete_cosine_transfer};
use crate::dct::{spec_quant_a, spec_quant_bcd, spec_decoded_y, block_a, block_pb_sum};
use crate::pack::{spec_pack, spec_unpack_a, spec_unpack_b, spec_unpack_c, spec_unpack_d};
use crate::pack::{spec_unpack_pb, spec_unpack_pr, pack_fields, unpack};

verus! {

/// Luma numerator (over 255000) of a raster pixel.
pub open spec fn pixel_y(p: Rgb) -> int {
    spec_y(p.red as int, p.green as int, p.blue as int)
}

/// Blue-difference numerator (over 451860) of a raster pixel.
pub open spec fn pixel_pb(p: Rgb) -> int {
    spec_pb(p.red as int, p.green as int, p.blue as int)
}

/// Red-difference numerator (over 357510) of a raster pixel.
pub open spec fn pixel_pr(p: Rgb) -> int {
    spec_pr(p.red as int, p.green as int, p.blue as int)
}

/// The codeword of one 2x2 block of raster pixels (row-major: top-left,
/// top-right, bottom-left, bottom-right): color conversion, block transform,
/// quantization and bit packing composed.
pub open spec fn spec_block_word(p0: Rgb, p1: Rgb, p2: Rgb, p3: Rgb) -> int {
    let y0 = pixel_y(p0);
    let y1 = pixel_y(p1);
    let y2 = pixel_y(p2);
    let y3 = pixel_y(p3);
    spec_pack(
        spec_quant_a(y3 + y2 + y1 + y0, 1020000),
        spec_quant_bcd(y3 + y2 - y1 - y0, 1020000),
        spec_quant_bcd(y3 - y2 + y1 - y0, 1020000),
        spec_quant_bcd(y3 - y2 - y1 + y0, 1020000),
        spec_index_of_chroma(pixel_pb(p0) + pixel_pb(p1) + pixel_pb(p2) + pixel_pb(p3), 1807440),
        spec_index_of_chroma(pixel_pr(p0) + pixel_pr(p1) + pixel_pr(p2) + pixel_pr(p3), 1430040),
    )
}

/// The `k`-th codeword of a compressed raster: blocks are taken in raster
/// order, `width/2` of them per block row.
pub open spec fn spec_word_at(pixels: Seq<Rgb>, width: int, k: int) -> int
    recommends
        width >= 2,
        width % 2 == 0,
{
    let wb = width / 2;
    let bi = k / wb;
    let bj = k % wb;
    spec_block_word(
        pixels[2 * bi * width + 2 * bj],
        pixels[2 * bi * width + 2 * bj + 1],
        pixels[(2 * bi + 1) * width + 2 * bj],
        pixels[(2 * bi + 1) * width + 2 * bj + 1],
    )
}

/// Compress a raster: walk its 2x2 blocks in raster order and produce one
/// codeword per block. The image dimensions must be even (a precondition
/// established by the external driver) and the pixel buffer complete, in
/// row-major order.
pub fn compress(width: usize, height: usize, pixels: &Vec<Rgb>) -> (words: Vec<u32>)
    requires
        width % 2 == 0,
        height % 2 == 0,
        pixels@.len() == width * height,
    ensures
        words@.len() == (width as int / 2) * (height as int / 2),
        forall|k: int|
            0 <= k < words@.len() ==> words@[k] as int == #[trigger] spec_word_at(
                pixels@,
                width as int,
                k,
            ),
{
    let total = pixels.len();
    let wb = width / 2;
    let hb = height / 2;
    let mut words: Vec<u32> = Vec::new();
    let mut bi: usize = 0;
    while bi < hb
        invariant
            width % 2 == 0,
            height % 2 == 0,
            pixels@.len() == width * height,
            pixels@.len() <= usize::MAX,
            wb == width as int / 2,
            hb == height as int / 2,
            bi <= hb,
            words@.len() == bi * wb,
            forall|k: int|
                0 <= k < words@.len() ==> words@[k] as int == #[trigger] spec_word_at(
                    pixels@,
                    width as int,
                    k,
                ),
        decreases hb - bi,
    {
        let mut bj: usize = 0;
        while bj < wb
            invariant
                width % 2 == 0,
                height % 2 == 0,
                pixels@.len() == width * height,
                pixels@.len() <= usize::MAX,
                wb == width as int / 2,
                hb == height as int / 2,
                bi < hb,
                bj <= wb,
                words@.len() == bi * wb + bj,
                forall|k: int|
                    0 <= k < words@.len() ==> words@[k] as int == #[trigger] spec_word_at(
                        pixels@,
                        width as int,
                        k,
                    ),
            decreases wb - bj,
        {
            proof {
                assert(2 * bi + 2 <= height && 2 * bj + 2 <= width);
                assert(((2 * (bi as int) + 1) * (width as int) + 2 * (bj as int) + 1 < (width as int)
                    * (height as int)) && (2 * (bi as int) * (width as int) + 2 * (bj as int) + 1 < (
                width as int) * (height as int)) && ((bi as int) * (wb as int) + (bj as int) < (
                wb as int) * (hb as int))) by (nonlinear_arith)
                    requires
                        2 * bi as int + 2 <= height as int,
                        2 * bj as int + 2 <= width as int,
                        bi < hb,
                        bj < wb,
                        2 * (wb as int) <= width as int,
                        2 * (hb as int) <= height as int,
                ;
            }
            let r0 = 2 * bi * width + 2 * bj;
            let r1 = (2 * bi + 1) * width + 2 * bj;
            let p0 = pixels[r0];
            let p1 = pixels[r0 + 1];
            let p2 = pixels[r1];
            let p3 = pixels[r1 + 1];
            let mut block: Vec<Ypbpr> = Vec::new();
            block.push(to_component_video(p0.red, p0.green, p0.blue));
            block.push(to_component_video(p1.red, p1.green, p1.blue));
            block.push(to_component_video(p2.red, p2.green, p2.blue));
            block.push(to_component_video(p3.red, p3.green, p3.blue));
            let v = dct_block(&block);
            let w = pack_fields(&v);
            proof {
                let k = bi as int * wb as int + bj as int;
                lemma_fundamental_div_mod_converse(k, wb as int, bi as int, bj as int);
                assert(block_a(block@) == pixel_y(p3) + pixel_y(p2) + pixel_y(p1) + pixel_y(p0));
                assert(block_pb_sum(block@) == pixel_pb(p0) + pixel_pb(p1) + pixel_pb(p2)
                    + pixel_pb(p3));
                assert(w as int == spec_word_at(pixels@, width as int, k));
            }
            words.push(w);
            bj += 1;
        }
        bi += 1;
        proof {
            assert((bi - 1) * wb as int + wb as int == bi as int * wb as int) by (nonlinear_arith);
        }
    }
    proof {
        assert(hb as int * wb as int == wb as int * hb as int) by (nonlinear_arith);
    }
    words
}

/// The raster pixel at row `i`, column `j` reconstructed from a codeword
/// stream: unpack the block's codeword, dequantize, invert the transform,
/// and convert the pixel's position within its block back to RGB.
pub open spec fn spec_rgb_at(words: Seq<u32>, width: int, i: int, j: int) -> Rgb
    recommends
        width >= 2,
        width % 2 == 0,
{
    let w = words[(i / 2) * (width / 2) + j / 2] as int;
    let v = PixelBlockValues {
        a: spec_unpack_a(w) as u32,
        b: spec_unpack_b(w) as i32,
        c: spec_unpack_c(w) as i32,
        d: spec_unpack_d(w) as i32,
        avg_pb: spec_unpack_pb(w) as usize,
        avg_pr: spec_unpack_pr(w) as usize,
    };
    let yn = spec_decoded_y(v, 2 * (i % 2) + (j % 2));
    let pb = chroma_num(spec_unpack_pb(w));
    let pr = chroma_num(spec_unpack_pr(w));
    Rgb {
        red: spec_red(yn, 25550, pr, 1000) as u8,
        green: spec_green(yn, 25550, pb, 1000, pr, 1000) as u8,
        blue: spec_blue(yn, 25550, pb, 1000) as u8,
    }
}

/// Decompress a codeword stream back into a raster of the declared even
/// dimensions, in row-major pixel order.
pub fn decompress(width: usize, height: usize, words: &Vec<u32>) -> (pixels: Vec<Rgb>)
    requires
        width % 2 == 0,
        height % 2 == 0,
        width * height <= usize::MAX,
        words@.len() == (width as int / 2) * (height as int / 2),
    ensures
        pixels@.len() == width * height,
        forall|i: int, j: int|
            0 <= i < height && 0 <= j < width ==> pixels@[i * width + j] == #[trigger] spec_rgb_at(
                words@,
                width as int,
                i,
                j,
            ),
{
    let nwords = words.len();
    let wb = width / 2;
    let hb = height / 2;
    let mut pixels: Vec<Rgb> = Vec::new();
    let mut i: usize = 0;
    while i < height
        invariant
            width % 2 == 0,
            height % 2 == 0,
            width * height <= usize::MAX,
            wb == width as int / 2,
            hb == height as int / 2,
            words@.len() == wb * hb,
            words@.len() <= usize::MAX,
            i <= height,
            pixels@.len() == i * width,
            forall|i0: int, j0: int|
                0 <= i0 < i && 0 <= j0 < width ==> pixels@[i0 * width + j0]
                    == #[trigger] spec_rgb_at(words@, width as int, i0, j0),
        decreases height - i,
    {
        let mut j: usize = 0;
        while j < width
            invariant
                width % 2 == 0,
                height % 2 == 0,
                width * height <= usize::MAX,
                wb == width as int / 2,
                hb == height as int / 2,
                words@.len() == wb * hb,
                words@.len() <= usize::MAX,
                i < height,
                j <= width,
                pixels@.len() == i * width + j,
                forall|i0: int, j0: int|
                    0 <= i0 < i && 0 <= j0 < width ==> pixels@[i0 * width + j0]
                        == #[trigger] spec_rgb_at(words@, width as int, i0, j0),
                forall|j0: int|
                    0 <= j0 < j ==> pixels@[i * width + j0] == #[trigger] spec_rgb_at(
                        words@,
                        width as int,
                        i as int,
                        j0,
                    ),
            decreases width - j,
        {
            proof {
                let ib = i as int / 2;
                let jb = j as int / 2;
                assert(height as int == 2 * (hb as int) && width as int == 2 * (wb as int));
                assert(0 <= ib < hb as int && 0 <= jb < wb as int);
                assert(ib * (wb as int) + jb < (wb as int) * (hb as int)) by (nonlinear_arith)
                    requires
                        0 <= ib < hb as int,
                        0 <= jb < wb as int,
                ;
                assert((i as int) * (width as int) + (j as int) < (width as int) * (height as int))
                    by (nonlinear_arith)
                    requires
                        0 <= (i as int),
                        (i as int) < (height as int),
                        0 <= (j as int),
                        (j as int) < (width as int),
                ;
            }
            let word = words[(i / 2) * wb + j / 2];
            let v = unpack(word);
            let dec = inverse_discrete_cosine_transfer(&v);
            let kk = 2 * (i % 2) + (j % 2);
            let rgb = to_rgb(&dec[kk]);
            proof {
                assert(rgb == spec_rgb_at(words@, width as int, i as int, j as int));
            }
            pixels.push(rgb);
            proof {
                assert forall|i0: int, j0: int| 0 <= i0 < i && 0 <= j0 < width implies pixels@[i0
                    * width + j0] == #[trigger] spec_rgb_at(words@, width as int, i0, j0) by {
                    assert(i0 * (width as int) + j0 < (i as int) * (width as int))
                        by (nonlinear_arith)
                        requires
                            0 <= i0,
                            i0 < i as int,
                            0 <= j0,
                            j0 < width as int,
                    ;
                }
            }
            j += 1;
        }
        i += 1;
        proof {
            assert((i - 1) * width as int + width as int == i as int * width as int)
                by (nonlinear_arith);
        }
    }
    proof {
        assert(height as int * width as int == width as int * height as int) by (nonlinear_arith);
    }
    pixels
}

/// Big-endian byte `t` (0 = most significant) of the 32-bit codeword `w`.
pub open spec fn spec_be_byte(w: int, t: int) -> int {
    if t == 0 {
        w / 0x1000000 % 256
    } else if t == 1 {
        w / 0x10000 % 256
    } else if t == 2 {
        w / 0x100 % 256
    } else {
        w % 256
    }
}

/// Serialize a codeword stream as the container's payload: each codeword as
/// exactly 4 big-endian bytes, in stream order.
pub fn words_to_bytes(words: &Vec<u32>) -> (bytes: Vec<u8>)
    requires
        4 * words@.len() <= usize::MAX,
    ensures
        bytes@.len() == 4 * words@.len(),
        forall|k: int, t: int|
            0 <= k < words@.len() && 0 <= t < 4 ==> bytes@[4 * k + t] as int
                == #[trigger] spec_be_byte(words@[k] as int, t),
{
    let mut bytes: Vec<u8> = Vec::new();
    let mut k: usize = 0;
    while k < words.len()
        invariant
            4 * words@.len() <= usize::MAX,
            k <= words@.len(),
            bytes@.len() == 4 * k,
            forall|k0: int, t: int|
                0 <= k0 < k && 0 <= t < 4 ==> bytes@[4 * k0 + t] as int
                    == #[trigger] spec_be_byte(words@[k0] as int, t),
        decreases words@.len() - k,
    {
        let w = words[k];
        bytes.push((w / 0x1000000 % 256) as u8);
        bytes.push((w / 0x10000 % 256) as u8);
        bytes.push((w / 0x100 % 256) as u8);
        bytes.push((w % 256) as u8);
        k += 1;
    }
    bytes
}

/// Reassemble a codeword from its 4 big-endian bytes.
pub fn word_of_bytes(b0: u8, b1: u8, b2: u8, b3: u8) -> (w: u32)
    ensures
        w as int == ((b0 as int) * 0x1000000) + ((b1 as int) * 0x10000) + ((b2 as int) * 0x100) + (
        b3 as int),
{
    (b0 as u32) * 0x1000000 + (b1 as u32) * 0x10000 + (b2 as u32) * 0x100 + (b3 as u32)
}

/// Deserialize a container payload: every 4 bytes, big-endian, become one
/// codeword. The payload length must be a multiple of 4 (the external driver
/// rejects truncated containers).
pub fn bytes_to_words(bytes: &Vec<u8>) -> (words: Vec<u32>)
    requires
        bytes@.len() % 4 == 0,
    ensures
        words@.len() == bytes@.len() / 4,
        forall|k: int|
            0 <= k < words@.len() ==> #[trigger] words@[k] as int == (bytes@[4 * k] as int)
                * 0x1000000 + (bytes@[4 * k + 1] as int) * 0x10000 + (bytes@[4 * k + 2] as int)
                * 0x100 + (bytes@[4 * k + 3] as int),
{
    let n = bytes.len() / 4;
    let mut words: Vec<u32> = Vec::new();
    let mut k: usize = 0;
    while k < n
        invariant
            bytes@.len() % 4 == 0,
            bytes@.len() <= usize::MAX,
            n == bytes@.len() / 4,
            k <= n,
            words@.len() == k,
            forall|k0: int|
                0 <= k0 < k ==> #[trigger] words@[k0] as int == (bytes@[4 * k0] as int) * 0x1000000
                    + (bytes@[4 * k0 + 1] as int) * 0x10000 + (bytes@[4 * k0 + 2] as int) * 0x100 + (
                bytes@[4 * k0 + 3] as int),
        decreases n - k,
    {
        proof {
            assert(4 * k as int + 3 < bytes@.len()) by (nonlinear_arith)
                requires
                    k < n,
                    n == bytes@.len() / 4,
                    bytes@.len() % 4 == 0,
            ;
        }
        let w = word_of_bytes(bytes[4 * k], bytes[4 * k + 1], bytes[4 * k + 2], bytes[4 * k + 3]);
        words.push(w);
        k += 1;
    }
    words
}

/// Serializing and deserializing a codeword is lossless: the 4 big-endian
/// bytes of any 32-bit word reassemble to exactly that word.
pub proof fn lemma_be_bytes_roundtrip(w: int)
    requires
        0 <= w < 0x100000000,
    ensures
        spec_be_byte(w, 0) * 0x1000000 + spec_be_byte(w, 1) * 0x10000 + spec_be_byte(w, 2) * 0x100
            + spec_be_byte(w, 3) == w,
{
    assert((w / 0x1000000 % 256) * 0x1000000 + (w / 0x10000 % 256) * 0x10000 + (w / 0x100 % 256)
        * 0x100 + w % 256 == w) by (nonlinear_arith)
        requires
            0 <= w < 0x100000000,
    ;
}

/// Stream determinism: the compressed words of a raster are a function of
/// the raster alone, so compressing the same raster twice yields the
/// identical codeword stream, and hence byte-identical container payloads.
pub proof fn lemma_stream_deterministic(
    pixels: Seq<Rgb>,
    width: int,
    height: int,
    w1: Seq<u32>,
    w2: Seq<u32>,
)
    requires
        w1.len() == (width / 2) * (height / 2),
        w2.len() == (width / 2) * (height / 2),
        forall|k: int| 0 <= k < w1.len() ==> w1[k] as int == #[trigger] spec_word_at(pixels, width, k),
        forall|k: int| 0 <= k < w2.len() ==> w2[k] as int == #[trigger] spec_word_at(pixels, width, k),
    ensures
        w1 == w2,
{
    assert forall|k: int| 0 <= k < w1.len() implies w1[k] == w2[k] by {
        let x = spec_word_at(pixels, width, k);
        assert(w1[k] as int == x);
        assert(w2[k] as int == x);
    }
    assert(w1 =~= w2);
}

/// On a constant-color block the gradient coefficients vanish exactly: all
/// four luma values are equal, so `b`, `c` and `d` quantize to exactly 0 and
/// the codeword is determined by the average term and the chroma pair alone.
pub proof fn lemma_constant_block(p: Rgb)
    ensures
        spec_quant_bcd(0, 1020000) == 0,
        spec_block_word(p, p, p, p) == spec_pack(
            spec_quant_a(4 * pixel_y(p), 1020000),
            0,
            0,
            0,
            spec_index_of_chroma(4 * pixel_pb(p), 1807440),
            spec_index_of_chroma(4 * pixel_pr(p), 1430040),
        ),
{
    lemma_round_div_exact(0, 1020000);
}

} // verus!
