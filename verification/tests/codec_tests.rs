use rpeg::chroma::{chroma_of_index, index_of_chroma};
use rpeg::codec::{bytes_to_words, compress, decompress, words_to_bytes};
use rpeg::color::{to_component_video, to_rgb, Rgb};
use rpeg::dct::{
    dct_block, discrete_cosine_transfer, inverse_discrete_cosine_transfer, CodecError,
    DecodedPixel, PixelBlockValues, Ypbpr,
};
use rpeg::pack::{pack, pack_fields, unpack};

fn fields(a: u32, b: i32, c: i32, d: i32, pb: usize, pr: usize) -> PixelBlockValues {
    PixelBlockValues {
        a,
        b,
        c,
        d,
        avg_pb: pb,
        avg_pr: pr,
    }
}

fn assert_fields_eq(x: &PixelBlockValues, y: &PixelBlockValues) {
    assert_eq!(x.a, y.a);
    assert_eq!(x.b, y.b);
    assert_eq!(x.c, y.c);
    assert_eq!(x.d, y.d);
    assert_eq!(x.avg_pb, y.avg_pb);
    assert_eq!(x.avg_pr, y.avg_pr);
}

#[test]
fn pack_roundtrip_corners() {
    let cases = [
        fields(0, 0, 0, 0, 0, 0),
        fields(511, 15, 15, 15, 15, 15),
        fields(511, -15, -15, -15, 0, 15),
        fields(256, -1, 1, -15, 7, 8),
        fields(300, 15, -15, 15, 3, 12),
    ];
    for v in cases.iter() {
        let w = pack(v).unwrap();
        let u = unpack(w);
        assert_fields_eq(&u, v);
    }
}

#[test]
fn pack_roundtrip_sweep() {
    for a in 0..512u32 {
        let v = fields(a, -7, 7, 3, 5, 10);
        let u = unpack(pack(&v).unwrap());
        assert_fields_eq(&u, &v);
    }
    for x in -15..=15i32 {
        let v = fields(123, x, -x, x, 9, 6);
        let u = unpack(pack(&v).unwrap());
        assert_fields_eq(&u, &v);
    }
    for i in 0..16usize {
        let v = fields(42, -8, 0, 15, i, 15 - i);
        let u = unpack(pack(&v).unwrap());
        assert_fields_eq(&u, &v);
    }
}

#[test]
fn pack_rejects_field_overflow() {
    assert_eq!(
        pack(&fields(512, 0, 0, 0, 0, 0)).unwrap_err(),
        CodecError::FieldOverflow
    );
    assert_eq!(
        pack(&fields(0, 16, 0, 0, 0, 0)).unwrap_err(),
        CodecError::FieldOverflow
    );
    assert_eq!(
        pack(&fields(0, 0, -16, 0, 0, 0)).unwrap_err(),
        CodecError::FieldOverflow
    );
    assert_eq!(
        pack(&fields(0, 0, 0, 0, 16, 0)).unwrap_err(),
        CodecError::FieldOverflow
    );
}

#[test]
fn dct_rejects_wrong_block_size() {
    let p = to_component_video(10, 20, 30);
    let r = discrete_cosine_transfer(vec![p]);
    assert_eq!(r.unwrap_err(), CodecError::WrongBlockSize);
}

fn luma_block(y: [i32; 4]) -> Vec<Ypbpr> {
    y.iter()
        .map(|&y| Ypbpr { y, pb: 0, pr: 0 })
        .collect()
}

#[test]
fn constant_white_block_is_exact() {
    // All four luma values 1.0: a quantizes to 511, the gradients to 0, and
    // the inverse transform reproduces luma 1.0 (25550/25550) exactly.
    let v = dct_block(&luma_block([255000, 255000, 255000, 255000]));
    assert_eq!(v.a, 511);
    assert_eq!(v.b, 0);
    assert_eq!(v.c, 0);
    assert_eq!(v.d, 0);
    assert_eq!(v.avg_pb, 7);
    assert_eq!(v.avg_pr, 7);
    let dec = inverse_discrete_cosine_transfer(&v);
    assert_eq!(dec.len(), 4);
    for p in dec.iter() {
        assert_eq!(p.y, 25550);
        assert_eq!(p.pb, -11);
        assert_eq!(p.pr, -11);
    }
}

#[test]
fn transform_gradients() {
    // Luma 0.1, 0.2, 0.3, 0.4 (numerators over 255000): b = 0.1, c = 0.05,
    // d = 0. Quantized: b = round(5) = 5, c = round(2.5) = 3 (halves away
    // from zero), a = round(511 * 0.25) = round(127.75) = 128.
    let v = dct_block(&luma_block([25500, 51000, 76500, 102000]));
    assert_eq!(v.a, 128);
    assert_eq!(v.b, 5);
    assert_eq!(v.c, 3);
    assert_eq!(v.d, 0);
}

#[test]
fn clamp_saturation_same_codeword() {
    // One block with a raw b of 0.45 (beyond the 0.3 clamp) and one with
    // exactly 0.3; both have a = 0.5 and c = d = 0, so they quantize to the
    // same coefficients and pack to the same codeword.
    let beyond = dct_block(&luma_block([12750, 12750, 242250, 242250]));
    let at_bound = dct_block(&luma_block([51000, 51000, 204000, 204000]));
    assert_fields_eq(&beyond, &at_bound);
    assert_eq!(beyond.b, 15);
    assert_eq!(
        pack_fields(&beyond),
        pack_fields(&at_bound)
    );
}

#[test]
fn chroma_table_roundtrip() {
    for i in 0..16usize {
        let c = chroma_of_index(i);
        assert_eq!(index_of_chroma(c as i64, 1000), i);
    }
}

#[test]
fn chroma_index_of_known_values() {
    // Known index assignments of the fixed table, cross-checked below
    // against the csc411_arith lookup crate.
    assert_eq!(index_of_chroma(-500, 1000), 0);
    assert_eq!(index_of_chroma(-300, 1000), 0);
    assert_eq!(index_of_chroma(-250, 1000), 1);
    assert_eq!(index_of_chroma(-80, 1000), 4);
    assert_eq!(index_of_chroma(0, 1000), 7);
    assert_eq!(index_of_chroma(120, 1000), 12);
    assert_eq!(index_of_chroma(250, 1000), 14);
    assert_eq!(index_of_chroma(300, 1000), 15);
    assert_eq!(index_of_chroma(500, 1000), 15);
}

#[test]
fn chroma_index_matches_reference_table() {
    // Sweep chroma in [-0.5, 0.5] in thousandths and compare with the
    // csc411_arith lookup crate. Exact midpoints between adjacent table
    // entries are skipped: there the crate's f32 distances can tie-break on
    // rounding noise while the exact rational comparison always takes the
    // lower index.
    let midpoints = [-275, -175, -125, -88, -66, -44, -22, 22, 44, 66, 88, 125, 175, 275];
    for k in -500..=500i64 {
        if midpoints.contains(&k) {
            continue;
        }
        let expected = csc411_arith::index_of_chroma(k as f32 / 1000.0);
        assert_eq!(index_of_chroma(k, 1000), expected, "chroma {k}/1000");
    }
}

#[test]
fn chroma_subsampling_uses_block_mean() {
    // Four different chroma-blue values whose mean is 0.05: nearest table
    // entry is 0.055, index 10 (0.033 at index 9 is farther).
    let pbs = [10000, 20000, 30000, 30372];
    let sum: i32 = pbs.iter().sum();
    assert_eq!(sum, 90372); // 4 * 0.05 * 451860
    let block: Vec<Ypbpr> = pbs
        .iter()
        .map(|&pb| Ypbpr { y: 100000, pb, pr: 0 })
        .collect();
    let v = dct_block(&block);
    assert_eq!(v.avg_pb, 10);
    assert_eq!(csc411_arith::index_of_chroma(0.05), 10);
}

#[test]
fn color_converter_known_values() {
    let p = to_component_video(255, 0, 0);
    assert_eq!(p.y, 76245); // 0.299 over 255000
    assert_eq!(p.pb, -76245);
    assert_eq!(p.pr, 178755); // 0.5 over 357510
    let w = to_component_video(255, 255, 255);
    assert_eq!(w.y, 255000);
    assert_eq!(w.pb, 0);
    assert_eq!(w.pr, 0);
}

#[test]
fn to_rgb_known_values() {
    let white = to_rgb(&DecodedPixel { y: 25550, pb: 0, pr: 0 });
    assert_eq!((white.red, white.green, white.blue), (255, 255, 255));
    let black = to_rgb(&DecodedPixel { y: 0, pb: 0, pr: 0 });
    assert_eq!((black.red, black.green, black.blue), (0, 0, 0));
    // Luma 0.5 scales to 127.5, which rounds half away from zero to 128.
    let mid = to_rgb(&DecodedPixel { y: 12775, pb: 0, pr: 0 });
    assert_eq!((mid.red, mid.green, mid.blue), (128, 128, 128));
}

fn constant_raster(w: usize, h: usize, p: Rgb) -> Vec<Rgb> {
    vec![p; w * h]
}

fn channel_diff(a: u8, b: u8) -> i32 {
    (a as i32 - b as i32).abs()
}

#[test]
fn flat_block_roundtrip_tolerance() {
    // A constant-color block keeps b = c = d = 0 exactly; the residual error
    // comes from the 9-bit luma grid and the 16-entry chroma table. For grey
    // the chroma pair is near zero and each channel stays within 6/255; for
    // saturated colors the chroma table dominates, within 40/255.
    let greys = [0u8, 1, 63, 127, 128, 200, 254, 255];
    for &v in greys.iter() {
        let raster = constant_raster(2, 2, Rgb { red: v, green: v, blue: v });
        let words = compress(2, 2, &raster);
        assert_eq!(words.len(), 1);
        let u = unpack(words[0]);
        assert_eq!((u.b, u.c, u.d), (0, 0, 0));
        let out = decompress(2, 2, &words);
        for q in out.iter() {
            assert!(channel_diff(q.red, v) <= 6);
            assert!(channel_diff(q.green, v) <= 6);
            assert!(channel_diff(q.blue, v) <= 6);
        }
    }
    let colors = [
        Rgb { red: 200, green: 50, blue: 100 },
        Rgb { red: 10, green: 250, blue: 30 },
        Rgb { red: 255, green: 128, blue: 0 },
    ];
    for &p in colors.iter() {
        let raster = constant_raster(2, 2, p);
        let words = compress(2, 2, &raster);
        let u = unpack(words[0]);
        assert_eq!((u.b, u.c, u.d), (0, 0, 0));
        let out = decompress(2, 2, &words);
        for q in out.iter() {
            assert!(channel_diff(q.red, p.red) <= 40);
            assert!(channel_diff(q.green, p.green) <= 40);
            assert!(channel_diff(q.blue, p.blue) <= 40);
        }
    }
    // Fully saturated blue has chroma 0.5, beyond the table's +-0.35 span;
    // the chroma clamp costs up to 0.15 * 1.772 per unit, about 68/255.
    let blue = Rgb { red: 0, green: 0, blue: 255 };
    let words = compress(2, 2, &constant_raster(2, 2, blue));
    let out = decompress(2, 2, &words);
    for q in out.iter() {
        assert!(channel_diff(q.red, blue.red) <= 40);
        assert!(channel_diff(q.green, blue.green) <= 40);
        assert!(channel_diff(q.blue, blue.blue) <= 70);
    }
}

fn sample_raster(w: usize, h: usize) -> Vec<Rgb> {
    let mut pixels = Vec::new();
    for i in 0..h {
        for j in 0..w {
            pixels.push(Rgb {
                red: ((i * 37 + j * 11) % 256) as u8,
                green: ((i * 5 + j * 91 + 17) % 256) as u8,
                blue: ((i * 13 + j * 61 + 200) % 256) as u8,
            });
        }
    }
    pixels
}

#[test]
fn stream_is_deterministic() {
    let raster = sample_raster(6, 4);
    let w1 = compress(6, 4, &raster);
    let w2 = compress(6, 4, &raster);
    assert_eq!(w1, w2);
    assert_eq!(w1.len(), 6);
    let b1 = words_to_bytes(&w1);
    let b2 = words_to_bytes(&w2);
    assert_eq!(b1, b2);
}

#[test]
fn decompress_dimensions_and_stability() {
    let raster = sample_raster(8, 6);
    let words = compress(8, 6, &raster);
    assert_eq!(words.len(), 12);
    let out = decompress(8, 6, &words);
    assert_eq!(out.len(), 48);
    // Decompression is a function of the stream: same stream, same raster.
    let out2 = decompress(8, 6, &words);
    assert_eq!(out, out2);
}

#[test]
fn byte_serialization_big_endian() {
    let words = vec![0x12345678u32, 0, 0xffffffff, 0x80000001];
    let bytes = words_to_bytes(&words);
    assert_eq!(bytes.len(), 16);
    assert_eq!(&bytes[0..4], &[0x12, 0x34, 0x56, 0x78]);
    assert_eq!(&bytes[4..8], &[0, 0, 0, 0]);
    assert_eq!(&bytes[8..12], &[0xff, 0xff, 0xff, 0xff]);
    assert_eq!(&bytes[12..16], &[0x80, 0x00, 0x00, 0x01]);
    let back = bytes_to_words(&bytes);
    assert_eq!(back, words);
}
