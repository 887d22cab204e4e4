use vstd::prelude::*;

verus! {

/// The fixed chroma quantization table, scaled by 1000: entry `i` is the
/// representative chroma value `chroma_num(i) / 1000`. The table is strictly
/// increasing and spans [-0.35, 0.35].
pub open spec fn chroma_num(i: int) -> int {
    if i <= 0 {
        -350
    } else if i == 1 {
        -200
    } else if i == 2 {
        -150
    } else if i == 3 {
        -100
    } else if i == 4 {
        -77
    } else if i == 5 {
        -55
    } else if i == 6 {
        -33
    } else if i == 7 {
        -11
    } else if i == 8 {
        11
    } else if i == 9 {
        33
    } else if i == 10 {
        55
    } else if i == 11 {
        77
    } else if i == 12 {
        100
    } else if i == 13 {
        150
    } else if i == 14 {
        200
    } else {
        350
    }
}

/// Distance, cross-multiplied to stay in integers, between the chroma value
/// `num / den` and table entry `i`: `|num/den - chroma_num(i)/1000|` scaled
/// by `1000 * den`.
pub open spec fn chroma_dist(num: int, den: int, i: int) -> int {
    let t = 1000 * num - chroma_num(i) * den;
    if t < 0 {
        -t
    } else {
        t
    }
}

/// The index the quantizer picks among table entries `0 .. k`: the smallest
/// index at minimal distance from `num / den`.
pub open spec fn best_index_upto(num: int, den: int, k: int) -> int
    decreases k,
{
    if k <= 1 {
        0
    } else {
        let prev = best_index_upto(num, den, k - 1);
        if chroma_dist(num, den, k - 1) < chroma_dist(num, den, prev) {
            k - 1
        } else {
            prev
        }
    }
}

/// The quantized chroma index for the value `num / den`: the lowest index of
/// a nearest table entry.
pub open spec fn spec_index_of_chroma(num: int, den: int) -> int {
    best_index_upto(num, den, 16)
}

proof fn lemma_best_upto_props(num: int, den: int, k: int)
    requires
        1 <= k <= 16,
    ensures
        0 <= best_index_upto(num, den, k) < k,
        forall|j: int|
            0 <= j < k ==> chroma_dist(num, den, best_index_upto(num, den, k)) <= #[trigger] chroma_dist(num, den, j),
        forall|j: int|
            0 <= j < best_index_upto(num, den, k) ==> #[trigger] chroma_dist(num, den, j) > chroma_dist(num, den, best_index_upto(num, den, k)),
    decreases k,
{
    if k > 1 {
        lemma_best_upto_props(num, den, k - 1);
    }
}

/// The quantizer returns an index of a table entry nearest to `num / den`;
/// among equally near entries it returns the lowest index. This is the
/// block-level chroma sub-sampling law: a block's chroma pair is the table
/// index nearest its mean chroma.
pub proof fn lemma_index_of_chroma_nearest(num: int, den: int)
    ensures
        0 <= spec_index_of_chroma(num, den) < 16,
        forall|j: int|
            0 <= j < 16 ==> chroma_dist(num, den, spec_index_of_chroma(num, den)) <= #[trigger] chroma_dist(num, den, j),
        forall|j: int|
            0 <= j < spec_index_of_chroma(num, den) ==> #[trigger] chroma_dist(num, den, j) > chroma_dist(num, den, spec_index_of_chroma(num, den)),
{
    lemma_best_upto_props(num, den, 16);
}

/// Quantization idempotence for chroma: a value that is exactly a table
/// entry quantizes to that entry's own index.
pub proof fn lemma_chroma_roundtrip(num: int, den: int, i: int)
    requires
        den > 0,
        0 <= i < 16,
        1000 * num == chroma_num(i) * den,
    ensures
        spec_index_of_chroma(num, den) == i,
{
    let best = spec_index_of_chroma(num, den);
    lemma_index_of_chroma_nearest(num, den);
    assert(chroma_dist(num, den, i) == 0);
    assert forall|j: int| 0 <= j < 16 && j != i implies chroma_dist(num, den, j) > 0 by {
        assert(chroma_num(j) != chroma_num(i));
        assert(chroma_num(i) * den - chroma_num(j) * den != 0) by (nonlinear_arith)
            requires
                den > 0,
                chroma_num(j) != chroma_num(i),
        ;
    }
    assert(chroma_dist(num, den, best) <= 0);
}

/// The representative chroma value of table index `i`, scaled by 1000.
pub fn chroma_of_index(i: usize) -> (c: i32)
    requires
        i < 16,
    ensures
        c as int == chroma_num(i as int),
{
    if i == 0 {
        -350
    } else if i == 1 {
        -200
    } else if i == 2 {
        -150
    } else if i == 3 {
        -100
    } else if i == 4 {
        -77
    } else if i == 5 {
        -55
    } else if i == 6 {
        -33
    } else if i == 7 {
        -11
    } else if i == 8 {
        11
    } else if i == 9 {
        33
    } else if i == 10 {
        55
    } else if i == 11 {
        77
    } else if i == 12 {
        100
    } else if i == 13 {
        150
    } else if i == 14 {
        200
    } else {
        350
    }
}

fn chroma_dist_i64(num: i64, den: i64, i: usize) -> (r: i64)
    requires
        i < 16,
        0 < den <= 0x2000_0000_0000,
        -0x2000_0000_0000 <= num <= 0x2000_0000_0000,
    ensures
        r == chroma_dist(num as int, den as int, i as int),
{
    let c: i64 = chroma_of_index(i) as i64;
    proof {
        assert(-350 * den <= c * den <= 350 * den) by (nonlinear_arith)
            requires
                den > 0,
                -350 <= c <= 350,
        ;
    }
    let t: i64 = 1000 * num - c * den;
    if t < 0 {
        -t
    } else {
        t
    }
}

/// The quantized chroma index of the chroma value `num / den`: the lowest
/// index of a nearest entry of the fixed table. A value beyond the nominal
/// [-0.5, 0.5] chroma range needs no separate clamp: every entry lies
/// inside that range, so the nearest entry is the same either way.
pub fn index_of_chroma(num: i64, den: i64) -> (idx: usize)
    requires
        0 < den <= 0x2000_0000_0000,
        -0x2000_0000_0000 <= num <= 0x2000_0000_0000,
    ensures
        idx as int == spec_index_of_chroma(num as int, den as int),
        idx < 16,
{
    let mut best: usize = 0;
    let mut best_dist: i64 = chroma_dist_i64(num, den, 0);
    let mut j: usize = 1;
    while j < 16
        invariant
            1 <= j <= 16,
            best < j,
            0 < den <= 0x2000_0000_0000,
            -0x2000_0000_0000 <= num <= 0x2000_0000_0000,
            best_dist == chroma_dist(num as int, den as int, best as int),
            best as int == best_index_upto(num as int, den as int, j as int),
        decreases 16 - j,
    {
        let dj = chroma_dist_i64(num, den, j);
        if dj < best_dist {
            best = j;
            best_dist = dj;
        }
        j += 1;
    }
    best
}

} // verus!
