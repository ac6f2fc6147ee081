use vstd::prelude::*;
use crate::levels::Fraction;

verus! {

/// The largest value of the output range.
pub const FULL_SCALE: u16 = 65535;

/// The fraction scaled to the sixteen-bit range and rounded to the nearest
/// integer, halves upwards, and held within the range. A fraction without a
/// positive denominator has no finite value: above a zero denominator a
/// positive numerator counts as beyond the range, and every other such
/// fraction as zero.
pub open spec fn quantized(f: Fraction) -> int {
    if f.den > 0 {
        let r = (2 * f.num * 65535 + f.den) / (2 * f.den);
        if r > 65535 {
            65535
        } else {
            r
        }
    } else if f.den == 0 && f.num > 0 {
        65535
    } else {
        0
    }
}

/// The plane quantised sample by sample.
pub open spec fn quantized_plane(plane: Seq<Fraction>) -> Seq<u16> {
    Seq::new(plane.len(), |i: int| quantized(plane[i]) as u16)
}

/// Quantises one fraction.
pub fn quantize(f: Fraction) -> (q: u16)
    ensures
        q == quantized(f),
{
    if f.den <= 0 {
        if f.den == 0 && f.num > 0 {
            FULL_SCALE
        } else {
            0
        }
    } else if f.num as i128 >= f.den {
        proof {
            let x = 2 * f.num * 65535 + f.den;
            let d = 2 * f.den;
            assert(x / d >= 65535) by (nonlinear_arith)
                requires
                    d > 0,
                    x >= 65535 * d,
            ;
        }
        FULL_SCALE
    } else {
        let den: u128 = f.den as u128;
        let x: u128 = 131070 * (f.num as u128) + den;
        let d: u128 = 2 * den;
        proof {
            assert(0 <= x as int / d as int <= 65535) by (nonlinear_arith)
                requires
                    d > 0,
                    0 <= x < 65536 * d,
            ;
        }
        (x / d) as u16
    }
}

/// Quantises a plane of fractions to sixteen-bit samples.
pub fn rescale_to_u16(plane: &[Fraction]) -> (out: Vec<u16>)
    ensures
        out@ == quantized_plane(plane@),
{
    let mut out: Vec<u16> = Vec::new();
    let mut i: usize = 0;
    while i < plane.len()
        invariant
            i <= plane@.len(),
            out@.len() == i,
            forall|k: int| 0 <= k < i ==> out@[k] == quantized(plane@[k]) as u16,
        decreases plane@.len() - i,
    {
        out.push(quantize(plane[i]));
        i += 1;
    }
    assert(out@ =~= quantized_plane(plane@));
    out
}

/// A fraction stays within the output range.
pub proof fn lemma_quantized_in_range(f: Fraction)
    ensures
        0 <= quantized(f) <= 65535,
{
    if f.den > 0 {
        let x = 2 * f.num * 65535 + f.den;
        let d = 2 * f.den;
        assert(x / d >= 0) by (nonlinear_arith)
            requires
                d > 0,
                x >= 0,
        ;
    }
}

/// Zero is quantised to zero.
pub proof fn lemma_zero_quantizes_to_zero(f: Fraction)
    requires
        f.num == 0,
    ensures
        quantized(f) == 0,
{
    if f.den > 0 {
        let x = 2 * f.num * 65535 + f.den;
        let d = 2 * f.den;
        assert(x / d == 0) by (nonlinear_arith)
            requires
                d > 0,
                0 <= x < d,
        ;
    }
}

/// One is quantised to the top of the range.
pub proof fn lemma_one_quantizes_to_full_scale(f: Fraction)
    requires
        f.den > 0,
        f.num == f.den,
    ensures
        quantized(f) == 65535,
{
    let x = 2 * f.num * 65535 + f.den;
    let d = 2 * f.den;
    assert(x / d == 65535) by (nonlinear_arith)
        requires
            d > 0,
            65535 * d <= x < 65536 * d,
    ;
}

/// A plane of zeros is quantised to zeros, and a plane of ones to the top
/// of the range throughout.
pub proof fn lemma_uniform_planes(plane: Seq<Fraction>)
    ensures
        (forall|i: int| 0 <= i < plane.len() ==> plane[i].num == 0) ==> forall|i: int|
            0 <= i < plane.len() ==> quantized_plane(plane)[i] == 0,
        (forall|i: int| 0 <= i < plane.len() ==> plane[i].den > 0 && plane[i].num == plane[i].den)
            ==> forall|i: int| 0 <= i < plane.len() ==> quantized_plane(plane)[i] == 65535,
{
    assert forall|i: int| 0 <= i < plane.len() && plane[i].num == 0 implies quantized(plane[i])
        == 0 by {
        lemma_zero_quantizes_to_zero(plane[i]);
    }
    assert forall|i: int|
        0 <= i < plane.len() && plane[i].den > 0 && plane[i].num == plane[i].den implies quantized(
        plane[i],
    ) == 65535 by {
        lemma_one_quantizes_to_full_scale(plane[i]);
    }
}

} // verus!
