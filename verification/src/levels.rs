use vstd::prelude::*;
use vstd::arithmetic::div_mod::{
    lemma_basic_div, lemma_div_basics, lemma_div_is_ordered, lemma_div_multiples_vanish,
    lemma_fundamental_div_mod, lemma_fundamental_div_mod_converse, lemma_mod_bound,
};
use vstd::arithmetic::mul::{lemma_mul_basics, lemma_mul_inequality, lemma_mul_is_commutative};

verus! {

/// A black level: the rational offset `n / d`, with `d` positive.
#[derive(Clone, Copy, Debug)]
pub struct Level {
    n: u32,
    d: u32,
}

/// A corrected sample as the exact quotient `num / den`.
#[derive(Clone, Copy, Debug, PartialEq, Eq, Structural)]
pub struct Fraction {
    pub num: u64,
    pub den: i128,
}

impl Level {
    #[verifier::type_invariant]
    spec fn positive_denominator(self) -> bool {
        self.d > 0
    }

    /// The numerator of the offset.
    pub closed spec fn num(self) -> int {
        self.n as int
    }

    /// The denominator of the offset.
    pub closed spec fn den(self) -> int {
        self.d as int
    }

    /// Numerator and denominator are unsigned numbers of 32 bits.
    pub proof fn lemma_bounds(self)
        ensures
            0 <= self.num() <= u32::MAX,
            0 <= self.den() <= u32::MAX,
    {
    }

    /// The level `n / d`; there is none with `d == 0`.
    pub fn new(n: u32, d: u32) -> (r: Option<Level>)
        ensures
            r is None <==> d == 0,
            r matches Some(l) ==> l.num() == n && l.den() == d,
    {
        if d == 0 {
            None
        } else {
            Some(Level { n, d })
        }
    }

    /// The whole-numbered level `n`.
    pub fn from_integer(n: u32) -> (r: Level)
        ensures
            r.num() == n,
            r.den() == 1,
    {
        Level { n, d: 1 }
    }

    pub fn numerator(&self) -> (r: u32)
        ensures
            r == self.num(),
    {
        self.n
    }

    pub fn denominator(&self) -> (r: u32)
        ensures
            r == self.den(),
            r > 0,
    {
        proof {
            use_type_invariant(self);
        }
        self.d
    }
}

/// The level that applies to channel slot `c`: the only one where a single
/// level is given, else the one at `c`.
pub open spec fn slot_level<T>(levels: Seq<T>, c: int) -> T {
    if levels.len() == 1 {
        levels[0]
    } else {
        levels[c]
    }
}

/// Spreads one level over the four channel slots, or takes four levels as
/// they stand. Any other number of levels is refused.
pub fn expand_levels<T: Copy>(levels: &[T]) -> (r: Option<[T; 4]>)
    ensures
        r is Some <==> levels@.len() == 1 || levels@.len() == 4,
        r matches Some(a) ==> a@ == expanded(levels@),
{
    if levels.len() == 1 {
        let v: T = levels[0];
        let a: [T; 4] = [v, v, v, v];
        assert(a@ =~= expanded(levels@));
        Some(a)
    } else if levels.len() == 4 {
        let a: [T; 4] = [levels[0], levels[1], levels[2], levels[3]];
        assert(a@ =~= expanded(levels@));
        Some(a)
    } else {
        None
    }
}

/// The channel slot of the sample at index `i` of a plane of the given
/// width: 0 and 1 on even rows, 2 and 3 on odd rows, by the column's parity.
pub open spec fn slot(i: int, width: int) -> int {
    ((i / width) % 2) * 2 + (i % width) % 2
}

/// Whether the sample at index `i` lies in a complete two-by-two tile of a
/// plane of `len` samples: within a complete pair of rows and a complete
/// pair of columns.
pub open spec fn in_tile(i: int, width: int, len: int) -> bool {
    &&& width > 0
    &&& i < (len / (2 * width)) * (2 * width)
    &&& i % width < width - width % 2
}

/// A sample that no level was applied to.
pub open spec fn raw_value(s: u16) -> Fraction {
    Fraction { num: s as u64, den: 1 }
}

/// The sample `s` less the black level, not below zero, over the span
/// from the black level to the white level.
pub open spec fn normalized(s: u16, black: Level, white: u32) -> Fraction {
    Fraction {
        num: if s * black.den() > black.num() {
            (s * black.den() - black.num()) as u64
        } else {
            0
        },
        den: (white * black.den() - black.num()) as i128,
    }
}

/// What level correction leaves at index `i` of the plane.
pub open spec fn corrected_at(
    pixels: Seq<u16>,
    width: int,
    black: Seq<Level>,
    white: Seq<u32>,
    i: int,
) -> Fraction {
    if in_tile(i, width, pixels.len() as int) {
        normalized(pixels[i], black[slot(i, width)], white[slot(i, width)])
    } else {
        raw_value(pixels[i])
    }
}

/// The four levels that apply to the four channel slots.
pub open spec fn expanded<T>(levels: Seq<T>) -> Seq<T> {
    Seq::new(4, |c: int| slot_level(levels, c))
}

/// The plane that level correction makes of `pixels`.
pub open spec fn corrected_plane(
    pixels: Seq<u16>,
    width: int,
    black: Seq<Level>,
    white: Seq<u32>,
) -> Seq<Fraction> {
    Seq::new(pixels.len(), |i: int| corrected_at(pixels, width, black, white, i))
}

/// The channel slot of the sample at row `row` and column `col`.
pub fn channel_slot(row: usize, col: usize) -> (c: usize)
    ensures
        c == (row % 2) * 2 + col % 2,
        c < 4,
{
    (row % 2) * 2 + col % 2
}

/// Normalises one sample against the levels of its channel.
pub fn normalize_sample(s: u16, black: Level, white: u32) -> (r: Fraction)
    ensures
        r == normalized(s, black, white),
{
    let n: u32 = black.numerator();
    let d: u32 = black.denominator();
    assert(s * d <= 0xffff * 0xffff_ffff) by (nonlinear_arith)
        requires
            0 <= s <= 0xffff,
            0 <= d <= 0xffff_ffff,
    ;
    assert(white * d <= 0xffff_ffff * 0xffff_ffff) by (nonlinear_arith)
        requires
            0 <= white <= 0xffff_ffff,
            0 <= d <= 0xffff_ffff,
    ;
    let sd: u64 = (s as u64) * (d as u64);
    let wd: u64 = (white as u64) * (d as u64);
    let num: u64 = if sd > n as u64 {
        sd - n as u64
    } else {
        0
    };
    Fraction { num, den: wd as i128 - n as i128 }
}

/// Normalises every sample that lies in a complete two-by-two tile against
/// the levels of its channel slot, and leaves the others as they are.
pub fn correct_blacklevel(
    pixels: &[u16],
    width: usize,
    black: &[Level; 4],
    white: &[u32; 4],
) -> (out: Vec<Fraction>)
    ensures
        out@ == corrected_plane(pixels@, width as int, black@, white@),
{
    let len: usize = pixels.len();
    let mut limit: usize = 0;
    let mut even: usize = 0;
    if width > 0 {
        even = width - width % 2;
        if width <= len / 2 {
            let pair: usize = 2 * width;
            let pairs: usize = len / pair;
            proof {
                lemma_fundamental_div_mod(len as int, pair as int);
                lemma_mod_bound(len as int, pair as int);
                lemma_mul_is_commutative(pair as int, pairs as int);
            }
            limit = pairs * pair;
        } else {
            proof {
                lemma_basic_div(len as int, 2 * width);
                lemma_mul_basics(2 * width);
            }
        }
    }
    let mut out: Vec<Fraction> = Vec::new();
    let mut i: usize = 0;
    while i < len
        invariant
            len == pixels@.len(),
            i <= len,
            out@.len() == i,
            width == 0 ==> limit == 0,
            width > 0 ==> limit == (len as int / (2 * width)) * (2 * width),
            width > 0 ==> even == width - width % 2,
            forall|k: int|
                0 <= k < i ==> out@[k] == corrected_at(
                    pixels@,
                    width as int,
                    black@,
                    white@,
                    k,
                ),
        decreases len - i,
    {
        let s: u16 = pixels[i];
        let f: Fraction = if i < limit && i % width < even {
            let c: usize = channel_slot(i / width, i % width);
            normalize_sample(s, black[c], white[c])
        } else {
            Fraction { num: s as u64, den: 1 }
        };
        out.push(f);
        i += 1;
    }
    assert(out@ =~= corrected_plane(pixels@, width as int, black@, white@));
    out
}

/// Below the black level a sample is corrected to exactly zero.
pub proof fn lemma_below_black_is_zero(s: u16, black: Level, white: u32)
    requires
        black.den() > 0,
        s * black.den() <= black.num(),
    ensures
        normalized(s, black, white).num == 0,
{
}

/// At the white level a sample is corrected to exactly one: numerator and
/// denominator are the same positive number. The white level has to lie
/// above the black level for that.
pub proof fn lemma_at_white_is_one(s: u16, black: Level, white: u32)
    requires
        black.den() > 0,
        s == white,
        white * black.den() > black.num(),
    ensures
        normalized(s, black, white).den > 0,
        normalized(s, black, white).num == normalized(s, black, white).den,
{
    black.lemma_bounds();
    assert(white * black.den() <= 0xffff * 0xffff_ffff) by (nonlinear_arith)
        requires
            0 <= white <= 0xffff,
            0 < black.den() <= 0xffff_ffff,
    ;
}

/// A sample between the black and the white level is corrected to a value
/// from zero to one, where the white level lies above the black level.
pub proof fn lemma_normalized_in_unit_range(s: u16, black: Level, white: u32)
    requires
        black.den() > 0,
        s <= white,
        white * black.den() > black.num(),
    ensures
        normalized(s, black, white).den > 0,
        0 <= normalized(s, black, white).num <= normalized(s, black, white).den,
{
    black.lemma_bounds();
    assert(s * black.den() <= white * black.den() <= 0xffff_ffff * 0xffff_ffff)
        by (nonlinear_arith)
        requires
            0 <= s <= white <= 0xffff_ffff,
            0 < black.den() <= 0xffff_ffff,
    ;
}

/// In the corrected plane every sample of a complete tile that lies at or
/// below the black level of its channel slot is exactly zero, and every one
/// at the white level of its slot is exactly one, where that white level
/// lies above the black level.
pub proof fn lemma_plane_clips_and_saturates(
    pixels: Seq<u16>,
    width: int,
    black: Seq<Level>,
    white: Seq<u32>,
    i: int,
)
    requires
        0 <= i < pixels.len(),
        in_tile(i, width, pixels.len() as int),
        black.len() == 4,
        white.len() == 4,
        forall|c: int| 0 <= c < 4 ==> black[c].den() > 0,
    ensures
        0 <= slot(i, width) < 4,
        ({
            let c = slot(i, width);
            let f = corrected_plane(pixels, width, black, white)[i];
            &&& pixels[i] * black[c].den() <= black[c].num() ==> f.num == 0
            &&& pixels[i] == white[c] && white[c] * black[c].den() > black[c].num() ==> f.den > 0
                && f.num == f.den
        }),
{
    let c = slot(i, width);
    if pixels[i] == white[c] && white[c] * black[c].den() > black[c].num() {
        lemma_at_white_is_one(pixels[i], black[c], white[c]);
    }
}

/// What level correction leaves of a sample depends on the sample, its
/// place and the size of the plane alone.
pub proof fn lemma_correction_is_pointwise(
    a: Seq<u16>,
    b: Seq<u16>,
    width: int,
    black: Seq<Level>,
    white: Seq<u32>,
    i: int,
)
    requires
        a.len() == b.len(),
        a[i] == b[i],
    ensures
        corrected_at(a, width, black, white, i) == corrected_at(b, width, black, white, i),
{
}

/// Each complete pair of rows is corrected by itself: the part of the
/// corrected plane that belongs to the pair `k` is what level correction
/// makes of those two rows alone.
pub proof fn lemma_row_pairs_are_independent(
    pixels: Seq<u16>,
    width: int,
    black: Seq<Level>,
    white: Seq<u32>,
    k: int,
)
    requires
        width > 0,
        0 <= k,
        (k + 1) * (2 * width) <= pixels.len(),
    ensures
        0 <= k * (2 * width) <= (k + 1) * (2 * width),
        corrected_plane(pixels, width, black, white).subrange(
            k * (2 * width),
            (k + 1) * (2 * width),
        ) == corrected_plane(
            pixels.subrange(k * (2 * width), (k + 1) * (2 * width)),
            width,
            black,
            white,
        ),
{
    let c = 2 * width;
    let base = k * c;
    let len = pixels.len() as int;
    assert(base >= 0 && base + c == (k + 1) * c) by (nonlinear_arith)
        requires
            base == k * c,
            k >= 0,
            c > 0,
    ;
    let rows = pixels.subrange(base, base + c);
    let whole = corrected_plane(pixels, width, black, white).subrange(base, base + c);
    let part = corrected_plane(rows, width, black, white);
    // The pair lies among the complete pairs of the plane, and is the one
    // complete pair of itself.
    lemma_div_multiples_vanish(k + 1, c);
    lemma_mul_is_commutative(c, k + 1);
    lemma_div_is_ordered((k + 1) * c, len, c);
    lemma_mul_inequality(k + 1, len / c, c);
    lemma_div_basics(c);
    lemma_mul_basics(c);
    assert((k + 1) * c <= (len / c) * c);
    assert((c / c) * c == c);
    assert forall|j: int| 0 <= j < c implies whole[j] == part[j] by {
        let x = base + j;
        lemma_fundamental_div_mod(j, width);
        lemma_mod_bound(j, width);
        let q = 2 * k + j / width;
        assert(x == q * width + j % width) by (nonlinear_arith)
            requires
                x == k * (2 * width) + j,
                j == width * (j / width) + j % width,
                q == 2 * k + j / width,
        ;
        lemma_fundamental_div_mod_converse(x, width, q, j % width);
        assert(x / width == q && x % width == j % width);
        assert(slot(x, width) == slot(j, width));
        assert(in_tile(x, width, len) == in_tile(j, width, c));
        assert(rows[j] == pixels[x]);
    }
    assert(whole =~= part);
}

/// One level for all channels corrects as the same level written four
/// times does.
pub proof fn lemma_single_level_is_broadcast(
    pixels: Seq<u16>,
    width: int,
    black: Level,
    white: u32,
)
    ensures
        expanded(seq![black]) == expanded(seq![black, black, black, black]),
        expanded(seq![white]) == expanded(seq![white, white, white, white]),
        corrected_plane(pixels, width, expanded(seq![black]), expanded(seq![white]))
            == corrected_plane(
            pixels,
            width,
            expanded(seq![black, black, black, black]),
            expanded(seq![white, white, white, white]),
        ),
{
    assert(expanded(seq![black]) =~= expanded(seq![black, black, black, black]));
    assert(expanded(seq![white]) =~= expanded(seq![white, white, white, white]));
}

} // verus!
