use vstd::prelude::*;
use vstd::arithmetic::div_mod::{lemma_fundamental_div_mod, lemma_div_pos_is_pos, lemma_mod_bound};
use vstd::arithmetic::mul::lemma_mul_is_commutative;
use crate::error::DevelopError;
use crate::geometry::{Dim2, Point, Rect};

verus! {

/// The pixels of `area`, row by row, out of an image of size `dim` that is
/// stored row by row.
pub open spec fn cropped<T>(input: Seq<T>, dim: Dim2, area: Rect) -> Seq<T> {
    Seq::new(
        (area.d.w * area.d.h) as nat,
        |i: int|
            input[(area.p.y + i / (area.d.w as int)) * dim.w + area.p.x + i % (area.d.w as int)],
    )
}

/// The components of the pixels one after the other: all three of the
/// first pixel, then those of the second, and so on.
pub open spec fn flattened<T>(pixels: Seq<[T; 3]>) -> Seq<T> {
    Seq::new((3 * pixels.len()) as nat, |i: int| pixels[i / 3]@[i % 3])
}

/// Calls `rawler::imgop::crop`, which cuts the image into rows of `dim.w`
/// pixels, skips `area.p.y` of them, takes `area.d.h`, and of each the
/// `area.d.w` pixels from column `area.p.x` on. The contract claims that
/// the result holds exactly those pixels in that order. It leaves out a
/// width of zero and an area that reaches beyond a row or beyond the last
/// complete row, on which the outside function panics or hands back less.
/// The outside function clones each pixel; for a `Copy` type the clone is
/// taken to be the pixel itself.
#[verifier::external_body]
fn crop_rows<T: Copy>(input: &[T], dim: Dim2, area: Rect) -> (out: Vec<T>)
    requires
        dim.w > 0,
        area.p.x + area.d.w <= dim.w,
        (area.p.y + area.d.h) * dim.w <= input@.len(),
    ensures
        out@ == cropped(input@, dim, area),
{
    rawler::imgop::crop(
        input,
        rawler::imgop::Dim2::new(dim.w, dim.h),
        rawler::imgop::Rect::new(
            rawler::imgop::Point::new(area.p.x, area.p.y),
            rawler::imgop::Dim2::new(area.d.w, area.d.h),
        ),
    )
}

/// Cropping an image to its whole rectangle leaves it as it is.
pub proof fn lemma_crop_full_is_identity<T>(input: Seq<T>, dim: Dim2)
    requires
        input.len() == dim.area(),
    ensures
        cropped(input, dim, Rect::full(dim.w, dim.h)) == input,
{
    let area = Rect::full(dim.w, dim.h);
    let out = cropped(input, dim, area);
    assert forall|i: int| 0 <= i < out.len() implies out[i] == input[i] by {
        if dim.w == 0 {
            lemma_mul_is_commutative(dim.w as int, dim.h as int);
        } else {
            lemma_fundamental_div_mod(i, dim.w as int);
            lemma_mul_is_commutative(dim.w as int, i / (dim.w as int));
        }
    }
    assert(out =~= input);
}

/// Each pixel of a crop area within the image is a pixel of the image: the
/// index that `cropped` reads lies within the image's buffer.
pub proof fn lemma_crop_reads_within(dim: Dim2, area: Rect, i: int)
    requires
        area.within(Rect::full(dim.w, dim.h)),
        0 <= i < area.d.w * area.d.h,
    ensures
        0 <= (area.p.y + i / (area.d.w as int)) * dim.w + area.p.x + i % (area.d.w as int) < dim.w
            * dim.h,
{
    let w = area.d.w as int;
    let h = area.d.h as int;
    assert(w > 0) by (nonlinear_arith)
        requires
            0 <= i < w * h,
            w >= 0,
    ;
    lemma_fundamental_div_mod(i, w);
    lemma_mod_bound(i, w);
    lemma_div_pos_is_pos(i, w);
    let row = i / w;
    assert(row < h) by (nonlinear_arith)
        requires
            w > 0,
            i < w * h,
            i == w * row + i % w,
            0 <= i % w,
    ;
    let y = area.p.y + row;
    assert(y + 1 <= dim.h);
    assert(y * dim.w + dim.w <= dim.h * dim.w) by (nonlinear_arith)
        requires
            y + 1 <= dim.h,
            dim.w >= 0,
    ;
    assert(y * dim.w >= 0) by (nonlinear_arith)
        requires
            y >= 0,
            dim.w >= 0,
    ;
    lemma_mul_is_commutative(dim.w as int, dim.h as int);
}

/// Cuts `area` out of an image of size `dim`. An area as large as the
/// image hands the image back untouched. Fails exactly when the area does
/// not lie within the image.
pub fn crop_image<T: Copy>(input: Vec<T>, dim: Dim2, area: Rect) -> (r: Result<
    Vec<T>,
    DevelopError,
>)
    requires
        input@.len() == dim.area(),
    ensures
        area.within(Rect::full(dim.w, dim.h)) ==> (r matches Ok(v) && v@ == cropped(
            input@,
            dim,
            area,
        )),
        !area.within(Rect::full(dim.w, dim.h)) ==> r matches Err(
            DevelopError::CropOutOfBounds,
        ),
{
    let full: Rect = Rect::new(Point::zero(), dim);
    if !area.is_within(&full) {
        return Err(DevelopError::CropOutOfBounds);
    }
    if area.d.w == dim.w && area.d.h == dim.h {
        proof {
            lemma_crop_full_is_identity(input@, dim);
        }
        return Ok(input);
    }
    if area.d.w == 0 || area.d.h == 0 {
        let v: Vec<T> = Vec::new();
        assert(area.d.w * area.d.h == 0) by (nonlinear_arith)
            requires
                area.d.w == 0 || area.d.h == 0,
        ;
        assert(v@ =~= cropped(input@, dim, area));
        return Ok(v);
    }
    assert((area.p.y + area.d.h) * dim.w <= dim.w * dim.h) by (nonlinear_arith)
        requires
            area.p.y + area.d.h <= dim.h,
            dim.w >= 0,
    ;
    Ok(crop_rows(input.as_slice(), dim, area))
}

/// Lays the components of three-channel pixels out in one interleaved
/// buffer.
pub fn flatten_pixels<T: Copy>(pixels: &[[T; 3]]) -> (out: Vec<T>)
    ensures
        out@ == flattened(pixels@),
{
    let mut out: Vec<T> = Vec::new();
    let mut i: usize = 0;
    while i < pixels.len()
        invariant
            i <= pixels@.len(),
            out@.len() == 3 * i,
            forall|k: int| 0 <= k < 3 * i ==> out@[k] == pixels@[k / 3]@[k % 3],
        decreases pixels@.len() - i,
    {
        let p: [T; 3] = pixels[i];
        out.push(p[0]);
        out.push(p[1]);
        out.push(p[2]);
        i += 1;
    }
    assert(out@ =~= flattened(pixels@));
    out
}

} // verus!
