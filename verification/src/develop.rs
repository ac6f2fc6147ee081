use vstd::prelude::*;
use crate::crop::cropped;
use crate::error::DevelopError;
use crate::geometry::{Dim2, Point, Rect, lemma_adapted_within, lemma_full_size_is_full};
use crate::levels::{
    Fraction, Level, correct_blacklevel, corrected_plane, expand_levels, expanded,
    lemma_single_level_is_broadcast,
};
use crate::quantize::{quantized_plane, rescale_to_u16};

verus! {

/// The code of the reference illuminant, D65.
pub const D65: u16 = 21;

/// How the decoder hands the samples over.
#[derive(Clone, Copy, Debug, PartialEq, Eq, Structural)]
pub enum SampleFormat {
    /// Unsigned sixteen-bit integers.
    Integer,
    /// Floating-point numbers, which this pipeline does not develop.
    Float,
}

/// What the development of one image goes by.
#[derive(Debug)]
pub struct DevelopParams {
    /// Width of the sample plane in pixels.
    pub width: usize,
    /// Height of the sample plane in pixels.
    pub height: usize,
    /// The representation of the samples.
    pub format: SampleFormat,
    /// Components per pixel of the sample plane.
    pub cpp: usize,
    /// One black level for all channel slots, or one for each of the four.
    pub blacklevel: Vec<Level>,
    /// One white level for all channel slots, or one for each of the four.
    pub whitelevel: Vec<u32>,
    /// The part of the sensor that is not masked; the whole sensor if absent.
    pub active_area: Option<Rect>,
    /// The part of the sensor meant to be shown, in sensor coordinates; the
    /// active area if absent.
    pub crop_area: Option<Rect>,
    /// The illuminant code of each calibration entry, in their order.
    pub illuminants: Vec<u16>,
}

/// The level-corrected plane together with what the later stages need.
#[derive(Debug)]
pub struct Development {
    /// The corrected samples, one for each sensor pixel.
    pub plane: Vec<Fraction>,
    /// Size of the plane.
    pub dim: Dim2,
    /// The area to reconstruct colours for, in sensor coordinates.
    pub active_area: Rect,
    /// The area to keep, counted from the corner of the active area.
    pub crop_area: Rect,
    /// The place of the calibration entry to use.
    pub matrix_index: usize,
}

impl DevelopParams {
    pub open spec fn dim(self) -> Dim2 {
        Dim2 { w: self.width, h: self.height }
    }

    /// The active area that applies.
    pub open spec fn active_rect(self) -> Rect {
        match self.active_area {
            Some(a) => a,
            None => Rect::full(self.width, self.height),
        }
    }

    /// The crop area that applies, in sensor coordinates.
    pub open spec fn crop_rect(self) -> Rect {
        match self.crop_area {
            Some(c) => c,
            None => self.active_rect(),
        }
    }

    /// Why the sample format is refused, if it is.
    pub open spec fn format_error(self) -> Option<DevelopError> {
        if self.format is Float || self.cpp != 1 {
            Some(DevelopError::UnsupportedFormat)
        } else {
            None
        }
    }

    /// Why the levels are refused, if they are: the black levels are looked
    /// at first.
    pub open spec fn levels_error(self) -> Option<DevelopError> {
        if self.blacklevel@.len() != 1 && self.blacklevel@.len() != 4 {
            Some(DevelopError::BlackLevelCount(self.blacklevel@.len() as usize))
        } else if self.whitelevel@.len() != 1 && self.whitelevel@.len() != 4 {
            Some(DevelopError::WhiteLevelCount(self.whitelevel@.len() as usize))
        } else {
            None
        }
    }

    /// Why the areas are refused, if they are.
    pub open spec fn geometry_error(self) -> Option<DevelopError> {
        if !self.active_rect().within(Rect::full(self.width, self.height)) {
            Some(DevelopError::ActiveAreaOutOfBounds)
        } else if !self.crop_rect().within(self.active_rect()) {
            Some(DevelopError::CropOutOfBounds)
        } else {
            None
        }
    }

    /// Why the calibration entries are refused, if they are.
    pub open spec fn illuminant_error(self) -> Option<DevelopError> {
        if !self.illuminants@.contains(D65) {
            Some(DevelopError::IlluminantNotFound)
        } else {
            None
        }
    }

    /// The first complaint of the stages in their order, if there is one.
    pub open spec fn development_error(self) -> Option<DevelopError> {
        if self.format_error() is Some {
            self.format_error()
        } else if self.levels_error() is Some {
            self.levels_error()
        } else if self.geometry_error() is Some {
            self.geometry_error()
        } else {
            self.illuminant_error()
        }
    }

    /// The plane that level correction makes of `pixels`.
    pub open spec fn corrected(self, pixels: Seq<u16>) -> Seq<Fraction> {
        corrected_plane(
            pixels,
            self.width as int,
            expanded(self.blacklevel@),
            expanded(self.whitelevel@),
        )
    }
}

/// Whether `i` is the first place at which `wanted` stands in `codes`.
pub open spec fn is_first_index_of(codes: Seq<u16>, wanted: u16, i: int) -> bool {
    &&& 0 <= i < codes.len()
    &&& codes[i] == wanted
    &&& forall|k: int| 0 <= k < i ==> codes[k] != wanted
}

/// Looks for the first calibration entry of the illuminant `wanted`.
pub fn find_illuminant(illuminants: &[u16], wanted: u16) -> (r: Option<usize>)
    ensures
        match r {
            Some(i) => is_first_index_of(illuminants@, wanted, i as int),
            None => !illuminants@.contains(wanted),
        },
{
    let mut i: usize = 0;
    while i < illuminants.len()
        invariant
            i <= illuminants@.len(),
            forall|k: int| 0 <= k < i ==> illuminants@[k] != wanted,
        decreases illuminants@.len() - i,
    {
        if illuminants[i] == wanted {
            return Some(i);
        }
        i += 1;
    }
    None
}

/// Whether the samples are integers of one component per pixel.
pub fn is_supported(params: &DevelopParams) -> (r: bool)
    ensures
        r == params.format_error() is None,
{
    match params.format {
        SampleFormat::Integer => params.cpp == 1,
        SampleFormat::Float => false,
    }
}

/// Settles the areas of an image: the active area in sensor coordinates and
/// the crop area counted from the active area's corner.
pub fn resolve_areas(params: &DevelopParams) -> (r: Result<(Rect, Rect), DevelopError>)
    ensures
        match params.geometry_error() {
            Some(e) => r == Err::<(Rect, Rect), DevelopError>(e),
            None => r == Ok::<(Rect, Rect), DevelopError>(
                (params.active_rect(), params.crop_rect().relative_to(params.active_rect())),
            ),
        },
{
    let raw_size: Rect = Rect::new_with_points(
        Point::zero(),
        Point::new(params.width, params.height),
    );
    let active_area: Rect = match params.active_area {
        Some(a) => a,
        None => raw_size,
    };
    if !active_area.is_within(&raw_size) {
        return Err(DevelopError::ActiveAreaOutOfBounds);
    }
    let crop_area: Rect = match params.crop_area {
        Some(c) => c,
        None => active_area,
    };
    match crop_area.adapt(&active_area) {
        Ok(adapted) => Ok((active_area, adapted)),
        Err(e) => Err(e),
    }
}

/// Corrects the samples by the black and white levels of their channel
/// slots. Fails exactly when the number of black levels, or else of white
/// levels, is neither one nor four.
pub fn correct_raw(pixels: &[u16], params: &DevelopParams) -> (r: Result<
    (Vec<Fraction>, Dim2),
    DevelopError,
>)
    ensures
        match params.levels_error() {
            Some(e) => r matches Err(f) && f == e,
            None => r matches Ok((plane, dim)) && plane@ == params.corrected(pixels@) && dim
                == params.dim(),
        },
{
    let black: [Level; 4] = match expand_levels(params.blacklevel.as_slice()) {
        Some(b) => b,
        None => { return Err(DevelopError::BlackLevelCount(params.blacklevel.len())); },
    };
    let white: [u32; 4] = match expand_levels(params.whitelevel.as_slice()) {
        Some(w) => w,
        None => { return Err(DevelopError::WhiteLevelCount(params.whitelevel.len())); },
    };
    let plane: Vec<Fraction> = correct_blacklevel(pixels, params.width, &black, &white);
    Ok((plane, Dim2::new(params.width, params.height)))
}

/// Develops the samples to a plane of sixteen-bit values: level correction
/// and quantisation, no colour. Fails exactly when the samples are not
/// integers of one component per pixel or the levels are refused.
pub fn get_raw(pixels: &[u16], params: &DevelopParams) -> (r: Result<(Vec<u16>, Dim2), DevelopError>)
    ensures
        params.format_error() matches Some(e) ==> r matches Err(f) && f == e,
        params.format_error() is None ==> match params.levels_error() {
            Some(e) => r matches Err(f) && f == e,
            None => r matches Ok((plane, dim)) && plane@ == quantized_plane(
                params.corrected(pixels@),
            ) && dim == params.dim(),
        },
{
    if !is_supported(params) {
        return Err(DevelopError::UnsupportedFormat);
    }
    match correct_raw(pixels, params) {
        Ok((plane, dim)) => Ok((rescale_to_u16(plane.as_slice()), dim)),
        Err(e) => Err(e),
    }
}

/// Prepares the development to colour: corrects the levels, settles the
/// areas and picks the calibration entry of the reference illuminant.
/// Fails with the first complaint of the stages in their order, and only
/// then.
pub fn develop_raw_prophoto_rgb(pixels: &[u16], params: &DevelopParams) -> (r: Result<
    Development,
    DevelopError,
>)
    ensures
        match params.development_error() {
            Some(e) => r matches Err(f) && f == e,
            None => r matches Ok(dev) && {
                &&& dev.plane@ == params.corrected(pixels@)
                &&& dev.dim == params.dim()
                &&& dev.active_area == params.active_rect()
                &&& dev.crop_area == params.crop_rect().relative_to(params.active_rect())
                &&& is_first_index_of(params.illuminants@, D65, dev.matrix_index as int)
            },
        },
{
    if !is_supported(params) {
        return Err(DevelopError::UnsupportedFormat);
    }
    let (plane, dim) = match correct_raw(pixels, params) {
        Ok(corrected) => corrected,
        Err(e) => { return Err(e); },
    };
    let (active_area, crop_area) = match resolve_areas(params) {
        Ok(areas) => areas,
        Err(e) => { return Err(e); },
    };
    let matrix_index: usize = match find_illuminant(params.illuminants.as_slice(), D65) {
        Some(i) => i,
        None => { return Err(DevelopError::IlluminantNotFound); },
    };
    assert(params.illuminants@[matrix_index as int] == D65);
    Ok(Development { plane, dim, active_area, crop_area, matrix_index })
}

/// Parameters with one level for all channel slots develop a plane as
/// parameters with the same level written out for each of the four slots
/// do, and neither is refused for its levels.
pub proof fn lemma_single_and_fourfold_levels_agree(
    single: DevelopParams,
    fourfold: DevelopParams,
    black: Level,
    white: u32,
    pixels: Seq<u16>,
)
    requires
        single.width == fourfold.width,
        single.blacklevel@ == seq![black],
        single.whitelevel@ == seq![white],
        fourfold.blacklevel@ == seq![black, black, black, black],
        fourfold.whitelevel@ == seq![white, white, white, white],
    ensures
        single.levels_error() is None,
        fourfold.levels_error() is None,
        single.corrected(pixels) == fourfold.corrected(pixels),
        quantized_plane(single.corrected(pixels)) == quantized_plane(fourfold.corrected(pixels)),
{
    lemma_single_level_is_broadcast(pixels, single.width as int, black, white);
}

/// The image that is kept has as many pixels as the crop area: cutting
/// the crop area out of an image of the active area's size succeeds and
/// gives that many. A crop area as large as the sensor is the whole
/// sensor, so that nothing is cut away and every pixel of the sensor
/// is kept.
pub proof fn lemma_output_pixel_count<T>(params: DevelopParams, image: Seq<T>)
    requires
        params.geometry_error() is None,
        image.len() == params.active_rect().d.area(),
    ensures
        ({
            let active = params.active_rect();
            let crop = params.crop_rect().relative_to(active);
            &&& crop.within(Rect::full(active.d.w, active.d.h))
            &&& cropped(image, active.d, crop).len() == crop.d.area()
            &&& crop.d == params.crop_rect().d
            &&& crop.d == params.dim() ==> {
                &&& active == Rect::full(params.width, params.height)
                &&& crop == Rect::full(params.width, params.height)
                &&& cropped(image, active.d, crop) == image
                &&& cropped(image, active.d, crop).len() == params.dim().area()
            }
        }),
{
    let active = params.active_rect();
    let crop = params.crop_rect().relative_to(active);
    lemma_adapted_within(params.crop_rect(), active);
    assert(crop.d.w * crop.d.h >= 0) by (nonlinear_arith)
        requires
            crop.d.w >= 0,
            crop.d.h >= 0,
    ;
    if crop.d == params.dim() {
        lemma_full_size_is_full(active, params.width, params.height);
        lemma_full_size_is_full(crop, params.width, params.height);
        crate::crop::lemma_crop_full_is_identity(image, active.d);
    }
}

} // verus!
