use rawdevelop::crop::crop_image;
use rawdevelop::develop::{
    correct_raw, develop_raw_prophoto_rgb, find_illuminant, get_raw, resolve_areas,
    DevelopParams, SampleFormat, D65,
};
use rawdevelop::error::DevelopError;
use rawdevelop::geometry::{Dim2, Point, Rect};
use rawdevelop::levels::{Fraction, Level};

fn rect(x: usize, y: usize, w: usize, h: usize) -> Rect {
    Rect::new(Point::new(x, y), Dim2::new(w, h))
}

fn params(width: usize, height: usize) -> DevelopParams {
    DevelopParams {
        width,
        height,
        format: SampleFormat::Integer,
        cpp: 1,
        blacklevel: vec![Level::from_integer(1024)],
        whitelevel: vec![15360],
        active_area: None,
        crop_area: None,
        illuminants: vec![17, D65],
    }
}

fn pairs(plane: &[Fraction]) -> Vec<(u64, i128)> {
    plane.iter().map(|f| (f.num, f.den)).collect()
}

#[test]
fn reference_illuminant_is_d65() {
    assert_eq!(D65, 21);
}

#[test]
fn illuminant_is_found_at_its_first_place() {
    assert_eq!(find_illuminant(&[17, 21, 23, 21], 21), Some(1));
    assert_eq!(find_illuminant(&[21], 21), Some(0));
    assert_eq!(find_illuminant(&[17, 23], 23), Some(1));
}

#[test]
fn missing_illuminant_is_not_found() {
    assert_eq!(find_illuminant(&[], 21), None);
    assert_eq!(find_illuminant(&[17, 23], 21), None);
}

#[test]
fn single_and_fourfold_levels_agree() {
    let pixels: Vec<u16> = (0..24).map(|i| 1000 + 600 * i).collect();
    let single = params(6, 4);
    let mut fourfold = params(6, 4);
    fourfold.blacklevel = vec![Level::from_integer(1024); 4];
    fourfold.whitelevel = vec![15360; 4];
    let (a, da) = correct_raw(&pixels, &single).unwrap();
    let (b, db) = correct_raw(&pixels, &fourfold).unwrap();
    assert_eq!(pairs(&a), pairs(&b));
    assert_eq!(da, db);
    assert_eq!(get_raw(&pixels, &single), get_raw(&pixels, &fourfold));
}

#[test]
fn correct_raw_reports_the_plane_size() {
    let pixels: Vec<u16> = vec![1024, 15360, 8192, 0];
    let (plane, dim) = correct_raw(&pixels, &params(2, 2)).unwrap();
    assert_eq!(dim, Dim2::new(2, 2));
    assert_eq!(pairs(&plane), vec![(0, 14336), (14336, 14336), (7168, 14336), (0, 14336)]);
}

#[test]
fn two_black_levels_are_a_configuration_error() {
    let mut p = params(4, 4);
    p.blacklevel = vec![Level::from_integer(1024); 2];
    let pixels: Vec<u16> = vec![8192; 16];
    let e = correct_raw(&pixels, &p).unwrap_err();
    assert_eq!(e, DevelopError::BlackLevelCount(2));
    assert!(e.is_configuration_error());
    assert_eq!(get_raw(&pixels, &p), Err(DevelopError::BlackLevelCount(2)));
    assert_eq!(
        develop_raw_prophoto_rgb(&pixels, &p).unwrap_err(),
        DevelopError::BlackLevelCount(2)
    );
}

#[test]
fn three_white_levels_are_a_configuration_error() {
    let mut p = params(4, 4);
    p.whitelevel = vec![15360; 3];
    let pixels: Vec<u16> = vec![8192; 16];
    assert_eq!(correct_raw(&pixels, &p).unwrap_err(), DevelopError::WhiteLevelCount(3));
    assert_eq!(get_raw(&pixels, &p), Err(DevelopError::WhiteLevelCount(3)));
}

#[test]
fn black_levels_are_judged_before_white_levels() {
    let mut p = params(4, 4);
    p.blacklevel = Vec::new();
    p.whitelevel = Vec::new();
    let pixels: Vec<u16> = vec![8192; 16];
    assert_eq!(correct_raw(&pixels, &p).unwrap_err(), DevelopError::BlackLevelCount(0));
}

#[test]
fn several_components_per_pixel_are_unsupported() {
    let mut p = params(4, 4);
    p.cpp = 3;
    p.blacklevel = Vec::new();
    let pixels: Vec<u16> = vec![8192; 16];
    assert_eq!(get_raw(&pixels, &p), Err(DevelopError::UnsupportedFormat));
    assert_eq!(
        develop_raw_prophoto_rgb(&pixels, &p).unwrap_err(),
        DevelopError::UnsupportedFormat
    );
}

#[test]
fn float_samples_are_unsupported() {
    let mut p = params(4, 4);
    p.format = SampleFormat::Float;
    let e = get_raw(&[], &p).unwrap_err();
    assert_eq!(e, DevelopError::UnsupportedFormat);
    assert!(!e.is_configuration_error());
    assert_eq!(
        develop_raw_prophoto_rgb(&[], &p).unwrap_err(),
        DevelopError::UnsupportedFormat
    );
}

#[test]
fn mid_gray_plane_develops_to_uniform_mid_gray() {
    // 8192 lies midway between the black level 1024 and the white level 15360.
    let pixels: Vec<u16> = vec![8192; 16];
    let (plane, dim) = get_raw(&pixels, &params(4, 4)).unwrap();
    assert_eq!(dim, Dim2::new(4, 4));
    assert_eq!(plane, vec![32768u16; 16]);
}

#[test]
fn black_plane_is_zero_and_white_plane_is_full_scale() {
    let (black, _) = get_raw(&vec![1024u16; 16], &params(4, 4)).unwrap();
    assert_eq!(black, vec![0u16; 16]);
    let (below, _) = get_raw(&vec![17u16; 16], &params(4, 4)).unwrap();
    assert_eq!(below, vec![0u16; 16]);
    let (white, _) = get_raw(&vec![15360u16; 16], &params(4, 4)).unwrap();
    assert_eq!(white, vec![65535u16; 16]);
}

#[test]
fn other_illuminant_only_is_matrix_not_found() {
    let mut p = params(4, 4);
    p.illuminants = vec![17];
    let pixels: Vec<u16> = vec![8192; 16];
    let e = develop_raw_prophoto_rgb(&pixels, &p).unwrap_err();
    assert_eq!(e, DevelopError::IlluminantNotFound);
    assert!(e.is_configuration_error());
}

#[test]
fn areas_default_to_the_sensor() {
    let p = params(6, 4);
    assert_eq!(resolve_areas(&p), Ok((rect(0, 0, 6, 4), rect(0, 0, 6, 4))));
}

#[test]
fn crop_defaults_to_the_active_area() {
    let mut p = params(6, 4);
    p.active_area = Some(rect(2, 0, 4, 4));
    assert_eq!(resolve_areas(&p), Ok((rect(2, 0, 4, 4), rect(0, 0, 4, 4))));
}

#[test]
fn crop_is_counted_from_the_active_area() {
    let mut p = params(8, 6);
    p.active_area = Some(rect(2, 1, 6, 5));
    p.crop_area = Some(rect(3, 2, 4, 2));
    assert_eq!(resolve_areas(&p), Ok((rect(2, 1, 6, 5), rect(1, 1, 4, 2))));
}

#[test]
fn areas_out_of_bounds_are_refused() {
    let mut p = params(8, 6);
    p.active_area = Some(rect(2, 1, 7, 5));
    assert_eq!(resolve_areas(&p), Err(DevelopError::ActiveAreaOutOfBounds));
    let mut q = params(8, 6);
    q.active_area = Some(rect(2, 1, 6, 5));
    q.crop_area = Some(rect(1, 1, 4, 2));
    assert_eq!(resolve_areas(&q), Err(DevelopError::CropOutOfBounds));
    let pixels: Vec<u16> = vec![8192; 48];
    assert_eq!(
        develop_raw_prophoto_rgb(&pixels, &q).unwrap_err(),
        DevelopError::CropOutOfBounds
    );
}

#[test]
fn levels_are_judged_before_areas_and_areas_before_illuminants() {
    let pixels: Vec<u16> = vec![8192; 48];
    let mut p = params(8, 6);
    p.crop_area = Some(rect(0, 0, 9, 6));
    p.illuminants = Vec::new();
    assert_eq!(
        develop_raw_prophoto_rgb(&pixels, &p).unwrap_err(),
        DevelopError::CropOutOfBounds
    );
    p.whitelevel = vec![1, 2];
    assert_eq!(
        develop_raw_prophoto_rgb(&pixels, &p).unwrap_err(),
        DevelopError::WhiteLevelCount(2)
    );
}

#[test]
fn development_hands_on_plane_areas_and_matrix() {
    let pixels: Vec<u16> = vec![8192; 48];
    let mut p = params(8, 6);
    p.active_area = Some(rect(2, 0, 6, 6));
    p.crop_area = Some(rect(4, 2, 4, 2));
    p.illuminants = vec![17, 23, 21];
    let dev = develop_raw_prophoto_rgb(&pixels, &p).unwrap();
    assert_eq!(dev.dim, Dim2::new(8, 6));
    assert_eq!(dev.active_area, rect(2, 0, 6, 6));
    assert_eq!(dev.crop_area, rect(2, 2, 4, 2));
    assert_eq!(dev.matrix_index, 2);
    assert_eq!(pairs(&dev.plane), vec![(7168, 14336); 48]);
}

#[test]
fn full_size_crop_keeps_every_pixel() {
    let pixels: Vec<u16> = vec![8192; 48];
    let dev = develop_raw_prophoto_rgb(&pixels, &params(8, 6)).unwrap();
    let rgb: Vec<[f32; 3]> = (0..48).map(|i| [i as f32; 3]).collect();
    let kept = crop_image(rgb.clone(), dev.active_area.d, dev.crop_area).unwrap();
    assert_eq!(kept.len(), 8 * 6);
    assert_eq!(kept, rgb);
}

#[test]
fn smaller_crop_keeps_crop_width_times_crop_height() {
    let pixels: Vec<u16> = vec![8192; 48];
    let mut p = params(8, 6);
    p.crop_area = Some(rect(1, 1, 5, 3));
    let dev = develop_raw_prophoto_rgb(&pixels, &p).unwrap();
    let rgb: Vec<[f32; 3]> = (0..48).map(|i| [i as f32; 3]).collect();
    let kept = crop_image(rgb, dev.active_area.d, dev.crop_area).unwrap();
    assert_eq!(kept.len(), 5 * 3);
    assert_eq!(kept[0], [9.0; 3]);
    assert_eq!(kept[14], [29.0; 3]);
}
