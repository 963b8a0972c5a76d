use opengine_core::terrain::{
    bake_material, classify_material, fits_samples, material_code, plan_bake, sample_luma,
    src_index, HeightSource, PixelBuf, ROAD,
};
use opengine_core::wargame::query::Material;

#[test]
fn color_classification_matches_js() {
    assert_eq!(material_code(40, 80, 160), 0); // blue -> water
    assert_eq!(material_code(30, 30, 30), 3); // dark low-sat -> rock
    assert_eq!(material_code(200, 170, 120), 1); // warm -> sand
    assert_eq!(material_code(140, 140, 90), 2); // else -> road/veg
    // the colour fallback keys its height table by this code (water lowest)
    assert_eq!(Material::from_code(material_code(40, 80, 160)), Material::Water);
}

#[test]
fn bake_produces_expected_grid_dims() {
    // 2x2 luminance source, 4x3 plane subdivisions.
    let lum = [0u8, 255, 128, 64];
    let src = PixelBuf { data: &lum, w: 2, h: 2, channels: 1 };
    let plan = plan_bake(4, 3, true, false);
    assert_eq!(plan.gw, 5);
    assert_eq!(plan.gh, 4);
    assert_eq!(plan.heights, HeightSource::Luminance);
    assert_eq!(plan.blur_passes, 3);
    assert!(fits_samples(&src, plan.gw, plan.gh, 1));
    let height = sample_luma(&src, plan.gw, plan.gh);
    assert_eq!(height.len(), 20);
    let material = bake_material(None, plan.gw, plan.gh);
    assert_eq!(material.len(), 20); // defaults to road when no texture
    assert!(material.iter().all(|&m| m == ROAD));
    assert!(height.iter().all(|&v| lum.contains(&v)));
}

#[test]
fn src_index_is_nearest_pixel() {
    assert_eq!(src_index(0, 5, 2), 0);
    assert_eq!(src_index(2, 5, 2), 0); // 2 * 1 / 4 = 0.5 -> 0
    assert_eq!(src_index(3, 5, 2), 0); // 3/4 -> 0
    assert_eq!(src_index(4, 5, 2), 1);
    assert_eq!(src_index(7, 11, 101), 70);
    assert_eq!(src_index(9, 1, 0), 0); // single-point grid
    assert_eq!(src_index(5, 3, 4), 3); // past the end: clamped
}

#[test]
fn sample_luma_reads_nearest_pixels() {
    // 3x2 source, 2 channels per pixel (luma in the first).
    let data = [10u8, 0, 20, 0, 30, 0, 40, 0, 50, 0, 60, 0];
    let src = PixelBuf { data: &data, w: 3, h: 2, channels: 2 };
    let g = sample_luma(&src, 3, 2);
    assert_eq!(g, vec![10, 20, 30, 40, 50, 60]);
    let g = sample_luma(&src, 2, 1);
    assert_eq!(g, vec![10, 30]);
}

#[test]
fn classify_material_per_cell() {
    // 2x2 RGB texture: water, sand / rock, road.
    let data = [40u8, 80, 160, 200, 170, 120, 30, 30, 30, 140, 140, 90];
    let src = PixelBuf { data: &data, w: 2, h: 2, channels: 3 };
    assert_eq!(classify_material(&src, 2, 2), vec![0, 1, 3, 2]);
    assert_eq!(bake_material(Some(&src), 2, 2), vec![0, 1, 3, 2]);
    // 3x3 grid over the 2x2 texture: middle rows/cols snap to the first pixel.
    assert_eq!(classify_material(&src, 3, 3), vec![0, 0, 1, 0, 0, 1, 3, 3, 2]);
}

#[test]
fn fits_samples_rejects_short_buffers() {
    let data = [1u8, 2, 3, 4, 5];
    let src = PixelBuf { data: &data, w: 2, h: 1, channels: 3 };
    assert!(!fits_samples(&src, 2, 1, 3)); // second pixel needs bytes 3..6
    assert!(fits_samples(&src, 1, 1, 3)); // only the first pixel is read
    assert!(fits_samples(&src, 0, 7, 3)); // empty grid reads nothing
    let empty = PixelBuf { data: &[], w: 0, h: 0, channels: 3 };
    assert!(!fits_samples(&empty, 2, 2, 3));
    assert!(!fits_samples(&src, usize::MAX, 2, 1));
}

#[test]
fn plan_bake_fallbacks() {
    let p = plan_bake(1, 1, false, true);
    assert_eq!(p.heights, HeightSource::TextureColor);
    assert_eq!(p.blur_passes, 8);
    let p = plan_bake(1, 1, false, false);
    assert_eq!(p.heights, HeightSource::Flat);
    assert_eq!(p.blur_passes, 8);
    let p = plan_bake(320, 277, true, true);
    assert_eq!((p.gw, p.gh), (321, 278));
    assert_eq!(p.heights, HeightSource::Luminance);
}

#[test]
fn material_codes_decode() {
    assert_eq!(Material::from_code(0), Material::Water);
    assert_eq!(Material::from_code(1), Material::Sand);
    assert_eq!(Material::from_code(2), Material::Road);
    assert_eq!(Material::from_code(3), Material::Rock);
    assert_eq!(Material::from_code(200), Material::Road);
}
