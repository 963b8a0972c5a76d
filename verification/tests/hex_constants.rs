use opengine_core::hex::{
    HEX_DEPTH_BITS, HEX_HEIGHT_BITS, HEX_RADIUS_BITS, HEX_TOP_Y_BITS, HEX_WIDTH_BITS,
};

fn val(bits: u32) -> f32 {
    f32::from_bits(bits)
}

#[test]
fn depth_matches_sqrt3() {
    let hex_depth = val(HEX_DEPTH_BITS);
    let hex_radius = val(HEX_RADIUS_BITS);
    assert!((hex_depth - 3.0_f32.sqrt() * hex_radius).abs() < 1e-4);
}

#[test]
fn hex_constants_hold_their_values() {
    assert_eq!(val(HEX_RADIUS_BITS), 6.0);
    assert_eq!(val(HEX_HEIGHT_BITS), 0.6);
    assert_eq!(val(HEX_TOP_Y_BITS), 0.6 / 2.0);
    assert_eq!(val(HEX_WIDTH_BITS), 2.0 * 6.0);
    assert_eq!(val(HEX_DEPTH_BITS), 10.392_304_845_413_264);
}
