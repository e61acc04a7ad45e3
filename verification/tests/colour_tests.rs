use fractal_field::colour::{lerp_channel, lerp_rgb, ColourConfig, Palette, Rgb};
use fractal_field::params::ConfigError;
use fractal_field::FRAC_ONE;

fn three_anchor_palette() -> Palette {
    let anchors = vec![
        Rgb { r: 0, g: 33, b: 166 },
        Rgb { r: 250, g: 83, b: 252 },
        Rgb { r: 255, g: 255, b: 255 },
    ];
    Palette::new(anchors).unwrap()
}

#[test]
fn empty_palette_is_rejected() {
    let r = Palette::new(Vec::new());
    assert_eq!(r.unwrap_err(), ConfigError::EmptyPalette);
}

#[test]
fn lerp_channel_midpoint_truncates() {
    // 255 / 2 = 127.5, truncated toward zero.
    assert_eq!(lerp_channel(0, 255, 1u64 << 31), 127);
    // 3 / 2 = 1.5, truncated toward zero.
    assert_eq!(lerp_channel(0, 3, 1u64 << 31), 1);
}

#[test]
fn lerp_channel_zero_fraction_is_first_endpoint() {
    assert_eq!(lerp_channel(10, 200, 0), 10);
    assert_eq!(lerp_channel(255, 0, 0), 255);
}

#[test]
fn lerp_channel_quarter() {
    // 0 + (200 - 0) * 0.25 = 50 exactly.
    assert_eq!(lerp_channel(0, 200, 1u64 << 30), 50);
}

#[test]
fn lerp_rgb_midpoint_of_black_and_white() {
    let black = Rgb { r: 0, g: 0, b: 0 };
    let white = Rgb { r: 255, g: 255, b: 255 };
    let mid = lerp_rgb(black, white, 1u64 << 31);
    assert_eq!(mid, Rgb { r: 127, g: 127, b: 127 });
}

#[test]
fn palette_returns_exact_anchor_at_integer_positions() {
    let p = three_anchor_palette();
    assert_eq!(p.colour_at(0, 0), Rgb { r: 0, g: 33, b: 166 });
    assert_eq!(p.colour_at(1, 0), Rgb { r: 250, g: 83, b: 252 });
    assert_eq!(p.colour_at(2, 0), Rgb { r: 255, g: 255, b: 255 });
}

#[test]
fn palette_position_wraps_cyclically() {
    let p = three_anchor_palette();
    assert_eq!(p.colour_at(3, 0), Rgb { r: 0, g: 33, b: 166 });
    assert_eq!(p.colour_at(7, 0), Rgb { r: 250, g: 83, b: 252 });
}

#[test]
fn palette_blends_toward_next_anchor() {
    let anchors = vec![Rgb { r: 0, g: 100, b: 200 }, Rgb { r: 200, g: 0, b: 100 }];
    let p = Palette::new(anchors).unwrap();
    // Position 0.5: halfway from the first anchor to the second.
    let c = p.colour_at(0, 1u64 << 31);
    assert_eq!(c, Rgb { r: 100, g: 50, b: 150 });
    // Position 1.5: halfway from the second anchor back to the first.
    let c = p.colour_at(1, 1u64 << 31);
    assert_eq!(c, Rgb { r: 100, g: 50, b: 150 });
}

#[test]
fn colour_of_index_applies_scale_then_palette() {
    let cfg = ColourConfig { palette: three_anchor_palette(), scale_num: 1, scale_den: 10 };
    // Index 0 lands on the first anchor.
    assert_eq!(cfg.colour_of_index(0), Rgb { r: 0, g: 33, b: 166 });
    // Index 10 scales to position 1: exactly the second anchor.
    assert_eq!(cfg.colour_of_index(10 * FRAC_ONE), Rgb { r: 250, g: 83, b: 252 });
    // Index 30 scales to position 3, which wraps to the first anchor.
    assert_eq!(cfg.colour_of_index(30 * FRAC_ONE), Rgb { r: 0, g: 33, b: 166 });
}

#[test]
fn colour_of_index_interpolates_between_anchors() {
    let anchors = vec![Rgb { r: 0, g: 0, b: 0 }, Rgb { r: 255, g: 255, b: 255 }];
    let cfg = ColourConfig { palette: Palette::new(anchors).unwrap(), scale_num: 1, scale_den: 2 };
    // Index 1 scales to position 0.5: midway between black and white.
    assert_eq!(cfg.colour_of_index(FRAC_ONE), Rgb { r: 127, g: 127, b: 127 });
}

#[test]
fn palette_len_counts_anchors() {
    assert_eq!(three_anchor_palette().len(), 3);
}
