use fractal_field::buffer::PixelBuffer;
use fractal_field::colour::{ColourConfig, Palette, Rgb};
use fractal_field::escape::EscapeResult;
use fractal_field::params::RenderParams;
use fractal_field::render::{pixel_colour, render_field, render_image};
use fractal_field::resample::downsample;
use fractal_field::FRAC_ONE;

fn test_config() -> ColourConfig {
    let anchors = vec![
        Rgb { r: 0, g: 33, b: 166 },
        Rgb { r: 250, g: 83, b: 252 },
        Rgb { r: 255, g: 255, b: 255 },
    ];
    ColourConfig { palette: Palette::new(anchors).unwrap(), scale_num: 1, scale_den: 10 }
}

fn assert_buffers_equal(a: &PixelBuffer, b: &PixelBuffer) {
    assert_eq!(a.width(), b.width());
    assert_eq!(a.height(), b.height());
    for y in 0..a.height() {
        for x in 0..a.width() {
            assert_eq!(a.get(x, y), b.get(x, y));
        }
    }
}

#[test]
fn buffer_starts_filled_and_keeps_writes() {
    let fill = Rgb { r: 7, g: 8, b: 9 };
    let mut buf = PixelBuffer::new(3, 2, fill);
    assert_eq!(buf.width(), 3);
    assert_eq!(buf.height(), 2);
    assert_eq!(buf.get(2, 1), fill);
    let c = Rgb { r: 1, g: 2, b: 3 };
    buf.set(1, 0, c);
    assert_eq!(buf.get(1, 0), c);
    assert_eq!(buf.get(0, 0), fill);
    assert_eq!(buf.get(1, 1), fill);
}

#[test]
fn inside_points_are_black() {
    let cfg = test_config();
    assert_eq!(pixel_colour(EscapeResult::Inside, &cfg), Rgb { r: 0, g: 0, b: 0 });
}

#[test]
fn outside_points_take_their_palette_colour() {
    let cfg = test_config();
    // Index 10 scales to palette position 1: the second anchor, exactly.
    let c = pixel_colour(EscapeResult::Outside(10 * FRAC_ONE), &cfg);
    assert_eq!(c, Rgb { r: 250, g: 83, b: 252 });
}

#[test]
fn render_field_colours_each_cell_from_its_datum() {
    let cfg = test_config();
    let field = vec![
        EscapeResult::Inside,
        EscapeResult::Outside(0),
        EscapeResult::Outside(10 * FRAC_ONE),
        EscapeResult::Inside,
    ];
    let buf = render_field(&field, 2, 2, &cfg);
    assert_eq!(buf.get(0, 0), Rgb { r: 0, g: 0, b: 0 });
    assert_eq!(buf.get(1, 0), Rgb { r: 0, g: 33, b: 166 });
    assert_eq!(buf.get(0, 1), Rgb { r: 250, g: 83, b: 252 });
    assert_eq!(buf.get(1, 1), Rgb { r: 0, g: 0, b: 0 });
}

#[test]
fn unit_factor_resampling_is_the_identity() {
    let cfg = test_config();
    let field = vec![
        EscapeResult::Outside(0),
        EscapeResult::Outside(5 * FRAC_ONE),
        EscapeResult::Inside,
        EscapeResult::Outside(10 * FRAC_ONE),
        EscapeResult::Outside(15 * FRAC_ONE),
        EscapeResult::Inside,
    ];
    let buf = render_field(&field, 3, 2, &cfg);
    let out = downsample(&buf, 1, 3, 2);
    assert_buffers_equal(&buf, &out);
}

#[test]
fn two_by_two_average_truncates_to_127() {
    let mut buf = PixelBuffer::new(2, 2, Rgb { r: 0, g: 0, b: 0 });
    let white = Rgb { r: 255, g: 255, b: 255 };
    buf.set(1, 0, white);
    buf.set(1, 1, white);
    let out = downsample(&buf, 2, 1, 1);
    assert_eq!(out.width(), 1);
    assert_eq!(out.height(), 1);
    assert_eq!(out.get(0, 0), Rgb { r: 127, g: 127, b: 127 });
}

#[test]
fn averaging_blocks_mixes_channels_independently() {
    let mut buf = PixelBuffer::new(2, 2, Rgb { r: 10, g: 20, b: 30 });
    buf.set(0, 0, Rgb { r: 50, g: 0, b: 31 });
    // Sums: r = 50+10+10+10 = 80, g = 0+20+20+20 = 60, b = 31+30+30+30 = 121.
    let out = downsample(&buf, 2, 1, 1);
    assert_eq!(out.get(0, 0), Rgb { r: 20, g: 15, b: 30 });
}

#[test]
fn pipeline_downsamples_the_oversampled_field() {
    let cfg = test_config();
    let params = RenderParams::new(2, 1, 2, 100).unwrap();
    // A 4 × 2 oversampled field; the left output pixel averages two black
    // (inside) cells with two first-anchor cells, the right one averages
    // four second-anchor cells.
    let a1 = EscapeResult::Outside(0);
    let a2 = EscapeResult::Outside(10 * FRAC_ONE);
    let field = vec![
        EscapeResult::Inside, a1, a2, a2,
        a1, EscapeResult::Inside, a2, a2,
    ];
    let img = render_image(&field, &params, &cfg);
    assert_eq!(img.width(), 2);
    assert_eq!(img.height(), 1);
    // (0+0+0+33)/… per channel: r = 0, g = 33*2/4 = 16, b = 166*2/4 = 83.
    assert_eq!(img.get(0, 0), Rgb { r: 0, g: 16, b: 83 });
    assert_eq!(img.get(1, 0), Rgb { r: 250, g: 83, b: 252 });
}

#[test]
fn pipeline_with_unit_supersampling_is_the_rendered_field() {
    let cfg = test_config();
    let params = RenderParams::new(3, 2, 1, 100).unwrap();
    let field = vec![
        EscapeResult::Outside(0),
        EscapeResult::Inside,
        EscapeResult::Outside(10 * FRAC_ONE),
        EscapeResult::Outside(5 * FRAC_ONE),
        EscapeResult::Outside(25 * FRAC_ONE),
        EscapeResult::Inside,
    ];
    let img = render_image(&field, &params, &cfg);
    let over = render_field(&field, 3, 2, &cfg);
    assert_buffers_equal(&img, &over);
}

#[test]
fn identical_inputs_render_identical_images() {
    let cfg = test_config();
    let params = RenderParams::new(3, 3, 2, 100).unwrap();
    let mut field = Vec::new();
    for i in 0..36u64 {
        if i % 5 == 0 {
            field.push(EscapeResult::Inside);
        } else {
            field.push(EscapeResult::Outside(i * FRAC_ONE / 3));
        }
    }
    let first = render_image(&field, &params, &cfg);
    let second = render_image(&field, &params, &cfg);
    assert_buffers_equal(&first, &second);
}
