use fractal_field::escape::{classify, unsmoothed_index, DiscreteEscape, EscapeResult};
use fractal_field::params::{
    iterations_or_default, supersample_or_default, ConfigError, RenderParams,
};
use fractal_field::plane::{centred_offset, min_dimension};
use fractal_field::FRAC_ONE;

#[test]
fn divergence_within_budget_escapes() {
    assert_eq!(classify(Some(5), 10), DiscreteEscape::EscapedAt(5));
    assert_eq!(classify(Some(0), 1), DiscreteEscape::EscapedAt(0));
}

#[test]
fn no_divergence_is_inside() {
    assert_eq!(classify(None, 10), DiscreteEscape::Inside);
}

#[test]
fn divergence_at_or_past_the_cap_is_inside() {
    assert_eq!(classify(Some(10), 10), DiscreteEscape::Inside);
    assert_eq!(classify(Some(11), 10), DiscreteEscape::Inside);
}

#[test]
fn classification_is_stable_under_a_larger_budget() {
    // A point that escaped at iteration 5 under a budget of 10 keeps the
    // same classification under any larger budget.
    let small = classify(Some(5), 10);
    let large = classify(Some(5), 1_000_000);
    assert_eq!(small, DiscreteEscape::EscapedAt(5));
    assert_eq!(small, large);
}

#[test]
fn unsmoothed_index_is_the_iteration_count() {
    assert_eq!(unsmoothed_index(0), 0);
    assert_eq!(unsmoothed_index(7), 7 * FRAC_ONE);
}

#[test]
fn escape_result_reports_inside() {
    assert!(EscapeResult::Inside.is_inside());
    assert!(!EscapeResult::Outside(3 * FRAC_ONE).is_inside());
}

#[test]
fn zero_dimensions_are_rejected() {
    assert_eq!(RenderParams::new(0, 100, 1, 100).unwrap_err(), ConfigError::ZeroWidth);
    assert_eq!(RenderParams::new(100, 0, 1, 100).unwrap_err(), ConfigError::ZeroHeight);
}

#[test]
fn zero_supersample_and_zero_iterations_are_rejected() {
    assert_eq!(RenderParams::new(100, 100, 0, 100).unwrap_err(), ConfigError::ZeroSupersample);
    assert_eq!(RenderParams::new(100, 100, 1, 0).unwrap_err(), ConfigError::ZeroIterations);
}

#[test]
fn valid_parameters_are_kept_as_given() {
    let p = RenderParams::new(640, 480, 2, 250).unwrap();
    assert_eq!(p.width, 640);
    assert_eq!(p.height, 480);
    assert_eq!(p.supersample, 2);
    assert_eq!(p.max_iterations, 250);
    assert_eq!(p.oversampled_width(), 1280);
    assert_eq!(p.oversampled_height(), 960);
}

#[test]
fn absent_settings_take_the_documented_defaults() {
    assert_eq!(iterations_or_default(None), 100);
    assert_eq!(iterations_or_default(Some(42)), 42);
    assert_eq!(supersample_or_default(None), 1);
    assert_eq!(supersample_or_default(Some(4)), 4);
}

#[test]
fn centre_pixel_has_zero_offset() {
    assert_eq!(centred_offset(50, 100), 0);
    assert_eq!(centred_offset(640, 1280), 0);
}

#[test]
fn offsets_left_of_centre_are_negative() {
    assert_eq!(centred_offset(0, 100), -50);
    assert_eq!(centred_offset(99, 100), 49);
    // An odd extent halves with truncation.
    assert_eq!(centred_offset(0, 101), -50);
}

#[test]
fn min_dimension_picks_the_smaller_axis() {
    assert_eq!(min_dimension(640, 480), 480);
    assert_eq!(min_dimension(480, 640), 480);
    assert_eq!(min_dimension(512, 512), 512);
}
