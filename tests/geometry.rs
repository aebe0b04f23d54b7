use audio_scatter::config::Config;
use audio_scatter::geometry::{
    circle_of, frequency_to_y, loudness_to_size, map_row, time_to_x, DrawableCircle, Fraction, MapError,
    Viewport,
};
use audio_scatter::table::{FeatureRow, RangeStats};

fn frac(num: i128, den: u64) -> Fraction {
    Fraction { num, den }
}

fn value(f: Fraction) -> f64 {
    f.num as f64 / f.den as f64
}

fn plain_viewport() -> Viewport {
    Viewport { width: 1920, height: 1080, offset_x: 0, offset_y: 0 }
}

fn scenario_stats() -> RangeStats {
    RangeStats { min_frequency: 100, max_frequency: 200, min_loudness: 0, max_loudness: 1000 }
}

#[test]
fn middle_row_maps_to_window_centre() {
    let config = Config { viewport: plain_viewport(), ..Config::default() };
    let row = FeatureRow { time: 5000, frequency: 150, loudness: 500 };
    let c = map_row(&row, 5000, &scenario_stats(), &config).unwrap();
    assert_eq!(value(c.x), 960.0);
    assert_eq!(value(c.y), 540.0);
    assert_eq!(value(c.radius), 12.5);
    assert_eq!(c, DrawableCircle { x: frac(4_800_000, 5000), y: frac(54_000, 100), radius: frac(25_000, 2000) });
}

#[test]
fn default_offsets_put_the_centre_at_the_origin() {
    let row = FeatureRow { time: 5000, frequency: 150, loudness: 500 };
    let c = map_row(&row, 5000, &scenario_stats(), &Config::default()).unwrap();
    assert_eq!(value(c.x), 0.0);
    assert_eq!(value(c.y), 0.0);
}

#[test]
fn window_edges_map_to_viewport_edges() {
    let vp = plain_viewport();
    assert_eq!(value(time_to_x(2500, 5000, 2500, &vp)), 0.0);
    assert_eq!(value(time_to_x(7500, 5000, 2500, &vp)), 1920.0);
    assert_eq!(value(time_to_x(6250, 5000, 2500, &vp)), 1440.0);
}

#[test]
fn later_rows_map_further_right() {
    let vp = plain_viewport();
    let mut prev = value(time_to_x(0, 4000, 2500, &vp));
    for t in [1u64, 10, 1500, 4000, 6499, 6500, 9000] {
        let x = value(time_to_x(t, 4000, 2500, &vp));
        assert!(x > prev);
        prev = x;
    }
}

#[test]
fn higher_frequencies_sit_higher() {
    let vp = plain_viewport();
    assert_eq!(value(frequency_to_y(200, 100, 200, &vp)), 0.0);
    assert_eq!(value(frequency_to_y(100, 100, 200, &vp)), 1080.0);
    assert_eq!(value(frequency_to_y(175, 100, 200, &vp)), 270.0);
}

#[test]
fn size_has_a_floor() {
    assert_eq!(value(loudness_to_size(0, 0, 1000)), 2.5);
    assert_eq!(value(loudness_to_size(100, 0, 1000)), 2.5);
    assert_eq!(value(loudness_to_size(-5000, 0, 1000)), 2.5);
    assert_eq!(value(loudness_to_size(1000, 0, 1000)), 25.0);
    for l in [-100, 0, 50, 99, 101, 700, 1000, 3000] {
        assert!(value(loudness_to_size(l, -100, 900)) >= 2.5);
    }
}

#[test]
fn degenerate_ranges_are_refused() {
    let config = Config::default();
    let row = FeatureRow { time: 0, frequency: 7, loudness: 3 };
    let flat_frequency = RangeStats { min_frequency: 7, max_frequency: 7, min_loudness: 0, max_loudness: 10 };
    let flat_loudness = RangeStats { min_frequency: 0, max_frequency: 10, min_loudness: 3, max_loudness: 3 };
    assert_eq!(map_row(&row, 0, &flat_frequency, &config), Err(MapError::DegenerateRange));
    assert_eq!(map_row(&row, 0, &flat_loudness, &config), Err(MapError::DegenerateRange));
}

#[test]
fn degenerate_ranges_fall_back_to_midpoints() {
    let config = Config { viewport: plain_viewport(), ..Config::default() };
    let row = FeatureRow { time: 0, frequency: 7, loudness: 3 };
    let flat = RangeStats { min_frequency: 7, max_frequency: 7, min_loudness: 3, max_loudness: 3 };
    let c = circle_of(&row, 0, &flat, &config);
    assert_eq!(value(c.y), 540.0);
    assert_eq!(value(c.radius), 12.5);
    assert_eq!(value(c.x), 960.0);
}
