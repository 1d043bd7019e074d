use batgauge::color::colorize;
use batgauge::color::Gradient;
use batgauge::color::RGB;
use batgauge::ratio::Ratio;

fn rgb(r: u8, g: u8, b: u8) -> RGB {
    RGB { r, g, b }
}

#[test]
fn control_points_exact() {
    assert_eq!(colorize(Ratio::new(0, 1)), rgb(0x66, 0x00, 0x00));
    assert_eq!(colorize(Ratio::new(1, 5)), rgb(255, 102, 51));
    assert_eq!(colorize(Ratio::new(3, 5)), rgb(0xff, 0xff, 0x66));
    assert_eq!(colorize(Ratio::new(1, 1)), rgb(0x33, 0xff, 0x66));
}

#[test]
fn control_points_exact_with_other_denominators() {
    assert_eq!(colorize(Ratio::new(2, 10)), rgb(255, 102, 51));
    assert_eq!(colorize(Ratio::new(60, 100)), rgb(0xff, 0xff, 0x66));
    assert_eq!(colorize(Ratio::new(0, 7)), rgb(0x66, 0x00, 0x00));
    assert_eq!(colorize(Ratio::new(9, 9)), rgb(0x33, 0xff, 0x66));
}

#[test]
fn flat_below_range() {
    let at_zero = colorize(Ratio::new(0, 1));
    assert_eq!(colorize(Ratio::new(-1, 2)), at_zero);
    assert_eq!(colorize(Ratio::new(-1000, 3)), at_zero);
    assert_eq!(colorize(Ratio::new(-1, 1000000)), at_zero);
}

#[test]
fn flat_above_range() {
    let last = rgb(0x33, 0xff, 0x66);
    assert_eq!(colorize(Ratio::new(1, 1)), last);
    assert_eq!(colorize(Ratio::new(3, 2)), last);
    assert_eq!(colorize(Ratio::new(1000, 1)), last);
    assert_eq!(colorize(Ratio::new(1000001, 1000000)), last);
}

#[test]
fn out_of_range_magnitudes() {
    // A zero denominator stands for an out-of-range magnitude, as a
    // capacity formed with energy_full == 0 produces.
    assert_eq!(colorize(Ratio::new(1, 0)), rgb(0x33, 0xff, 0x66));
    assert_eq!(colorize(Ratio::new(0, 0)), rgb(0x33, 0xff, 0x66));
    assert_eq!(colorize(Ratio::new(-1, 0)), rgb(0x66, 0x00, 0x00));
}

#[test]
fn continuity_near_control_points() {
    // Just above 1/5 and just below 3/5 the color still equals the
    // nearer control point's color.
    assert_eq!(colorize(Ratio::new(1000001, 5000000)), rgb(255, 102, 51));
    assert_eq!(colorize(Ratio::new(2999999, 5000000)), rgb(0xff, 0xff, 0x66));
    assert_eq!(colorize(Ratio::new(1, 5000000)), rgb(0x66, 0x00, 0x00));
    assert_eq!(colorize(Ratio::new(4999999, 5000000)), rgb(0x33, 0xff, 0x66));
}

#[test]
fn midpoint_interpolation_rounds_half_away_from_zero() {
    // Halfway between 1/5 and 3/5: green channel 102 -> 255 gives
    // 178.5, rounded to 179; blue channel 51 -> 102 gives 76.5,
    // rounded to 77.
    assert_eq!(colorize(Ratio::new(2, 5)), rgb(255, 179, 77));
}

#[test]
fn first_segment_interpolation() {
    // Halfway between 0 and 1/5: 102 -> 255 gives 178.5 -> 179,
    // 0 -> 102 gives 51, 0 -> 51 gives 25.5 -> 26.
    assert_eq!(colorize(Ratio::new(1, 10)), rgb(179, 51, 26));
}

#[test]
fn channels_move_monotonically_within_a_segment() {
    // Sample the segment from 1/5 to 3/5: red stays flat at 255 while
    // green and blue climb toward the upper control point's channels.
    let mut last = colorize(Ratio::new(20, 100));
    assert_eq!(last, rgb(255, 102, 51));
    for k in 21..60 {
        let c = colorize(Ratio::new(k, 100));
        assert_eq!(c.r, 255);
        assert!(c.g >= last.g);
        assert!(c.b >= last.b);
        last = c;
    }
    assert_eq!(colorize(Ratio::new(60, 100)), rgb(0xff, 0xff, 0x66));
}

#[test]
fn gradient_get_matches_colorize() {
    let g = Gradient::new();
    assert_eq!(g.get(Ratio::new(1, 5)), colorize(Ratio::new(1, 5)));
    assert_eq!(g.get(Ratio::new(7, 10)), colorize(Ratio::new(7, 10)));
    assert_eq!(g.get(Ratio::new(-3, 4)), colorize(Ratio::new(-3, 4)));
}

#[test]
fn hex_rendering_is_uppercase_with_leading_hash() {
    assert_eq!(rgb(255, 102, 51).hex_string(), "#FF6633");
    assert_eq!(rgb(0x66, 0x00, 0x00).hex_string(), "#660000");
    assert_eq!(rgb(0x33, 0xff, 0x66).hex_string(), "#33FF66");
    assert_eq!(rgb(0, 0, 0).hex_string(), "#000000");
    assert_eq!(rgb(0x0a, 0xb0, 0x09).hex_string(), "#0AB009");
}

#[test]
fn colorized_control_point_renders_as_spec_names_it() {
    assert_eq!(colorize(Ratio::new(1, 5)).hex_string(), "#FF6633");
}
