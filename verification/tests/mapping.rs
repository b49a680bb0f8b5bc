use realtime_termgraph::scale::{scale_from_high, scale_from_low};
use realtime_termgraph::{Canvas, Point};

#[test]
fn test_map_point_default() {
    let canvas: Canvas = Canvas::default();
    let expected_maps = [
        ((0, 0), (10, 5)),
        ((-10, 0), (0, 5)),
        ((10, 0), (20, 5)),
        ((-10, 10), (0, 0)),
        ((10, -10), (20, 10)),
    ];

    for ((x, y), map) in expected_maps {
        assert_eq!(canvas.map_point(&Point::new(x, y)), Some(map));
    }
}

#[test]
fn test_map_point_dimensions() {
    let canvas: Canvas = Canvas::new(40, 10);
    let expected_maps = [
        ((0, 0), (20, 5)),
        ((-10, 0), (0, 5)),
        ((10, 0), (40, 5)),
        ((-10, 10), (0, 0)),
        ((10, -10), (40, 10)),
    ];

    for ((x, y), map) in expected_maps {
        assert_eq!(canvas.map_point(&Point::new(x, y)), Some(map));
    }
}

#[test]
fn test_map_point_range() {
    let canvas = Canvas::custom(20, 10, 0..=40, 0..=20, '+', '#');
    let expected_maps = [((0, 10), (0, 5)), ((10, 0), (5, 10))];

    for ((x, y), map) in expected_maps {
        assert_eq!(canvas.map_point(&Point::new(x, y)), Some(map));
    }
}

#[test]
fn points_outside_the_bounds_have_no_cell() {
    let canvas = Canvas::default();
    for (x, y) in [(11, 0), (-11, 0), (0, 11), (0, -11), (11, 11), (i64::MAX, 0), (0, i64::MIN)] {
        assert_eq!(canvas.map_point(&Point::new(x, y)), None);
    }
}

#[test]
fn bounds_are_closed_intervals() {
    let canvas = Canvas::custom(8, 4, -3..=5, 2..=7, '*', '#');
    assert_eq!(canvas.map_point(&Point::new(-3, 7)), Some((0, 0)));
    assert_eq!(canvas.map_point(&Point::new(5, 7)), Some((8, 0)));
    assert_eq!(canvas.map_point(&Point::new(-3, 2)), Some((0, 4)));
    assert_eq!(canvas.map_point(&Point::new(5, 2)), Some((8, 4)));
    assert_eq!(canvas.map_point(&Point::new(-4, 2)), None);
    assert_eq!(canvas.map_point(&Point::new(6, 2)), None);
    assert_eq!(canvas.map_point(&Point::new(5, 1)), None);
    assert_eq!(canvas.map_point(&Point::new(5, 8)), None);
}

#[test]
fn doubling_the_width_doubles_the_column() {
    let narrow = Canvas::new(20, 10);
    let wide = Canvas::new(40, 10);
    assert_eq!(narrow.map_point(&Point::new(10, 0)), Some((20, 5)));
    assert_eq!(wide.map_point(&Point::new(10, 0)), Some((40, 5)));
    for x in -10..=10 {
        let (col, row) = narrow.map_point(&Point::new(x, 3)).unwrap();
        assert_eq!(wide.map_point(&Point::new(x, 3)), Some((2 * col, row)));
    }
}

#[test]
fn doubling_the_width_may_miss_by_one_between_columns() {
    // A quarter of the way from column 0 to column 1: column 0 of one
    // column, column 1 of two.
    let narrow = Canvas::custom(1, 1, 0..=4, 0..=4, '.', '#');
    let wide = Canvas::custom(2, 1, 0..=4, 0..=4, '.', '#');
    assert_eq!(narrow.map_point(&Point::new(1, 0)), Some((0, 1)));
    assert_eq!(wide.map_point(&Point::new(1, 0)), Some((1, 1)));
}

#[test]
fn a_tie_goes_to_the_higher_cell() {
    // 1 of 0..=40 on 20 columns is exactly column 0.5.
    assert_eq!(scale_from_low(1, 0, 40, 20), 1);
    // 39 of 0..=40 on 20 rows from the top is exactly row 0.5.
    assert_eq!(scale_from_high(39, 0, 40, 20), 1);
    // Just below the tie.
    assert_eq!(scale_from_low(1, 0, 41, 20), 0);
    assert_eq!(scale_from_high(40, 0, 41, 20), 0);
    // 2.5 and 3.5.
    assert_eq!(scale_from_low(5, 0, 40, 20), 3);
    assert_eq!(scale_from_low(7, 0, 40, 20), 4);
}

#[test]
fn scale_formula_gives_exact_values() {
    // (v - lo) * cells / (hi - lo), rounded: 3 * 7 / 9 = 2.33 and 5 * 7 / 9 = 3.89.
    assert_eq!(scale_from_low(3, 0, 9, 7), 2);
    assert_eq!(scale_from_low(5, 0, 9, 7), 4);
    // (hi - v) * cells / (hi - lo), rounded: 6 * 7 / 9 = 4.67 and 4 * 7 / 9 = 3.11.
    assert_eq!(scale_from_high(3, 0, 9, 7), 5);
    assert_eq!(scale_from_high(5, 0, 9, 7), 3);
    // Negative bounds: (-2 - -7) * 10 / (3 - -7) = 5.
    assert_eq!(scale_from_low(-2, -7, 3, 10), 5);
    assert_eq!(scale_from_high(-2, -7, 3, 10), 5);
}

#[test]
fn scale_ends_lie_on_the_ends() {
    for cells in [0u16, 1, 2, 99, u16::MAX] {
        assert_eq!(scale_from_low(-5, -5, 12, cells), 0);
        assert_eq!(scale_from_low(12, -5, 12, cells), cells);
        assert_eq!(scale_from_high(12, -5, 12, cells), 0);
        assert_eq!(scale_from_high(-5, -5, 12, cells), cells);
    }
}

#[test]
fn scale_works_on_the_whole_range_of_coordinates() {
    assert_eq!(scale_from_low(i64::MIN, i64::MIN, i64::MAX, u16::MAX), 0);
    assert_eq!(scale_from_low(i64::MAX, i64::MIN, i64::MAX, u16::MAX), u16::MAX);
    assert_eq!(scale_from_low(0, i64::MIN, i64::MAX, 100), 50);
    assert_eq!(scale_from_low(-1, i64::MIN, i64::MAX, 100), 50);
    assert_eq!(scale_from_high(i64::MIN, i64::MIN, i64::MAX, u16::MAX), u16::MAX);
    assert_eq!(scale_from_high(i64::MAX, i64::MIN, i64::MAX, u16::MAX), 0);
    assert_eq!(scale_from_high(0, i64::MIN, i64::MAX, 100), 50);
}

#[test]
fn scale_does_not_depend_on_the_unit() {
    for v in -10..=10 {
        let plain = scale_from_low(v, -10, 10, 33);
        assert_eq!(scale_from_low(v * 1000, -10_000, 10_000, 33), plain);
        assert_eq!(scale_from_low(v * 65536, -655_360, 655_360, 33), plain);
        let plain = scale_from_high(v, -10, 10, 33);
        assert_eq!(scale_from_high(v * 1000, -10_000, 10_000, 33), plain);
    }
}

#[test]
fn scale_keeps_the_order() {
    let mut last_low = 0;
    let mut last_high = 17;
    for v in -50..=50 {
        let low = scale_from_low(v, -50, 50, 17);
        let high = scale_from_high(v, -50, 50, 17);
        assert!(low >= last_low);
        assert!(high <= last_high);
        // Both directions round a tie upward; otherwise the two steps add up
        // to the length of the scale.
        assert_eq!(low + high, 17 + u16::from(((v + 50) * 17) % 100 == 50));
        last_low = low;
        last_high = high;
    }
}

#[test]
fn fixed_point_coordinates_give_the_cells_of_fractions() {
    // Bounds [-10, 10] in thousandths; the point (2.5, -7.25).
    let canvas = Canvas::new(100, 50).bounds(-10_000..=10_000, -10_000..=10_000);
    // (2.5 + 10) / 20 * 100 = 62.5 -> 63; (10 + 7.25) / 20 * 50 = 43.125 -> 43.
    assert_eq!(canvas.map_point(&Point::new(2_500, -7_250)), Some((63, 43)));
}
