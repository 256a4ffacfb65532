use funnyshapes::{Dataset, ShapeError, ShapeType};

#[test]
fn end_to_end_red_square() {
    // One red square of size 0.2 at the origin, rendered at resolution
    // 10: exactly the inclusive pixel rectangle [0, 2] x [0, 2] carries
    // full-intensity red, everything else stays black.
    let dataset = Dataset::new()
        .shape_types(vec![ShapeType::Square])
        .add_color(255, 0, 0)
        .size(200_000)
        .position(0)
        .velocity(0)
        .num_shapes(1);
    let frame = dataset.get_random_image_array(10).unwrap();
    assert_eq!(frame.resolution(), 10);
    for y in 0..10 {
        for x in 0..10 {
            let expected = if y <= 2 && x <= 2 { (255, 0, 0) } else { (0, 0, 0) };
            let got = (frame.get(0, y, x), frame.get(1, y, x), frame.get(2, y, x));
            assert_eq!(got, expected, "pixel ({y}, {x})");
        }
    }
}

#[test]
fn square_colors_exact_rectangle() {
    // size 0.35 at resolution 10 truncates to edge 3: rows and columns 0
    // through 3 inclusive.
    let dataset = Dataset::new()
        .shape_types(vec![ShapeType::Square])
        .add_color(9, 8, 7)
        .size(350_000)
        .position(0)
        .velocity(0)
        .num_shapes(1);
    let frame = dataset.get_random_image_array(10).unwrap();
    for y in 0..10 {
        for x in 0..10 {
            let inside = y <= 3 && x <= 3;
            assert_eq!(frame.get(0, y, x), if inside { 9 } else { 0 });
            assert_eq!(frame.get(1, y, x), if inside { 8 } else { 0 });
            assert_eq!(frame.get(2, y, x), if inside { 7 } else { 0 });
        }
    }
}

#[test]
fn circle_center_and_boundary_inclusive() {
    // A circle of diameter 0.4 (radius 0.2) centered at (0.5, 0.5) on a
    // 10x10 buffer: its snapped center is pixel (5, 5).
    let dataset = Dataset::new()
        .shape_types(vec![ShapeType::Circle])
        .add_color(100, 150, 200)
        .size(400_000)
        .position(300_000)
        .velocity(0)
        .num_shapes(1);
    let frame = dataset.get_random_image_array(10).unwrap();

    // the pixel at the exact center is colored
    assert_eq!(frame.get(0, 5, 5), 100);
    assert_eq!(frame.get(1, 5, 5), 150);
    assert_eq!(frame.get(2, 5, 5), 200);

    // a boundary pixel at distance exactly the radius (dx = 2 pixels =
    // 0.2 units) is colored: the test is inclusive
    assert_eq!(frame.get(0, 5, 7), 100);
    assert_eq!(frame.get(0, 7, 5), 100);

    // pixels farther than the radius stay background
    assert_eq!(frame.get(0, 5, 8), 0);
    assert_eq!(frame.get(0, 0, 0), 0);
    assert_eq!(frame.get(1, 9, 9), 0);

    // just inside the boundary on the diagonal: dx = dy = 1, distance
    // sqrt(0.02) < 0.2
    assert_eq!(frame.get(0, 6, 6), 100);
}

#[test]
fn square_out_of_bounds_is_fatal() {
    // x1 = 9 and edge 2 reach column 11 of a 10-pixel frame: a bounds
    // error, not a silent clip.
    let dataset = Dataset::new()
        .shape_types(vec![ShapeType::Square])
        .add_color(1, 2, 3)
        .size(200_000)
        .position(900_000)
        .velocity(0)
        .num_shapes(1);
    assert_eq!(dataset.get_random_image_array(10), Err(ShapeError::OutOfBounds));
}

#[test]
fn circle_off_frame_colors_nothing() {
    // A tiny circle whose snapped center lies past the last pixel: no
    // pixel of the frame passes the distance test, and no error is
    // raised — the bounds behavior of the two kinds is asymmetric.
    let dataset = Dataset::new()
        .shape_types(vec![ShapeType::Circle])
        .add_color(200, 200, 200)
        .size(1_000)
        .position(999_999)
        .velocity(0)
        .num_shapes(1);
    let frame = dataset.get_random_image_array(10).unwrap();
    for c in 0..3 {
        for y in 0..10 {
            for x in 0..10 {
                assert_eq!(frame.get(c, y, x), 0);
            }
        }
    }
}

#[test]
fn later_shape_draws_over_earlier() {
    // Two full-frame squares: every pixel shows the color of the later
    // one.
    let dataset = Dataset::new()
        .shape_types(vec![ShapeType::Square])
        .add_color(50, 60, 70)
        .size(500_000)
        .position(0)
        .velocity(0)
        .num_shapes(2);
    let frame = dataset.get_random_image_array(8).unwrap();
    // both shapes share the palette's single color, so overlap keeps it
    assert_eq!(frame.get(0, 0, 0), 50);
    assert_eq!(frame.get(1, 4, 4), 60);
    assert_eq!(frame.get(2, 0, 4), 70);
    assert_eq!(frame.get(0, 5, 5), 0);
}

#[test]
fn frame_to_image_bytes_reorders_channels() {
    let dataset = Dataset::new()
        .shape_types(vec![ShapeType::Square])
        .add_color(255, 0, 0)
        .size(200_000)
        .position(0)
        .velocity(0)
        .num_shapes(1);
    let frame = dataset.get_random_image_array(10).unwrap();
    let bytes = frame.to_image_bytes();
    assert_eq!(bytes.len(), 300);
    for y in 0..10 {
        for x in 0..10 {
            for c in 0..3 {
                assert_eq!(bytes[(y * 10 + x) * 3 + c], frame.get(c, y, x));
            }
        }
    }
}
