use funnyshapes::{Dataset, ShapeError, ShapeType, SCALE};

#[test]
fn empty_shape_types_is_fatal() {
    let dataset = Dataset::new();
    assert!(matches!(dataset.generate_random_entry(), Err(ShapeError::NoShapeTypes)));
}

#[test]
fn empty_color_palette_is_fatal() {
    let dataset = Dataset::new().shape_types(vec![ShapeType::Square]);
    assert!(matches!(dataset.generate_random_entry(), Err(ShapeError::NoColors)));
}

#[test]
fn generate_entry_count_palette_and_positions() {
    // A fixed count of five: the entry holds exactly five shapes, each
    // with a palette color, a kind from the list, and a position inside
    // the unit square.
    let palette = [(255, 0, 0), (0, 255, 0), (0, 0, 255)];
    let dataset = Dataset::new()
        .shape_types(vec![ShapeType::Square, ShapeType::Circle])
        .add_color(255, 0, 0)
        .add_color(0, 255, 0)
        .add_color(0, 0, 255)
        .size_range(100_000, 200_000)
        .num_shapes(5);
    for _ in 0..20 {
        let entry = dataset.generate_random_entry().unwrap();
        let shapes = entry.shapes();
        assert_eq!(shapes.len(), 5);
        for s in shapes.iter() {
            assert!(palette.contains(&(s.color.0, s.color.1, s.color.2)));
            assert!(matches!(s.shape_type, ShapeType::Square | ShapeType::Circle));
            assert!(0 <= s.position.0 && s.position.0 <= SCALE);
            assert!(0 <= s.position.1 && s.position.1 <= SCALE);
            assert!(100_000 <= s.size.0 && s.size.0 <= 200_000);
            assert!(-500_000 <= s.velocity.0 && s.velocity.0 <= 500_000);
            assert!(-500_000 <= s.velocity.1 && s.velocity.1 <= 500_000);
        }
    }
}

#[test]
fn num_shapes_range_is_sampled_inclusively() {
    let dataset = Dataset::new()
        .shape_types(vec![ShapeType::Circle])
        .add_color(1, 1, 1)
        .size(100_000)
        .num_shapes_range(2, 4);
    let mut seen = [false; 5];
    for _ in 0..100 {
        let entry = dataset.generate_random_entry().unwrap();
        let n = entry.shapes().len();
        assert!(2 <= n && n <= 4);
        seen[n] = true;
    }
    // over 100 draws all three counts almost surely appear
    assert!(seen[2] && seen[3] && seen[4]);
}

#[test]
fn default_num_shapes_is_three() {
    let dataset = Dataset::new()
        .shape_types(vec![ShapeType::Circle])
        .add_color(1, 1, 1)
        .size(100_000);
    let entry = dataset.generate_random_entry().unwrap();
    assert_eq!(entry.shapes().len(), 3);
}

#[test]
fn video_frames_follow_the_step_transform() {
    // A fully pinned-down configuration makes the video deterministic:
    // one green square of size 0.2 starting at 0.1, moving +0.05 per
    // axis per step.  Frame i must show the rectangle at the stepped
    // position floor((0.1 + 0.05 * i) * 10), and the color never
    // changes: same shape identity across frames.
    let dataset = Dataset::new()
        .shape_types(vec![ShapeType::Square])
        .add_color(0, 255, 0)
        .size(200_000)
        .position(100_000)
        .velocity(50_000)
        .num_shapes(1);
    let frames = dataset.get_random_video_array(4, 10, SCALE).unwrap();
    assert_eq!(frames.len(), 4);
    for (i, frame) in frames.iter().enumerate() {
        let pos = 100_000 + 50_000 * i as i64;
        let lo = (pos * 10 / SCALE) as usize;
        let hi = lo + 2;
        for y in 0..10 {
            for x in 0..10 {
                let inside = lo <= y && y <= hi && lo <= x && x <= hi;
                let expected = if inside { (0, 255, 0) } else { (0, 0, 0) };
                let got = (frame.get(0, y, x), frame.get(1, y, x), frame.get(2, y, x));
                assert_eq!(got, expected, "frame {i}, pixel ({y}, {x})");
            }
        }
    }
}

#[test]
fn video_out_of_bounds_square_is_fatal() {
    let dataset = Dataset::new()
        .shape_types(vec![ShapeType::Square])
        .add_color(1, 2, 3)
        .size(200_000)
        .position(900_000)
        .velocity(0)
        .num_shapes(1);
    assert!(matches!(
        dataset.get_random_video_array(3, 10, SCALE),
        Err(ShapeError::OutOfBounds)
    ));
}

#[test]
fn video_bouncing_square_stays_in_frame() {
    // A fast square bounces between the walls for many frames; every
    // frame renders without a bounds error and shows exactly one 3x3
    // pixel rectangle of its color.
    let dataset = Dataset::new()
        .shape_types(vec![ShapeType::Square])
        .add_color(7, 7, 7)
        .size(250_000)
        .position(300_000)
        .velocity(170_000)
        .num_shapes(1);
    let frames = dataset.get_random_video_array(50, 16, SCALE).unwrap();
    assert_eq!(frames.len(), 50);
    for frame in frames.iter() {
        let mut colored = 0;
        for y in 0..16 {
            for x in 0..16 {
                if frame.get(0, y, x) == 7 {
                    colored += 1;
                } else {
                    assert_eq!(frame.get(0, y, x), 0);
                }
            }
        }
        // edge = floor(0.25 * 16) = 4, inclusive rectangle: 5 x 5 pixels
        assert_eq!(colored, 25);
    }
}
