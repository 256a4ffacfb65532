use funnyshapes::{Color, Entry, RangeOrSingle, ShapeError, ShapeType, SCALE};

#[test]
fn new_from_random_builds_exact_count() {
    let types = vec![ShapeType::Square];
    let palette = vec![Color(10, 20, 30)];
    let entry = Entry::new_from_random(
        4,
        &types,
        &palette,
        &RangeOrSingle::Single(100_000),
        &RangeOrSingle::Range(0, SCALE),
        &RangeOrSingle::Single(0),
    )
    .unwrap();
    assert_eq!(entry.shapes().len(), 4);
    for s in entry.shapes().iter() {
        assert!(matches!(s.shape_type, ShapeType::Square));
        assert_eq!((s.color.0, s.color.1, s.color.2), (10, 20, 30));
        assert_eq!(s.size.0, 100_000);
        assert_eq!((s.velocity.0, s.velocity.1), (0, 0));
        assert!(0 <= s.position.0 && s.position.0 <= SCALE);
        assert!(0 <= s.position.1 && s.position.1 <= SCALE);
    }
}

#[test]
fn new_from_random_empty_lists_error_in_order() {
    let empty_types: Vec<ShapeType> = Vec::new();
    let empty_palette: Vec<Color> = Vec::new();
    let some_types = vec![ShapeType::Circle];
    let r1 = Entry::new_from_random(
        1,
        &empty_types,
        &empty_palette,
        &RangeOrSingle::Single(100_000),
        &RangeOrSingle::Single(0),
        &RangeOrSingle::Single(0),
    );
    assert_eq!(r1.unwrap_err(), ShapeError::NoShapeTypes);
    let r2 = Entry::new_from_random(
        1,
        &some_types,
        &empty_palette,
        &RangeOrSingle::Single(100_000),
        &RangeOrSingle::Single(0),
        &RangeOrSingle::Single(0),
    );
    assert_eq!(r2.unwrap_err(), ShapeError::NoColors);
}

#[test]
fn step_entry_advances_every_shape() {
    let types = vec![ShapeType::Square];
    let palette = vec![Color(1, 1, 1)];
    let mut entry = Entry::new_from_random(
        3,
        &types,
        &palette,
        &RangeOrSingle::Single(100_000),
        &RangeOrSingle::Single(200_000),
        &RangeOrSingle::Single(50_000),
    )
    .unwrap();
    entry.step_entry(SCALE);
    for s in entry.shapes().iter() {
        assert_eq!((s.position.0, s.position.1), (250_000, 250_000));
        assert_eq!((s.velocity.0, s.velocity.1), (50_000, 50_000));
    }
}

#[test]
fn render_entry_draws_in_sequence_order() {
    // an empty entry renders an all-black frame
    let types = vec![ShapeType::Circle];
    let palette = vec![Color(200, 0, 0)];
    let entry = Entry::new_from_random(
        0,
        &types,
        &palette,
        &RangeOrSingle::Single(100_000),
        &RangeOrSingle::Single(0),
        &RangeOrSingle::Single(0),
    )
    .unwrap();
    let frame = entry.render_entry(6).unwrap();
    assert_eq!(frame.resolution(), 6);
    for c in 0..3 {
        for y in 0..6 {
            for x in 0..6 {
                assert_eq!(frame.get(c, y, x), 0);
            }
        }
    }
}
