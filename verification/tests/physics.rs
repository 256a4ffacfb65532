use funnyshapes::{Color, Shape, ShapeType, SCALE};

#[test]
fn shape_new_defaults() {
    let s = Shape::new(&ShapeType::Square);
    assert!(matches!(s.shape_type, ShapeType::Square));
    assert_eq!((s.color.0, s.color.1, s.color.2), (255, 255, 255));
    assert_eq!((s.position.0, s.position.1), (0, 0));
    assert_eq!((s.velocity.0, s.velocity.1), (0, 0));
    assert_eq!(s.size.0, SCALE);
}

#[test]
fn shape_builders_replace_one_field() {
    let s = Shape::new(&ShapeType::Circle)
        .position(100_000, 200_000)
        .velocity(-50_000, 75_000)
        .color(10, 20, 30)
        .size(400_000);
    assert!(matches!(s.shape_type, ShapeType::Circle));
    assert_eq!((s.position.0, s.position.1), (100_000, 200_000));
    assert_eq!((s.velocity.0, s.velocity.1), (-50_000, 75_000));
    assert_eq!((s.color.0, s.color.1, s.color.2), (10, 20, 30));
    assert_eq!(s.size.0, 400_000);
}

#[test]
fn step_translates_without_bounce() {
    let mut s = Shape::new(&ShapeType::Square)
        .position(100_000, 200_000)
        .velocity(50_000, -50_000)
        .size(100_000);
    s.step_shape(SCALE);
    assert_eq!((s.position.0, s.position.1), (150_000, 150_000));
    assert_eq!((s.velocity.0, s.velocity.1), (50_000, -50_000));
}

#[test]
fn step_scales_velocity_by_step_size() {
    let mut s = Shape::new(&ShapeType::Square)
        .position(500_000, 500_000)
        .velocity(200_000, 0)
        .size(100_000);
    s.step_shape(500_000);
    assert_eq!(s.position.0, 600_000);
    assert_eq!(s.position.1, 500_000);
}

#[test]
fn step_reflects_off_right_wall() {
    // size 0.2 leaves walls at 0 and 0.8; from x = 0.7 a step of +0.2
    // crosses the far wall: mirror to 0.8 - (0.9 - 0.8) = 0.7 and negate
    // the x-velocity.
    let mut s = Shape::new(&ShapeType::Square)
        .position(700_000, 0)
        .velocity(200_000, 0)
        .size(200_000);
    s.step_shape(SCALE);
    assert_eq!(s.position.0, 700_000);
    assert_eq!(s.velocity.0, -200_000);
    assert_eq!(s.position.1, 0);
    assert_eq!(s.velocity.1, 0);

    // the second step moves back toward zero and stays inside [0, 0.8]
    s.step_shape(SCALE);
    assert_eq!(s.position.0, 500_000);
    assert_eq!(s.velocity.0, -200_000);
    assert!(0 <= s.position.0 && s.position.0 <= 800_000);
}

#[test]
fn step_reflects_off_left_wall() {
    let mut s = Shape::new(&ShapeType::Circle)
        .position(50_000, 500_000)
        .velocity(-150_000, 0)
        .size(200_000);
    s.step_shape(SCALE);
    // translated to -0.1, reflected to 0.1, velocity negated
    assert_eq!(s.position.0, 100_000);
    assert_eq!(s.velocity.0, 150_000);
    assert_eq!(s.position.1, 500_000);
}

#[test]
fn step_reflects_both_axes_independently() {
    let mut s = Shape::new(&ShapeType::Square)
        .position(700_000, 50_000)
        .velocity(200_000, -150_000)
        .size(200_000);
    s.step_shape(SCALE);
    assert_eq!((s.position.0, s.position.1), (700_000, 100_000));
    assert_eq!((s.velocity.0, s.velocity.1), (-200_000, 150_000));
}

#[test]
fn color_channels_in_rgb_order() {
    let c = Color::new(1, 2, 3);
    assert_eq!((c.0, c.1, c.2), (1, 2, 3));
    assert_eq!((c.channel(0), c.channel(1), c.channel(2)), (1, 2, 3));
}
