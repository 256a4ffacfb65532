use funnyshapes::{NewRandom1, NewRandom2, Position, RangeOrSingle, Size, Velocity, SCALE};

#[test]
fn single_sampler_returns_exact_value() {
    for _ in 0..100 {
        let p = Position::new_from_range_or_single(&RangeOrSingle::Single(300_000));
        assert_eq!(p.0, 300_000);
        assert_eq!(p.1, 300_000);

        let v = Velocity::new_from_range_or_single(&RangeOrSingle::Single(-250_000));
        assert_eq!(v.0, -250_000);
        assert_eq!(v.1, -250_000);

        let s = Size::new_from_range_or_single(&RangeOrSingle::Single(123));
        assert_eq!(s.0, 123);
    }
}

#[test]
fn range_sampler_stays_within_bounds() {
    for _ in 0..1000 {
        let s = Size::new_from_range_or_single(&RangeOrSingle::Range(10, 20));
        assert!(10 <= s.0 && s.0 <= 20);

        let p = Position::new_from_range_or_single(&RangeOrSingle::Range(0, SCALE));
        assert!(0 <= p.0 && p.0 <= SCALE);
        assert!(0 <= p.1 && p.1 <= SCALE);

        let v = Velocity::new_from_range_or_single(&RangeOrSingle::Range(-500_000, 500_000));
        assert!(-500_000 <= v.0 && v.0 <= 500_000);
        assert!(-500_000 <= v.1 && v.1 <= 500_000);
    }
}

#[test]
fn range_sampler_roughly_uniform() {
    // 10_000 draws over ten values: each value expects 1000 hits; bounds
    // generous enough that a uniform source fails them with vanishing
    // probability.
    let mut counts = [0usize; 10];
    for _ in 0..10_000 {
        let s = Size::new_from_range_or_single(&RangeOrSingle::Range(0, 9));
        counts[s.0 as usize] += 1;
    }
    for &c in counts.iter() {
        assert!(c > 500, "bucket count {c} far below uniform expectation");
        assert!(c < 2000, "bucket count {c} far above uniform expectation");
    }
}

#[test]
fn new_random_draws_axes_independently() {
    // Two coordinates drawn from a wide range almost surely differ at
    // least once over many trials: the pair is two draws, not one.
    let mut saw_different = false;
    for _ in 0..200 {
        let p = Position::new_random(0, SCALE);
        if p.0 != p.1 {
            saw_different = true;
        }
        assert!(0 <= p.0 && p.0 <= SCALE);
        assert!(0 <= p.1 && p.1 <= SCALE);
    }
    assert!(saw_different);
}
