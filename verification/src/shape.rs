//! The value types a shape is made of, the random constructors shared by
//! them, and the per-shape physics step with wall-bounce reflection.

use vstd::prelude::*;

use crate::rng::{sample_i64, sample_usize};
use crate::{div_trunc, RangeOrSingle, COORD_LIMIT, SCALE};

verus! {

/// The closed set of shape kinds, selecting rasterization and collision
/// behavior.
#[derive(Debug, Copy, Clone, PartialEq, Eq, Structural)]
pub enum ShapeType {
    /// An axis-aligned square; its size is the side length.
    Square,
    /// A circle; its size is the diameter.
    Circle,
}

/// A constructor family for two-coordinate values: a plain constructor, a
/// uniformly random one, and one resolving a [`RangeOrSingle`] by applying
/// the random draw independently to both coordinates.
pub trait NewRandom2: Sized {
    /// Which coordinate pairs the constructor accepts.
    spec fn pair_pre(x: int, y: int) -> bool;

    /// The two coordinates carried by the value.
    spec fn pair(self) -> (int, int);

    /// Construct from two fixed coordinates.
    fn new(x: i64, y: i64) -> (s: Self)
        requires
            Self::pair_pre(x as int, y as int),
        ensures
            s.pair() == (x as int, y as int),
    ;

    /// Draw both coordinates independently and uniformly from
    /// `[lower, upper]`.
    fn new_random(lower: i64, upper: i64) -> (s: Self)
        requires
            lower <= upper,
            forall|a: int, b: int|
                lower <= a <= upper && lower <= b <= upper ==> #[trigger] Self::pair_pre(a, b),
        ensures
            lower <= s.pair().0 <= upper,
            lower <= s.pair().1 <= upper,
    ;

    /// Resolve a range-or-single specification: a single value is taken as
    /// is for both coordinates, a range is sampled once per coordinate.
    fn new_from_range_or_single(range_or_single: &RangeOrSingle<i64>) -> (s: Self)
        requires
            range_or_single.valid(),
            forall|a: int, b: int|
                range_or_single.admits(a) && range_or_single.admits(b)
                    ==> #[trigger] Self::pair_pre(a, b),
        ensures
            range_or_single.admits(s.pair().0),
            range_or_single.admits(s.pair().1),
            range_or_single matches RangeOrSingle::Single(v) ==> s.pair() == (v as int, v as int),
    ;
}

/// A constructor family for one-coordinate values, the 1-D counterpart of
/// [`NewRandom2`].
pub trait NewRandom1: Sized {
    /// Which values the constructor accepts.
    spec fn single_pre(v: int) -> bool;

    /// The coordinate carried by the value.
    spec fn value(self) -> int;

    /// Construct from one fixed value.
    fn new(v: i64) -> (s: Self)
        requires
            Self::single_pre(v as int),
        ensures
            s.value() == v as int,
    ;

    /// Draw the value uniformly from `[lower, upper]`.
    fn new_random(lower: i64, upper: i64) -> (s: Self)
        requires
            lower <= upper,
            forall|a: int| lower <= a <= upper ==> #[trigger] Self::single_pre(a),
        ensures
            lower <= s.value() <= upper,
    ;

    /// Resolve a range-or-single specification: a single value is taken as
    /// is, a range is sampled.
    fn new_from_range_or_single(range_or_single: &RangeOrSingle<i64>) -> (s: Self)
        requires
            range_or_single.valid(),
            forall|a: int| range_or_single.admits(a) ==> #[trigger] Self::single_pre(a),
        ensures
            range_or_single.admits(s.value()),
            range_or_single matches RangeOrSingle::Single(v) ==> s.value() == v as int,
    ;
}

/// An 8-bit RGB color.
#[derive(Debug, Clone, Copy, PartialEq, Eq, Structural)]
pub struct Color(pub u8, pub u8, pub u8);

/// The channel-`i` intensity of a color: red, green, blue in that order.
pub open spec fn channel_of(c: Color, i: int) -> u8 {
    if i == 0 {
        c.0
    } else if i == 1 {
        c.1
    } else {
        c.2
    }
}

impl Color {
    /// The channel-`i` intensity: red, green, blue in that order.
    pub fn channel(&self, i: usize) -> (v: u8)
        ensures
            v == channel_of(*self, i as int),
    {
        if i == 0 {
            self.0
        } else if i == 1 {
            self.1
        } else {
            self.2
        }
    }

    /// Construct a color from its three channels.
    pub fn new(r: u8, g: u8, b: u8) -> (c: Self)
        ensures
            c == (Color(r, g, b)),
    {
        Color(r, g, b)
    }

    /// Pick one color uniformly at random from a non-empty palette.
    pub fn new_random_from_palette(palette: &Vec<Color>) -> (c: Self)
        requires
            palette@.len() > 0,
        ensures
            exists|j: int| 0 <= j < palette@.len() && c == palette@[j],
    {
        let idx = sample_usize(0, palette.len() - 1);
        palette[idx]
    }
}

/// A point in the unit square, in fixed-point units: both coordinates must
/// lie in `[0, SCALE]` at construction.  The physics step writes the
/// reflected coordinates directly and may leave this range when one
/// reflection is not enough to bring an overshooting shape back.
#[derive(Debug, Copy, Clone, PartialEq, Eq, Structural)]
pub struct Position(pub i64, pub i64);

impl NewRandom2 for Position {
    open spec fn pair_pre(x: int, y: int) -> bool {
        0 <= x <= SCALE && 0 <= y <= SCALE
    }

    open spec fn pair(self) -> (int, int) {
        (self.0 as int, self.1 as int)
    }

    fn new(x: i64, y: i64) -> (s: Self) {
        Position(x, y)
    }

    fn new_random(lower: i64, upper: i64) -> (s: Self) {
        let x = sample_i64(lower, upper);
        let y = sample_i64(lower, upper);
        Self::new(x, y)
    }

    fn new_from_range_or_single(range_or_single: &RangeOrSingle<i64>) -> (s: Self) {
        match range_or_single {
            RangeOrSingle::Range(l, u) => Self::new_random(*l, *u),
            RangeOrSingle::Single(v) => Self::new(*v, *v),
        }
    }
}

/// A displacement per time step, in fixed-point units per step; either
/// coordinate may be negative or exceed one unit.
#[derive(Debug, Copy, Clone, PartialEq, Eq, Structural)]
pub struct Velocity(pub i64, pub i64);

impl NewRandom2 for Velocity {
    open spec fn pair_pre(x: int, y: int) -> bool {
        true
    }

    open spec fn pair(self) -> (int, int) {
        (self.0 as int, self.1 as int)
    }

    fn new(x: i64, y: i64) -> (s: Self) {
        Velocity(x, y)
    }

    fn new_random(lower: i64, upper: i64) -> (s: Self) {
        let x = sample_i64(lower, upper);
        let y = sample_i64(lower, upper);
        Self::new(x, y)
    }

    fn new_from_range_or_single(range_or_single: &RangeOrSingle<i64>) -> (s: Self) {
        match range_or_single {
            RangeOrSingle::Range(l, u) => Self::new_random(*l, *u),
            RangeOrSingle::Single(v) => Self::new(*v, *v),
        }
    }
}

/// A shape's extent in fixed-point units: the square's side length or the
/// circle's diameter.  Never negative.
#[derive(Debug, Copy, Clone, PartialEq, Eq, Structural)]
pub struct Size(pub i64);

impl NewRandom1 for Size {
    open spec fn single_pre(v: int) -> bool {
        v >= 0
    }

    open spec fn value(self) -> int {
        self.0 as int
    }

    fn new(v: i64) -> (s: Self) {
        Size(v)
    }

    fn new_random(lower: i64, upper: i64) -> (s: Self) {
        let v = sample_i64(lower, upper);
        Self::new(v)
    }

    fn new_from_range_or_single(range_or_single: &RangeOrSingle<i64>) -> (s: Self) {
        match range_or_single {
            RangeOrSingle::Range(l, u) => Self::new_random(*l, *u),
            RangeOrSingle::Single(v) => Self::new(*v),
        }
    }
}

/// One shape instance: kind, color, position, velocity and size.
#[derive(Debug, Copy, Clone, PartialEq, Eq, Structural)]
pub struct Shape {
    /// Which kind of shape this is.
    pub shape_type: ShapeType,
    /// The fill color used when rasterizing.
    pub color: Color,
    /// The top-left reference point, in fixed-point units.
    pub position: Position,
    /// The displacement applied per unit time step.
    pub velocity: Velocity,
    /// Side length (square) or diameter (circle).
    pub size: Size,
}

/// The displacement one axis travels in a step: `v * dt / SCALE`, rounded
/// toward zero.
pub open spec fn step_delta(v: int, dt: int) -> int {
    div_trunc(v * dt, SCALE as int)
}

/// Where a translated coordinate `t` ends up after the single-bounce wall
/// reflection against the walls `0` and `m`: a coordinate past a wall is
/// mirrored on it, once.
pub open spec fn bounced_coord(t: int, m: int) -> int {
    if t < 0 {
        -t
    } else if t > m {
        m - (t - m)
    } else {
        t
    }
}

/// The velocity of one axis after the reflection of [`bounced_coord`]: it
/// is negated exactly when the coordinate hit a wall.
pub open spec fn bounced_vel(t: int, m: int, v: int) -> int {
    if t < 0 || t > m {
        -v
    } else {
        v
    }
}

/// The shape after pure translation: position advanced by velocity times
/// step size, everything else unchanged.
pub open spec fn translated_shape(s: Shape, dt: int) -> Shape {
    Shape {
        position: Position(
            (s.position.0 + step_delta(s.velocity.0 as int, dt)) as i64,
            (s.position.1 + step_delta(s.velocity.1 as int, dt)) as i64,
        ),
        ..s
    }
}

/// The shape after wall-bounce collision handling against the square
/// bounds `[0, SCALE - size]`, applied to each axis independently.  Both
/// shape kinds share this square-bounds logic.
pub open spec fn collided_shape(s: Shape) -> Shape {
    let m = SCALE - s.size.0;
    Shape {
        position: Position(
            bounced_coord(s.position.0 as int, m) as i64,
            bounced_coord(s.position.1 as int, m) as i64,
        ),
        velocity: Velocity(
            bounced_vel(s.position.0 as int, m, s.velocity.0 as int) as i64,
            bounced_vel(s.position.1 as int, m, s.velocity.1 as int) as i64,
        ),
        ..s
    }
}

/// One full physics step: translation followed by single-bounce collision
/// handling.
pub open spec fn step_shape_spec(s: Shape, dt: int) -> Shape {
    collided_shape(translated_shape(s, dt))
}

/// The bounds under which one physics step is free of overflow: a step
/// size of at most one time unit and coordinates within [`COORD_LIMIT`].
pub open spec fn step_ok(s: Shape, dt: int) -> bool {
    &&& 0 <= dt <= SCALE
    &&& -COORD_LIMIT <= s.position.0 <= COORD_LIMIT
    &&& -COORD_LIMIT <= s.position.1 <= COORD_LIMIT
    &&& -COORD_LIMIT <= s.velocity.0 <= COORD_LIMIT
    &&& -COORD_LIMIT <= s.velocity.1 <= COORD_LIMIT
    &&& 0 <= s.size.0 <= COORD_LIMIT
}

/// `v * dt / SCALE` rounded toward zero, computed without overflow.
fn scaled_delta(v: i64, dt: i64) -> (r: i64)
    requires
        -COORD_LIMIT <= v <= COORD_LIMIT,
        0 <= dt <= SCALE,
    ensures
        r as int == step_delta(v as int, dt as int),
        -COORD_LIMIT <= r <= COORD_LIMIT,
{
    proof {
        assert(-(COORD_LIMIT as int * SCALE as int) <= (v as int) * (dt as int)
            <= COORD_LIMIT as int * SCALE as int) by (nonlinear_arith)
            requires
                -COORD_LIMIT <= v <= COORD_LIMIT,
                0 <= dt <= SCALE,
        ;
    }
    let num: i128 = (v as i128) * (dt as i128);
    if num >= 0 {
        let q: u128 = (num as u128) / (SCALE as u128);
        proof {
            assert(q <= COORD_LIMIT) by (nonlinear_arith)
                requires
                    q == (num as int) / (SCALE as int),
                    0 <= num as int <= COORD_LIMIT as int * SCALE as int,
            ;
        }
        q as i64
    } else {
        let p: i128 = -num;
        let q: u128 = (p as u128) / (SCALE as u128);
        proof {
            assert(q <= COORD_LIMIT) by (nonlinear_arith)
                requires
                    q == (p as int) / (SCALE as int),
                    0 <= p as int <= COORD_LIMIT as int * SCALE as int,
            ;
        }
        -(q as i64)
    }
}

/// The per-axis displacement of one step never exceeds the velocity bound
/// when the step size is at most one time unit.
proof fn lemma_step_delta_bound(v: int, dt: int, vb: int)
    requires
        -vb <= v <= vb,
        0 <= vb,
        0 <= dt <= SCALE,
    ensures
        -vb <= step_delta(v, dt) <= vb,
{
    assert(-(vb * (SCALE as int)) <= v * dt <= vb * (SCALE as int)) by (nonlinear_arith)
        requires
            -vb <= v <= vb,
            0 <= dt <= SCALE,
            0 <= vb,
    ;
    if v * dt >= 0 {
        assert(0 <= (v * dt) / (SCALE as int) <= vb) by (nonlinear_arith)
            requires
                0 <= v * dt <= vb * (SCALE as int),
                SCALE == 1_000_000,
        ;
    } else {
        assert(0 <= (-(v * dt)) / (SCALE as int) <= vb) by (nonlinear_arith)
            requires
                0 <= -(v * dt) <= vb * (SCALE as int),
                SCALE == 1_000_000,
        ;
    }
}

/// How far one physics step can move a shape: starting from coordinates
/// within `b` and velocities within `vb`, with a size of at most one unit,
/// the stepped shape stays within `b + vb`, keeps its velocity magnitudes,
/// and leaves kind, color and size untouched.
pub proof fn lemma_step_shape_bounds(s: Shape, dt: int, b: int, vb: int)
    requires
        0 <= dt <= SCALE,
        SCALE <= b,
        0 <= vb,
        b + vb <= COORD_LIMIT,
        -b <= s.position.0 <= b,
        -b <= s.position.1 <= b,
        -vb <= s.velocity.0 <= vb,
        -vb <= s.velocity.1 <= vb,
        0 <= s.size.0 <= SCALE,
    ensures
        step_shape_spec(s, dt).shape_type == s.shape_type,
        step_shape_spec(s, dt).color == s.color,
        step_shape_spec(s, dt).size == s.size,
        -(b + vb) <= step_shape_spec(s, dt).position.0 <= b + vb,
        -(b + vb) <= step_shape_spec(s, dt).position.1 <= b + vb,
        -vb <= step_shape_spec(s, dt).velocity.0 <= vb,
        -vb <= step_shape_spec(s, dt).velocity.1 <= vb,
{
    lemma_step_delta_bound(s.velocity.0 as int, dt, vb);
    lemma_step_delta_bound(s.velocity.1 as int, dt, vb);
}

/// Reflection law of the physics step.  A shape moving right
/// (`velocity = (v, 0)`, `v > 0`) whose translated coordinate crosses the
/// far wall `m = SCALE - size` reflects: the x-velocity is negated and the
/// position is mirrored on the wall, `m - (x + delta - m)`, landing back
/// inside `[0, m]`; the y-axis is untouched.  A second step with the now
/// negative velocity then moves the shape back toward `x = 0` without
/// leaving `[0, m]`, provided that step does not overshoot the near wall
/// in turn (the last precondition).
pub proof fn lemma_step_reflects_right(s: Shape, dt: int)
    requires
        0 <= dt <= SCALE,
        s.velocity.0 > 0,
        s.velocity.0 <= COORD_LIMIT,
        s.velocity.1 == 0,
        0 <= s.size.0 <= SCALE,
        0 <= s.position.0 <= SCALE - s.size.0,
        0 <= s.position.1 <= SCALE - s.size.0,
        step_delta(s.velocity.0 as int, dt) <= SCALE - s.size.0,
        s.position.0 + step_delta(s.velocity.0 as int, dt) > SCALE - s.size.0,
        2 * step_delta(s.velocity.0 as int, dt) <= 2 * (SCALE - s.size.0) - s.position.0,
    ensures
        step_shape_spec(s, dt).velocity.0 == -s.velocity.0,
        step_shape_spec(s, dt).position.0 == (SCALE - s.size.0) - ((s.position.0 + step_delta(
            s.velocity.0 as int,
            dt,
        )) - (SCALE - s.size.0)),
        0 <= step_shape_spec(s, dt).position.0 < SCALE - s.size.0,
        step_shape_spec(s, dt).position.1 == s.position.1,
        step_shape_spec(step_shape_spec(s, dt), dt).position.0 <= step_shape_spec(
            s,
            dt,
        ).position.0,
        0 <= step_shape_spec(step_shape_spec(s, dt), dt).position.0 <= SCALE - s.size.0,
{
    let m = SCALE - s.size.0;
    let v = s.velocity.0 as int;
    let delta = step_delta(v, dt);
    lemma_step_delta_bound(v, dt, COORD_LIMIT as int);
    assert(0 * dt == 0) by (nonlinear_arith);
    assert(div_trunc(0, SCALE as int) == 0) by {
        assert(0int / (SCALE as int) == 0) by (nonlinear_arith)
            requires
                SCALE == 1_000_000,
        ;
    }
    assert(step_delta(0, dt) == 0);
    assert(delta > 0);
    let t = step_shape_spec(s, dt);
    assert(t.position.0 == m - ((s.position.0 + delta) - m));
    assert(t.velocity.0 == -s.velocity.0);
    // the second step: the negated velocity yields the negated displacement
    assert(step_delta(-v, dt) == -delta) by {
        assert((-v) * dt == -(v * dt)) by (nonlinear_arith);
    }
}

impl Shape {
    /// A fresh shape of the given kind with the documented defaults: white
    /// color, position at the origin, zero velocity, full-frame size.
    pub fn new(shape_type: &ShapeType) -> (s: Self)
        ensures
            s.shape_type == *shape_type,
            s.color == (Color(255, 255, 255)),
            s.position == (Position(0, 0)),
            s.velocity == (Velocity(0, 0)),
            s.size == (Size(SCALE)),
    {
        Shape {
            shape_type: *shape_type,
            color: Color::new(0xff, 0xff, 0xff),
            position: Position::new(0, 0),
            velocity: Velocity::new(0, 0),
            size: Size::new(SCALE),
        }
    }

    /// The shape with its position replaced; coordinates outside the unit
    /// square are refused.
    pub fn position(self, x: i64, y: i64) -> (s: Self)
        requires
            0 <= x <= SCALE,
            0 <= y <= SCALE,
        ensures
            s == (Shape { position: Position(x, y), ..self }),
    {
        Shape { position: Position::new(x, y), ..self }
    }

    /// The shape with its velocity replaced.
    pub fn velocity(self, x: i64, y: i64) -> (s: Self)
        ensures
            s == (Shape { velocity: Velocity(x, y), ..self }),
    {
        Shape { velocity: Velocity::new(x, y), ..self }
    }

    /// The shape with its color replaced.
    pub fn color(self, r: u8, g: u8, b: u8) -> (s: Self)
        ensures
            s == (Shape { color: Color(r, g, b), ..self }),
    {
        Shape { color: Color::new(r, g, b), ..self }
    }

    /// The shape with its size replaced; a negative size is refused.
    pub fn size(self, size: i64) -> (s: Self)
        requires
            size >= 0,
        ensures
            s == (Shape { size: Size(size), ..self }),
    {
        Shape { size: Size::new(size), ..self }
    }

    /// Reflect a coordinate that crossed a wall of `[0, SCALE - size]`
    /// back over that wall and negate the velocity of that axis, once per
    /// axis.
    fn handle_collision_square(&mut self)
        requires
            -3 * COORD_LIMIT <= old(self).position.0 <= 3 * COORD_LIMIT,
            -3 * COORD_LIMIT <= old(self).position.1 <= 3 * COORD_LIMIT,
            -COORD_LIMIT <= old(self).velocity.0 <= COORD_LIMIT,
            -COORD_LIMIT <= old(self).velocity.1 <= COORD_LIMIT,
            0 <= old(self).size.0 <= COORD_LIMIT,
        ensures
            *final(self) == collided_shape(*old(self)),
    {
        let m = SCALE - self.size.0;

        if self.position.0 < 0 {
            // hit the left border
            self.position.0 = -self.position.0;
            self.velocity.0 = -self.velocity.0;
        } else if self.position.0 > m {
            // hit the right border
            self.position.0 = m - (self.position.0 - m);
            self.velocity.0 = -self.velocity.0;
        }
        if self.position.1 < 0 {
            // hit the top border
            self.position.1 = -self.position.1;
            self.velocity.1 = -self.velocity.1;
        } else if self.position.1 > m {
            // hit the bottom border
            self.position.1 = m - (self.position.1 - m);
            self.velocity.1 = -self.velocity.1;
        }
    }

    /// Circle collision delegates to the square-bounds logic: both kinds
    /// bounce off the same axis-aligned walls.
    fn handle_collision_circle(&mut self)
        requires
            -3 * COORD_LIMIT <= old(self).position.0 <= 3 * COORD_LIMIT,
            -3 * COORD_LIMIT <= old(self).position.1 <= 3 * COORD_LIMIT,
            -COORD_LIMIT <= old(self).velocity.0 <= COORD_LIMIT,
            -COORD_LIMIT <= old(self).velocity.1 <= COORD_LIMIT,
            0 <= old(self).size.0 <= COORD_LIMIT,
        ensures
            *final(self) == collided_shape(*old(self)),
    {
        self.handle_collision_square()
    }

    /// Advance the shape by one step: translate by velocity times step
    /// size, then apply single-bounce collision handling.
    pub fn step_shape(&mut self, step_size: i64)
        requires
            step_ok(*old(self), step_size as int),
        ensures
            *final(self) == step_shape_spec(*old(self), step_size as int),
    {
        let dx = scaled_delta(self.velocity.0, step_size);
        let dy = scaled_delta(self.velocity.1, step_size);
        self.position.0 = self.position.0 + dx;
        self.position.1 = self.position.1 + dy;

        match self.shape_type {
            ShapeType::Square => self.handle_collision_square(),
            ShapeType::Circle => self.handle_collision_circle(),
        }
    }
}

} // verus!
