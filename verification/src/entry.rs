//! An entry: one ordered scene of shapes, with random generation,
//! rasterization onto a [`Frame`], and the per-step time advance.

use vstd::prelude::*;

use crate::frame::Frame;
use crate::rng::sample_usize;
use crate::shape::{
    channel_of, step_ok, step_shape_spec, Color, NewRandom1, NewRandom2, Position, Shape,
    ShapeType, Size, Velocity,
};
use crate::{div_trunc, RangeOrSingle, ShapeError, COORD_LIMIT, SCALE};

verus! {

/// The pixel index a normalized coordinate `p` falls into at resolution
/// `res`: `p * res / SCALE` rounded toward zero, the rounding of a
/// float-to-integer cast.
pub open spec fn pixel_floor(p: int, res: int) -> int {
    div_trunc(p * res, SCALE as int)
}

/// The pixel rectangle of a square shape lies inside an `res x res`
/// frame.  The rectangle is inclusive on both ends, so its far row and
/// column must stay strictly below `res`; a negative corner or a negative
/// edge is out of bounds as well.
pub open spec fn square_in_bounds(s: Shape, res: int) -> bool {
    let x1 = pixel_floor(s.position.0 as int, res);
    let y1 = pixel_floor(s.position.1 as int, res);
    let e = pixel_floor(s.size.0 as int, res);
    0 <= x1 && 0 <= y1 && 0 <= e && x1 + e < res && y1 + e < res
}

/// A square colors the closed pixel rectangle spanned by its truncated
/// corner and its truncated edge length.
pub open spec fn square_covers(s: Shape, res: int, y: int, x: int) -> bool {
    let x1 = pixel_floor(s.position.0 as int, res);
    let y1 = pixel_floor(s.position.1 as int, res);
    let e = pixel_floor(s.size.0 as int, res);
    y1 <= y <= y1 + e && x1 <= x <= x1 + e
}

/// One axis of a circle's center, snapped to the pixel grid: the center
/// coordinate `p + size/2` is pushed through the grid (`* res`, truncate)
/// and kept as a pixel index, clamping below at zero as a float-to-index
/// cast does.  Working on doubled numerators keeps `size/2` exact.
pub open spec fn circle_center(p: int, size: int, res: int) -> int {
    let n = (2 * p + size) * res;
    if n <= 0 {
        0
    } else {
        n / (2 * (SCALE as int))
    }
}

/// A circle colors exactly the pixels whose normalized coordinates lie at
/// Euclidean distance at most `size / 2` from the snapped center: with
/// `dx`, `dy` the pixel offsets from the center, that is
/// `(dx^2 + dy^2) / res^2 <= (size / (2 * SCALE))^2`, cleared of
/// denominators below.  The boundary (distance exactly the radius) is
/// included.
pub open spec fn circle_covers(s: Shape, res: int, y: int, x: int) -> bool {
    let cx = circle_center(s.position.0 as int, s.size.0 as int, res);
    let cy = circle_center(s.position.1 as int, s.size.0 as int, res);
    let dx = x - cx;
    let dy = y - cy;
    (4 * ((SCALE as int) * (SCALE as int))) * ((dx * dx) + (dy * dy)) <= ((s.size.0 as int)
        * (s.size.0 as int)) * (res * res)
}

/// Whether a shape colors the pixel `(y, x)` at resolution `res`.
pub open spec fn covers(s: Shape, res: int, y: int, x: int) -> bool {
    match s.shape_type {
        ShapeType::Square => square_covers(s, res, y, x),
        ShapeType::Circle => circle_covers(s, res, y, x),
    }
}

/// The value of channel `c` of pixel `(y, x)` after drawing `shapes` in
/// order onto a black background: the last shape covering the pixel wins,
/// and a pixel no shape covers stays `0`.
pub open spec fn pixel_at(shapes: Seq<Shape>, res: int, c: int, y: int, x: int) -> u8
    decreases shapes.len(),
{
    if shapes.len() == 0 {
        0
    } else if covers(shapes.last(), res, y, x) {
        channel_of(shapes.last().color, c)
    } else {
        pixel_at(shapes.drop_last(), res, c, y, x)
    }
}

/// The coordinate bounds under which rendering a shape is free of
/// overflow: coordinates within [`COORD_LIMIT`], a non-negative size, and
/// for a circle a size of at most one normalized unit (a larger circle
/// would not fit the frame anyway).
pub open spec fn render_shape_ok(s: Shape, res: int) -> bool {
    &&& -COORD_LIMIT <= s.position.0 <= COORD_LIMIT
    &&& -COORD_LIMIT <= s.position.1 <= COORD_LIMIT
    &&& 0 <= s.size.0 <= COORD_LIMIT
    &&& (s.shape_type is Circle ==> s.size.0 <= SCALE)
}

/// Whether a shape may be drawn at all at resolution `res`: a square must
/// fit the frame (its rasterization raises a bounds error otherwise),
/// while a circle is scanned over the frame's own pixels and so never
/// leaves it.
pub open spec fn shape_in_frame(s: Shape, res: int) -> bool {
    match s.shape_type {
        ShapeType::Square => square_in_bounds(s, res),
        ShapeType::Circle => true,
    }
}

/// A shape drawn from the given generation configuration: its kind from
/// `types`, its color from `palette`, and size, position and velocity
/// admitted by their respective specifications (position and velocity
/// per axis).
pub open spec fn shape_from_config(
    s: Shape,
    types: Seq<ShapeType>,
    palette: Seq<Color>,
    size_range: RangeOrSingle<i64>,
    position_range: RangeOrSingle<i64>,
    velocity_range: RangeOrSingle<i64>,
) -> bool {
    &&& types.contains(s.shape_type)
    &&& palette.contains(s.color)
    &&& size_range.admits(s.size.0 as int)
    &&& position_range.admits(s.position.0 as int)
    &&& position_range.admits(s.position.1 as int)
    &&& velocity_range.admits(s.velocity.0 as int)
    &&& velocity_range.admits(s.velocity.1 as int)
}

/// Every shape of the scene may be drawn at resolution `res`: no square
/// leaves the frame.
pub open spec fn scene_in_frame(shapes: Seq<Shape>, res: int) -> bool {
    forall|i: int| 0 <= i < shapes.len() ==> shape_in_frame(#[trigger] shapes[i], res)
}

/// The scene after one synchronous physics step of every shape, in order
/// and independently.
pub open spec fn step_entry_seq(shapes: Seq<Shape>, dt: int) -> Seq<Shape> {
    shapes.map_values(|s: Shape| step_shape_spec(s, dt))
}

/// The scene after `i` physics steps of step size `dt`.
pub open spec fn video_state(shapes: Seq<Shape>, dt: int, i: nat) -> Seq<Shape>
    decreases i,
{
    if i == 0 {
        shapes
    } else {
        step_entry_seq(video_state(shapes, dt, (i - 1) as nat), dt)
    }
}

/// `f` is the rasterization of `shapes` at resolution `res`.
pub open spec fn frame_renders(f: Frame, shapes: Seq<Shape>, res: int) -> bool {
    &&& f.wf()
    &&& f.res_spec() == res
    &&& forall|c: int, y: int, x: int|
        f.valid_cell(c, y, x) ==> #[trigger] f.at(c, y, x) == pixel_at(shapes, res, c, y, x)
}

/// `p * res / SCALE` rounded toward zero, computed without overflow.
fn pixel_floor_exec(p: i64, res: u16) -> (r: i64)
    requires
        -COORD_LIMIT <= p <= COORD_LIMIT,
    ensures
        r as int == pixel_floor(p as int, res as int),
        -COORD_LIMIT <= r <= COORD_LIMIT,
{
    proof {
        assert(-(COORD_LIMIT as int * SCALE as int) <= (p as int) * (res as int)
            <= COORD_LIMIT as int * SCALE as int) by (nonlinear_arith)
            requires
                -COORD_LIMIT <= p <= COORD_LIMIT,
                0 <= res <= 65535,
        ;
    }
    let num: i128 = (p as i128) * (res as i128);
    if num >= 0 {
        let q: u128 = (num as u128) / (SCALE as u128);
        proof {
            assert(q <= COORD_LIMIT) by (nonlinear_arith)
                requires
                    q == (num as int) / (SCALE as int),
                    0 <= num as int <= COORD_LIMIT as int * SCALE as int,
            ;
        }
        q as i64
    } else {
        let m: i128 = -num;
        let q: u128 = (m as u128) / (SCALE as u128);
        proof {
            assert(q <= COORD_LIMIT) by (nonlinear_arith)
                requires
                    q == (m as int) / (SCALE as int),
                    0 <= m as int <= COORD_LIMIT as int * SCALE as int,
            ;
        }
        -(q as i64)
    }
}

/// One axis of the snapped circle center, computed without overflow.
fn circle_center_exec(p: i64, size: i64, res: u16) -> (r: i64)
    requires
        -COORD_LIMIT <= p <= COORD_LIMIT,
        0 <= size <= SCALE,
    ensures
        r as int == circle_center(p as int, size as int, res as int),
        0 <= r <= COORD_LIMIT,
{
    proof {
        assert(-(3 * (COORD_LIMIT as int) * 65535) <= (2 * (p as int) + (size as int)) * (res
            as int) <= 3 * (COORD_LIMIT as int) * 65535) by (nonlinear_arith)
            requires
                -COORD_LIMIT <= p <= COORD_LIMIT,
                0 <= size <= SCALE,
                0 <= res <= 65535,
                SCALE <= COORD_LIMIT,
        ;
    }
    let n: i128 = (2 * (p as i128) + (size as i128)) * (res as i128);
    if n <= 0 {
        0
    } else {
        let q: u128 = (n as u128) / ((2 * SCALE) as u128);
        proof {
            assert(q <= COORD_LIMIT) by (nonlinear_arith)
                requires
                    q == (n as int) / (2 * (SCALE as int)),
                    0 < n as int <= 3 * (COORD_LIMIT as int) * 65535,
            ;
        }
        q as i64
    }
}

/// A pixel farther than one frame width from the circle center on either
/// axis lies outside any circle of size at most one unit.
proof fn lemma_far_pixel_missed(dx: int, dy: int, size: int, res: int) by (nonlinear_arith)
    requires
        0 <= size <= SCALE,
        0 <= res,
        dx > res || dx < -res || dy > res || dy < -res,
    ensures
        (4 * ((SCALE as int) * (SCALE as int))) * ((dx * dx) + (dy * dy)) > (size * size) * (res
            * res),
{
}

/// Rasterization law for a square at the origin.  A scene holding one
/// square with position `(0, 0)` and size `s` colors exactly the closed
/// pixel rectangle `[0, floor(s * res / SCALE)]` on both axes with the
/// square's color, on all three channels; every other pixel keeps the
/// black background.
pub proof fn lemma_square_at_origin(s: Shape, res: int, c: int, y: int, x: int)
    requires
        s.shape_type is Square,
        s.position.0 == 0,
        s.position.1 == 0,
        0 <= s.size.0,
        0 <= c < 3,
        0 <= y,
        0 <= x,
    ensures
        pixel_at(seq![s], res, c, y, x) == (if y <= pixel_floor(s.size.0 as int, res) && x
            <= pixel_floor(s.size.0 as int, res) {
            channel_of(s.color, c)
        } else {
            0u8
        }),
{
    let shapes = seq![s];
    assert(shapes.len() == 1);
    assert(shapes.last() == s);
    assert(shapes.drop_last() =~= Seq::<Shape>::empty());
    assert(pixel_at(Seq::<Shape>::empty(), res, c, y, x) == 0);
    assert(0 * res == 0) by (nonlinear_arith);
    assert(0int / (SCALE as int) == 0) by (nonlinear_arith)
        requires
            SCALE == 1_000_000,
    ;
    assert(pixel_floor(0, res) == 0);
}

/// Rasterization law for a single circle.  A scene holding one circle
/// colors exactly the pixels within its inclusive distance test — those
/// whose normalized coordinates lie at Euclidean distance at most
/// `size / 2` from the snapped center — with the circle's color on all
/// three channels; every other pixel keeps the black background.
pub proof fn lemma_single_circle(s: Shape, res: int, c: int, y: int, x: int)
    requires
        s.shape_type is Circle,
        0 <= c < 3,
    ensures
        pixel_at(seq![s], res, c, y, x) == (if circle_covers(s, res, y, x) {
            channel_of(s.color, c)
        } else {
            0u8
        }),
{
    let shapes = seq![s];
    assert(shapes.len() == 1);
    assert(shapes.last() == s);
    assert(shapes.drop_last() =~= Seq::<Shape>::empty());
    assert(pixel_at(Seq::<Shape>::empty(), res, c, y, x) == 0);
}

/// The pixel at the circle's own snapped center is always within the
/// distance test (its distance is zero), so a circle of any non-negative
/// size colors its center pixel.
pub proof fn lemma_circle_center_covered(s: Shape, res: int)
    requires
        0 <= s.size.0,
    ensures
        circle_covers(
            s,
            res,
            circle_center(s.position.1 as int, s.size.0 as int, res),
            circle_center(s.position.0 as int, s.size.0 as int, res),
        ),
{
    let sz = s.size.0 as int;
    assert((4 * ((SCALE as int) * (SCALE as int))) * ((0 * 0) + (0 * 0)) <= (sz * sz) * (res
        * res)) by (nonlinear_arith)
        requires
            0 <= sz,
    ;
}

/// Identity law of the time advance: stepping a scene any number of times
/// never changes which shapes it holds — their count, kinds, colors and
/// sizes all stay fixed; only positions and velocities evolve.
pub proof fn lemma_video_shape_identity(shapes: Seq<Shape>, dt: int, i: nat)
    ensures
        video_state(shapes, dt, i).len() == shapes.len(),
        forall|k: int|
            0 <= k < shapes.len() ==> (#[trigger] video_state(shapes, dt, i)[k]).color
                == shapes[k].color && video_state(shapes, dt, i)[k].shape_type
                == shapes[k].shape_type && video_state(shapes, dt, i)[k].size == shapes[k].size,
    decreases i,
{
    if i > 0 {
        lemma_video_shape_identity(shapes, dt, (i - 1) as nat);
    }
}

/// An entry: an ordered scene of shapes.  The order is the render order —
/// at overlapping pixels a later shape draws over an earlier one.
#[derive(Debug)]
pub struct Entry {
    shapes: Vec<Shape>,
}

impl Entry {
    /// The scene as a sequence of shapes, in render order.
    pub closed spec fn shapes_spec(self) -> Seq<Shape> {
        self.shapes@
    }

    /// The shapes of the scene, in render order.
    pub fn shapes(&self) -> (r: &Vec<Shape>)
        ensures
            r@ == self.shapes_spec(),
    {
        &self.shapes
    }

    fn new_empty_with_capacity(capacity: usize) -> (e: Entry)
        ensures
            e.shapes_spec() == Seq::<Shape>::empty(),
    {
        Entry { shapes: Vec::with_capacity(capacity) }
    }

    /// Generate an entry of exactly `num_shapes` random shapes: each
    /// shape's kind and color are drawn uniformly from the given lists,
    /// and its size, position and velocity resolve their range-or-single
    /// specifications (position and velocity independently per axis).
    /// An empty kind list or an empty palette is a fatal configuration
    /// error.
    pub fn new_from_random(
        num_shapes: usize,
        shape_types: &Vec<ShapeType>,
        color_palette: &Vec<Color>,
        size_range: &RangeOrSingle<i64>,
        position_range: &RangeOrSingle<i64>,
        velocity_range: &RangeOrSingle<i64>,
    ) -> (r: Result<Entry, ShapeError>)
        requires
            size_range.valid(),
            size_range.within(0, i64::MAX as int),
            position_range.valid(),
            position_range.within(0, SCALE as int),
            velocity_range.valid(),
        ensures
            shape_types@.len() == 0 ==> r == Err::<Entry, ShapeError>(ShapeError::NoShapeTypes),
            shape_types@.len() > 0 && color_palette@.len() == 0 ==> r == Err::<Entry, ShapeError>(
                ShapeError::NoColors,
            ),
            shape_types@.len() > 0 && color_palette@.len() > 0 ==> r is Ok,
            r matches Ok(e) ==> e.shapes_spec().len() == num_shapes && forall|i: int|
                0 <= i < num_shapes ==> shape_from_config(
                    #[trigger] e.shapes_spec()[i],
                    shape_types@,
                    color_palette@,
                    *size_range,
                    *position_range,
                    *velocity_range,
                ),
    {
        if shape_types.len() == 0 {
            return Err(ShapeError::NoShapeTypes);
        }
        if color_palette.len() == 0 {
            return Err(ShapeError::NoColors);
        }
        let mut entry = Self::new_empty_with_capacity(num_shapes);
        for i in 0..num_shapes
            invariant
                shape_types@.len() > 0,
                color_palette@.len() > 0,
                size_range.valid(),
                size_range.within(0, i64::MAX as int),
                position_range.valid(),
                position_range.within(0, SCALE as int),
                velocity_range.valid(),
                entry.shapes_spec().len() == i,
                forall|k: int|
                    0 <= k < i ==> shape_from_config(
                        #[trigger] entry.shapes_spec()[k],
                        shape_types@,
                        color_palette@,
                        *size_range,
                        *position_range,
                        *velocity_range,
                    ),
        {
            let type_idx = sample_usize(0, shape_types.len() - 1);
            let mut shape = Shape::new(&shape_types[type_idx]);
            shape.color = Color::new_random_from_palette(color_palette);
            shape.size = Size::new_from_range_or_single(size_range);
            shape.position = Position::new_from_range_or_single(position_range);
            shape.velocity = Velocity::new_from_range_or_single(velocity_range);
            proof {
                assert(shape_types@.contains(shape.shape_type)) by {
                    assert(shape_types@[type_idx as int] == shape.shape_type);
                }
            }
            entry.shapes.push(shape);
        }
        Ok(entry)
    }

    /// Rasterize the scene at the given resolution onto a black
    /// `[3, resolution, resolution]` buffer, drawing the shapes in order.
    /// A square whose pixel rectangle leaves the frame is a fatal bounds
    /// error; a circle partly or wholly outside the frame simply colors no
    /// pixel there.
    pub fn render_entry(&self, size: u16) -> (r: Result<Frame, ShapeError>)
        requires
            3 * ((size as int) * (size as int)) <= usize::MAX as int,
            forall|i: int|
                0 <= i < self.shapes_spec().len() ==> render_shape_ok(
                    #[trigger] self.shapes_spec()[i],
                    size as int,
                ),
        ensures
            r is Ok <==> scene_in_frame(self.shapes_spec(), size as int),
            r is Err ==> r == Err::<Frame, ShapeError>(ShapeError::OutOfBounds),
            r matches Ok(f) ==> f.wf() && f.res_spec() == size as int && forall|
                c: int,
                y: int,
                x: int,
            |
                f.valid_cell(c, y, x) ==> #[trigger] f.at(c, y, x) == pixel_at(
                    self.shapes_spec(),
                    size as int,
                    c,
                    y,
                    x,
                ),
    {
        let n = self.shapes.len();
        let res_i: i64 = size as i64;
        for i in 0..n
            invariant
                n == self.shapes_spec().len(),
                res_i == size as int,
                forall|k: int|
                    0 <= k < n ==> render_shape_ok(#[trigger] self.shapes_spec()[k], size as int),
                forall|k: int|
                    0 <= k < i ==> shape_in_frame(#[trigger] self.shapes_spec()[k], size as int),
        {
            let s = &self.shapes[i];
            match s.shape_type {
                ShapeType::Square => {
                    let x1 = pixel_floor_exec(s.position.0, size);
                    let y1 = pixel_floor_exec(s.position.1, size);
                    let e = pixel_floor_exec(s.size.0, size);
                    if !(x1 >= 0 && y1 >= 0 && e >= 0 && x1 + e < res_i && y1 + e < res_i) {
                        return Err(ShapeError::OutOfBounds);
                    }
                },
                ShapeType::Circle => {},
            }
        }
        let mut frame = Frame::new(size);
        for i in 0..n
            invariant
                n == self.shapes_spec().len(),
                forall|k: int|
                    0 <= k < n ==> render_shape_ok(#[trigger] self.shapes_spec()[k], size as int),
                forall|k: int|
                    0 <= k < n ==> shape_in_frame(#[trigger] self.shapes_spec()[k], size as int),
                3 * ((size as int) * (size as int)) <= usize::MAX as int,
                frame.wf(),
                frame.res_spec() == size as int,
                forall|c: int, y: int, x: int|
                    frame.valid_cell(c, y, x) ==> #[trigger] frame.at(c, y, x) == pixel_at(
                        self.shapes_spec().take(i as int),
                        size as int,
                        c,
                        y,
                        x,
                    ),
        {
            let s = &self.shapes[i];
            match s.shape_type {
                ShapeType::Square => render_square(&mut frame, s, size),
                ShapeType::Circle => render_circle(&mut frame, s, size),
            }
            proof {
                let shapes = self.shapes_spec();
                assert(shapes.take(i + 1).drop_last() =~= shapes.take(i as int));
                assert(shapes.take(i + 1).last() == shapes[i as int]);
            }
        }
        proof {
            assert(self.shapes_spec().take(n as int) =~= self.shapes_spec());
        }
        Ok(frame)
    }

    /// Advance every shape of the scene by one physics step, in order and
    /// independently.
    pub fn step_entry(&mut self, step_size: i64)
        requires
            forall|i: int|
                0 <= i < old(self).shapes_spec().len() ==> step_ok(
                    #[trigger] old(self).shapes_spec()[i],
                    step_size as int,
                ),
        ensures
            final(self).shapes_spec().len() == old(self).shapes_spec().len(),
            forall|i: int|
                0 <= i < old(self).shapes_spec().len() ==> #[trigger] final(self).shapes_spec()[i]
                    == step_shape_spec(old(self).shapes_spec()[i], step_size as int),
    {
        let n = self.shapes.len();
        for i in 0..n
            invariant
                n == old(self).shapes_spec().len(),
                self.shapes_spec().len() == n,
                forall|k: int|
                    0 <= k < n ==> step_ok(#[trigger] old(self).shapes_spec()[k], step_size as int),
                forall|k: int|
                    i <= k < n ==> #[trigger] self.shapes_spec()[k] == old(self).shapes_spec()[k],
                forall|k: int|
                    0 <= k < i ==> #[trigger] self.shapes_spec()[k] == step_shape_spec(
                        old(self).shapes_spec()[k],
                        step_size as int,
                    ),
        {
            let mut s = self.shapes[i];
            s.step_shape(step_size);
            self.shapes.set(i, s);
        }
    }
}

/// Fill the square's inclusive pixel rectangle with its color on all
/// three channels, leaving every other cell unchanged.
fn render_square(frame: &mut Frame, s: &Shape, size: u16)
    requires
        old(frame).wf(),
        old(frame).res_spec() == size as int,
        -COORD_LIMIT <= s.position.0 <= COORD_LIMIT,
        -COORD_LIMIT <= s.position.1 <= COORD_LIMIT,
        0 <= s.size.0 <= COORD_LIMIT,
        square_in_bounds(*s, size as int),
    ensures
        final(frame).wf(),
        final(frame).res_spec() == old(frame).res_spec(),
        forall|c: int, y: int, x: int|
            old(frame).valid_cell(c, y, x) ==> #[trigger] final(frame).at(c, y, x) == (
            if square_covers(*s, size as int, y, x) {
                channel_of(s.color, c)
            } else {
                old(frame).at(c, y, x)
            }),
{
    let ghost orig = *old(frame);
    let x1 = pixel_floor_exec(s.position.0, size);
    let y1 = pixel_floor_exec(s.position.1, size);
    let e = pixel_floor_exec(s.size.0, size);
    let ghost gx1 = x1 as int;
    let ghost gy1 = y1 as int;
    let ghost ge = e as int;
    let x1u = x1 as usize;
    let y1u = y1 as usize;
    let eu = e as usize;
    let col = s.color;
    for y in y1u..(y1u + eu + 1)
        invariant
            frame.wf(),
            frame.res_spec() == size as int,
            gx1 == pixel_floor(s.position.0 as int, size as int),
            gy1 == pixel_floor(s.position.1 as int, size as int),
            ge == pixel_floor(s.size.0 as int, size as int),
            x1u == gx1 && y1u == gy1 && eu == ge,
            0 <= gx1 && 0 <= gy1 && 0 <= ge,
            gx1 + ge < size as int && gy1 + ge < size as int,
            forall|c2: int, y2: int, x2: int|
                orig.valid_cell(c2, y2, x2) ==> #[trigger] frame.at(c2, y2, x2) == (
                if gy1 <= y2 < y && gx1 <= x2 <= gx1 + ge {
                    channel_of(col, c2)
                } else {
                    orig.at(c2, y2, x2)
                }),
            orig.res_spec() == size as int,
            col == s.color,
    {
        for x in x1u..(x1u + eu + 1)
            invariant
                frame.wf(),
                frame.res_spec() == size as int,
                x1u == gx1 && y1u == gy1 && eu == ge,
                0 <= gx1 && 0 <= gy1 && 0 <= ge,
                gx1 + ge < size as int && gy1 + ge < size as int,
                gy1 <= y <= gy1 + ge,
                forall|c2: int, y2: int, x2: int|
                    orig.valid_cell(c2, y2, x2) ==> #[trigger] frame.at(c2, y2, x2) == (
                    if (gy1 <= y2 < y && gx1 <= x2 <= gx1 + ge) || (y2 == y && gx1 <= x2 < x) {
                        channel_of(col, c2)
                    } else {
                        orig.at(c2, y2, x2)
                    }),
                orig.res_spec() == size as int,
        {
            let v0 = col.channel(0);
            let v1 = col.channel(1);
            let v2 = col.channel(2);
            frame.set(0, y, x, v0);
            frame.set(1, y, x, v1);
            frame.set(2, y, x, v2);
        }
    }
    proof {
        assert forall|c: int, y: int, x: int| orig.valid_cell(c, y, x) implies #[trigger] frame.at(
            c,
            y,
            x,
        ) == (if square_covers(*s, size as int, y, x) {
            channel_of(s.color, c)
        } else {
            orig.at(c, y, x)
        }) by {}
    }
}

/// Scan every pixel of the frame and color, on all three channels, those
/// within the circle's inclusive distance test, leaving every other cell
/// unchanged.
fn render_circle(frame: &mut Frame, s: &Shape, size: u16)
    requires
        old(frame).wf(),
        old(frame).res_spec() == size as int,
        -COORD_LIMIT <= s.position.0 <= COORD_LIMIT,
        -COORD_LIMIT <= s.position.1 <= COORD_LIMIT,
        0 <= s.size.0 <= SCALE,
    ensures
        final(frame).wf(),
        final(frame).res_spec() == old(frame).res_spec(),
        forall|c: int, y: int, x: int|
            old(frame).valid_cell(c, y, x) ==> #[trigger] final(frame).at(c, y, x) == (
            if circle_covers(*s, size as int, y, x) {
                channel_of(s.color, c)
            } else {
                old(frame).at(c, y, x)
            }),
{
    let ghost orig = *old(frame);
    let cx = circle_center_exec(s.position.0, s.size.0, size);
    let cy = circle_center_exec(s.position.1, s.size.0, size);
    let res = size as usize;
    let col = s.color;
    for y in 0..res
        invariant
            frame.wf(),
            frame.res_spec() == size as int,
            res == size as int,
            cx as int == circle_center(s.position.0 as int, s.size.0 as int, size as int),
            cy as int == circle_center(s.position.1 as int, s.size.0 as int, size as int),
            0 <= cx <= COORD_LIMIT && 0 <= cy <= COORD_LIMIT,
            0 <= s.size.0 <= SCALE,
            col == s.color,
            orig.res_spec() == size as int,
            forall|c2: int, y2: int, x2: int|
                orig.valid_cell(c2, y2, x2) ==> #[trigger] frame.at(c2, y2, x2) == (
                if y2 < y && circle_covers(*s, size as int, y2, x2) {
                    channel_of(col, c2)
                } else {
                    orig.at(c2, y2, x2)
                }),
    {
        for x in 0..res
            invariant
                frame.wf(),
                frame.res_spec() == size as int,
                res == size as int,
                y < res,
                cx as int == circle_center(s.position.0 as int, s.size.0 as int, size as int),
                cy as int == circle_center(s.position.1 as int, s.size.0 as int, size as int),
                0 <= cx <= COORD_LIMIT && 0 <= cy <= COORD_LIMIT,
                0 <= s.size.0 <= SCALE,
                col == s.color,
                orig.res_spec() == size as int,
                forall|c2: int, y2: int, x2: int|
                    orig.valid_cell(c2, y2, x2) ==> #[trigger] frame.at(c2, y2, x2) == (
                    if (y2 < y || (y2 == y && x2 < x)) && circle_covers(*s, size as int, y2, x2) {
                        channel_of(col, c2)
                    } else {
                        orig.at(c2, y2, x2)
                    }),
        {
            let hit = circle_hit(cx, cy, s.size.0, size, y, x);
            proof {
                assert(hit == circle_covers(*s, size as int, y as int, x as int));
            }
            if hit {
                let v0 = col.channel(0);
                let v1 = col.channel(1);
                let v2 = col.channel(2);
                frame.set(0, y, x, v0);
                frame.set(1, y, x, v1);
                frame.set(2, y, x, v2);
            }
        }
    }
}

/// The inclusive distance test of the circle scan for one pixel, cleared
/// of denominators and computed without overflow.
fn circle_hit(cx: i64, cy: i64, sz: i64, size: u16, y: usize, x: usize) -> (hit: bool)
    requires
        0 <= cx <= COORD_LIMIT,
        0 <= cy <= COORD_LIMIT,
        0 <= sz <= SCALE,
        y < size as int,
        x < size as int,
    ensures
        hit == ({
            let dx = x - cx;
            let dy = y - cy;
            (4 * ((SCALE as int) * (SCALE as int))) * ((dx * dx) + (dy * dy)) <= ((sz as int) * (
            sz as int)) * ((size as int) * (size as int))
        }),
{
    let dx: i128 = (x as i128) - (cx as i128);
    let dy: i128 = (y as i128) - (cy as i128);
    let res_w: i128 = size as i128;
    if dx > res_w || dx < -res_w || dy > res_w || dy < -res_w {
        proof {
            lemma_far_pixel_missed(dx as int, dy as int, sz as int, size as int);
        }
        false
    } else {
        proof {
            assert(0 <= (dx as int) * (dx as int) <= 65535 * 65535 && 0 <= (dy as int) * (dy
                as int) <= 65535 * 65535) by (nonlinear_arith)
                requires
                    -65535 <= dx as int <= 65535,
                    -65535 <= dy as int <= 65535,
            ;
            assert((sz as int) * (sz as int) <= (SCALE as int) * (SCALE as int)
                && 0 <= (sz as int) * (sz as int)) by (nonlinear_arith)
                requires
                    0 <= sz <= SCALE,
            ;
            assert(0 <= (size as int) * (size as int) <= 65535 * 65535) by (nonlinear_arith)
                requires
                    0 <= size <= 65535,
            ;
            assert(0 <= ((sz as int) * (sz as int)) * ((size as int) * (size as int))
                <= 0x10_0000_0000_0000_0000_0000) by (nonlinear_arith)
                requires
                    0 <= (sz as int) * (sz as int) <= (SCALE as int) * (SCALE as int),
                    0 <= (size as int) * (size as int) <= 65535 * 65535,
                    SCALE == 1_000_000,
            ;
            assert(0 <= (4 * ((SCALE as int) * (SCALE as int))) * (((dx as int) * (dx as int)) + (
            (dy as int) * (dy as int))) <= 0x40_0000_0000_0000_0000_0000) by (nonlinear_arith)
                requires
                    0 <= (dx as int) * (dx as int) <= 65535 * 65535,
                    0 <= (dy as int) * (dy as int) <= 65535 * 65535,
                    SCALE == 1_000_000,
            ;
        }
        let dx2: i128 = dx * dx;
        let dy2: i128 = dy * dy;
        let scale2: i128 = (SCALE as i128) * (SCALE as i128);
        let lhs: i128 = (4 * scale2) * (dx2 + dy2);
        let rhs: i128 = ((sz as i128) * (sz as i128)) * (res_w * res_w);
        lhs <= rhs
    }
}

} // verus!

