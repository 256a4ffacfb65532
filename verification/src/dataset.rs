//! The dataset configuration: an immutable recipe (shape kinds, color
//! palette, size/position/velocity/count specifications) that manufactures
//! random entries, single frames and videos.

use vstd::prelude::*;

use crate::entry::{
    frame_renders, render_shape_ok, scene_in_frame, shape_from_config, video_state, Entry,
};
use crate::frame::Frame;
use crate::rng::sample_usize;
use crate::shape::{lemma_step_shape_bounds, step_ok, Color, Shape, ShapeType};
use crate::{RangeOrSingle, ShapeError, COORD_LIMIT, FRAME_LIMIT, SCALE, VEL_LIMIT};

verus! {

/// The default velocity specification spans `[-1/2, 1/2]` normalized
/// units per step.
pub const DEFAULT_VELOCITY_BOUND: i64 = 500_000;

/// An immutable generation configuration.  Built by chaining the setter
/// operations, each of which returns the updated configuration; once
/// built it only manufactures entries and never changes.
#[derive(Debug)]
pub struct Dataset {
    shape_types: Vec<ShapeType>,
    color_palette: Vec<Color>,
    size_range: RangeOrSingle<i64>,
    position_range: RangeOrSingle<i64>,
    velocity_range: RangeOrSingle<i64>,
    num_shapes_range: RangeOrSingle<usize>,
}

impl Dataset {
    /// The shape kinds a generated shape is drawn from.
    pub closed spec fn spec_shape_types(self) -> Seq<ShapeType> {
        self.shape_types@
    }

    /// The colors a generated shape is drawn from.
    pub closed spec fn spec_color_palette(self) -> Seq<Color> {
        self.color_palette@
    }

    /// The size specification of generated shapes.
    pub closed spec fn spec_size_range(self) -> RangeOrSingle<i64> {
        self.size_range
    }

    /// The per-axis position specification of generated shapes.
    pub closed spec fn spec_position_range(self) -> RangeOrSingle<i64> {
        self.position_range
    }

    /// The per-axis velocity specification of generated shapes.
    pub closed spec fn spec_velocity_range(self) -> RangeOrSingle<i64> {
        self.velocity_range
    }

    /// The shape-count specification of generated entries.
    pub closed spec fn spec_num_shapes_range(self) -> RangeOrSingle<usize> {
        self.num_shapes_range
    }

    /// The configuration can be sampled: ranges are ordered, sizes are
    /// non-negative, and positions lie in the unit square (an out-of-range
    /// fixed position is refused at construction, never clamped).
    pub open spec fn config_wf(self) -> bool {
        &&& self.spec_size_range().valid()
        &&& self.spec_size_range().within(0, i64::MAX as int)
        &&& self.spec_position_range().valid()
        &&& self.spec_position_range().within(0, SCALE as int)
        &&& self.spec_velocity_range().valid()
        &&& self.spec_num_shapes_range().valid()
    }

    /// The configuration can also be rendered without overflow: sizes stay
    /// within [`COORD_LIMIT`], and when circles can be generated, within
    /// one normalized unit.
    pub open spec fn render_config_ok(self) -> bool {
        &&& self.config_wf()
        &&& self.spec_size_range().within(0, COORD_LIMIT as int)
        &&& (self.spec_shape_types().contains(ShapeType::Circle)
            ==> self.spec_size_range().within(0, SCALE as int))
    }

    /// `shapes` is a scene this configuration can generate.
    pub open spec fn generated_from(self, shapes: Seq<Shape>) -> bool {
        &&& self.spec_num_shapes_range().admits(shapes.len() as int)
        &&& forall|i: int|
            0 <= i < shapes.len() ==> shape_from_config(
                #[trigger] shapes[i],
                self.spec_shape_types(),
                self.spec_color_palette(),
                self.spec_size_range(),
                self.spec_position_range(),
                self.spec_velocity_range(),
            )
    }

    /// The default configuration: no shape kinds, no colors, full-frame
    /// fixed size, positions anywhere in the unit square, velocities in
    /// `[-1/2, 1/2]` units per step, and three shapes per entry.
    pub fn new() -> (d: Self)
        ensures
            d.spec_shape_types() == Seq::<ShapeType>::empty(),
            d.spec_color_palette() == Seq::<Color>::empty(),
            d.spec_size_range() == RangeOrSingle::<i64>::Single(SCALE),
            d.spec_position_range() == RangeOrSingle::<i64>::Range(0, SCALE),
            d.spec_velocity_range() == RangeOrSingle::<i64>::Range(
                (-DEFAULT_VELOCITY_BOUND) as i64,
                DEFAULT_VELOCITY_BOUND,
            ),
            d.spec_num_shapes_range() == RangeOrSingle::<usize>::Single(3),
            d.config_wf(),
    {
        Dataset {
            shape_types: Vec::new(),
            color_palette: Vec::new(),
            size_range: RangeOrSingle::Single(SCALE),
            position_range: RangeOrSingle::Range(0, SCALE),
            velocity_range: RangeOrSingle::Range(
                -DEFAULT_VELOCITY_BOUND,
                DEFAULT_VELOCITY_BOUND,
            ),
            num_shapes_range: RangeOrSingle::Single(3),
        }
    }

    /// Replace the list of shape kinds to draw from.
    pub fn shape_types(self, shape_types: Vec<ShapeType>) -> (d: Self)
        ensures
            d.spec_shape_types() == shape_types@,
            d.spec_color_palette() == self.spec_color_palette(),
            d.spec_size_range() == self.spec_size_range(),
            d.spec_position_range() == self.spec_position_range(),
            d.spec_velocity_range() == self.spec_velocity_range(),
            d.spec_num_shapes_range() == self.spec_num_shapes_range(),
    {
        Dataset { shape_types, ..self }
    }

    /// Append one color to the palette.
    pub fn add_color(self, r: u8, g: u8, b: u8) -> (d: Self)
        ensures
            d.spec_color_palette() == self.spec_color_palette().push(Color(r, g, b)),
            d.spec_shape_types() == self.spec_shape_types(),
            d.spec_size_range() == self.spec_size_range(),
            d.spec_position_range() == self.spec_position_range(),
            d.spec_velocity_range() == self.spec_velocity_range(),
            d.spec_num_shapes_range() == self.spec_num_shapes_range(),
    {
        let mut d = self;
        d.color_palette.push(Color::new(r, g, b));
        d
    }

    /// Sizes are drawn uniformly from `[size_lower, size_upper]`.
    pub fn size_range(self, size_lower: i64, size_upper: i64) -> (d: Self)
        ensures
            d.spec_size_range() == RangeOrSingle::<i64>::Range(size_lower, size_upper),
            d.spec_shape_types() == self.spec_shape_types(),
            d.spec_color_palette() == self.spec_color_palette(),
            d.spec_position_range() == self.spec_position_range(),
            d.spec_velocity_range() == self.spec_velocity_range(),
            d.spec_num_shapes_range() == self.spec_num_shapes_range(),
    {
        Dataset { size_range: RangeOrSingle::Range(size_lower, size_upper), ..self }
    }

    /// Every shape gets the one fixed size.
    pub fn size(self, size: i64) -> (d: Self)
        ensures
            d.spec_size_range() == RangeOrSingle::<i64>::Single(size),
            d.spec_shape_types() == self.spec_shape_types(),
            d.spec_color_palette() == self.spec_color_palette(),
            d.spec_position_range() == self.spec_position_range(),
            d.spec_velocity_range() == self.spec_velocity_range(),
            d.spec_num_shapes_range() == self.spec_num_shapes_range(),
    {
        Dataset { size_range: RangeOrSingle::Single(size), ..self }
    }

    /// Position coordinates are drawn uniformly from
    /// `[position_lower, position_upper]`, independently per axis.
    pub fn position_range(self, position_lower: i64, position_upper: i64) -> (d: Self)
        ensures
            d.spec_position_range() == RangeOrSingle::<i64>::Range(
                position_lower,
                position_upper,
            ),
            d.spec_shape_types() == self.spec_shape_types(),
            d.spec_color_palette() == self.spec_color_palette(),
            d.spec_size_range() == self.spec_size_range(),
            d.spec_velocity_range() == self.spec_velocity_range(),
            d.spec_num_shapes_range() == self.spec_num_shapes_range(),
    {
        Dataset { position_range: RangeOrSingle::Range(position_lower, position_upper), ..self }
    }

    /// Every shape gets the one fixed position on both axes.
    pub fn position(self, position: i64) -> (d: Self)
        ensures
            d.spec_position_range() == RangeOrSingle::<i64>::Single(position),
            d.spec_shape_types() == self.spec_shape_types(),
            d.spec_color_palette() == self.spec_color_palette(),
            d.spec_size_range() == self.spec_size_range(),
            d.spec_velocity_range() == self.spec_velocity_range(),
            d.spec_num_shapes_range() == self.spec_num_shapes_range(),
    {
        Dataset { position_range: RangeOrSingle::Single(position), ..self }
    }

    /// Velocity coordinates are drawn uniformly from
    /// `[velocity_lower, velocity_upper]`, independently per axis.
    pub fn velocity_range(self, velocity_lower: i64, velocity_upper: i64) -> (d: Self)
        ensures
            d.spec_velocity_range() == RangeOrSingle::<i64>::Range(
                velocity_lower,
                velocity_upper,
            ),
            d.spec_shape_types() == self.spec_shape_types(),
            d.spec_color_palette() == self.spec_color_palette(),
            d.spec_size_range() == self.spec_size_range(),
            d.spec_position_range() == self.spec_position_range(),
            d.spec_num_shapes_range() == self.spec_num_shapes_range(),
    {
        Dataset { velocity_range: RangeOrSingle::Range(velocity_lower, velocity_upper), ..self }
    }

    /// Every shape gets the one fixed velocity on both axes.
    pub fn velocity(self, velocity: i64) -> (d: Self)
        ensures
            d.spec_velocity_range() == RangeOrSingle::<i64>::Single(velocity),
            d.spec_shape_types() == self.spec_shape_types(),
            d.spec_color_palette() == self.spec_color_palette(),
            d.spec_size_range() == self.spec_size_range(),
            d.spec_position_range() == self.spec_position_range(),
            d.spec_num_shapes_range() == self.spec_num_shapes_range(),
    {
        Dataset { velocity_range: RangeOrSingle::Single(velocity), ..self }
    }

    /// Shape counts are drawn uniformly from
    /// `[num_shapes_lower, num_shapes_upper]`.
    pub fn num_shapes_range(self, num_shapes_lower: usize, num_shapes_upper: usize) -> (d: Self)
        ensures
            d.spec_num_shapes_range() == RangeOrSingle::<usize>::Range(
                num_shapes_lower,
                num_shapes_upper,
            ),
            d.spec_shape_types() == self.spec_shape_types(),
            d.spec_color_palette() == self.spec_color_palette(),
            d.spec_size_range() == self.spec_size_range(),
            d.spec_position_range() == self.spec_position_range(),
            d.spec_velocity_range() == self.spec_velocity_range(),
    {
        Dataset {
            num_shapes_range: RangeOrSingle::Range(num_shapes_lower, num_shapes_upper),
            ..self
        }
    }

    /// Every entry gets the one fixed shape count.
    pub fn num_shapes(self, num_shapes: usize) -> (d: Self)
        ensures
            d.spec_num_shapes_range() == RangeOrSingle::<usize>::Single(num_shapes),
            d.spec_shape_types() == self.spec_shape_types(),
            d.spec_color_palette() == self.spec_color_palette(),
            d.spec_size_range() == self.spec_size_range(),
            d.spec_position_range() == self.spec_position_range(),
            d.spec_velocity_range() == self.spec_velocity_range(),
    {
        Dataset { num_shapes_range: RangeOrSingle::Single(num_shapes), ..self }
    }

    /// Resolve the shape count, then generate that many random shapes.
    /// An empty kind list or an empty palette is a fatal configuration
    /// error, surfaced to the caller.
    pub fn generate_random_entry(&self) -> (r: Result<Entry, ShapeError>)
        requires
            self.config_wf(),
        ensures
            self.spec_shape_types().len() == 0 ==> r == Err::<Entry, ShapeError>(
                ShapeError::NoShapeTypes,
            ),
            self.spec_shape_types().len() > 0 && self.spec_color_palette().len() == 0 ==> r
                == Err::<Entry, ShapeError>(ShapeError::NoColors),
            self.spec_shape_types().len() > 0 && self.spec_color_palette().len() > 0 ==> r is Ok,
            r matches Ok(e) ==> self.generated_from(e.shapes_spec()),
    {
        let num_shapes: usize = match self.num_shapes_range {
            RangeOrSingle::Range(l, u) => sample_usize(l, u),
            RangeOrSingle::Single(v) => v,
        };
        Entry::new_from_random(
            num_shapes,
            &self.shape_types,
            &self.color_palette,
            &self.size_range,
            &self.position_range,
            &self.velocity_range,
        )
    }

    /// Generate one random entry and rasterize it.
    pub fn get_random_image_array(&self, size: u16) -> (r: Result<Frame, ShapeError>)
        requires
            self.render_config_ok(),
            3 * ((size as int) * (size as int)) <= usize::MAX as int,
        ensures
            self.spec_shape_types().len() == 0 ==> r == Err::<Frame, ShapeError>(
                ShapeError::NoShapeTypes,
            ),
            self.spec_shape_types().len() > 0 && self.spec_color_palette().len() == 0 ==> r
                == Err::<Frame, ShapeError>(ShapeError::NoColors),
            self.spec_shape_types().len() > 0 && self.spec_color_palette().len() > 0 ==> r is Ok
                || r == Err::<Frame, ShapeError>(ShapeError::OutOfBounds),
            r matches Ok(f) ==> exists|shapes: Seq<Shape>|
                self.generated_from(shapes) && frame_renders(f, shapes, size as int),
            r == Err::<Frame, ShapeError>(ShapeError::OutOfBounds) ==> exists|shapes: Seq<Shape>|
                self.generated_from(shapes) && !scene_in_frame(shapes, size as int),
    {
        let entry = match self.generate_random_entry() {
            Ok(entry) => entry,
            Err(e) => {
                return Err(e);
            },
        };
        proof {
            self.lemma_generated_render_ok(entry.shapes_spec(), size as int);
        }
        match entry.render_entry(size) {
            Ok(f) => {
                proof {
                    assert(self.generated_from(entry.shapes_spec()) && frame_renders(
                        f,
                        entry.shapes_spec(),
                        size as int,
                    ));
                }
                Ok(f)
            },
            Err(e) => {
                proof {
                    assert(self.generated_from(entry.shapes_spec()) && !scene_in_frame(
                        entry.shapes_spec(),
                        size as int,
                    ));
                }
                Err(e)
            },
        }
    }

    /// Every scene this configuration generates can be rendered without
    /// overflow.
    proof fn lemma_generated_render_ok(self, shapes: Seq<Shape>, res: int)
        requires
            self.render_config_ok(),
            self.generated_from(shapes),
        ensures
            forall|i: int| 0 <= i < shapes.len() ==> render_shape_ok(#[trigger] shapes[i], res),
    {
        assert forall|i: int| 0 <= i < shapes.len() implies render_shape_ok(
            #[trigger] shapes[i],
            res,
        ) by {
            let s = shapes[i];
            assert(shape_from_config(
                s,
                self.spec_shape_types(),
                self.spec_color_palette(),
                self.spec_size_range(),
                self.spec_position_range(),
                self.spec_velocity_range(),
            ));
            if s.shape_type is Circle {
                assert(self.spec_shape_types().contains(s.shape_type));
            }
        }
    }

    /// Generate one random entry, then alternately rasterize and step it:
    /// the result is `num_frames` buffers of one temporally coherent
    /// scene, whose shape identities are fixed at generation and whose
    /// positions change only through the deterministic physics step
    /// between consecutive frames.
    pub fn get_random_video_array(&self, num_frames: usize, size: u16, step_size: i64) -> (r:
        Result<Vec<Frame>, ShapeError>)
        requires
            self.render_config_ok(),
            self.spec_size_range().within(0, SCALE as int),
            self.spec_velocity_range().within(-VEL_LIMIT as int, VEL_LIMIT as int),
            0 <= step_size <= SCALE,
            num_frames <= FRAME_LIMIT,
            3 * ((size as int) * (size as int)) <= usize::MAX as int,
        ensures
            self.spec_shape_types().len() == 0 ==> r == Err::<Vec<Frame>, ShapeError>(
                ShapeError::NoShapeTypes,
            ),
            self.spec_shape_types().len() > 0 && self.spec_color_palette().len() == 0 ==> r
                == Err::<Vec<Frame>, ShapeError>(ShapeError::NoColors),
            self.spec_shape_types().len() > 0 && self.spec_color_palette().len() > 0 ==> r is Ok
                || r == Err::<Vec<Frame>, ShapeError>(ShapeError::OutOfBounds),
            r matches Ok(frames) ==> frames@.len() == num_frames && exists|shapes0: Seq<Shape>|
                self.generated_from(shapes0) && forall|j: int|
                    0 <= j < num_frames ==> frame_renders(
                        #[trigger] frames@[j],
                        video_state(shapes0, step_size as int, j as nat),
                        size as int,
                    ),
            r == Err::<Vec<Frame>, ShapeError>(ShapeError::OutOfBounds) ==> exists|
                shapes0: Seq<Shape>,
            |
                self.generated_from(shapes0) && exists|j: int|
                    0 <= j < num_frames && !scene_in_frame(
                        #[trigger] video_state(shapes0, step_size as int, j as nat),
                        size as int,
                    ),
    {
        let mut entry = match self.generate_random_entry() {
            Ok(entry) => entry,
            Err(e) => {
                return Err(e);
            },
        };
        let ghost shapes0 = entry.shapes_spec();
        let ghost dt = step_size as int;
        proof {
            assert forall|k: int| 0 <= k < shapes0.len() implies video_shape_ok(
                #[trigger] shapes0[k],
                0,
            ) by {
                assert(shape_from_config(
                    shapes0[k],
                    self.spec_shape_types(),
                    self.spec_color_palette(),
                    self.spec_size_range(),
                    self.spec_position_range(),
                    self.spec_velocity_range(),
                ));
                assert(0 * (VEL_LIMIT as int) == 0) by (nonlinear_arith);
            }
        }
        let mut frames: Vec<Frame> = Vec::new();
        for i in 0..num_frames
            invariant
                self.render_config_ok(),
                self.spec_shape_types().len() > 0,
                self.spec_color_palette().len() > 0,
                self.spec_size_range().within(0, SCALE as int),
                self.spec_velocity_range().within(-VEL_LIMIT as int, VEL_LIMIT as int),
                0 <= step_size <= SCALE,
                num_frames <= FRAME_LIMIT,
                3 * ((size as int) * (size as int)) <= usize::MAX as int,
                dt == step_size as int,
                self.generated_from(shapes0),
                entry.shapes_spec() == video_state(shapes0, dt, i as nat),
                frames@.len() == i,
                forall|j: int|
                    0 <= j < i ==> frame_renders(
                        #[trigger] frames@[j],
                        video_state(shapes0, dt, j as nat),
                        size as int,
                    ),
                entry.shapes_spec().len() == shapes0.len(),
                forall|k: int|
                    0 <= k < entry.shapes_spec().len() ==> video_shape_ok(
                        #[trigger] entry.shapes_spec()[k],
                        i as int,
                    ),
        {
            proof {
                assert forall|k: int| 0 <= k < entry.shapes_spec().len() implies render_shape_ok(
                    #[trigger] entry.shapes_spec()[k],
                    size as int,
                ) by {
                    assert(video_shape_ok(entry.shapes_spec()[k], i as int));
                    assert((i as int) * (VEL_LIMIT as int) <= 1_000_000 * 1_000_000_000)
                        by (nonlinear_arith)
                        requires
                            0 <= i as int <= 1_000_000,
                            VEL_LIMIT == 1_000_000_000,
                    ;
                }
            }
            let f = match entry.render_entry(size) {
                Ok(f) => f,
                Err(_) => {
                    proof {
                        assert(self.generated_from(shapes0));
                        let jw: int = i as int;
                        assert(jw as nat == i as nat);
                        assert(!scene_in_frame(
                            video_state(shapes0, step_size as int, jw as nat),
                            size as int,
                        ));
                        assert(exists|j: int|
                            0 <= j < num_frames && !scene_in_frame(
                                #[trigger] video_state(shapes0, step_size as int, j as nat),
                                size as int,
                            ));
                    }
                    return Err(ShapeError::OutOfBounds);
                },
            };
            frames.push(f);
            proof {
                assert forall|k: int| 0 <= k < entry.shapes_spec().len() implies step_ok(
                    #[trigger] entry.shapes_spec()[k],
                    dt,
                ) by {
                    assert(video_shape_ok(entry.shapes_spec()[k], i as int));
                    assert((i as int) * (VEL_LIMIT as int) <= 1_000_000 * 1_000_000_000)
                        by (nonlinear_arith)
                        requires
                            0 <= i as int <= 1_000_000,
                            VEL_LIMIT == 1_000_000_000,
                    ;
                }
            }
            let ghost pre_step = entry.shapes_spec();
            entry.step_entry(step_size);
            proof {
                assert(entry.shapes_spec() =~= crate::entry::step_entry_seq(pre_step, dt));
                assert forall|k: int| 0 <= k < entry.shapes_spec().len() implies video_shape_ok(
                    #[trigger] entry.shapes_spec()[k],
                    i + 1,
                ) by {
                    let b = SCALE as int + (i as int) * (VEL_LIMIT as int);
                    assert((i as int) * (VEL_LIMIT as int) <= 1_000_000 * 1_000_000_000)
                        by (nonlinear_arith)
                        requires
                            0 <= i as int <= 1_000_000,
                            VEL_LIMIT == 1_000_000_000,
                    ;
                    assert((i as int) * (VEL_LIMIT as int) >= 0) by (nonlinear_arith)
                        requires
                            0 <= i as int,
                            VEL_LIMIT == 1_000_000_000,
                    ;
                    lemma_step_shape_bounds(pre_step[k], dt, b, VEL_LIMIT as int);
                    assert((i + 1) * (VEL_LIMIT as int) == (i as int) * (VEL_LIMIT as int)
                        + VEL_LIMIT) by (nonlinear_arith);
                }
            }
        }
        proof {
            assert(self.generated_from(shapes0) && forall|j: int|
                0 <= j < num_frames ==> frame_renders(
                    #[trigger] frames@[j],
                    video_state(shapes0, dt, j as nat),
                    size as int,
                ));
        }
        Ok(frames)
    }
}

/// The coordinate bounds a video scene satisfies after `i` steps: the
/// shape has drifted at most `i` velocity bounds from the unit square.
spec fn video_shape_ok(s: Shape, i: int) -> bool {
    &&& -(SCALE as int + i * (VEL_LIMIT as int)) <= s.position.0 <= SCALE as int + i * (VEL_LIMIT
        as int)
    &&& -(SCALE as int + i * (VEL_LIMIT as int)) <= s.position.1 <= SCALE as int + i * (VEL_LIMIT
        as int)
    &&& -VEL_LIMIT <= s.velocity.0 <= VEL_LIMIT
    &&& -VEL_LIMIT <= s.velocity.1 <= VEL_LIMIT
    &&& 0 <= s.size.0 <= SCALE
    &&& (s.shape_type is Circle ==> s.size.0 <= SCALE)
}

} // verus!
