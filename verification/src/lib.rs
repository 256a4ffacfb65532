//! Procedural generation of synthetic images and videos of simple geometric
//! shapes (squares and circles), intended as fixtures for vision models.
//!
//! All geometry is carried out on a fixed-point grid: a coordinate of one
//! normalized unit (the full width of the frame) is represented by the
//! integer [`SCALE`].  A shape owns a color, a position, a velocity and a
//! size; an [`Entry`] is an ordered scene of shapes that can be rasterized
//! onto a [`Frame`] and advanced in time with wall-bounce physics; a
//! [`Dataset`] is an immutable configuration that manufactures random
//! entries.

use vstd::prelude::*;

pub mod dataset;
pub mod entry;
pub mod frame;
mod rng;
pub mod shape;

pub use dataset::Dataset;
pub use entry::Entry;
pub use frame::Frame;
pub use shape::{Color, NewRandom1, NewRandom2, Position, Shape, ShapeType, Size, Velocity};

verus! {

/// Number of fixed-point steps per normalized unit: the coordinate `SCALE`
/// is the far edge of the unit square, `SCALE / 2` its middle.
pub const SCALE: i64 = 1_000_000;

/// Magnitude bound on the coordinates a shape may carry into arithmetic
/// (position, velocity, size): ten billion normalized units.  Large enough
/// never to matter in practice, small enough that every intermediate
/// product fits in `i128`.
pub const COORD_LIMIT: i64 = 10_000_000_000_000_000;

/// Magnitude bound on the velocities a video generation accepts: one
/// thousand normalized units per step.  Together with [`FRAME_LIMIT`] it
/// keeps every coordinate a video can reach within [`COORD_LIMIT`].
pub const VEL_LIMIT: i64 = 1_000_000_000;

/// Largest number of frames one video generation accepts.
pub const FRAME_LIMIT: usize = 1_000_000;

/// Division rounding toward zero (the rounding of a hardware division and
/// of a float-to-integer cast), as opposed to the Euclidean `/` of
/// specifications.
pub open spec fn div_trunc(a: int, b: int) -> int {
    if a >= 0 {
        a / b
    } else {
        -((-a) / b)
    }
}

/// Errors of the generation and rendering operations.  Configuration and
/// bounds violations are fatal for the operation that meets them: the
/// operation aborts and surfaces the error to its immediate caller.
#[derive(Debug, Clone, Copy, PartialEq, Eq, Structural)]
pub enum ShapeError {
    /// Random generation was asked to pick from an empty list of shape types.
    NoShapeTypes,
    /// Random generation was asked to pick from an empty color palette.
    NoColors,
    /// A square's pixel rectangle does not fit into the frame being rendered.
    OutOfBounds,
}

/// A quantity that is either one fixed value or an inclusive range
/// `[low, high]` to be sampled uniformly at random.
#[derive(Debug, Clone, Copy)]
pub enum RangeOrSingle<T> {
    /// An inclusive range `Range(low, high)`; `low <= high` is the caller's
    /// responsibility wherever the range is sampled.
    Range(T, T),
    /// One fixed value, resolved without randomness.
    Single(T),
}

impl RangeOrSingle<i64> {
    /// A range with ordered bounds; a single value is always valid.
    pub open spec fn valid(self) -> bool {
        match self {
            RangeOrSingle::Range(l, u) => l <= u,
            RangeOrSingle::Single(_) => true,
        }
    }

    /// `v` is a value this specification admits.
    pub open spec fn admits(self, v: int) -> bool {
        match self {
            RangeOrSingle::Range(l, u) => l <= v <= u,
            RangeOrSingle::Single(s) => v == s,
        }
    }

    /// Every value this specification admits lies in `[lo, hi]`.
    pub open spec fn within(self, lo: int, hi: int) -> bool {
        match self {
            RangeOrSingle::Range(l, u) => lo <= l && u <= hi,
            RangeOrSingle::Single(s) => lo <= s <= hi,
        }
    }
}

impl RangeOrSingle<usize> {
    /// A range with ordered bounds; a single value is always valid.
    pub open spec fn valid(self) -> bool {
        match self {
            RangeOrSingle::Range(l, u) => l <= u,
            RangeOrSingle::Single(_) => true,
        }
    }

    /// `v` is a value this specification admits.
    pub open spec fn admits(self, v: int) -> bool {
        match self {
            RangeOrSingle::Range(l, u) => l <= v <= u,
            RangeOrSingle::Single(s) => v == s,
        }
    }
}

} // verus!
