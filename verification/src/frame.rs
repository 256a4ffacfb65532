//! The rasterization target: a square, 3-channel pixel buffer in
//! channel-first layout.

use vstd::pervasive::VecAdditionalExecFns;
use vstd::prelude::*;

verus! {

/// The flat position of channel `c` of pixel `(y, x)` in a channel-first
/// `[3, r, r]` buffer.
pub open spec fn cell_idx(r: int, c: int, y: int, x: int) -> int {
    c * (r * r) + y * r + x
}

/// A cell's flat index lies inside the buffer.
proof fn lemma_cell_index_in_range(r: int, c: int, y: int, x: int) by (nonlinear_arith)
    requires
        0 <= c < 3,
        0 <= y < r,
        0 <= x < r,
    ensures
        0 <= cell_idx(r, c, y, x) < 3 * (r * r),
{
}

/// In the `[r, r, 3]` image-plane layout, a lexicographically earlier cell
/// has a smaller flat index.
proof fn lemma_plane_index_lt(
    r: int,
    y: int,
    x: int,
    y2: int,
    x2: int,
    c2: int,
) by (nonlinear_arith)
    requires
        0 <= x < r,
        0 <= y,
        0 <= y2,
        0 <= x2 < r,
        0 <= c2 < 3,
        y2 < y || (y2 == y && x2 < x),
    ensures
        0 <= (y2 * r + x2) * 3 + c2 < (y * r + x) * 3,
{
}

/// Distinct cells of a `[3, r, r]` buffer have distinct flat indices.
proof fn lemma_cell_index_inj(
    r: int,
    c1: int,
    y1: int,
    x1: int,
    c2: int,
    y2: int,
    x2: int,
) by (nonlinear_arith)
    requires
        0 <= c1 < 3,
        0 <= y1 < r,
        0 <= x1 < r,
        0 <= c2 < 3,
        0 <= y2 < r,
        0 <= x2 < r,
        cell_idx(r, c1, y1, x1) == cell_idx(r, c2, y2, x2),
    ensures
        c1 == c2 && y1 == y2 && x1 == x2,
{
}

/// A rendered image of shape `[3, resolution, resolution]` (channel, row,
/// column), stored flat in channel-first order.  Each cell holds an 8-bit
/// intensity: the stored value `v` stands for the normalized channel
/// intensity `v / 255`, so a full-intensity channel is `255` and the black
/// background is `0`.
#[derive(Debug, Clone, PartialEq, Eq)]
pub struct Frame {
    res: usize,
    data: Vec<u8>,
}

impl Frame {
    /// The edge length of the buffer, in pixels.
    pub closed spec fn res_spec(self) -> int {
        self.res as int
    }

    /// The buffer holds exactly its three channel planes.
    pub closed spec fn wf(self) -> bool {
        self.data.len() == 3 * (self.res_spec() * self.res_spec())
    }

    /// `(c, y, x)` addresses a cell of the buffer.
    pub open spec fn valid_cell(self, c: int, y: int, x: int) -> bool {
        0 <= c < 3 && 0 <= y < self.res_spec() && 0 <= x < self.res_spec()
    }

    /// The intensity stored for channel `c` of the pixel in row `y`,
    /// column `x`.
    pub closed spec fn at(self, c: int, y: int, x: int) -> u8 {
        self.data[cell_idx(self.res_spec(), c, y, x)]
    }

    /// A black (all-zero) buffer of the given resolution.
    pub fn new(resolution: u16) -> (f: Frame)
        requires
            3 * ((resolution as int) * (resolution as int)) <= usize::MAX as int,
        ensures
            f.wf(),
            f.res_spec() == resolution as int,
            forall|c: int, y: int, x: int|
                f.valid_cell(c, y, x) ==> #[trigger] f.at(c, y, x) == 0,
    {
        let r = resolution as usize;
        let n: usize = 3 * (r * r);
        let mut data: Vec<u8> = Vec::new();
        for i in 0..n
            invariant
                data@.len() == i,
                forall|j: int| 0 <= j < i ==> data@[j] == 0,
        {
            data.push(0);
        }
        let f = Frame { res: r, data };
        proof {
            assert forall|c: int, y: int, x: int| f.valid_cell(c, y, x) implies #[trigger] f.at(
                c,
                y,
                x,
            ) == 0 by {
                lemma_cell_index_in_range(r as int, c, y, x);
            }
        }
        f
    }

    /// The edge length of the buffer, in pixels.
    pub fn resolution(&self) -> (r: usize)
        ensures
            r == self.res_spec(),
    {
        self.res
    }

    /// Read one cell.
    pub fn get(&self, c: usize, y: usize, x: usize) -> (v: u8)
        requires
            self.wf(),
            self.valid_cell(c as int, y as int, x as int),
        ensures
            v == self.at(c as int, y as int, x as int),
    {
        let r = self.res;
        proof {
            lemma_cell_index_in_range(r as int, c as int, y as int, x as int);
        }
        let idx: usize = c * (r * r) + y * r + x;
        self.data[idx]
    }

    /// Write one cell, leaving every other cell unchanged.
    pub fn set(&mut self, c: usize, y: usize, x: usize, v: u8)
        requires
            old(self).wf(),
            old(self).valid_cell(c as int, y as int, x as int),
        ensures
            final(self).wf(),
            final(self).res_spec() == old(self).res_spec(),
            final(self).at(c as int, y as int, x as int) == v,
            forall|c2: int, y2: int, x2: int|
                old(self).valid_cell(c2, y2, x2) && !(c2 == c && y2 == y && x2 == x)
                    ==> #[trigger] final(self).at(c2, y2, x2) == old(self).at(c2, y2, x2),
    {
        let r = self.res;
        proof {
            lemma_cell_index_in_range(r as int, c as int, y as int, x as int);
        }
        let idx: usize = c * (r * r) + y * r + x;
        self.data.set(idx, v);
        proof {
            assert forall|c2: int, y2: int, x2: int|
                old(self).valid_cell(c2, y2, x2) && !(c2 == c && y2 == y && x2 == x)
                    implies #[trigger] self.at(c2, y2, x2) == old(self).at(c2, y2, x2) by {
                lemma_cell_index_in_range(r as int, c2, y2, x2);
                if cell_idx(r as int, c2, y2, x2) == cell_idx(r as int, c as int, y as int, x as int) {
                    lemma_cell_index_inj(r as int, c as int, y as int, x as int, c2, y2, x2);
                }
            }
        }
    }

    /// The buffer re-ordered to the 8-bit image-plane layout
    /// `[resolution, resolution, 3]` (row, column, channel), the layout an
    /// image encoder consumes.  Intensities are already 8-bit and are
    /// copied unchanged.
    pub fn to_image_bytes(&self) -> (out: Vec<u8>)
        requires
            self.wf(),
        ensures
            out@.len() == 3 * (self.res_spec() * self.res_spec()),
            forall|c: int, y: int, x: int|
                self.valid_cell(c, y, x) ==> out@[(y * self.res_spec() + x) * 3 + c]
                    == #[trigger] self.at(c, y, x),
    {
        let r = self.res;
        let mut out: Vec<u8> = Vec::new();
        proof {
            assert((0 * (r as int)) * 3 == 0) by (nonlinear_arith);
        }
        for y in 0..r
            invariant
                self.wf(),
                r == self.res_spec(),
                out@.len() == (y * r) * 3,
                forall|c2: int, y2: int, x2: int|
                    self.valid_cell(c2, y2, x2) && y2 < y ==> out@[(y2 * r + x2) * 3 + c2]
                        == #[trigger] self.at(c2, y2, x2),
        {
            for x in 0..r
                invariant
                    self.wf(),
                    r == self.res_spec(),
                    y < r,
                    out@.len() == (y * r + x) * 3,
                    forall|c2: int, y2: int, x2: int|
                        self.valid_cell(c2, y2, x2) && (y2 < y || (y2 == y && x2 < x))
                            ==> out@[(y2 * r + x2) * 3 + c2] == #[trigger] self.at(c2, y2, x2),
            {
                let v0 = self.get(0, y, x);
                let v1 = self.get(1, y, x);
                let v2 = self.get(2, y, x);
                let ghost prev = out@;
                out.push(v0);
                out.push(v1);
                out.push(v2);
                proof {
                    assert forall|c2: int, y2: int, x2: int|
                        self.valid_cell(c2, y2, x2) && (y2 < y || (y2 == y && x2 < x + 1))
                            implies out@[(y2 * r + x2) * 3 + c2] == self.at(c2, y2, x2) by {
                        if y2 < y || (y2 == y && x2 < x) {
                            lemma_plane_index_lt(r as int, y as int, x as int, y2, x2, c2);
                            assert(out@[(y2 * r + x2) * 3 + c2] == prev[(y2 * r + x2) * 3 + c2]);
                        } else {
                            assert(y2 == y && x2 == x);
                            assert((y2 * r + x2) * 3 + c2 == prev.len() + c2);
                        }
                    }
                }
            }
            proof {
                assert((y * r + r) * 3 == ((y + 1) * r) * 3) by (nonlinear_arith);
            }
        }
        proof {
            assert((r as int * r as int) * 3 == 3 * ((r as int) * (r as int)))
                by (nonlinear_arith);
        }
        out
    }
}

} // verus!
