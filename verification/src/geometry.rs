//! Geometry of the grid in fixed-point grid coordinates.
//!
//! The 12 root cells tile a rectangle of 4 x 3 root-sized squares; each
//! subdivision halves a cell's side. All coordinates are integers, so
//! every bounding box below is exact.

use vstd::prelude::*;

use crate::cell::HEALPixCell;
use crate::cell::MAX_DEPTH;

verus! {

/// Side length of a root cell in grid units: 2^30, so that halving it
/// once per depth stays exact down to `MAX_DEPTH`.
pub const ROOT_SIZE: i64 = 0x4000_0000;

/// Width of the whole grid rectangle: 4 root cells side by side.
pub const GRID_WIDTH: i64 = 0x1_0000_0000;

/// Height of the whole grid rectangle: 3 root-cell bands.
pub const GRID_HEIGHT: i64 = 0xC000_0000;

/// A closed axis-aligned box in grid coordinates.
#[derive(Clone, Copy, PartialEq, Eq, Structural, Debug)]
pub struct BoundingBox {
    pub x0: i64,
    pub y0: i64,
    pub x1: i64,
    pub y1: i64,
}

impl BoundingBox {
    pub open spec fn wf(self) -> bool {
        self.x0 <= self.x1 && self.y0 <= self.y1
    }

    /// Self lies entirely inside `outer`.
    pub open spec fn spec_inside(self, outer: BoundingBox) -> bool {
        outer.x0 <= self.x0 && self.x1 <= outer.x1 && outer.y0 <= self.y0 && self.y1 <= outer.y1
    }

    /// The two closed boxes share at least one point.
    pub open spec fn spec_intersects(self, other: BoundingBox) -> bool {
        self.x0 <= other.x1 && other.x0 <= self.x1 && self.y0 <= other.y1 && other.y0 <= self.y1
    }

    pub fn intersects(&self, other: &BoundingBox) -> (b: bool)
        ensures
            b == self.spec_intersects(*other),
    {
        self.x0 <= other.x1 && other.x0 <= self.x1 && self.y0 <= other.y1 && other.y0 <= self.y1
    }

    /// The box covering the whole grid; every cell's box lies inside it.
    pub fn whole_grid() -> (b: BoundingBox)
        ensures
            b == spec_whole_grid(),
    {
        BoundingBox { x0: 0, y0: 0, x1: GRID_WIDTH, y1: GRID_HEIGHT }
    }
}

pub open spec fn spec_whole_grid() -> BoundingBox {
    BoundingBox { x0: 0, y0: 0, x1: GRID_WIDTH, y1: GRID_HEIGHT }
}

/// Side length of a cell at the given depth.
pub open spec fn cell_size(d: nat) -> int
    decreases d,
{
    if d == 0 {
        ROOT_SIZE as int
    } else {
        cell_size((d - 1) as nat) / 2
    }
}

/// 2^k, used only to pin down cell_size exactly.
pub open spec fn pw2(k: nat) -> int
    decreases k,
{
    if k == 0 {
        1
    } else {
        2 * pw2((k - 1) as nat)
    }
}

pub proof fn lemma_pw2_pos(k: nat)
    ensures
        pw2(k) >= 1,
        k >= 1 ==> pw2(k) >= 2,
    decreases k,
{
    if k > 0 {
        lemma_pw2_pos((k - 1) as nat);
    }
}

pub proof fn lemma_pw2_monotonic(a: nat, b: nat)
    requires
        a <= b,
    ensures
        pw2(a) <= pw2(b),
    decreases b,
{
    lemma_pw2_pos(a);
    if a < b {
        lemma_pw2_monotonic(a, (b - 1) as nat);
    }
}

/// The side at depth d is exactly 2^(30 - d) grid units.
pub proof fn lemma_cell_size_pow(d: nat)
    requires
        d <= 30,
    ensures
        cell_size(d) == pw2((30 - d) as nat),
    decreases d,
{
    if d > 0 {
        lemma_cell_size_pow((d - 1) as nat);
        assert(pw2((31 - d) as nat) == 2 * pw2((30 - d) as nat));
    } else {
        assert(cell_size(0) == ROOT_SIZE as int);
        reveal_with_fuel(pw2, 31);
    }
}

/// Halving stays exact: the side at each supported depth is still an
/// even, positive number of grid units.
pub proof fn lemma_cell_size_halves(d: nat)
    requires
        d <= MAX_DEPTH,
    ensures
        cell_size(d) >= 2,
        cell_size(d) == 2 * cell_size(d + 1),
    decreases d,
{
    lemma_cell_size_pow(d);
    lemma_cell_size_pow(d + 1);
    lemma_pw2_pos((30 - d) as nat);
    assert(pw2((30 - d) as nat) == 2 * pw2((29 - d) as nat));
}

pub proof fn lemma_cell_size_monotonic(a: nat, b: nat)
    requires
        a <= b,
        b <= MAX_DEPTH + 1,
    ensures
        cell_size(b) <= cell_size(a),
        cell_size(b) >= 1,
{
    lemma_cell_size_pow(a);
    lemma_cell_size_pow(b);
    lemma_pw2_monotonic((30 - b) as nat, (30 - a) as nat);
    lemma_pw2_pos((30 - b) as nat);
}

pub open spec fn spec_root_bbox(r: int) -> BoundingBox {
    BoundingBox {
        x0: ((r % 4) * ROOT_SIZE) as i64,
        y0: ((r / 4) * ROOT_SIZE) as i64,
        x1: ((r % 4) * ROOT_SIZE + ROOT_SIZE) as i64,
        y1: ((r / 4) * ROOT_SIZE + ROOT_SIZE) as i64,
    }
}

/// The quadrant of `parent` selected by child offset `k` (0..4), where
/// `half` is the child's side length: bit 0 of k picks the column, bit 1
/// the row.
pub open spec fn spec_quadrant(parent: BoundingBox, k: int, half: int) -> BoundingBox {
    BoundingBox {
        x0: (parent.x0 + if k % 2 == 1 { half } else { 0 }) as i64,
        y0: (parent.y0 + if k / 2 == 1 { half } else { 0 }) as i64,
        x1: (parent.x0 + (if k % 2 == 1 { half } else { 0 }) + half) as i64,
        y1: (parent.y0 + (if k / 2 == 1 { half } else { 0 }) + half) as i64,
    }
}

/// The region of the grid a cell covers.
pub open spec fn spec_cell_bbox(c: HEALPixCell) -> BoundingBox
    decreases c.depth,
{
    if c.depth == 0 {
        spec_root_bbox(c.idx as int)
    } else {
        spec_quadrant(
            spec_cell_bbox(c.spec_parent()),
            (c.idx % 4) as int,
            cell_size(c.depth as nat),
        )
    }
}

/// The quadrant of a square box of side 2*half is a square of side half
/// lying inside it.
pub proof fn lemma_quadrant(parent: BoundingBox, k: int, half: int)
    requires
        parent.wf(),
        0 <= k < 4,
        half >= 1,
        parent.x1 - parent.x0 == 2 * half,
        parent.y1 - parent.y0 == 2 * half,
        parent.spec_inside(spec_whole_grid()),
    ensures
        spec_quadrant(parent, k, half).wf(),
        spec_quadrant(parent, k, half).spec_inside(parent),
        spec_quadrant(parent, k, half).x1 - spec_quadrant(parent, k, half).x0 == half,
        spec_quadrant(parent, k, half).y1 - spec_quadrant(parent, k, half).y0 == half,
{
}

/// A valid cell's box is a well-formed square of side cell_size(depth)
/// lying inside the grid rectangle.
pub proof fn lemma_cell_bbox_wf(c: HEALPixCell)
    requires
        c.wf(),
    ensures
        spec_cell_bbox(c).wf(),
        spec_cell_bbox(c).x1 - spec_cell_bbox(c).x0 == cell_size(c.depth as nat),
        spec_cell_bbox(c).y1 - spec_cell_bbox(c).y0 == cell_size(c.depth as nat),
        spec_cell_bbox(c).spec_inside(spec_whole_grid()),
    decreases c.depth,
{
    if c.depth == 0 {
        assert(c.idx < 12);
        let r = c.idx as int;
        assert(0 <= r % 4 < 4 && 0 <= r / 4 < 3);
    } else {
        lemma_cell_bbox_wf(c.spec_parent());
        lemma_cell_size_halves((c.depth - 1) as nat);
        lemma_quadrant(
            spec_cell_bbox(c.spec_parent()),
            (c.idx % 4) as int,
            cell_size(c.depth as nat),
        );
    }
}

/// A cell's box lies inside its parent's box.
pub proof fn lemma_cell_bbox_inside_parent(c: HEALPixCell)
    requires
        c.wf(),
        c.depth > 0,
    ensures
        spec_cell_bbox(c).spec_inside(spec_cell_bbox(c.spec_parent())),
{
    lemma_cell_bbox_wf(c.spec_parent());
    lemma_cell_size_halves((c.depth - 1) as nat);
    lemma_quadrant(spec_cell_bbox(c.spec_parent()), (c.idx % 4) as int, cell_size(c.depth as nat));
}

/// A descendant's box lies inside each of its ancestors' boxes.
pub proof fn lemma_bbox_inside_ancestor(d: HEALPixCell, c: HEALPixCell)
    requires
        d.wf(),
        d.has_ancestor(c),
    ensures
        spec_cell_bbox(d).spec_inside(spec_cell_bbox(c)),
    decreases d.depth,
{
    if d.depth == c.depth {
        assert(d.spec_ancestor(0) == d);
    } else {
        let p = d.spec_parent();
        crate::cell::lemma_parent_wf(d);
        lemma_cell_bbox_inside_parent(d);
        assert(p.has_ancestor(c)) by {
            crate::cell::lemma_ancestor_compose(d, 1, (d.depth - 1 - c.depth) as nat);
            assert(d.spec_ancestor(1) == p) by {
                crate::cell::lemma_ancestor_step(d, 0);
            }
        }
        lemma_bbox_inside_ancestor(p, c);
    }
}

/// Containment carries intersection upward: anything meeting an inner
/// box also meets every box around it.
pub proof fn lemma_intersects_outer(inner: BoundingBox, outer: BoundingBox, q: BoundingBox)
    requires
        inner.spec_inside(outer),
        inner.spec_intersects(q),
    ensures
        outer.spec_intersects(q),
{
}

/// The whole-grid box meets every valid cell's box.
pub proof fn lemma_whole_grid_intersects(c: HEALPixCell)
    requires
        c.wf(),
    ensures
        spec_whole_grid().spec_intersects(spec_cell_bbox(c)),
{
    lemma_cell_bbox_wf(c);
}

/// Side length of a cell at the given depth, in grid units.
pub fn cell_size_at(d: u8) -> (s: i64)
    requires
        d <= MAX_DEPTH + 1,
    ensures
        s == cell_size(d as nat),
        s >= 1,
    decreases d,
{
    proof {
        lemma_cell_size_monotonic(0, d as nat);
    }
    if d == 0 {
        ROOT_SIZE
    } else {
        cell_size_at(d - 1) / 2
    }
}

impl HEALPixCell {
    /// The region of the grid this cell covers.
    pub fn bbox(&self) -> (b: BoundingBox)
        requires
            self.wf(),
        ensures
            b == spec_cell_bbox(*self),
        decreases self.depth,
    {
        if self.depth == 0 {
            let r = self.idx as i64;
            BoundingBox {
                x0: (r % 4) * ROOT_SIZE,
                y0: (r / 4) * ROOT_SIZE,
                x1: (r % 4) * ROOT_SIZE + ROOT_SIZE,
                y1: (r / 4) * ROOT_SIZE + ROOT_SIZE,
            }
        } else {
            let parent = self.parent();
            let pb = parent.bbox();
            let half = cell_size_at(self.depth);
            let k = (self.idx % 4) as i64;
            proof {
                lemma_cell_bbox_wf(parent);
                lemma_cell_size_halves((self.depth - 1) as nat);
                lemma_quadrant(pb, k as int, half as int);
            }
            let ox: i64 = if k % 2 == 1 {
                half
            } else {
                0
            };
            let oy: i64 = if k / 2 == 1 {
                half
            } else {
                0
            };
            BoundingBox { x0: pb.x0 + ox, y0: pb.y0 + oy, x1: pb.x0 + ox + half, y1: pb.y0 + oy + half }
        }
    }
}

} // verus!
