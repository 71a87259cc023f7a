//! The set of cells visible in the current camera: the grid is walked
//! from the 12 roots, pruning every subtree whose bounding box misses
//! the field of view, down to the depth matching the current angular
//! resolution. The walk is proved to produce exactly the cells at the
//! target depth whose boxes meet the field of view's box.

use vstd::prelude::*;

use crate::camera::CameraViewPort;
use crate::cell::HEALPixCell;
use crate::cell::MAX_DEPTH;
use crate::cell::lemma_ancestor_decompose;
use crate::cell::lemma_ancestor_wf;
use crate::cell::lemma_child_descendant;
use crate::cell::lemma_children_in_range;
use crate::cell::pow4;
use crate::fov::FieldOfViewVertices;
use crate::fov::spec_fov_bbox;
use crate::geometry::BoundingBox;
use crate::geometry::GRID_WIDTH;
use crate::geometry::cell_size;
use crate::geometry::cell_size_at;
use crate::geometry::lemma_bbox_inside_ancestor;
use crate::geometry::spec_cell_bbox;

verus! {

/// The root cell with the given index.
pub open spec fn root_cell(r: int) -> HEALPixCell {
    HEALPixCell { depth: 0, idx: r as u64 }
}

/// The root at the top of a cell's parent chain.
pub open spec fn root_of(d: HEALPixCell) -> HEALPixCell {
    d.spec_ancestor(d.depth as nat)
}

/// The cells the pruned walk yields below one cell: none when the
/// cell's box misses the query box, the cell itself at the target
/// depth, and otherwise the concatenation over its four children.
pub open spec fn visible_under(c: HEALPixCell, target: u8, q: BoundingBox) -> Seq<HEALPixCell>
    decreases target - c.depth,
{
    if !spec_cell_bbox(c).spec_intersects(q) {
        Seq::empty()
    } else if c.depth >= target {
        seq![c]
    } else {
        visible_under(c.spec_child(0), target, q) + visible_under(c.spec_child(1), target, q)
            + visible_under(c.spec_child(2), target, q) + visible_under(c.spec_child(3), target, q)
    }
}

/// The walk over the roots r, r+1, ..., 11.
pub open spec fn visible_from_root(r: int, target: u8, q: BoundingBox) -> Seq<HEALPixCell>
    decreases 12 - r,
{
    if r >= 12 {
        Seq::empty()
    } else {
        visible_under(root_cell(r), target, q) + visible_from_root(r + 1, target, q)
    }
}

/// Every cell of the target depth whose box meets q, in walk order.
pub open spec fn visible_cells(target: u8, q: BoundingBox) -> Seq<HEALPixCell> {
    visible_from_root(0, target, q)
}

proof fn lemma_add_contains<A>(a: Seq<A>, b: Seq<A>, x: A)
    ensures
        (a + b).contains(x) <==> a.contains(x) || b.contains(x),
{
    if a.contains(x) {
        let i = choose|i: int| 0 <= i < a.len() && a[i] == x;
        assert((a + b)[i] == x);
    }
    if b.contains(x) {
        let i = choose|i: int| 0 <= i < b.len() && b[i] == x;
        assert((a + b)[a.len() + i] == x);
    }
    if (a + b).contains(x) {
        let i = choose|i: int| 0 <= i < (a + b).len() && (a + b)[i] == x;
        if i < a.len() {
            assert(a[i] == x);
        } else {
            assert(b[i - a.len()] == x);
        }
    }
}

/// What the pruned walk below c holds: exactly the valid cells of the
/// target depth descending from c whose box meets q. Pruning loses
/// nothing, because a descendant's box lies inside its ancestor's.
pub proof fn lemma_visible_under_membership(c: HEALPixCell, target: u8, q: BoundingBox, d: HEALPixCell)
    requires
        c.wf(),
        c.depth <= target,
        target <= MAX_DEPTH,
    ensures
        visible_under(c, target, q).contains(d) <==> (d.wf() && d.depth == target
            && d.has_ancestor(c) && spec_cell_bbox(d).spec_intersects(q)),
    decreases target - c.depth,
{
    if !spec_cell_bbox(c).spec_intersects(q) {
        assert(!visible_under(c, target, q).contains(d));
        if d.wf() && d.depth == target && d.has_ancestor(c) && spec_cell_bbox(d).spec_intersects(
            q,
        ) {
            lemma_bbox_inside_ancestor(d, c);
            assert(false);
        }
    } else if c.depth == target {
        assert(visible_under(c, target, q) == seq![c]);
        if d == c {
            assert(d.spec_ancestor(0) == d);
            assert(seq![c][0] == d);
            assert(seq![c].contains(d));
        }
        if visible_under(c, target, q).contains(d) {
            let i = choose|i: int| 0 <= i < seq![c].len() && seq![c][i] == d;
            assert(d == c);
            assert(d.spec_ancestor(0) == d);
        }
    } else {
        lemma_children_in_range(c);
        let s0 = visible_under(c.spec_child(0), target, q);
        let s1 = visible_under(c.spec_child(1), target, q);
        let s2 = visible_under(c.spec_child(2), target, q);
        let s3 = visible_under(c.spec_child(3), target, q);
        lemma_visible_under_membership(c.spec_child(0), target, q, d);
        lemma_visible_under_membership(c.spec_child(1), target, q, d);
        lemma_visible_under_membership(c.spec_child(2), target, q, d);
        lemma_visible_under_membership(c.spec_child(3), target, q, d);
        lemma_add_contains(s0, s1, d);
        lemma_add_contains(s0 + s1, s2, d);
        lemma_add_contains(s0 + s1 + s2, s3, d);
        assert(visible_under(c, target, q) == s0 + s1 + s2 + s3);
        if d.wf() && d.depth == target && d.has_ancestor(c) {
            lemma_ancestor_decompose(d, c);
            let m = d.spec_ancestor((d.depth - c.depth - 1) as nat);
            assert(m == c.spec_child((m.idx % 4) as int));
        }
        if s0.contains(d) {
            lemma_child_descendant(d, c, 0);
        }
        if s1.contains(d) {
            lemma_child_descendant(d, c, 1);
        }
        if s2.contains(d) {
            lemma_child_descendant(d, c, 2);
        }
        if s3.contains(d) {
            lemma_child_descendant(d, c, 3);
        }
    }
}

/// What the whole walk holds: exactly the valid cells of the target
/// depth whose box meets q, each exactly through its own root.
pub proof fn lemma_visible_from_root_membership(r: int, target: u8, q: BoundingBox, d: HEALPixCell)
    requires
        0 <= r <= 12,
        target <= MAX_DEPTH,
    ensures
        visible_from_root(r, target, q).contains(d) <==> (d.wf() && d.depth == target
            && spec_cell_bbox(d).spec_intersects(q) && r <= root_of(d).idx),
    decreases 12 - r,
{
    if r == 12 {
        if d.wf() {
            lemma_ancestor_wf(d, d.depth as nat);
            assert(root_of(d).idx < 12);
        }
    } else {
        let rc = root_cell(r);
        assert(rc.wf()) by {
            assert(pow4(0) == 1);
        }
        lemma_visible_under_membership(rc, target, q, d);
        lemma_visible_from_root_membership(r + 1, target, q, d);
        lemma_add_contains(visible_under(rc, target, q), visible_from_root(r + 1, target, q), d);
        if d.wf() && d.depth == target {
            lemma_ancestor_wf(d, d.depth as nat);
            assert(root_of(d).depth == 0 && root_of(d).idx < 12);
            assert(d.has_ancestor(rc) <==> root_of(d) == rc);
        }
    }
}

/// No value occurs twice in the sequence.
pub open spec fn distinct_seq(s: Seq<HEALPixCell>) -> bool {
    forall|i: int, j: int| 0 <= i < j < s.len() ==> s[i] != s[j]
}

proof fn lemma_distinct_concat(a: Seq<HEALPixCell>, b: Seq<HEALPixCell>)
    requires
        distinct_seq(a),
        distinct_seq(b),
        forall|x: HEALPixCell| !(#[trigger] a.contains(x) && b.contains(x)),
    ensures
        distinct_seq(a + b),
{
    assert forall|i: int, j: int| 0 <= i < j < (a + b).len() implies (a + b)[i] != (a + b)[j] by {
        if i < a.len() && j >= a.len() {
            if (a + b)[i] == (a + b)[j] {
                assert(a.contains(a[i]));
                assert(b.contains(b[j - a.len()]));
            }
        }
    }
}

/// A cell has at most one ancestor at each depth, so the walks below
/// two distinct children share no cell.
proof fn lemma_visible_under_disjoint(
    c: HEALPixCell,
    target: u8,
    q: BoundingBox,
    j: int,
    k: int,
)
    requires
        c.wf(),
        c.depth < target,
        target <= MAX_DEPTH,
        0 <= j < 4,
        0 <= k < 4,
        j != k,
    ensures
        forall|d: HEALPixCell|
            !(#[trigger] visible_under(c.spec_child(j), target, q).contains(d) && visible_under(
                c.spec_child(k),
                target,
                q,
            ).contains(d)),
{
    lemma_children_in_range(c);
    assert forall|d: HEALPixCell|
        !(#[trigger] visible_under(c.spec_child(j), target, q).contains(d) && visible_under(
            c.spec_child(k),
            target,
            q,
        ).contains(d)) by {
        if visible_under(c.spec_child(j), target, q).contains(d) && visible_under(
            c.spec_child(k),
            target,
            q,
        ).contains(d) {
            lemma_visible_under_membership(c.spec_child(j), target, q, d);
            lemma_visible_under_membership(c.spec_child(k), target, q, d);
            assert(c.spec_child(j) == d.spec_ancestor((d.depth - (c.depth + 1)) as nat));
            assert(c.spec_child(k) == d.spec_ancestor((d.depth - (c.depth + 1)) as nat));
        }
    }
}

/// The walk below one cell never lists a cell twice.
proof fn lemma_visible_under_no_dup(c: HEALPixCell, target: u8, q: BoundingBox)
    requires
        c.wf(),
        c.depth <= target,
        target <= MAX_DEPTH,
    ensures
        distinct_seq(visible_under(c, target, q)),
    decreases target - c.depth,
{
    if !spec_cell_bbox(c).spec_intersects(q) {
    } else if c.depth == target {
    } else {
        lemma_children_in_range(c);
        let s0 = visible_under(c.spec_child(0), target, q);
        let s1 = visible_under(c.spec_child(1), target, q);
        let s2 = visible_under(c.spec_child(2), target, q);
        let s3 = visible_under(c.spec_child(3), target, q);
        lemma_visible_under_no_dup(c.spec_child(0), target, q);
        lemma_visible_under_no_dup(c.spec_child(1), target, q);
        lemma_visible_under_no_dup(c.spec_child(2), target, q);
        lemma_visible_under_no_dup(c.spec_child(3), target, q);
        lemma_visible_under_disjoint(c, target, q, 0, 1);
        lemma_visible_under_disjoint(c, target, q, 0, 2);
        lemma_visible_under_disjoint(c, target, q, 0, 3);
        lemma_visible_under_disjoint(c, target, q, 1, 2);
        lemma_visible_under_disjoint(c, target, q, 1, 3);
        lemma_visible_under_disjoint(c, target, q, 2, 3);
        assert forall|x: HEALPixCell| !(#[trigger] (s0 + s1).contains(x) && s2.contains(x)) by {
            lemma_add_contains(s0, s1, x);
        }
        lemma_distinct_concat(s0, s1);
        lemma_distinct_concat(s0 + s1, s2);
        assert forall|x: HEALPixCell|
            !(#[trigger] (s0 + s1 + s2).contains(x) && s3.contains(x)) by {
            lemma_add_contains(s0, s1, x);
            lemma_add_contains(s0 + s1, s2, x);
        }
        lemma_distinct_concat(s0 + s1 + s2, s3);
    }
}

/// The whole walk never lists a cell twice: each cell is reached
/// through its own root alone.
proof fn lemma_visible_from_root_no_dup(r: int, target: u8, q: BoundingBox)
    requires
        0 <= r <= 12,
        target <= MAX_DEPTH,
    ensures
        distinct_seq(visible_from_root(r, target, q)),
    decreases 12 - r,
{
    if r < 12 {
        let rc = root_cell(r);
        assert(rc.wf()) by {
            assert(pow4(0) == 1);
        }
        lemma_visible_under_no_dup(rc, target, q);
        lemma_visible_from_root_no_dup(r + 1, target, q);
        assert forall|x: HEALPixCell|
            !(#[trigger] visible_under(rc, target, q).contains(x) && visible_from_root(
                r + 1,
                target,
                q,
            ).contains(x)) by {
            if visible_under(rc, target, q).contains(x) && visible_from_root(
                r + 1,
                target,
                q,
            ).contains(x) {
                lemma_visible_under_membership(rc, target, q, x);
                lemma_visible_from_root_membership(r + 1, target, q, x);
                assert(root_of(x) == rc);
            }
        }
        lemma_distinct_concat(visible_under(rc, target, q), visible_from_root(r + 1, target, q));
    }
}

/// The walk yields exactly the cells of the target depth whose box
/// meets the query box.
pub proof fn lemma_visible_cells_membership(target: u8, q: BoundingBox, d: HEALPixCell)
    requires
        target <= MAX_DEPTH,
    ensures
        visible_cells(target, q).contains(d) <==> (d.wf() && d.depth == target && spec_cell_bbox(
            d,
        ).spec_intersects(q)),
{
    lemma_visible_from_root_membership(0, target, q, d);
}

/// Collects the pruned walk below c into out.
fn collect_cells(c: HEALPixCell, target: u8, q: &BoundingBox, out: &mut Vec<HEALPixCell>)
    requires
        c.wf(),
        c.depth <= target,
        target <= MAX_DEPTH,
    ensures
        final(out)@ == old(out)@ + visible_under(c, target, *q),
    decreases target - c.depth,
{
    let b = c.bbox();
    if !b.intersects(q) {
        proof {
            assert(final(out)@ =~= old(out)@ + visible_under(c, target, *q));
        }
        return ;
    }
    if c.depth == target {
        out.push(c);
        proof {
            assert(out@ =~= old(out)@ + visible_under(c, target, *q));
        }
        return ;
    }
    let cs = c.children();
    proof {
        assert(cs@[0].wf() && cs@[0] == c.spec_child(0));
        assert(cs@[1].wf() && cs@[1] == c.spec_child(1));
        assert(cs@[2].wf() && cs@[2] == c.spec_child(2));
        assert(cs@[3].wf() && cs@[3] == c.spec_child(3));
    }
    collect_cells(cs[0], target, q, out);
    collect_cells(cs[1], target, q, out);
    collect_cells(cs[2], target, q, out);
    collect_cells(cs[3], target, q, out);
    proof {
        assert(out@ =~= old(out)@ + visible_under(c, target, *q));
    }
}

/// A set of cells, all of one depth, in walk order.
pub struct HEALPixCells {
    pub depth: u8,
    pub cells: Vec<HEALPixCell>,
}

impl HEALPixCells {
    pub open spec fn wf(self) -> bool {
        &&& self.depth <= MAX_DEPTH
        &&& distinct_seq(self.cells@)
        &&& forall|i: int|
            0 <= i < self.cells@.len() ==> (#[trigger] self.cells@[i]).wf() && self.cells@[i].depth
                == self.depth
    }

    pub fn get_depth(&self) -> (d: u8)
        ensures
            d == self.depth,
    {
        self.depth
    }

    pub fn len(&self) -> (n: usize)
        ensures
            n == self.cells@.len(),
    {
        self.cells.len()
    }

    pub fn get(&self, i: usize) -> (c: HEALPixCell)
        requires
            i < self.cells@.len(),
        ensures
            c == self.cells@[i as int],
    {
        self.cells[i]
    }

    pub fn contains(&self, c: &HEALPixCell) -> (b: bool)
        ensures
            b == self.cells@.contains(*c),
    {
        let mut i: usize = 0;
        while i < self.cells.len()
            invariant
                0 <= i <= self.cells@.len(),
                forall|j: int| 0 <= j < i ==> self.cells@[j] != *c,
            decreases self.cells@.len() - i,
        {
            if self.cells[i].depth == c.depth && self.cells[i].idx == c.idx {
                assert(self.cells@[i as int] == *c);
                return true;
            }
            i = i + 1;
        }
        false
    }
}

/// The cells of the given depth whose boxes meet the current field of
/// view; with the all-sky sentinel this is every cell of that depth.
pub fn get_cells_in_camera(depth: u8, fov: &FieldOfViewVertices) -> (r: HEALPixCells)
    requires
        depth <= MAX_DEPTH,
    ensures
        r.depth == depth,
        r.wf(),
        r.cells@ == visible_cells(depth, spec_fov_bbox(fov.spec_type())),
{
    let q = fov.get_bounding_box();
    let mut out: Vec<HEALPixCell> = Vec::new();
    let mut r: u64 = 0;
    while r < 12
        invariant
            0 <= r <= 12,
            depth <= MAX_DEPTH,
            visible_cells(depth, q) == out@ + visible_from_root(r as int, depth, q),
        decreases 12 - r,
    {
        proof {
            assert(pow4(0) == 1);
        }
        let root = HEALPixCell::new(0, r);
        let ghost prev = out@;
        collect_cells(root, depth, &q, &mut out);
        proof {
            assert(visible_from_root(r as int, depth, q) == visible_under(
                root_cell(r as int),
                depth,
                q,
            ) + visible_from_root(r as int + 1, depth, q));
            assert(out@ + visible_from_root(r as int + 1, depth, q) =~= prev + visible_from_root(
                r as int,
                depth,
                q,
            ));
        }
        r = r + 1;
    }
    proof {
        assert(out@ + visible_from_root(12, depth, q) =~= out@);
        lemma_visible_from_root_no_dup(0, depth, q);
        assert forall|i: int| 0 <= i < out@.len() implies (#[trigger] out@[i]).wf() && out@[i].depth
            == depth by {
            assert(out@.contains(out@[i]));
            lemma_visible_cells_membership(depth, q, out@[i]);
        }
    }
    HEALPixCells { depth, cells: out }
}

/// The angular size one texture tile covers on screen at the current
/// zoom: the aperture spread over the viewport, times the tile's pixel
/// width. Cells coarser than this are too blurry to draw.
pub open spec fn target_resolution(camera: CameraViewPort, texture_size: u32) -> int {
    camera.aperture * texture_size / (camera.viewport_width as int)
}

/// The coarsest depth whose cell size does not exceed r, capped at
/// max_depth; d is the first depth still to be examined.
pub open spec fn spec_depth_for(r: int, max_depth: u8, d: u8) -> u8
    decreases max_depth - d,
{
    if d >= max_depth {
        max_depth
    } else if cell_size(d as nat) <= r {
        d
    } else {
        spec_depth_for(r, max_depth, (d + 1) as u8)
    }
}

/// Picks the coarsest depth whose per-cell angular size does not
/// exceed the resolution r, never finer than max_depth.
pub fn depth_from_resolution(r: i64, max_depth: u8) -> (d: u8)
    requires
        max_depth <= MAX_DEPTH,
    ensures
        d == spec_depth_for(r as int, max_depth, 0),
        d <= max_depth,
        cell_size(d as nat) <= r || d == max_depth,
        d > 0 ==> cell_size((d - 1) as nat) > r,
{
    let mut d: u8 = 0;
    while d < max_depth && cell_size_at(d) > r
        invariant
            0 <= d <= max_depth,
            max_depth <= MAX_DEPTH,
            spec_depth_for(r as int, max_depth, 0) == spec_depth_for(r as int, max_depth, d),
            d > 0 ==> cell_size((d - 1) as nat) > r,
        decreases max_depth - d,
    {
        d = d + 1;
    }
    d
}

/// The visible cells of the previous frame, together with the flags
/// the rest of the pipeline is driven by.
pub struct HEALPixCellsInView {
    pub view: HEALPixCells,
    pub view_changed: bool,
    pub new_cells_added: bool,
    pub last_depth_change_aperture: i64,
    pub hysteresis_margin: i64,
}

/// Everything refresh_cells promises, as one predicate, so that laws
/// about consecutive refreshes can be stated and proved.
pub open spec fn refresh_post(
    pre: HEALPixCellsInView,
    post: HEALPixCellsInView,
    camera: CameraViewPort,
    fov_type: crate::fov::FieldOfViewType,
    texture_size: u32,
    max_depth: u8,
) -> bool {
    let res = target_resolution(camera, texture_size);
    let d = spec_depth_for(res, max_depth, 0);
    &&& post.view.depth == d
    &&& post.view.cells@ == visible_cells(d, spec_fov_bbox(fov_type))
    &&& post.view_changed == !(pre.view.depth == d && pre.view.cells@ == post.view.cells@)
    &&& post.new_cells_added == (exists|i: int|
        0 <= i < post.view.cells@.len() && !pre.view.cells@.contains(
            #[trigger] post.view.cells@[i],
        ))
    &&& post.last_depth_change_aperture == if d == pre.view.depth {
        pre.last_depth_change_aperture
    } else {
        camera.aperture
    }
    &&& post.hysteresis_margin == pre.hysteresis_margin
}

impl HEALPixCellsInView {
    pub open spec fn wf(self) -> bool {
        &&& self.view.wf()
        &&& 0 <= self.last_depth_change_aperture <= GRID_WIDTH
        &&& 0 <= self.hysteresis_margin <= GRID_WIDTH
    }

    /// An empty view; nothing is drawn until the first refresh.
    pub fn new(hysteresis_margin: i64) -> (v: HEALPixCellsInView)
        requires
            0 <= hysteresis_margin <= GRID_WIDTH,
        ensures
            v.wf(),
            v.view.depth == 0,
            v.view.cells@.len() == 0,
            !v.view_changed,
            !v.new_cells_added,
            v.last_depth_change_aperture == GRID_WIDTH,
            v.hysteresis_margin == hysteresis_margin,
    {
        HEALPixCellsInView {
            view: HEALPixCells { depth: 0, cells: Vec::new() },
            view_changed: false,
            new_cells_added: false,
            last_depth_change_aperture: GRID_WIDTH,
            hysteresis_margin,
        }
    }

    /// Recomputes the visible cells for the current camera: the depth
    /// matching the angular resolution, the pruned walk under the
    /// field of view, and the change flags against the previous frame.
    pub fn refresh_cells(
        &mut self,
        texture_size: u32,
        max_depth: u8,
        camera: &CameraViewPort,
        fov: &FieldOfViewVertices,
    )
        requires
            old(self).wf(),
            camera.wf(),
            0 < texture_size <= 0x10000,
            max_depth <= MAX_DEPTH,
        ensures
            final(self).wf(),
            refresh_post(
                *old(self),
                *final(self),
                *camera,
                fov.spec_type(),
                texture_size,
                max_depth,
            ),
    {
        proof {
            vstd::arithmetic::mul::lemma_mul_upper_bound(
                camera.aperture as int,
                GRID_WIDTH as int,
                texture_size as int,
                0x10000,
            );
        }
        let res: i64 = camera.get_aperture() * (texture_size as i64) / (camera.viewport_width
            as i64);
        let new_depth = depth_from_resolution(res, max_depth);
        let new_view = get_cells_in_camera(new_depth, fov);

        let mut added = false;
        let mut i: usize = 0;
        while i < new_view.cells.len()
            invariant
                0 <= i <= new_view.cells@.len(),
                added == (exists|j: int|
                    0 <= j < i && !self.view.cells@.contains(#[trigger] new_view.cells@[j])),
            decreases new_view.cells@.len() - i,
        {
            if !self.view.contains(&new_view.cells[i]) {
                added = true;
            }
            i = i + 1;
        }

        let changed = new_depth != self.view.depth || !cells_eq(&new_view.cells, &self.view.cells);
        if new_depth != self.view.depth {
            self.last_depth_change_aperture = camera.get_aperture();
        }
        self.view = new_view;
        self.view_changed = changed;
        self.new_cells_added = added;
    }

    pub fn get_cells(&self) -> (c: &HEALPixCells)
        ensures
            *c == self.view,
    {
        &self.view
    }

    pub fn get_depth(&self) -> (d: u8)
        ensures
            d == self.view.depth,
    {
        self.view.depth
    }

    /// Did the last refresh change the visible set or its depth?
    pub fn is_view_different(&self) -> (b: bool)
        ensures
            b == self.view_changed,
    {
        self.view_changed
    }

    /// Consumed by the draw path: did the last refresh bring cells
    /// that were not in view before?
    pub fn is_there_new_cells_added(&self) -> (b: bool)
        ensures
            b == self.new_cells_added,
    {
        self.new_cells_added
    }

    /// A copy of the current visible set, used to protect its cells
    /// from eviction while a tile batch is admitted.
    pub fn snapshot_cells(&self) -> (r: HEALPixCells)
        ensures
            r.depth == self.view.depth,
            r.cells@ == self.view.cells@,
    {
        let mut cells: Vec<HEALPixCell> = Vec::new();
        let mut i: usize = 0;
        while i < self.view.cells.len()
            invariant
                0 <= i <= self.view.cells@.len(),
                cells@ =~= self.view.cells@.take(i as int),
            decreases self.view.cells@.len() - i,
        {
            cells.push(self.view.cells[i]);
            proof {
                assert(self.view.cells@.take(i + 1) =~= self.view.cells@.take(i as int).push(
                    self.view.cells@[i as int],
                ));
            }
            i = i + 1;
        }
        proof {
            assert(self.view.cells@.take(self.view.cells@.len() as int) =~= self.view.cells@);
        }
        HEALPixCells { depth: self.view.depth, cells }
    }

    /// The zoom-out hysteresis predicate: the aperture has not yet
    /// grown past the last depth change by the configured margin, so
    /// the one-level-finer cells are still drawn.
    pub fn has_depth_decreased_while_unzooming(&self, camera: &CameraViewPort) -> (b: bool)
        requires
            self.wf(),
            camera.wf(),
        ensures
            b == (camera.aperture < self.last_depth_change_aperture + self.hysteresis_margin),
    {
        camera.get_aperture() < self.last_depth_change_aperture + self.hysteresis_margin
    }
}

/// Refreshing twice under an unchanged camera, field of view and
/// configuration leaves the change flag unset the second time: the
/// walk is a function of those inputs alone.
pub proof fn lemma_refresh_idempotent(
    v0: HEALPixCellsInView,
    v1: HEALPixCellsInView,
    v2: HEALPixCellsInView,
    camera: CameraViewPort,
    fov_type: crate::fov::FieldOfViewType,
    texture_size: u32,
    max_depth: u8,
)
    requires
        refresh_post(v0, v1, camera, fov_type, texture_size, max_depth),
        refresh_post(v1, v2, camera, fov_type, texture_size, max_depth),
    ensures
        !v2.view_changed,
{
}

/// Compares two cell lists element by element.
fn cells_eq(a: &Vec<HEALPixCell>, b: &Vec<HEALPixCell>) -> (r: bool)
    ensures
        r == (a@ == b@),
{
    if a.len() != b.len() {
        return false;
    }
    let mut i: usize = 0;
    while i < a.len()
        invariant
            0 <= i <= a@.len(),
            a@.len() == b@.len(),
            forall|j: int| 0 <= j < i ==> a@[j] == b@[j],
        decreases a@.len() - i,
    {
        let x = a[i];
        let y = b[i];
        if x.depth != y.depth || x.idx != y.idx {
            return false;
        }
        i = i + 1;
    }
    proof {
        assert(a@ =~= b@);
    }
    true
}

} // verus!
