//! The hierarchical spherical grid: 12 root cells, each split into 4
//! children per depth level. A cell is identified by its depth and its
//! index among all cells of that depth.

use vstd::prelude::*;

verus! {

/// Deepest subdivision level the grid supports.
pub const MAX_DEPTH: u8 = 29;

/// Number of root cells of the grid.
pub const NUM_ROOT_CELLS: u64 = 12;

/// 4^d: how many descendants one cell has d levels below itself.
pub open spec fn pow4(d: nat) -> nat
    decreases d,
{
    if d == 0 {
        1
    } else {
        4 * pow4((d - 1) as nat)
    }
}

pub proof fn lemma_pow4_monotonic(a: nat, b: nat)
    requires
        a <= b,
    ensures
        pow4(a) <= pow4(b),
    decreases b,
{
    if a < b {
        lemma_pow4_monotonic(a, (b - 1) as nat);
    }
}

/// The grid never indexes more than 12 * 4^29 cells at one depth, which
/// fits comfortably in a u64.
pub proof fn lemma_pow4_max()
    ensures
        pow4(MAX_DEPTH as nat) == 0x400_0000_0000_0000,
{
    reveal_with_fuel(pow4, 30);
}

/// One cell of the hierarchical grid: a quadrant of the sphere at a
/// given subdivision depth. Cells are plain values, copied and compared
/// by value, never owned by the grid.
#[derive(Clone, Copy, PartialEq, Eq, Structural, Debug)]
pub struct HEALPixCell {
    pub depth: u8,
    pub idx: u64,
}

impl HEALPixCell {
    /// A cell is valid when its depth is supported and its index lies
    /// among the 12 * 4^depth cells of that depth.
    pub open spec fn wf(self) -> bool {
        self.depth <= MAX_DEPTH && (self.idx as nat) < 12 * pow4(self.depth as nat)
    }

    pub open spec fn spec_parent(self) -> HEALPixCell {
        HEALPixCell { depth: (self.depth - 1) as u8, idx: self.idx / 4 }
    }

    pub open spec fn spec_child(self, k: int) -> HEALPixCell {
        HEALPixCell { depth: (self.depth + 1) as u8, idx: (self.idx * 4 + k) as u64 }
    }

    /// The ancestor d levels above self.
    pub open spec fn spec_ancestor(self, d: nat) -> HEALPixCell
        decreases d,
    {
        if d == 0 {
            self
        } else {
            self.spec_parent().spec_ancestor((d - 1) as nat)
        }
    }

    /// True when `anc` lies on the parent chain of self (self included).
    pub open spec fn has_ancestor(self, anc: HEALPixCell) -> bool {
        anc.depth <= self.depth && anc == self.spec_ancestor((self.depth - anc.depth) as nat)
    }

    pub fn new(depth: u8, idx: u64) -> (c: HEALPixCell)
        requires
            depth <= MAX_DEPTH,
            (idx as nat) < 12 * pow4(depth as nat),
        ensures
            c == (HEALPixCell { depth, idx }),
            c.wf(),
    {
        HEALPixCell { depth, idx }
    }

    pub fn depth(&self) -> (d: u8)
        ensures
            d == self.depth,
    {
        self.depth
    }

    pub fn idx(&self) -> (i: u64)
        ensures
            i == self.idx,
    {
        self.idx
    }

    pub fn is_root(&self) -> (b: bool)
        ensures
            b == (self.depth == 0),
    {
        self.depth == 0
    }

    /// The cell one depth above that contains this cell.
    pub fn parent(&self) -> (p: HEALPixCell)
        requires
            self.wf(),
            self.depth > 0,
        ensures
            p == self.spec_parent(),
            p.wf(),
            p.depth == self.depth - 1,
    {
        proof {
            assert(12 * pow4(self.depth as nat) == 4 * (12 * pow4((self.depth - 1) as nat)));
        }
        HEALPixCell { depth: self.depth - 1, idx: self.idx / 4 }
    }

    /// The four cells one depth below that partition this cell.
    pub fn children(&self) -> (cs: Vec<HEALPixCell>)
        requires
            self.wf(),
            self.depth < MAX_DEPTH,
        ensures
            cs@.len() == 4,
            forall|k: int| 0 <= k < 4 ==> (#[trigger] cs@[k]) == self.spec_child(k),
            forall|k: int| 0 <= k < 4 ==> (#[trigger] cs@[k]).wf(),
            forall|k: int| 0 <= k < 4 ==> (#[trigger] cs@[k]).depth == self.depth + 1,
            forall|k: int| 0 <= k < 4 ==> (#[trigger] cs@[k]).spec_parent() == *self,
    {
        proof {
            lemma_children_in_range(*self);
        }
        let mut cs: Vec<HEALPixCell> = Vec::new();
        cs.push(HEALPixCell { depth: self.depth + 1, idx: self.idx * 4 });
        cs.push(HEALPixCell { depth: self.depth + 1, idx: self.idx * 4 + 1 });
        cs.push(HEALPixCell { depth: self.depth + 1, idx: self.idx * 4 + 2 });
        cs.push(HEALPixCell { depth: self.depth + 1, idx: self.idx * 4 + 3 });
        cs
    }

    /// Which of its parent's four children this cell is.
    pub fn child_offset(&self) -> (k: u64)
        requires
            self.depth > 0,
        ensures
            k == self.idx % 4,
            k < 4,
    {
        self.idx % 4
    }

    /// The root cell at the top of this cell's parent chain.
    pub fn root_ancestor(&self) -> (r: HEALPixCell)
        requires
            self.wf(),
        ensures
            r == self.spec_ancestor(self.depth as nat),
            r.wf(),
            r.depth == 0,
            self.has_ancestor(r),
    {
        let mut c: HEALPixCell = *self;
        while c.depth > 0
            invariant
                c.wf(),
                c.depth <= self.depth,
                self.spec_ancestor((self.depth - c.depth) as nat) == c,
                self.spec_ancestor(self.depth as nat) == c.spec_ancestor(c.depth as nat),
            decreases c.depth,
        {
            proof {
                lemma_ancestor_step(*self, (self.depth - c.depth) as nat);
            }
            c = c.parent();
        }
        c
    }
}

/// The parent of a valid non-root cell is valid.
pub proof fn lemma_parent_wf(c: HEALPixCell)
    requires
        c.wf(),
        c.depth > 0,
    ensures
        c.spec_parent().wf(),
        c.spec_parent().depth == c.depth - 1,
{
    assert(12 * pow4(c.depth as nat) == 4 * (12 * pow4((c.depth - 1) as nat)));
}

/// Every ancestor of a valid cell is valid and sits k levels above it.
pub proof fn lemma_ancestor_wf(c: HEALPixCell, k: nat)
    requires
        c.wf(),
        k <= c.depth,
    ensures
        c.spec_ancestor(k).wf(),
        c.spec_ancestor(k).depth == c.depth - k,
    decreases k,
{
    if k > 0 {
        lemma_parent_wf(c);
        lemma_ancestor_wf(c.spec_parent(), (k - 1) as nat);
    }
}

/// Climbing a levels and then b levels is climbing a + b levels.
pub proof fn lemma_ancestor_compose(c: HEALPixCell, a: nat, b: nat)
    ensures
        c.spec_ancestor(a).spec_ancestor(b) == c.spec_ancestor(a + b),
    decreases a,
{
    if a > 0 {
        lemma_ancestor_compose(c.spec_parent(), (a - 1) as nat, b);
    }
}

/// The ancestor relation is transitive.
pub proof fn lemma_has_ancestor_trans(d: HEALPixCell, m: HEALPixCell, c: HEALPixCell)
    requires
        d.has_ancestor(m),
        m.has_ancestor(c),
    ensures
        d.has_ancestor(c),
{
    lemma_ancestor_compose(d, (d.depth - m.depth) as nat, (m.depth - c.depth) as nat);
}

/// A strict descendant of c descends through exactly one child of c:
/// the ancestor of d one level below c, which is a valid child of c.
pub proof fn lemma_ancestor_decompose(d: HEALPixCell, c: HEALPixCell)
    requires
        d.wf(),
        d.has_ancestor(c),
        d.depth > c.depth,
    ensures
        ({
            let m = d.spec_ancestor((d.depth - c.depth - 1) as nat);
            m.wf() && m.depth == c.depth + 1 && m.spec_parent() == c && d.has_ancestor(m)
                && m == c.spec_child((m.idx % 4) as int)
        }),
{
    let k = (d.depth - c.depth - 1) as nat;
    let m = d.spec_ancestor(k);
    lemma_ancestor_wf(d, k);
    lemma_ancestor_step(d, k);
    assert(m.spec_parent() == c);
    lemma_parent_wf(m);
    assert(m.idx / 4 * 4 + m.idx % 4 == m.idx);
    assert(m == c.spec_child((m.idx % 4) as int));
}

/// Conversely, any valid cell reached by descending into a child of c
/// has c as an ancestor.
pub proof fn lemma_child_descendant(d: HEALPixCell, c: HEALPixCell, k: int)
    requires
        0 <= k < 4,
        d.has_ancestor(c.spec_child(k)),
        c.depth < MAX_DEPTH,
        c.wf(),
    ensures
        d.has_ancestor(c),
    decreases d.depth,
{
    let m = c.spec_child(k);
    lemma_children_in_range(c);
    assert(m.spec_parent() == c) by {
        assert((c.idx * 4 + k) / 4 == c.idx);
    }
    assert(m.has_ancestor(c)) by {
        lemma_ancestor_step(m, 0);
        assert(m.spec_ancestor(0) == m);
    }
    lemma_has_ancestor_trans(d, m, c);
}

/// Climbing one level further on the parent chain commutes with taking
/// the parent of the ancestor reached so far.
pub proof fn lemma_ancestor_step(c: HEALPixCell, d: nat)
    ensures
        c.spec_ancestor(d + 1) == c.spec_ancestor(d).spec_parent(),
    decreases d,
{
    if d == 0 {
        assert(c.spec_ancestor(1) == c.spec_parent().spec_ancestor(0));
    } else {
        lemma_ancestor_step(c.spec_parent(), (d - 1) as nat);
        assert(c.spec_ancestor(d + 1) == c.spec_parent().spec_ancestor(d));
        assert(c.spec_ancestor(d) == c.spec_parent().spec_ancestor((d - 1) as nat));
    }
}

pub proof fn lemma_children_in_range(c: HEALPixCell)
    requires
        c.wf(),
        c.depth < MAX_DEPTH,
    ensures
        c.idx * 4 + 3 < 12 * pow4((c.depth + 1) as nat),
        12 * pow4((c.depth + 1) as nat) <= u64::MAX,
{
    assert(12 * pow4((c.depth + 1) as nat) == 4 * (12 * pow4(c.depth as nat)));
    lemma_pow4_monotonic((c.depth + 1) as nat, MAX_DEPTH as nat);
    lemma_pow4_max();
}

/// Every valid cell has exactly 4 children, each one depth further down,
/// and each child's parent is the cell itself; for depth > 0 the cell's
/// parent is one depth up, and the cell is among its parent's children.
pub proof fn lemma_parent_child_round_trip(c: HEALPixCell)
    requires
        c.wf(),
        c.depth < MAX_DEPTH,
    ensures
        forall|k: int| 0 <= k < 4 ==> (#[trigger] c.spec_child(k)).spec_parent() == c,
        forall|k: int| 0 <= k < 4 ==> (#[trigger] c.spec_child(k)).depth == c.depth + 1,
        c.depth > 0 ==> c.spec_parent().depth == c.depth - 1,
        c.depth > 0 ==> exists|k: int| 0 <= k < 4 && c.spec_parent().spec_child(k) == c,
{
    lemma_children_in_range(c);
    if c.depth > 0 {
        let k = (c.idx % 4) as int;
        assert(c.spec_parent().spec_child(k) == c) by {
            assert(c.idx / 4 * 4 + c.idx % 4 == c.idx);
        }
    }
}

/// Climbing parent links from any valid cell reaches a root cell in
/// exactly `depth` steps, so ancestor-fallback lookups terminate.
pub proof fn lemma_parent_chain_reaches_root(c: HEALPixCell)
    requires
        c.wf(),
    ensures
        c.spec_ancestor(c.depth as nat).wf(),
        c.spec_ancestor(c.depth as nat).depth == 0,
        c.has_ancestor(c.spec_ancestor(c.depth as nat)),
{
    lemma_ancestor_wf(c, c.depth as nat);
}

/// Distinct valid cells at one depth have no child in common, so the 4
/// children of each cell at depth d are exactly the cells of depth d+1.
pub proof fn lemma_children_distinct(a: HEALPixCell, b: HEALPixCell)
    requires
        a.wf(),
        b.wf(),
        a.depth == b.depth,
        a.depth < MAX_DEPTH,
        a != b,
    ensures
        forall|j: int, k: int|
            0 <= j < 4 && 0 <= k < 4 ==> #[trigger] a.spec_child(j) != #[trigger] b.spec_child(k),
{
    lemma_children_in_range(a);
    lemma_children_in_range(b);
}

} // verus!
