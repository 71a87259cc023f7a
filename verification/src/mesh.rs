//! Mesh generation: each drawn cell is tessellated into an n x n grid
//! of quads in its native angular coordinates, with two sets of
//! texture coordinates (the start and end tile of its cross-fade) and
//! the blend-start timestamp, all in fixed-point grid units. The
//! rendering layer turns angular positions into unit vectors and the
//! stream into its vertex buffer.

use vstd::prelude::*;

use crate::buffer::Texture;
use crate::cell::HEALPixCell;
use crate::cell::lemma_parent_wf;
use crate::geometry::cell_size;
use crate::geometry::cell_size_at;
use crate::geometry::lemma_cell_bbox_wf;
use crate::geometry::lemma_cell_size_monotonic;
use crate::geometry::pw2;
use crate::geometry::spec_cell_bbox;
use crate::transition::RecomputeRasterizer;
use crate::transition::SphereSubdivided;
use crate::transition::TextureToDraw;
use crate::transition::TexturesToDraw;
use vstd::arithmetic::div_mod::lemma_fundamental_div_mod_converse;

verus! {

/// At most this many cells are tessellated per frame.
pub const MAX_NUM_CELLS_TO_DRAW: usize = 768;

/// Hard cap on the vertex stream, bounding the per-frame upload size.
pub const MAX_NUM_VERTICES_TO_DRAW: usize = 3072;

/// Hard cap on the index stream.
pub const MAX_NUM_INDICES_TO_DRAW: usize = 4608;

/// Fixed-point scale of texture coordinates within one tile: this
/// value stands for the full width of a tile's atlas region.
pub const UV_SCALE: i64 = 0x4000_0000;

/// One mesh vertex: angular position in grid units, texture
/// coordinates into the start and end tile's atlas region, and the
/// blend-start time of the cross-fade.
#[derive(Clone, Copy, PartialEq, Eq, Structural, Debug)]
pub struct Vertex {
    pub lon: i64,
    pub lat: i64,
    pub uv0_u: i64,
    pub uv0_v: i64,
    pub uv0_l: i64,
    pub uv1_u: i64,
    pub uv1_v: i64,
    pub uv1_l: i64,
    pub time_received: u64,
}

impl Vertex {
    pub fn new(
        lon: i64,
        lat: i64,
        uv_0: (i64, i64, i64),
        uv_1: (i64, i64, i64),
        time_received: u64,
    ) -> (v: Vertex)
        ensures
            v == (Vertex {
                lon,
                lat,
                uv0_u: uv_0.0,
                uv0_v: uv_0.1,
                uv0_l: uv_0.2,
                uv1_u: uv_1.0,
                uv1_v: uv_1.1,
                uv1_l: uv_1.2,
                time_received,
            }),
    {
        Vertex {
            lon,
            lat,
            uv0_u: uv_0.0,
            uv0_v: uv_0.1,
            uv0_l: uv_0.2,
            uv1_u: uv_1.0,
            uv1_v: uv_1.1,
            uv1_l: uv_1.2,
            time_received,
        }
    }

    /// Flattens the vertex into the interleaved scalar stream the
    /// vertex buffer is filled with: lon, lat, both uv triples, and
    /// the blend start.
    pub fn add_to_vertices(&self, vertices: &mut Vec<i64>)
        requires
            self.time_received <= 0x7FFF_FFFF_FFFF_FFFF,
        ensures
            final(vertices)@ == old(vertices)@ + seq![
                self.lon,
                self.lat,
                self.uv0_u,
                self.uv0_v,
                self.uv0_l,
                self.uv1_u,
                self.uv1_v,
                self.uv1_l,
                self.time_received as i64,
            ],
    {
        vertices.push(self.lon);
        vertices.push(self.lat);
        vertices.push(self.uv0_u);
        vertices.push(self.uv0_v);
        vertices.push(self.uv0_l);
        vertices.push(self.uv1_u);
        vertices.push(self.uv1_v);
        vertices.push(self.uv1_l);
        vertices.push(self.time_received as i64);
        proof {
            assert(vertices@ =~= old(vertices)@ + seq![
                self.lon,
                self.lat,
                self.uv0_u,
                self.uv0_v,
                self.uv0_l,
                self.uv1_u,
                self.uv1_v,
                self.uv1_l,
                self.time_received as i64,
            ]);
        }
    }
}

/// The cell's column among the 2^d columns of its ancestor d levels
/// up: each level contributes one bit, taken from the child offset.
pub open spec fn rel_x(c: HEALPixCell, d: nat) -> int
    decreases d,
{
    if d == 0 {
        0
    } else {
        2 * rel_x(c.spec_parent(), (d - 1) as nat) + (c.idx % 4) % 2
    }
}

/// The cell's row among the 2^d rows of its ancestor d levels up.
pub open spec fn rel_y(c: HEALPixCell, d: nat) -> int
    decreases d,
{
    if d == 0 {
        0
    } else {
        2 * rel_y(c.spec_parent(), (d - 1) as nat) + (c.idx % 4) / 2
    }
}

pub proof fn lemma_rel_bounds(c: HEALPixCell, d: nat)
    ensures
        0 <= rel_x(c, d) < pw2(d),
        0 <= rel_y(c, d) < pw2(d),
    decreases d,
{
    if d == 0 {
        assert(pw2(0) == 1);
    } else {
        lemma_rel_bounds(c.spec_parent(), (d - 1) as nat);
    }
}

fn rel_x_of(c: &HEALPixCell, d: u8) -> (r: i64)
    requires
        c.wf(),
        d <= c.depth,
    ensures
        r == rel_x(*c, d as nat),
        0 <= r < pw2(d as nat),
    decreases d,
{
    proof {
        lemma_rel_bounds(*c, d as nat);
        crate::geometry::lemma_pw2_monotonic(d as nat, 30);
        crate::geometry::lemma_cell_size_pow(0);
    }
    if d == 0 {
        0
    } else {
        proof {
            lemma_parent_wf(*c);
        }
        let p = c.parent();
        let r = 2 * rel_x_of(&p, d - 1) + ((c.idx % 4) % 2) as i64;
        r
    }
}

fn rel_y_of(c: &HEALPixCell, d: u8) -> (r: i64)
    requires
        c.wf(),
        d <= c.depth,
    ensures
        r == rel_y(*c, d as nat),
        0 <= r < pw2(d as nat),
    decreases d,
{
    proof {
        lemma_rel_bounds(*c, d as nat);
        crate::geometry::lemma_pw2_monotonic(d as nat, 30);
        crate::geometry::lemma_cell_size_pow(0);
    }
    if d == 0 {
        0
    } else {
        proof {
            lemma_parent_wf(*c);
        }
        let p = c.parent();
        let r = 2 * rel_y_of(&p, d - 1) + ((c.idx % 4) / 2) as i64;
        r
    }
}

/// The region of a tile's atlas square that one cell covers: the tile
/// shows an ancestor of the cell, and the cell occupies one square of
/// the 2^d x 2^d grid inside it, d levels down.
#[derive(Clone, Copy, PartialEq, Eq, Structural, Debug)]
pub struct TileUVW {
    pub u0: i64,
    pub v0: i64,
    pub u1: i64,
    pub v1: i64,
    pub layer: i64,
}

/// The atlas region as a function of the cell and the texture.
pub open spec fn spec_tile_uvw(cell: HEALPixCell, tex: Texture) -> TileUVW {
    let d = (cell.depth - tex.cell.depth) as nat;
    let w = cell_size(d);
    TileUVW {
        u0: (rel_x(cell, d) * w) as i64,
        v0: (rel_y(cell, d) * w) as i64,
        u1: (rel_x(cell, d) * w + w) as i64,
        v1: (rel_y(cell, d) * w + w) as i64,
        layer: tex.slot_idx as i64,
    }
}

impl TileUVW {
    pub open spec fn wf(self) -> bool {
        0 <= self.u0 <= self.u1 <= UV_SCALE && 0 <= self.v0 <= self.v1 <= UV_SCALE && self.layer
            >= 0
    }

    /// Computes where in the texture's atlas region the cell lies.
    pub fn new(cell: &HEALPixCell, tex: &Texture, _config: &crate::buffer::HiPSConfig) -> (t:
        TileUVW)
        requires
            cell.wf(),
            tex.cell.wf(),
            cell.has_ancestor(tex.cell),
            tex.slot_idx <= 0x7FFF_FFFF,
        ensures
            t == spec_tile_uvw(*cell, *tex),
            t.wf(),
            t.u1 - t.u0 == cell_size((cell.depth - tex.cell.depth) as nat),
            t.v1 - t.v0 == cell_size((cell.depth - tex.cell.depth) as nat),
    {
        let d: u8 = cell.depth - tex.cell.depth;
        let w = cell_size_at(d);
        let rx = rel_x_of(cell, d);
        let ry = rel_y_of(cell, d);
        proof {
            lemma_rel_bounds(*cell, d as nat);
            lemma_uv_in_scale(*cell, d as nat);
        }
        TileUVW {
            u0: rx * w,
            v0: ry * w,
            u1: rx * w + w,
            v1: ry * w + w,
            layer: tex.slot_idx as i64,
        }
    }
}

/// The number of segments per cell side at one subdivision level.
pub open spec fn seg_count(d: u8) -> int {
    if d == 0 {
        1
    } else if d == 1 {
        2
    } else if d == 2 {
        4
    } else {
        8
    }
}

/// The vertex at grid point (i, j) of a cell tessellated into n x n
/// quads: the angular position walks the cell's box, and each uv
/// triple walks the tile's atlas region, both linearly.
pub open spec fn spec_grid_vertex(
    cell: HEALPixCell,
    n: int,
    i: int,
    j: int,
    uv0: TileUVW,
    uv1: TileUVW,
    alpha: u64,
) -> Vertex {
    let b = spec_cell_bbox(cell);
    let step = cell_size(cell.depth as nat) / n;
    Vertex {
        lon: (b.x0 + j * step) as i64,
        lat: (b.y0 + i * step) as i64,
        uv0_u: (uv0.u0 + j * ((uv0.u1 - uv0.u0) / n)) as i64,
        uv0_v: (uv0.v0 + i * ((uv0.v1 - uv0.v0) / n)) as i64,
        uv0_l: uv0.layer,
        uv1_u: (uv1.u0 + j * ((uv1.u1 - uv1.u0) / n)) as i64,
        uv1_v: (uv1.v0 + i * ((uv1.v1 - uv1.v0) / n)) as i64,
        uv1_l: uv1.layer,
        time_received: alpha,
    }
}

/// The vertices one cell contributes, in row-major order.
pub open spec fn grid_vertices(
    cell: HEALPixCell,
    n: int,
    uv0: TileUVW,
    uv1: TileUVW,
    alpha: u64,
) -> Seq<Vertex> {
    Seq::new(
        ((n + 1) * (n + 1)) as nat,
        |k: int| spec_grid_vertex(cell, n, k / (n + 1), k % (n + 1), uv0, uv1, alpha),
    )
}

/// The k-th index value one cell contributes: two triangles per quad,
/// in row-major quad order, relative to the vertex offset off.
pub open spec fn spec_quad_index(off: int, n: int, k: int) -> int {
    let q = k / 6;
    let s = k % 6;
    let qi = q / n;
    let qj = q % n;
    let base = off + qj + qi * (n + 1);
    if s == 0 {
        base
    } else if s == 1 {
        base + 1
    } else if s == 2 {
        base + n + 1
    } else if s == 3 {
        base + 1
    } else if s == 4 {
        base + n + 2
    } else {
        base + n + 1
    }
}

/// The index stream one cell contributes.
pub open spec fn grid_indices(off: int, n: int) -> Seq<u16> {
    Seq::new((6 * n * n) as nat, |k: int| spec_quad_index(off, n, k) as u16)
}

/// Every index value a cell contributes points into that cell's own
/// vertex range.
pub proof fn lemma_grid_index_bound(off: int, n: int, k: int)
    requires
        1 <= n <= 8,
        0 <= off,
        0 <= k < 6 * n * n,
    ensures
        off <= spec_quad_index(off, n, k) < off + (n + 1) * (n + 1),
{
    let q = k / 6;
    let s = k % 6;
    assert(0 <= s < 6);
    assert(0 <= q < n * n) by (nonlinear_arith)
        requires
            0 <= k < 6 * n * n,
            q == k / 6,
    ;
    let qi = q / n;
    let qj = q % n;
    assert(0 <= qj < n && 0 <= qi < n) by (nonlinear_arith)
        requires
            0 <= q < n * n,
            1 <= n,
            qi == q / n,
            qj == q % n,
    ;
    assert(qj + qi * (n + 1) + n + 2 <= (n + 1) * (n + 1) - 1) by (nonlinear_arith)
        requires
            0 <= qj < n,
            0 <= qi < n,
            1 <= n <= 8,
    ;
    assert(qj + qi * (n + 1) >= 0) by (nonlinear_arith)
        requires
            0 <= qj,
            0 <= qi,
            1 <= n,
    ;
}

/// 2^a * 2^b == 2^(a + b).
proof fn lemma_pw2_adds(a: nat, b: nat)
    ensures
        pw2(a) * pw2(b) == pw2(a + b),
    decreases a,
{
    if a == 0 {
        assert(pw2(0) * pw2(b) == pw2(b));
    } else {
        lemma_pw2_adds((a - 1) as nat, b);
        assert(pw2(a) * pw2(b) == 2 * (pw2((a - 1) as nat) * pw2(b)))
            by (nonlinear_arith)
            requires
                pw2(a) == 2 * pw2((a - 1) as nat),
        ;
    }
}

/// A cell's square inside its ancestor's tile stays within the tile's
/// atlas region.
proof fn lemma_uv_in_scale(c: HEALPixCell, d: nat)
    requires
        d <= 30,
    ensures
        0 <= rel_x(c, d) * cell_size(d),
        rel_x(c, d) * cell_size(d) + cell_size(d) <= UV_SCALE,
        0 <= rel_y(c, d) * cell_size(d),
        rel_y(c, d) * cell_size(d) + cell_size(d) <= UV_SCALE,
{
    lemma_rel_bounds(c, d);
    crate::geometry::lemma_cell_size_pow(d);
    lemma_pw2_adds(d, (30 - d) as nat);
    crate::geometry::lemma_cell_size_monotonic(0, d);
    let w = cell_size(d);
    assert(rel_x(c, d) * w >= 0) by (nonlinear_arith)
        requires
            rel_x(c, d) >= 0,
            w >= 1,
    ;
    assert(rel_y(c, d) * w >= 0) by (nonlinear_arith)
        requires
            rel_y(c, d) >= 0,
            w >= 1,
    ;
    assert(rel_x(c, d) * w + w <= pw2(d) * w) by (nonlinear_arith)
        requires
            rel_x(c, d) < pw2(d),
            w >= 1,
    ;
    assert(rel_y(c, d) * w + w <= pw2(d) * w) by (nonlinear_arith)
        requires
            rel_y(c, d) < pw2(d),
            w >= 1,
    ;
    assert(pw2(d) * w == pw2(30));
    assert(pw2(30) == UV_SCALE) by {
        crate::geometry::lemma_cell_size_pow(0);
    }
}

/// Appends one cell's tessellation to the vertex and index streams:
/// (n + 1)^2 vertices and 6 n^2 indices, n segments per side as the
/// strategy demands.
pub fn add_vertices_grid<E: RecomputeRasterizer>(
    vertices: &mut Vec<Vertex>,
    idx_positions: &mut Vec<u16>,
    cell: &HEALPixCell,
    sphere_sub: &SphereSubdivided,
    uv_0: &TileUVW,
    uv_1: &TileUVW,
    alpha: u64,
)
    requires
        cell.wf(),
        uv_0.wf(),
        uv_1.wf(),
        old(vertices)@.len() + 81 <= 0xFFFF,
    ensures
        ({
            let n = seg_count(E::spec_num_subdivide(*cell, *sphere_sub));
            let off = old(vertices)@.len() as int;
            &&& final(vertices)@ == old(vertices)@ + grid_vertices(*cell, n, *uv_0, *uv_1, alpha)
            &&& final(idx_positions)@ == old(idx_positions)@ + grid_indices(off, n)
        }),
{
    let n_sub = E::num_subdivision(cell, sphere_sub);
    let n_seg: u16 = if n_sub == 0 {
        1
    } else if n_sub == 1 {
        2
    } else if n_sub == 2 {
        4
    } else {
        8
    };
    let ghost n = seg_count(E::spec_num_subdivide(*cell, *sphere_sub));
    proof {
        assert(n == n_seg as int);
    }
    let nv: u16 = n_seg + 1;
    let off: usize = vertices.len();
    let b = cell.bbox();
    let w = cell_size_at(cell.depth);
    proof {
        lemma_cell_bbox_wf(*cell);
        lemma_cell_size_monotonic(0, cell.depth as nat);
    }
    let nd: i64 = n_seg as i64;
    proof {
        assert(0 <= (w as int) / (nd as int) <= w) by (nonlinear_arith)
            requires
                1 <= nd,
                0 <= w,
        ;
        assert(0 <= ((uv_0.u1 - uv_0.u0) as int) / (nd as int) <= uv_0.u1 - uv_0.u0) by (nonlinear_arith)
            requires
                1 <= nd,
                0 <= uv_0.u1 - uv_0.u0,
        ;
        assert(0 <= ((uv_0.v1 - uv_0.v0) as int) / (nd as int) <= uv_0.v1 - uv_0.v0) by (nonlinear_arith)
            requires
                1 <= nd,
                0 <= uv_0.v1 - uv_0.v0,
        ;
        assert(0 <= ((uv_1.u1 - uv_1.u0) as int) / (nd as int) <= uv_1.u1 - uv_1.u0) by (nonlinear_arith)
            requires
                1 <= nd,
                0 <= uv_1.u1 - uv_1.u0,
        ;
        assert(0 <= ((uv_1.v1 - uv_1.v0) as int) / (nd as int) <= uv_1.v1 - uv_1.v0) by (nonlinear_arith)
            requires
                1 <= nd,
                0 <= uv_1.v1 - uv_1.v0,
        ;
    }
    let step: i64 = w / nd;
    let su0: i64 = (uv_0.u1 - uv_0.u0) / nd;
    let sv0: i64 = (uv_0.v1 - uv_0.v0) / nd;
    let su1: i64 = (uv_1.u1 - uv_1.u0) / nd;
    let sv1: i64 = (uv_1.v1 - uv_1.v0) / nd;
    let ghost gvs = grid_vertices(*cell, n, *uv_0, *uv_1, alpha);
    let ghost vs0 = old(vertices)@;

    let mut i: u16 = 0;
    while i < nv
        invariant
            0 <= i <= nv,
            nv == n_seg + 1,
            1 <= n_seg <= 8,
            n == n_seg as int,
            off == vs0.len(),
            off + 81 <= 0xFFFF,
            b == spec_cell_bbox(*cell),
            0 <= b.x0 && b.x1 <= crate::geometry::GRID_WIDTH && 0 <= b.y0 && b.y1
                <= crate::geometry::GRID_HEIGHT && b.x0 <= b.x1 && b.y0 <= b.y1,
            w == cell_size(cell.depth as nat),
            nd == n_seg as i64,
            step == (w as int) / n,
            0 <= step <= 0x4000_0000,
            su0 == ((uv_0.u1 - uv_0.u0) as int) / n,
            sv0 == ((uv_0.v1 - uv_0.v0) as int) / n,
            su1 == ((uv_1.u1 - uv_1.u0) as int) / n,
            sv1 == ((uv_1.v1 - uv_1.v0) as int) / n,
            0 <= su0 <= UV_SCALE && 0 <= sv0 <= UV_SCALE && 0 <= su1 <= UV_SCALE && 0 <= sv1
                <= UV_SCALE,
            uv_0.wf(),
            uv_1.wf(),
            gvs == grid_vertices(*cell, n, *uv_0, *uv_1, alpha),
            vertices@ == vs0 + gvs.take((i * nv) as int),
        decreases nv - i,
    {
        let mut j: u16 = 0;
        while j < nv
            invariant
                0 <= j <= nv,
                0 <= i < nv,
                nv == n_seg + 1,
                1 <= n_seg <= 8,
                n == n_seg as int,
                off == vs0.len(),
                off + 81 <= 0xFFFF,
                b == spec_cell_bbox(*cell),
                0 <= b.x0 && b.x1 <= crate::geometry::GRID_WIDTH && 0 <= b.y0 && b.y1
                    <= crate::geometry::GRID_HEIGHT && b.x0 <= b.x1 && b.y0 <= b.y1,
                w == cell_size(cell.depth as nat),
                nd == n_seg as i64,
                step == (w as int) / n,
                0 <= step <= 0x4000_0000,
                su0 == ((uv_0.u1 - uv_0.u0) as int) / n,
                sv0 == ((uv_0.v1 - uv_0.v0) as int) / n,
                su1 == ((uv_1.u1 - uv_1.u0) as int) / n,
                sv1 == ((uv_1.v1 - uv_1.v0) as int) / n,
                0 <= su0 <= UV_SCALE && 0 <= sv0 <= UV_SCALE && 0 <= su1 <= UV_SCALE && 0 <= sv1
                    <= UV_SCALE,
                uv_0.wf(),
                uv_1.wf(),
                gvs == grid_vertices(*cell, n, *uv_0, *uv_1, alpha),
                vertices@ == vs0 + gvs.take((i * nv + j) as int),
            decreases nv - j,
        {
            proof {
                assert(0 <= (j as int) * step <= 9 * 0x4000_0000) by (nonlinear_arith)
                    requires
                        0 <= j <= 9,
                        0 <= step <= 0x4000_0000,
                ;
                assert(0 <= (i as int) * step <= 9 * 0x4000_0000) by (nonlinear_arith)
                    requires
                        0 <= i <= 9,
                        0 <= step <= 0x4000_0000,
                ;
                assert(0 <= (j as int) * su0 <= 9 * 0x4000_0000) by (nonlinear_arith)
                    requires
                        0 <= j <= 9,
                        0 <= su0 <= 0x4000_0000,
                ;
                assert(0 <= (i as int) * sv0 <= 9 * 0x4000_0000) by (nonlinear_arith)
                    requires
                        0 <= i <= 9,
                        0 <= sv0 <= 0x4000_0000,
                ;
                assert(0 <= (j as int) * su1 <= 9 * 0x4000_0000) by (nonlinear_arith)
                    requires
                        0 <= j <= 9,
                        0 <= su1 <= 0x4000_0000,
                ;
                assert(0 <= (i as int) * sv1 <= 9 * 0x4000_0000) by (nonlinear_arith)
                    requires
                        0 <= i <= 9,
                        0 <= sv1 <= 0x4000_0000,
                ;
            }
            let v = Vertex {
                lon: b.x0 + (j as i64) * step,
                lat: b.y0 + (i as i64) * step,
                uv0_u: uv_0.u0 + (j as i64) * su0,
                uv0_v: uv_0.v0 + (i as i64) * sv0,
                uv0_l: uv_0.layer,
                uv1_u: uv_1.u0 + (j as i64) * su1,
                uv1_v: uv_1.v0 + (i as i64) * sv1,
                uv1_l: uv_1.layer,
                time_received: alpha,
            };
            vertices.push(v);
            proof {
                let m = (i * nv + j) as int;
                assert(m + 1 <= (nv * nv) as int) by (nonlinear_arith)
                    requires
                        m == (i * nv + j) as int,
                        0 <= j < nv,
                        0 <= i < nv,
                ;
                assert(gvs.len() == (nv * nv) as int);
                lemma_fundamental_div_mod_converse(m, nv as int, i as int, j as int);
                assert(gvs[m] == v);
                assert(vertices@ =~= vs0 + gvs.take(m + 1));
            }
            j = j + 1;
        }
        proof {
            assert((i * nv + nv) as int == ((i + 1) * nv) as int) by (nonlinear_arith);
        }
        i = i + 1;
    }
    proof {
        assert((nv * nv) as int == gvs.len());
        assert(gvs.take(gvs.len() as int) =~= gvs);
    }

    let ghost gis = grid_indices(off as int, n);
    let ghost is0 = old(idx_positions)@;
    let off16: u16 = off as u16;
    let mut qi: u16 = 0;
    while qi < n_seg
        invariant
            0 <= qi <= n_seg,
            nv == n_seg + 1,
            1 <= n_seg <= 8,
            n == n_seg as int,
            off == vs0.len(),
            off + 81 <= 0xFFFF,
            off16 == off as u16,
            gis == grid_indices(off as int, n),
            idx_positions@ == is0 + gis.take((6 * (qi * n_seg)) as int),
        decreases n_seg - qi,
    {
        let mut qj: u16 = 0;
        while qj < n_seg
            invariant
                0 <= qj <= n_seg,
                0 <= qi < n_seg,
                nv == n_seg + 1,
                1 <= n_seg <= 8,
                n == n_seg as int,
                off == vs0.len(),
                off + 81 <= 0xFFFF,
                off16 == off as u16,
                gis == grid_indices(off as int, n),
                idx_positions@ == is0 + gis.take((6 * (qi * n_seg + qj)) as int),
            decreases n_seg - qj,
        {
            proof {
                assert(0 <= qi * nv <= 63 && qi * n_seg + qj < n_seg * n_seg <= 64)
                    by (nonlinear_arith)
                    requires
                        0 <= qi < n_seg,
                        0 <= qj < n_seg,
                        1 <= n_seg <= 8,
                        nv == n_seg + 1,
                ;
            }
            let base: u16 = off16 + qj + qi * nv;
            let idx_0: u16 = base;
            let idx_1: u16 = base + 1;
            let idx_2: u16 = base + nv;
            let idx_3: u16 = base + nv + 1;
            idx_positions.push(idx_0);
            idx_positions.push(idx_1);
            idx_positions.push(idx_2);
            idx_positions.push(idx_1);
            idx_positions.push(idx_3);
            idx_positions.push(idx_2);
            proof {
                let q = (qi * n_seg + qj) as int;
                let m = 6 * q;
                assert(m + 6 <= (6 * (n_seg * n_seg)) as int) by (nonlinear_arith)
                    requires
                        q == (qi * n_seg + qj) as int,
                        m == 6 * q,
                        0 <= qj < n_seg,
                        0 <= qi < n_seg,
                ;
                assert(gis.len() == (6 * (n_seg * n_seg)) as int) by (nonlinear_arith)
                    requires
                        gis.len() == 6 * (n_seg as int) * (n_seg as int),
                ;
                lemma_fundamental_div_mod_converse(m + 0, 6, q, 0);
                lemma_fundamental_div_mod_converse(m + 1, 6, q, 1);
                lemma_fundamental_div_mod_converse(m + 2, 6, q, 2);
                lemma_fundamental_div_mod_converse(m + 3, 6, q, 3);
                lemma_fundamental_div_mod_converse(m + 4, 6, q, 4);
                lemma_fundamental_div_mod_converse(m + 5, 6, q, 5);
                lemma_fundamental_div_mod_converse(q, n, qi as int, qj as int);
                assert(gis[m + 0] == (spec_quad_index(off as int, n, m + 0) as u16));
                assert(spec_quad_index(off as int, n, m + 0) == idx_0 as int);
                assert(spec_quad_index(off as int, n, m + 1) == idx_1 as int);
                assert(spec_quad_index(off as int, n, m + 2) == idx_2 as int);
                assert(spec_quad_index(off as int, n, m + 3) == idx_1 as int);
                assert(spec_quad_index(off as int, n, m + 4) == idx_3 as int);
                assert(spec_quad_index(off as int, n, m + 5) == idx_2 as int);
                assert(idx_positions@ =~= is0 + gis.take(m + 6));
            }
            qj = qj + 1;
        }
        proof {
            assert(6 * (qi * n_seg + n_seg) == 6 * ((qi + 1) * n_seg)) by (nonlinear_arith);
        }
        qi = qi + 1;
    }
    proof {
        assert((6 * (n_seg * n_seg)) as int == gis.len()) by (nonlinear_arith)
            requires
                n == n_seg as int,
                gis.len() == 6 * n * n,
                1 <= n_seg <= 8,
        ;
        assert(gis.take(gis.len() as int) =~= gis);
    }
}

/// The vertices one selection entry contributes.
pub open spec fn cell_vertex_seq<E: RecomputeRasterizer>(
    e: (HEALPixCell, TextureToDraw),
    ss: SphereSubdivided,
) -> Seq<Vertex> {
    let n = seg_count(E::spec_num_subdivide(e.0, ss));
    grid_vertices(
        e.0,
        n,
        spec_tile_uvw(e.0, e.1.starting_texture),
        spec_tile_uvw(e.0, e.1.ending_texture),
        e.1.ending_texture.start_time,
    )
}

/// The whole vertex stream for a list of taken entries.
pub open spec fn mesh_vertices_of<E: RecomputeRasterizer>(
    taken: Seq<(HEALPixCell, TextureToDraw)>,
    ss: SphereSubdivided,
) -> Seq<Vertex>
    decreases taken.len(),
{
    if taken.len() == 0 {
        Seq::empty()
    } else {
        mesh_vertices_of::<E>(taken.drop_last(), ss) + cell_vertex_seq::<E>(taken.last(), ss)
    }
}

/// The whole index stream for a list of taken entries, each cell's
/// indices offset by the vertices emitted before it.
pub open spec fn mesh_indices_of<E: RecomputeRasterizer>(
    taken: Seq<(HEALPixCell, TextureToDraw)>,
    ss: SphereSubdivided,
) -> Seq<u16>
    decreases taken.len(),
{
    if taken.len() == 0 {
        Seq::empty()
    } else {
        let n = seg_count(E::spec_num_subdivide(taken.last().0, ss));
        mesh_indices_of::<E>(taken.drop_last(), ss) + grid_indices(
            mesh_vertices_of::<E>(taken.drop_last(), ss).len() as int,
            n,
        )
    }
}

/// The entries the capped build takes: each entry in order, kept
/// exactly when its cell's tessellation still fits under both caps.
pub open spec fn greedy_taken<E: RecomputeRasterizer>(
    entries: Seq<(HEALPixCell, TextureToDraw)>,
    ss: SphereSubdivided,
) -> Seq<(HEALPixCell, TextureToDraw)>
    decreases entries.len(),
{
    if entries.len() == 0 {
        Seq::empty()
    } else {
        let t = greedy_taken::<E>(entries.drop_last(), ss);
        let n = seg_count(E::spec_num_subdivide(entries.last().0, ss));
        if mesh_vertices_of::<E>(t, ss).len() + (n + 1) * (n + 1) <= MAX_NUM_VERTICES_TO_DRAW
            && mesh_indices_of::<E>(t, ss).len() + 6 * n * n <= MAX_NUM_INDICES_TO_DRAW {
            t.push(entries.last())
        } else {
            t
        }
    }
}

/// A vertex/index stream ready for upload, with the count of cells
/// the caps forced out this frame.
pub struct Mesh {
    pub vertices: Vec<Vertex>,
    pub indices: Vec<u16>,
    pub dropped_cells: usize,
}

/// Builds the frame's mesh from the transition selection: every taken
/// cell contributes its tessellation, and cells that would push either
/// stream past its cap are dropped, in selection order — a bounded
/// degradation, never a failure.
#[verifier::rlimit(100)]
pub fn build_mesh<E: RecomputeRasterizer>(
    textures: &TexturesToDraw,
    config: &crate::buffer::HiPSConfig,
    sphere_sub: &SphereSubdivided,
) -> (m: Mesh)
    requires
        forall|j: int|
            0 <= j < textures.entries@.len() ==> {
                let e = #[trigger] textures.entries@[j];
                &&& e.0.wf()
                &&& e.1.starting_texture.cell.wf()
                &&& e.0.has_ancestor(e.1.starting_texture.cell)
                &&& e.1.starting_texture.slot_idx <= 0x7FFF_FFFF
                &&& e.1.ending_texture.cell.wf()
                &&& e.0.has_ancestor(e.1.ending_texture.cell)
                &&& e.1.ending_texture.slot_idx <= 0x7FFF_FFFF
            },
    ensures
        m.vertices@ == mesh_vertices_of::<E>(
            greedy_taken::<E>(textures.entries@, *sphere_sub),
            *sphere_sub,
        ),
        m.indices@ == mesh_indices_of::<E>(
            greedy_taken::<E>(textures.entries@, *sphere_sub),
            *sphere_sub,
        ),
        m.dropped_cells == textures.entries@.len() - greedy_taken::<E>(
            textures.entries@,
            *sphere_sub,
        ).len(),
        m.vertices@.len() <= MAX_NUM_VERTICES_TO_DRAW,
        m.indices@.len() <= MAX_NUM_INDICES_TO_DRAW,
        forall|k: int|
            0 <= k < m.indices@.len() ==> (#[trigger] m.indices@[k]) < m.vertices@.len(),
{
    let mut vertices: Vec<Vertex> = Vec::new();
    let mut indices: Vec<u16> = Vec::new();
    let mut dropped: usize = 0;
    let entries = textures.iter();
    let mut i: usize = 0;
    while i < entries.len()
        invariant
            0 <= i <= entries@.len(),
            entries@ == textures.entries@,
                        forall|j: int|
                0 <= j < textures.entries@.len() ==> {
                    let e = #[trigger] textures.entries@[j];
                    &&& e.0.wf()
                    &&& e.1.starting_texture.cell.wf()
                    &&& e.0.has_ancestor(e.1.starting_texture.cell)
                    &&& e.1.starting_texture.slot_idx <= 0x7FFF_FFFF
                    &&& e.1.ending_texture.cell.wf()
                    &&& e.0.has_ancestor(e.1.ending_texture.cell)
                    &&& e.1.ending_texture.slot_idx <= 0x7FFF_FFFF
                },
            vertices@ == mesh_vertices_of::<E>(
                greedy_taken::<E>(entries@.take(i as int), *sphere_sub),
                *sphere_sub,
            ),
            indices@ == mesh_indices_of::<E>(greedy_taken::<E>(entries@.take(i as int), *sphere_sub), *sphere_sub),
            dropped == i - greedy_taken::<E>(entries@.take(i as int), *sphere_sub).len(),
            greedy_taken::<E>(entries@.take(i as int), *sphere_sub).len() <= i,
            vertices@.len() <= MAX_NUM_VERTICES_TO_DRAW,
            indices@.len() <= MAX_NUM_INDICES_TO_DRAW,
            forall|k: int|
                0 <= k < indices@.len() ==> (#[trigger] indices@[k]) < vertices@.len(),
        decreases entries@.len() - i,
    {
        let (cell, ttd) = entries[i];
        let n_sub = E::num_subdivision(&cell, sphere_sub);
        let vc: usize = if n_sub == 0 {
            4
        } else if n_sub == 1 {
            9
        } else if n_sub == 2 {
            25
        } else {
            81
        };
        let ic: usize = if n_sub == 0 {
            6
        } else if n_sub == 1 {
            24
        } else if n_sub == 2 {
            96
        } else {
            384
        };
        proof {
            let n = seg_count(E::spec_num_subdivide(cell, *sphere_sub));
            if n_sub == 0 {
                assert(vc == (n + 1) * (n + 1) && ic == 6 * n * n) by (nonlinear_arith)
                    requires
                        n == 1,
                        vc == 4,
                        ic == 6,
                ;
            } else if n_sub == 1 {
                assert(vc == (n + 1) * (n + 1) && ic == 6 * n * n) by (nonlinear_arith)
                    requires
                        n == 2,
                        vc == 9,
                        ic == 24,
                ;
            } else if n_sub == 2 {
                assert(vc == (n + 1) * (n + 1) && ic == 6 * n * n) by (nonlinear_arith)
                    requires
                        n == 4,
                        vc == 25,
                        ic == 96,
                ;
            } else {
                assert(vc == (n + 1) * (n + 1) && ic == 6 * n * n) by (nonlinear_arith)
                    requires
                        n == 8,
                        vc == 81,
                        ic == 384,
                ;
            }
        }
        let ghost pre_taken = greedy_taken::<E>(entries@.take(i as int), *sphere_sub);
        proof {
            assert(entries@.take(i + 1).drop_last() =~= entries@.take(i as int));
            assert(entries@.take(i + 1).last() == entries@[i as int]);
        }
        if vertices.len() + vc <= MAX_NUM_VERTICES_TO_DRAW && indices.len() + ic
            <= MAX_NUM_INDICES_TO_DRAW {
            let ghost off = vertices@.len() as int;
            let ghost n = seg_count(E::spec_num_subdivide(cell, *sphere_sub));
            let uv_0 = TileUVW::new(&cell, &ttd.starting_texture, config);
            let uv_1 = TileUVW::new(&cell, &ttd.ending_texture, config);
            let alpha = ttd.ending_texture.start_time();
            add_vertices_grid::<E>(
                &mut vertices,
                &mut indices,
                &cell,
                sphere_sub,
                &uv_0,
                &uv_1,
                alpha,
            );
            proof {
                assert(greedy_taken::<E>(entries@.take(i + 1), *sphere_sub) == pre_taken.push(
                    entries@[i as int],
                ));
                assert(mesh_vertices_of::<E>(pre_taken.push(entries@[i as int]), *sphere_sub)
                    == mesh_vertices_of::<E>(pre_taken, *sphere_sub) + cell_vertex_seq::<E>(
                    entries@[i as int],
                    *sphere_sub,
                )) by {
                    assert(pre_taken.push(entries@[i as int]).drop_last() =~= pre_taken);
                }
                assert(mesh_indices_of::<E>(pre_taken.push(entries@[i as int]), *sphere_sub)
                    == mesh_indices_of::<E>(pre_taken, *sphere_sub) + grid_indices(off, n)) by {
                    assert(pre_taken.push(entries@[i as int]).drop_last() =~= pre_taken);
                }
                assert forall|k: int| 0 <= k < indices@.len() implies (#[trigger] indices@[k])
                    < vertices@.len() by {
                    if k >= indices@.len() - 6 * n * n {
                        let kk = k - (indices@.len() - 6 * n * n);
                        lemma_grid_index_bound(off, n, kk);
                        assert(indices@[k] == grid_indices(off, n)[kk]);
                    }
                }
            }
        } else {
            dropped = dropped + 1;
            proof {
                assert(greedy_taken::<E>(entries@.take(i + 1), *sphere_sub) == pre_taken);
            }
        }
        i = i + 1;
    }
    proof {
        assert(entries@.take(entries@.len() as int) =~= entries@);
    }
    Mesh { vertices, indices, dropped_cells: dropped }
}

/// When every cell fits under the caps, none is dropped: the greedy
/// selection takes the whole list.
pub proof fn lemma_greedy_all_fit<E: RecomputeRasterizer>(
    entries: Seq<(HEALPixCell, TextureToDraw)>,
    ss: SphereSubdivided,
)
    requires
        mesh_vertices_of::<E>(entries, ss).len() <= MAX_NUM_VERTICES_TO_DRAW,
        mesh_indices_of::<E>(entries, ss).len() <= MAX_NUM_INDICES_TO_DRAW,
    ensures
        greedy_taken::<E>(entries, ss) == entries,
    decreases entries.len(),
{
    if entries.len() > 0 {
        lemma_mesh_len_monotonic::<E>(entries);
        lemma_greedy_all_fit::<E>(entries.drop_last(), ss);
        assert(greedy_taken::<E>(entries, ss) =~= entries);
    }
}

proof fn lemma_mesh_len_monotonic<E: RecomputeRasterizer>(entries: Seq<(HEALPixCell, TextureToDraw)>)
    requires
        entries.len() > 0,
    ensures
        forall|ss: SphereSubdivided|
            mesh_vertices_of::<E>(entries.drop_last(), ss).len() + seg_plus_one_sq(
                seg_count(E::spec_num_subdivide(entries.last().0, ss)),
            ) == #[trigger] mesh_vertices_of::<E>(entries, ss).len(),
        forall|ss: SphereSubdivided|
            mesh_indices_of::<E>(entries.drop_last(), ss).len() + 6 * seg_count(
                E::spec_num_subdivide(entries.last().0, ss),
            ) * seg_count(E::spec_num_subdivide(entries.last().0, ss)) == #[trigger] mesh_indices_of::<
                E,
            >(entries, ss).len(),
{
}

/// (n + 1)^2, the vertex count of an n x n grid of quads.
pub open spec fn seg_plus_one_sq(n: int) -> int {
    (n + 1) * (n + 1)
}

} // verus!
