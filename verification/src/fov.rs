//! The camera's field of view on the grid.
//!
//! A fixed ring of sample points around the viewport border is
//! unprojected by the rendering layer; the resulting model-space
//! vertices (already rotated into grid coordinates) are handed to this
//! module as plain fixed-point values. If any border sample fails to
//! unproject, the whole field of view falls back to the all-sky
//! sentinel, so visible-cell computation never under-covers.

use vstd::prelude::*;

use crate::geometry::BoundingBox;
use crate::geometry::GRID_HEIGHT;
use crate::geometry::GRID_WIDTH;
use crate::geometry::spec_whole_grid;

verus! {

/// Number of border samples along each horizontal viewport edge,
/// corners excluded.
pub const NUM_VERTICES_WIDTH: u64 = 10;

/// Number of border samples along each vertical viewport edge, corners
/// excluded.
pub const NUM_VERTICES_HEIGHT: u64 = 10;

/// Total number of border samples: the 4 corners plus the edge points.
pub const NUM_VERTICES: u64 = 44;

/// Fixed-point scale of normalized device coordinates: this value
/// stands for 1.0.
pub const NDC_SCALE: i64 = 0x10_0000;

/// A point in grid model space, in grid units.
#[derive(Clone, Copy, PartialEq, Eq, Structural, Debug)]
pub struct ModelCoord {
    pub x: i64,
    pub y: i64,
}

impl ModelCoord {
    /// Unprojected vertices are clamped into the grid rectangle by the
    /// rendering layer before they reach this crate.
    pub open spec fn wf(self) -> bool {
        0 <= self.x <= GRID_WIDTH && 0 <= self.y <= GRID_HEIGHT
    }
}

pub open spec fn all_wf(vs: Seq<ModelCoord>) -> bool {
    forall|i: int| 0 <= i < vs.len() ==> (#[trigger] vs[i]).wf()
}

/// A border sample lies on the edge of the square viewport.
pub open spec fn on_viewport_border(p: (i64, i64)) -> bool {
    &&& -NDC_SCALE <= p.0 <= NDC_SCALE
    &&& -NDC_SCALE <= p.1 <= NDC_SCALE
    &&& (p.0 == -NDC_SCALE || p.0 == NDC_SCALE || p.1 == -NDC_SCALE || p.1 == NDC_SCALE)
}

/// Walks one viewport edge, pushing `count` samples starting at
/// (sx, sy) and stepping by (dx, dy). Exactly one of dx, dy is
/// stepped, so the other coordinate pins the sample to its edge, and
/// every step is required to stay on the border square.
fn push_edge(r: &mut Vec<(i64, i64)>, sx: i64, sy: i64, dx: i64, dy: i64, count: usize)
    requires
        count <= 0xFFFF,
        -2 * NDC_SCALE <= dx <= 2 * NDC_SCALE,
        -2 * NDC_SCALE <= dy <= 2 * NDC_SCALE,
        dx == 0 || dy == 0,
        dx == 0 ==> sx == -NDC_SCALE || sx == NDC_SCALE,
        dy == 0 ==> sy == -NDC_SCALE || sy == NDC_SCALE,
        forall|j: int| 0 <= j < count ==> -NDC_SCALE <= sx + #[trigger] (j * dx) <= NDC_SCALE,
        forall|j: int| 0 <= j < count ==> -NDC_SCALE <= sy + #[trigger] (j * dy) <= NDC_SCALE,
    ensures
        final(r)@.len() == old(r)@.len() + count,
        forall|j: int| 0 <= j < old(r)@.len() ==> final(r)@[j] == old(r)@[j],
        forall|j: int|
            0 <= j < count ==> (#[trigger] final(r)@[old(r)@.len() + j]).0 == sx + j * dx
                && final(r)@[old(r)@.len() + j].1 == sy + j * dy,
        forall|j: int|
            old(r)@.len() <= j < final(r)@.len() ==> on_viewport_border(#[trigger] final(r)@[j]),
{
    let mut x = sx;
    let mut y = sy;
    let mut i: usize = 0;
    while i < count
        invariant
            0 <= i <= count,
            count <= 0xFFFF,
            r@.len() == old(r)@.len() + i,
            -2 * NDC_SCALE <= dx <= 2 * NDC_SCALE,
            -2 * NDC_SCALE <= dy <= 2 * NDC_SCALE,
            dx == 0 || dy == 0,
            dx == 0 ==> sx == -NDC_SCALE || sx == NDC_SCALE,
            dy == 0 ==> sy == -NDC_SCALE || sy == NDC_SCALE,
            x == sx + #[trigger] ((i as int) * dx),
            y == sy + #[trigger] ((i as int) * dy),
            forall|j: int| 0 <= j < count ==> -NDC_SCALE <= sx + #[trigger] (j * dx) <= NDC_SCALE,
            forall|j: int| 0 <= j < count ==> -NDC_SCALE <= sy + #[trigger] (j * dy) <= NDC_SCALE,
            forall|j: int| 0 <= j < old(r)@.len() ==> r@[j] == old(r)@[j],
            forall|j: int|
                0 <= j < i ==> (#[trigger] r@[old(r)@.len() + j]).0 == sx + j * dx && r@[old(
                    r,
                )@.len() + j].1 == sy + j * dy,
        decreases count - i,
    {
        r.push((x, y));
        proof {
            assert(((i + 1) as int) * dx == (i as int) * dx + dx) by (nonlinear_arith);
            assert(((i + 1) as int) * dy == (i as int) * dy + dy) by (nonlinear_arith);
        }
        x = x + dx;
        y = y + dy;
        i = i + 1;
    }
    proof {
        assert forall|j: int|
            old(r)@.len() <= j < r@.len() implies on_viewport_border(#[trigger] r@[j]) by {
            let k = j - old(r)@.len();
            assert(r@[old(r)@.len() + k].0 == sx + k * dx);
        }
    }
}

/// The fixed per-edge step of the border ring.
pub open spec fn ring_step() -> int {
    2 * NDC_SCALE / 11
}

/// The i-th border sample: the bottom edge left to right, the right
/// edge bottom to top, the top edge right to left, and the left edge
/// top to bottom, each edge starting at its corner.
pub open spec fn spec_ring_point(i: int) -> (i64, i64) {
    if i < 11 {
        ((-NDC_SCALE + i * ring_step()) as i64, (-NDC_SCALE) as i64)
    } else if i < 22 {
        (NDC_SCALE as i64, (-NDC_SCALE + (i - 11) * ring_step()) as i64)
    } else if i < 33 {
        ((NDC_SCALE - (i - 22) * ring_step()) as i64, NDC_SCALE as i64)
    } else {
        ((-NDC_SCALE) as i64, (NDC_SCALE - (i - 33) * ring_step()) as i64)
    }
}

/// The fixed ring of normalized-device-coordinate points around the
/// viewport border at which the projection is sampled, each sample
/// pinned by spec_ring_point.
pub fn ndc_border_ring() -> (r: Vec<(i64, i64)>)
    ensures
        r@.len() == NUM_VERTICES,
        forall|i: int| 0 <= i < r@.len() ==> on_viewport_border(#[trigger] r@[i]),
        forall|i: int| 0 <= i < r@.len() ==> (#[trigger] r@[i]) == spec_ring_point(i),
{
    let mut r: Vec<(i64, i64)> = Vec::new();
    let step: i64 = 2 * NDC_SCALE / 11;
    proof {
        assert(step == ring_step());
        assert forall|j: int|
            0 <= j < 11 implies 0 <= #[trigger] (j * step) <= 2 * NDC_SCALE by {
            assert(0 <= j * step <= 10 * step) by (nonlinear_arith)
                requires
                    0 <= j <= 10,
                    step >= 0,
            ;
        }
    }
    push_edge(&mut r, -NDC_SCALE, -NDC_SCALE, step, 0, 11);
    push_edge(&mut r, NDC_SCALE, -NDC_SCALE, 0, step, 11);
    push_edge(&mut r, NDC_SCALE, NDC_SCALE, -step, 0, 11);
    push_edge(&mut r, -NDC_SCALE, NDC_SCALE, 0, -step, 11);
    proof {
        assert forall|i: int| 0 <= i < r@.len() implies (#[trigger] r@[i]) == spec_ring_point(
            i,
        ) by {
            if i < 11 {
                assert(r@[0 + i].0 == -NDC_SCALE + i * step);
            } else if i < 22 {
                assert(r@[11 + (i - 11)].1 == -NDC_SCALE + (i - 11) * step);
            } else if i < 33 {
                assert(r@[22 + (i - 22)].0 == NDC_SCALE + (i - 22) * (-step));
            } else {
                assert(r@[33 + (i - 33)].1 == NDC_SCALE + (i - 33) * (-step));
            }
        }
    }
    r
}

/// What the field of view covers: either the polygon traced by the
/// border samples, summarized by its bounding box, or the whole sky
/// when the projection could not invert some border sample.
#[derive(Clone, Copy, PartialEq, Eq, Structural, Debug)]
pub enum FieldOfViewType {
    Polygon { bbox: BoundingBox },
    Allsky,
}

/// The box of grid space the field of view may touch.
pub open spec fn spec_fov_bbox(t: FieldOfViewType) -> BoundingBox {
    match t {
        FieldOfViewType::Polygon { bbox } => bbox,
        FieldOfViewType::Allsky => spec_whole_grid(),
    }
}

/// The tight bounding box of a non-empty vertex list.
pub open spec fn is_tight_bbox(b: BoundingBox, vs: Seq<ModelCoord>) -> bool {
    &&& (forall|i: int|
        0 <= i < vs.len() ==> b.x0 <= (#[trigger] vs[i]).x <= b.x1 && b.y0 <= vs[i].y <= b.y1)
    &&& (exists|i: int| 0 <= i < vs.len() && (#[trigger] vs[i]).x == b.x0)
    &&& (exists|i: int| 0 <= i < vs.len() && (#[trigger] vs[i]).x == b.x1)
    &&& (exists|i: int| 0 <= i < vs.len() && (#[trigger] vs[i]).y == b.y0)
    &&& (exists|i: int| 0 <= i < vs.len() && (#[trigger] vs[i]).y == b.y1)
}

/// The axis-aligned bounding box of a polygon's vertices.
pub fn polygon_bbox(vs: &Vec<ModelCoord>) -> (b: BoundingBox)
    requires
        vs@.len() > 0,
    ensures
        is_tight_bbox(b, vs@),
        b.wf(),
        all_wf(vs@) ==> b.spec_inside(spec_whole_grid()),
{
    let first = vs[0];
    let mut b = BoundingBox { x0: first.x, y0: first.y, x1: first.x, y1: first.y };
    let mut i: usize = 1;
    while i < vs.len()
        invariant
            1 <= i <= vs@.len(),
            forall|j: int|
                0 <= j < i ==> b.x0 <= (#[trigger] vs@[j]).x <= b.x1 && b.y0 <= vs@[j].y <= b.y1,
            exists|j: int| 0 <= j < i && (#[trigger] vs@[j]).x == b.x0,
            exists|j: int| 0 <= j < i && (#[trigger] vs@[j]).x == b.x1,
            exists|j: int| 0 <= j < i && (#[trigger] vs@[j]).y == b.y0,
            exists|j: int| 0 <= j < i && (#[trigger] vs@[j]).y == b.y1,
            b.wf(),
        decreases vs@.len() - i,
    {
        let v = vs[i];
        if v.x < b.x0 {
            b.x0 = v.x;
        }
        if v.x > b.x1 {
            b.x1 = v.x;
        }
        if v.y < b.y0 {
            b.y0 = v.y;
        }
        if v.y > b.y1 {
            b.y1 = v.y;
        }
        i = i + 1;
    }
    b
}

impl FieldOfViewType {
    /// The field of view bounded by the border samples.
    pub fn new_polygon(vertices: &Vec<ModelCoord>) -> (t: FieldOfViewType)
        requires
            vertices@.len() > 0,
        ensures
            t matches FieldOfViewType::Polygon { bbox } && is_tight_bbox(bbox, vertices@),
    {
        let bbox = polygon_bbox(vertices);
        FieldOfViewType::Polygon { bbox }
    }

    /// The conservative sentinel: the whole sky is considered visible.
    pub fn new_allsky() -> (t: FieldOfViewType)
        ensures
            t == FieldOfViewType::Allsky,
    {
        FieldOfViewType::Allsky
    }

    pub fn get_bounding_box(&self) -> (b: BoundingBox)
        ensures
            b == spec_fov_bbox(*self),
    {
        match self {
            FieldOfViewType::Polygon { bbox } => *bbox,
            FieldOfViewType::Allsky => BoundingBox::whole_grid(),
        }
    }

    pub fn is_allsky(&self) -> (b: bool)
        ensures
            b == (*self == FieldOfViewType::Allsky),
    {
        match self {
            FieldOfViewType::Allsky => true,
            FieldOfViewType::Polygon { .. } => false,
        }
    }
}

/// The border samples of the current camera, with the field-of-view
/// type derived from them. Owned by the camera component and rebuilt
/// whenever projection, zoom or rotation changes.
pub struct FieldOfViewVertices {
    pub model_coo: Option<Vec<ModelCoord>>,
    pub great_circles: FieldOfViewType,
}

impl FieldOfViewVertices {
    pub open spec fn wf(self) -> bool {
        match self.model_coo {
            Some(vs) => vs@.len() > 0 && all_wf(vs@),
            None => true,
        }
    }

    /// The sentinel rule: a polygon only when every border sample
    /// unprojected, the all-sky sentinel otherwise.
    pub open spec fn consistent(self) -> bool {
        match self.model_coo {
            Some(vs) => self.great_circles matches FieldOfViewType::Polygon { bbox }
                && is_tight_bbox(bbox, vs@),
            None => self.great_circles == FieldOfViewType::Allsky,
        }
    }

    /// Builds the field of view from the unprojected border samples;
    /// `None` means some border sample fell outside the projection's
    /// valid domain.
    pub fn new(model_coo: Option<Vec<ModelCoord>>) -> (fov: FieldOfViewVertices)
        requires
            match model_coo {
                Some(vs) => vs@.len() > 0 && all_wf(vs@),
                None => true,
            },
        ensures
            fov.wf(),
            fov.consistent(),
            fov.spec_vertices() == match model_coo {
                Some(vs) => Some(vs@),
                None => None::<Seq<ModelCoord>>,
            },
    {
        let great_circles = match &model_coo {
            Some(vertices) => FieldOfViewType::new_polygon(vertices),
            None => FieldOfViewType::new_allsky(),
        };
        FieldOfViewVertices { model_coo, great_circles }
    }

    pub open spec fn spec_vertices(self) -> Option<Seq<ModelCoord>> {
        match self.model_coo {
            Some(vs) => Some(vs@),
            None => None,
        }
    }

    pub open spec fn spec_type(self) -> FieldOfViewType {
        self.great_circles
    }

    /// Replaces the samples after the projection changed; the aperture
    /// decides whether the polygon is kept, exactly as for set_fov.
    pub fn set_projection(
        &mut self,
        model_coo: Option<Vec<ModelCoord>>,
        aperture: u64,
        raster_threshold: u64,
    )
        requires
            match model_coo {
                Some(vs) => vs@.len() > 0 && all_wf(vs@),
                None => true,
            },
        ensures
            final(self).wf(),
            final(self).spec_vertices() == match model_coo {
                Some(vs) => Some(vs@),
                None => None::<Seq<ModelCoord>>,
            },
            aperture < raster_threshold ==> final(self).consistent(),
            aperture >= raster_threshold ==> final(self).spec_type()
                == FieldOfViewType::Allsky || final(self).spec_type() == old(self).spec_type(),
            aperture >= raster_threshold ==> !(final(self).spec_type()
                matches FieldOfViewType::Polygon { .. }),
    {
        self.set_fov(model_coo, aperture, raster_threshold);
    }

    /// Replaces the samples after a zoom change.
    pub fn set_fov(
        &mut self,
        model_coo: Option<Vec<ModelCoord>>,
        aperture: u64,
        raster_threshold: u64,
    )
        requires
            match model_coo {
                Some(vs) => vs@.len() > 0 && all_wf(vs@),
                None => true,
            },
        ensures
            final(self).wf(),
            final(self).spec_vertices() == match model_coo {
                Some(vs) => Some(vs@),
                None => None::<Seq<ModelCoord>>,
            },
            aperture < raster_threshold ==> final(self).consistent(),
            aperture >= raster_threshold ==> final(self).spec_type()
                == FieldOfViewType::Allsky || final(self).spec_type() == old(self).spec_type(),
            aperture >= raster_threshold ==> !(final(self).spec_type()
                matches FieldOfViewType::Polygon { .. }),
    {
        self.set_rotation(model_coo, aperture, raster_threshold);
    }

    /// Replaces the samples after the camera rotated.
    pub fn set_rotation(
        &mut self,
        model_coo: Option<Vec<ModelCoord>>,
        aperture: u64,
        raster_threshold: u64,
    )
        requires
            match model_coo {
                Some(vs) => vs@.len() > 0 && all_wf(vs@),
                None => true,
            },
        ensures
            final(self).wf(),
            final(self).spec_vertices() == match model_coo {
                Some(vs) => Some(vs@),
                None => None::<Seq<ModelCoord>>,
            },
            aperture < raster_threshold ==> final(self).consistent(),
            aperture >= raster_threshold ==> final(self).spec_type()
                == FieldOfViewType::Allsky || final(self).spec_type() == old(self).spec_type(),
            aperture >= raster_threshold ==> !(final(self).spec_type()
                matches FieldOfViewType::Polygon { .. }),
    {
        self.model_coo = model_coo;
        self.set_great_circles(aperture, raster_threshold);
    }

    /// Keeps the polygon only while the aperture stays below the
    /// projection's raster threshold; a wider view always plots the
    /// all-sky grid.
    fn set_great_circles(&mut self, aperture: u64, raster_threshold: u64)
        requires
            old(self).wf(),
        ensures
            final(self).wf(),
            final(self).model_coo == old(self).model_coo,
            aperture < raster_threshold ==> final(self).consistent(),
            aperture >= raster_threshold ==> final(self).spec_type()
                == FieldOfViewType::Allsky || final(self).spec_type() == old(self).spec_type(),
            aperture >= raster_threshold ==> !(final(self).spec_type()
                matches FieldOfViewType::Polygon { .. }),
    {
        if aperture < raster_threshold {
            if let Some(vertices) = &self.model_coo {
                self.great_circles = FieldOfViewType::new_polygon(vertices);
            } else {
                if let FieldOfViewType::Polygon { .. } = &self.great_circles {
                    self.great_circles = FieldOfViewType::new_allsky();
                }
            }
        } else {
            if let FieldOfViewType::Polygon { .. } = &self.great_circles {
                self.great_circles = FieldOfViewType::new_allsky();
            }
        }
    }

    pub fn get_vertices(&self) -> (v: Option<&Vec<ModelCoord>>)
        ensures
            match v {
                Some(vs) => self.spec_vertices() == Some(vs@),
                None => self.spec_vertices() is None,
            },
    {
        self.model_coo.as_ref()
    }

    /// The bounding box that visible-cell computation prunes against.
    pub fn get_bounding_box(&self) -> (b: BoundingBox)
        ensures
            b == spec_fov_bbox(self.spec_type()),
    {
        self.great_circles.get_bounding_box()
    }

    pub fn _type(&self) -> (t: &FieldOfViewType)
        ensures
            t == self.spec_type(),
    {
        &self.great_circles
    }
}

} // verus!
