//! Per-gesture transition selection: which two resident tiles each
//! visible cell cross-fades between, and how finely it is tessellated.
//! Blending always runs from a coarser or older image toward a newer
//! or finer one; zooming out keeps one-level-finer cells until the
//! aperture has grown past the hysteresis margin, so that coarse
//! parents do not pop in too early.

use vstd::prelude::*;

use crate::buffer::ImageSurveyTextures;
use crate::buffer::Texture;
use crate::buffer::spec_nearest_parent;
use crate::buffer::spec_texture;
use crate::camera::CameraViewPort;
use crate::cell::HEALPixCell;
use crate::fov::FieldOfViewType;
use crate::fov::FieldOfViewVertices;
use crate::fov::spec_fov_bbox;
use crate::view::HEALPixCells;
use crate::view::HEALPixCellsInView;
use crate::view::get_cells_in_camera;
use crate::view::visible_cells;

verus! {

/// How many subdivision levels keep a cell's curvature error below
/// the screen-space threshold: larger (shallower) cells need more.
#[derive(Clone, Copy, PartialEq, Eq, Structural, Debug)]
pub struct SphereSubdivided {
    pub base: u8,
}

impl SphereSubdivided {
    /// The subdivision level for one cell: base - depth, floored at
    /// zero and capped at 3 (a 8 x 8 grid of quads).
    pub open spec fn spec_num_subdivide(self, c: HEALPixCell) -> u8 {
        if c.depth >= self.base {
            0
        } else if self.base - c.depth > 3 {
            3
        } else {
            (self.base - c.depth) as u8
        }
    }

    pub fn new() -> (s: SphereSubdivided)
        ensures
            s.base == 5,
    {
        SphereSubdivided { base: 5 }
    }

    pub fn get_num_subdivide(&self, cell: &HEALPixCell) -> (n: u8)
        ensures
            n == self.spec_num_subdivide(*cell),
            n <= 3,
    {
        if cell.depth >= self.base {
            0
        } else if self.base - cell.depth > 3 {
            3
        } else {
            self.base - cell.depth
        }
    }
}

/// The pair of resident tiles one visible cell blends between.
#[derive(Clone, Copy, PartialEq, Eq, Structural, Debug)]
pub struct TextureToDraw {
    pub starting_texture: Texture,
    pub ending_texture: Texture,
}

impl TextureToDraw {
    pub fn new(starting_texture: Texture, ending_texture: Texture) -> (t: TextureToDraw)
        ensures
            t.starting_texture == starting_texture,
            t.ending_texture == ending_texture,
    {
        TextureToDraw { starting_texture, ending_texture }
    }
}

/// The per-cell selection of one frame, in visible-cell order, with
/// each cell appearing once.
pub struct TexturesToDraw {
    pub entries: Vec<(HEALPixCell, TextureToDraw)>,
}

impl TexturesToDraw {
    pub open spec fn wf(self) -> bool {
        forall|i: int, j: int|
            0 <= i < j < self.entries@.len() ==> (#[trigger] self.entries@[i]).0 != (
            #[trigger] self.entries@[j]).0
    }

    pub open spec fn spec_has(self, c: HEALPixCell) -> bool {
        exists|i: int| 0 <= i < self.entries@.len() && (#[trigger] self.entries@[i]).0 == c
    }

    pub fn new(cap: usize) -> (t: TexturesToDraw)
        ensures
            t.wf(),
            t.entries@.len() == 0,
    {
        let _ = cap;
        TexturesToDraw { entries: Vec::new() }
    }

    pub fn len(&self) -> (n: usize)
        ensures
            n == self.entries@.len(),
    {
        self.entries.len()
    }

    /// Records the selection for one more cell.
    pub fn insert(&mut self, cell: HEALPixCell, t: TextureToDraw)
        requires
            old(self).wf(),
            !old(self).spec_has(cell),
        ensures
            final(self).wf(),
            final(self).entries@ == old(self).entries@.push((cell, t)),
    {
        self.entries.push((cell, t));
    }

    /// The selection made for one cell, if it is drawn this frame.
    pub fn get(&self, cell: &HEALPixCell) -> (r: Option<TextureToDraw>)
        ensures
            r is Some <==> self.spec_has(*cell),
            r matches Some(t) ==> exists|i: int|
                0 <= i < self.entries@.len() && (#[trigger] self.entries@[i]) == (*cell, t),
    {
        let mut i: usize = 0;
        while i < self.entries.len()
            invariant
                0 <= i <= self.entries@.len(),
                forall|j: int| 0 <= j < i ==> (#[trigger] self.entries@[j]).0 != *cell,
            decreases self.entries@.len() - i,
        {
            let (c, t) = self.entries[i];
            if c.depth == cell.depth && c.idx == cell.idx {
                assert(self.entries@[i as int].0 == *cell);
                return Some(t);
            }
            i = i + 1;
        }
        None
    }

    /// The entries in visible-cell order, for mesh generation.
    pub fn iter(&self) -> (r: &Vec<(HEALPixCell, TextureToDraw)>)
        ensures
            r@ == self.entries@,
    {
        &self.entries
    }
}

/// The facts mesh generation needs of one selection entry: the drawn
/// cell is valid, and both textures show ancestors of it, from slots
/// the atlas can address.
pub open spec fn entry_ok(e: (HEALPixCell, TextureToDraw)) -> bool {
    &&& e.0.wf()
    &&& e.1.starting_texture.cell.wf()
    &&& e.0.has_ancestor(e.1.starting_texture.cell)
    &&& e.1.starting_texture.slot_idx <= 0x7FFF_FFFF
    &&& e.1.ending_texture.cell.wf()
    &&& e.0.has_ancestor(e.1.ending_texture.cell)
    &&& e.1.ending_texture.slot_idx <= 0x7FFF_FFFF
}

/// One transition strategy: per visible cell, which tiles to blend and
/// how finely to tessellate. The three implementations are stateless
/// policies selected by the last camera gesture.
pub trait RecomputeRasterizer {
    /// The cells drawn this frame.
    spec fn spec_cells(
        camera: CameraViewPort,
        view: HEALPixCellsInView,
        survey: ImageSurveyTextures,
        fov_type: FieldOfViewType,
    ) -> Seq<HEALPixCell>;

    /// The (start, end) cells whose tiles one drawn cell blends
    /// between.
    spec fn spec_pair(survey: ImageSurveyTextures, cell: HEALPixCell) -> (HEALPixCell, HEALPixCell);

    /// The tessellation level of one drawn cell.
    spec fn spec_num_subdivide(cell: HEALPixCell, sphere_sub: SphereSubdivided) -> u8;

    /// Selects, for every drawn cell, the pair of resident textures to
    /// cross-fade.
    fn get_textures_from_survey(
        camera: &CameraViewPort,
        view: &HEALPixCellsInView,
        survey: &ImageSurveyTextures,
        fov: &FieldOfViewVertices,
    ) -> (t: TexturesToDraw)
        requires
            camera.wf(),
            view.wf(),
            survey.wf(),
            survey.spec_is_ready(),
        ensures
            t.wf(),
            t.entries@.len() == Self::spec_cells(*camera, *view, *survey, fov.spec_type()).len(),
            forall|j: int|
                0 <= j < t.entries@.len() ==> (#[trigger] t.entries@[j]) == ({
                    let cells = Self::spec_cells(*camera, *view, *survey, fov.spec_type());
                    let pair = Self::spec_pair(*survey, cells[j]);
                    (
                        cells[j],
                        TextureToDraw {
                            starting_texture: spec_texture(*survey, pair.0),
                            ending_texture: spec_texture(*survey, pair.1),
                        },
                    )
                }),
            forall|j: int| 0 <= j < t.entries@.len() ==> entry_ok(#[trigger] t.entries@[j]),
    ;

    fn num_subdivision(cell: &HEALPixCell, sphere_sub: &SphereSubdivided) -> (n: u8)
        ensures
            n == Self::spec_num_subdivide(*cell, *sphere_sub),
            n <= 3,
    ;
}

/// The entries a strategy's selection holds: one per drawn cell, in
/// order, with the textures of the strategy's pair for that cell.
pub open spec fn spec_entries<T: RecomputeRasterizer + ?Sized>(
    camera: CameraViewPort,
    view: HEALPixCellsInView,
    survey: ImageSurveyTextures,
    fov_type: FieldOfViewType,
) -> Seq<(HEALPixCell, TextureToDraw)> {
    let cells = T::spec_cells(camera, view, survey, fov_type);
    Seq::new(
        cells.len(),
        |j: int|
            (
                cells[j],
                TextureToDraw {
                    starting_texture: spec_texture(survey, T::spec_pair(survey, cells[j]).0),
                    ending_texture: spec_texture(survey, T::spec_pair(survey, cells[j]).1),
                },
            ),
    )
}

/// The pan/zoom-in selection: a resident cell blends from its nearest
/// resident proper ancestor toward itself; a cell still loading blends
/// from its grandparent fallback toward its parent fallback.
pub open spec fn spec_move_pair(s: ImageSurveyTextures, c: HEALPixCell) -> (
    HEALPixCell,
    HEALPixCell,
) {
    if s.resident(c) {
        (spec_nearest_parent(s, c), c)
    } else {
        (spec_nearest_parent(s, spec_nearest_parent(s, c)), spec_nearest_parent(s, c))
    }
}

/// The zoom-out selection: a cell blends from itself (or its nearest
/// resident fallback) toward its parent, and stays on the fallback
/// alone while the parent's tile is missing.
pub open spec fn spec_unzoom_pair(s: ImageSurveyTextures, c: HEALPixCell) -> (
    HEALPixCell,
    HEALPixCell,
) {
    let parent = if c.depth == 0 {
        c
    } else {
        c.spec_parent()
    };
    let start = if s.resident(c) {
        c
    } else {
        spec_nearest_parent(s, parent)
    };
    if s.resident(parent) {
        (start, parent)
    } else {
        (start, start)
    }
}

pub struct Move;

pub struct Zoom;

pub struct UnZoom;

impl RecomputeRasterizer for Move {
    open spec fn spec_cells(
        camera: CameraViewPort,
        view: HEALPixCellsInView,
        survey: ImageSurveyTextures,
        fov_type: FieldOfViewType,
    ) -> Seq<HEALPixCell> {
        view.view.cells@
    }

    open spec fn spec_pair(survey: ImageSurveyTextures, cell: HEALPixCell) -> (
        HEALPixCell,
        HEALPixCell,
    ) {
        spec_move_pair(survey, cell)
    }

    open spec fn spec_num_subdivide(cell: HEALPixCell, sphere_sub: SphereSubdivided) -> u8 {
        sphere_sub.spec_num_subdivide(cell)
    }

    fn get_textures_from_survey(
        camera: &CameraViewPort,
        view: &HEALPixCellsInView,
        survey: &ImageSurveyTextures,
        fov: &FieldOfViewVertices,
    ) -> (t: TexturesToDraw) {
        let cells = view.get_cells();
        select_move_pairs(cells, survey)
    }

    fn num_subdivision(cell: &HEALPixCell, sphere_sub: &SphereSubdivided) -> (n: u8) {
        sphere_sub.get_num_subdivide(cell)
    }
}

impl RecomputeRasterizer for Zoom {
    open spec fn spec_cells(
        camera: CameraViewPort,
        view: HEALPixCellsInView,
        survey: ImageSurveyTextures,
        fov_type: FieldOfViewType,
    ) -> Seq<HEALPixCell> {
        view.view.cells@
    }

    open spec fn spec_pair(survey: ImageSurveyTextures, cell: HEALPixCell) -> (
        HEALPixCell,
        HEALPixCell,
    ) {
        spec_move_pair(survey, cell)
    }

    open spec fn spec_num_subdivide(cell: HEALPixCell, sphere_sub: SphereSubdivided) -> u8 {
        sphere_sub.spec_num_subdivide(cell)
    }

    fn get_textures_from_survey(
        camera: &CameraViewPort,
        view: &HEALPixCellsInView,
        survey: &ImageSurveyTextures,
        fov: &FieldOfViewVertices,
    ) -> (t: TexturesToDraw) {
        let cells = view.get_cells();
        select_move_pairs(cells, survey)
    }

    fn num_subdivision(cell: &HEALPixCell, sphere_sub: &SphereSubdivided) -> (n: u8) {
        sphere_sub.get_num_subdivide(cell)
    }
}

impl RecomputeRasterizer for UnZoom {
    open spec fn spec_cells(
        camera: CameraViewPort,
        view: HEALPixCellsInView,
        survey: ImageSurveyTextures,
        fov_type: FieldOfViewType,
    ) -> Seq<HEALPixCell> {
        if view.view.depth < survey.config.max_depth && camera.aperture
            < view.last_depth_change_aperture + view.hysteresis_margin {
            visible_cells((view.view.depth + 1) as u8, spec_fov_bbox(fov_type))
        } else {
            view.view.cells@
        }
    }

    open spec fn spec_pair(survey: ImageSurveyTextures, cell: HEALPixCell) -> (
        HEALPixCell,
        HEALPixCell,
    ) {
        spec_unzoom_pair(survey, cell)
    }

    open spec fn spec_num_subdivide(cell: HEALPixCell, sphere_sub: SphereSubdivided) -> u8 {
        if sphere_sub.spec_num_subdivide(cell) <= 1 {
            0
        } else {
            (sphere_sub.spec_num_subdivide(cell) - 1) as u8
        }
    }

    fn get_textures_from_survey(
        camera: &CameraViewPort,
        view: &HEALPixCellsInView,
        survey: &ImageSurveyTextures,
        fov: &FieldOfViewVertices,
    ) -> (t: TexturesToDraw) {
        let depth = view.get_depth();
        let max_depth = survey.config().get_max_depth();

        // We do not draw the parent cells while the aperture has not
        // yet grown past the hysteresis margin.
        let cells_to_draw: HEALPixCells = if depth < max_depth
            && view.has_depth_decreased_while_unzooming(camera) {
            get_cells_in_camera(depth + 1, fov)
        } else {
            HEALPixCells { depth, cells: clone_cells(&view.get_cells().cells) }
        };

        let mut textures = TexturesToDraw::new(cells_to_draw.len());
        let ghost spec_cells = Self::spec_cells(*camera, *view, *survey, fov.spec_type());
        proof {
            assert(cells_to_draw.cells@ == spec_cells);
        }
        let mut i: usize = 0;
        while i < cells_to_draw.len()
            invariant
                0 <= i <= cells_to_draw.cells@.len(),
                camera.wf(),
                view.wf(),
                survey.wf(),
                survey.spec_is_ready(),
                cells_to_draw.wf(),
                cells_to_draw.cells@ == spec_cells,
                textures.wf(),
                textures.entries@.len() == i,
                forall|j: int|
                    0 <= j < i ==> (#[trigger] textures.entries@[j]) == ({
                        let pair = spec_unzoom_pair(*survey, spec_cells[j]);
                        (
                            spec_cells[j],
                            TextureToDraw {
                                starting_texture: spec_texture(*survey, pair.0),
                                ending_texture: spec_texture(*survey, pair.1),
                            },
                        )
                    }),
                forall|j: int| 0 <= j < i ==> entry_ok(#[trigger] textures.entries@[j]),
            decreases cells_to_draw.cells@.len() - i,
        {
            let cell = cells_to_draw.get(i);
            proof {
                assert(cell.spec_ancestor(0) == cell);
            }
            let parent_cell = if cell.is_root() {
                cell
            } else {
                let p = cell.parent();
                proof {
                    crate::cell::lemma_ancestor_step(cell, 0);
                    assert(cell.spec_ancestor(1) == p);
                }
                p
            };
            let starting_cell = if survey.contains(&cell) {
                cell
            } else {
                let a = survey.get_nearest_parent(&parent_cell);
                proof {
                    crate::cell::lemma_has_ancestor_trans(cell, parent_cell, a);
                }
                a
            };
            let pair = if survey.contains(&parent_cell) {
                let starting_cell_in_tex = survey.get(&starting_cell).unwrap();
                let ending_cell_in_tex = survey.get(&parent_cell).unwrap();
                TextureToDraw::new(starting_cell_in_tex, ending_cell_in_tex)
            } else {
                let ending_cell = starting_cell;
                let starting_cell_in_tex = survey.get(&starting_cell).unwrap();
                let ending_cell_in_tex = survey.get(&ending_cell).unwrap();
                TextureToDraw::new(starting_cell_in_tex, ending_cell_in_tex)
            };
            proof {
                assert(entry_ok((cell, pair)));
                if textures.spec_has(cell) {
                    let j = choose|j: int|
                        0 <= j < textures.entries@.len() && (#[trigger] textures.entries@[j]).0
                            == cell;
                    assert(spec_cells[j] == spec_cells[i as int]);
                }
            }
            textures.insert(cell, pair);
            i = i + 1;
        }
        textures
    }

    fn num_subdivision(cell: &HEALPixCell, sphere_sub: &SphereSubdivided) -> (n: u8) {
        let num_subdivision = sphere_sub.get_num_subdivide(cell);
        if num_subdivision <= 1 {
            0
        } else {
            num_subdivision - 1
        }
    }
}

/// The shared pan/zoom-in selection loop.
fn select_move_pairs(cells: &HEALPixCells, survey: &ImageSurveyTextures) -> (t: TexturesToDraw)
    requires
        cells.wf(),
        survey.wf(),
        survey.spec_is_ready(),
    ensures
        t.wf(),
        t.entries@.len() == cells.cells@.len(),
        forall|j: int|
            0 <= j < t.entries@.len() ==> (#[trigger] t.entries@[j]) == ({
                let pair = spec_move_pair(*survey, cells.cells@[j]);
                (
                    cells.cells@[j],
                    TextureToDraw {
                        starting_texture: spec_texture(*survey, pair.0),
                        ending_texture: spec_texture(*survey, pair.1),
                    },
                )
            }),
        forall|j: int| 0 <= j < t.entries@.len() ==> entry_ok(#[trigger] t.entries@[j]),
{
    let mut textures = TexturesToDraw::new(cells.len());
    let mut i: usize = 0;
    while i < cells.len()
        invariant
            0 <= i <= cells.cells@.len(),
            cells.wf(),
            survey.wf(),
            survey.spec_is_ready(),
            textures.wf(),
            textures.entries@.len() == i,
            forall|j: int|
                0 <= j < i ==> (#[trigger] textures.entries@[j]) == ({
                    let pair = spec_move_pair(*survey, cells.cells@[j]);
                    (
                        cells.cells@[j],
                        TextureToDraw {
                            starting_texture: spec_texture(*survey, pair.0),
                            ending_texture: spec_texture(*survey, pair.1),
                        },
                    )
                }),
            forall|j: int| 0 <= j < i ==> entry_ok(#[trigger] textures.entries@[j]),
        decreases cells.cells@.len() - i,
    {
        let cell = cells.get(i);
        proof {
            assert(cell.spec_ancestor(0) == cell);
        }
        let pair = if survey.contains(&cell) {
            let parent_cell = survey.get_nearest_parent(&cell);
            let ending_cell_in_tex = survey.get(&cell).unwrap();
            let starting_cell_in_tex = survey.get(&parent_cell).unwrap();
            TextureToDraw::new(starting_cell_in_tex, ending_cell_in_tex)
        } else {
            let parent_cell = survey.get_nearest_parent(&cell);
            let grand_parent_cell = survey.get_nearest_parent(&parent_cell);
            proof {
                crate::cell::lemma_has_ancestor_trans(cell, parent_cell, grand_parent_cell);
            }
            let ending_cell_in_tex = survey.get(&parent_cell).unwrap();
            let starting_cell_in_tex = survey.get(&grand_parent_cell).unwrap();
            TextureToDraw::new(starting_cell_in_tex, ending_cell_in_tex)
        };
        proof {
            assert(entry_ok((cell, pair)));
            if textures.spec_has(cell) {
                let j = choose|j: int|
                    0 <= j < textures.entries@.len() && (#[trigger] textures.entries@[j]).0 == cell;
                assert(cells.cells@[j] == cells.cells@[i as int]);
            }
        }
        textures.insert(cell, pair);
        i = i + 1;
    }
    textures
}

/// Copies a cell list.
fn clone_cells(v: &Vec<HEALPixCell>) -> (r: Vec<HEALPixCell>)
    ensures
        r@ == v@,
{
    let mut r: Vec<HEALPixCell> = Vec::new();
    let mut i: usize = 0;
    while i < v.len()
        invariant
            0 <= i <= v@.len(),
            r@ == v@.take(i as int),
        decreases v@.len() - i,
    {
        r.push(v[i]);
        proof {
            assert(v@.take(i + 1) =~= v@.take(i as int).push(v@[i as int]));
        }
        i = i + 1;
    }
    proof {
        assert(v@.take(v@.len() as int) =~= v@);
    }
    r
}

} // verus!
