//! The survey compositor: a primary survey (simple or composite) and
//! an optional overlay, drawn each frame in one of two mutually
//! exclusive modes selected by the aperture alone — per-cell
//! rasterization below the threshold, whole-sphere raytracing above
//! it. Tile batches arriving from the fetch layer are admitted here,
//! before visibility and mesh recomputation.

use vstd::prelude::*;

use crate::buffer::admit_post;
use crate::camera::CameraViewPort;
use crate::cell::HEALPixCell;
use crate::fov::FieldOfViewType;
use crate::fov::FieldOfViewVertices;
use crate::survey::DrawCall;
use crate::survey::draw_post;
use crate::survey::ImageSurvey;
use crate::survey::ImageSurveyType;
use crate::survey::RAYTRACE_APERTURE_LIMIT;
use crate::view::HEALPixCellsInView;
use crate::view::refresh_post;

verus! {

/// The whole-viewport mesh used above the aperture threshold; it is
/// rebuilt whenever the projection changes.
#[derive(Clone, Copy, PartialEq, Eq, Structural, Debug)]
pub struct RayTracer {
    pub aperture_at_creation: i64,
}

impl RayTracer {
    pub fn new(camera: &CameraViewPort) -> (r: RayTracer)
        ensures
            r.aperture_at_creation == camera.aperture,
    {
        RayTracer { aperture_at_creation: camera.aperture }
    }
}

/// Which surveys the primary or overlay slot holds.
pub enum ImageSurveyIdx {
    Simple(String),
    Composite(Vec<String>),
    Empty,
}

/// One tile announced or delivered by the fetch layer.
pub struct Tile {
    pub cell: HEALPixCell,
    pub root_url: String,
    pub time_request: u64,
}

/// A batch of announced tiles.
pub type Tiles = Vec<Tile>;

/// The image data a resolved tile carries.
pub enum RetrievedImageType {
    FITSImage { scale: i64, offset: i64, blank: i64 },
    CompressedImage,
}

/// The outcome of one fetch: image data, or a permanently missing
/// tile, which is admitted as a placeholder so lookups still resolve.
pub enum TileResolved {
    Missing { time_req: u64 },
    Found { image: RetrievedImageType, time_req: u64 },
}

/// A batch of resolved tiles, consumed once per frame before
/// visibility recomputation.
pub type ResolvedTiles = Vec<(Tile, TileResolved)>;

/// The set of layered surveys and the draw-mode machinery.
pub struct ImageSurveys {
    pub surveys: Vec<ImageSurvey>,
    pub primary: ImageSurveyIdx,
    pub overlay: ImageSurveyIdx,
    pub raytracer: RayTracer,
}

impl ImageSurveys {
    pub open spec fn spec_has_id(self, id: Seq<char>) -> bool {
        exists|i: int| 0 <= i < self.surveys@.len() && (#[trigger] self.surveys@[i]).id@ == id
    }

    pub open spec fn idx_ok(self, idx: ImageSurveyIdx) -> bool {
        match idx {
            ImageSurveyIdx::Simple(id) => self.spec_has_id(id@),
            ImageSurveyIdx::Composite(ids) => ids@.len() > 0 && forall|k: int|
                0 <= k < ids@.len() ==> self.spec_has_id((#[trigger] ids@[k])@),
            ImageSurveyIdx::Empty => true,
        }
    }

    pub open spec fn wf(self) -> bool {
        &&& forall|i: int|
            0 <= i < self.surveys@.len() ==> (#[trigger] self.surveys@[i]).wf()
        &&& forall|i: int, j: int|
            0 <= i < j < self.surveys@.len() ==> (#[trigger] self.surveys@[i]).id@ != (
            #[trigger] self.surveys@[j]).id@
        &&& self.idx_ok(self.primary)
        &&& self.idx_ok(self.overlay)
    }

    /// An empty compositor, with the raytracer built for the current
    /// camera.
    pub fn new(camera: &CameraViewPort) -> (s: ImageSurveys)
        ensures
            s.wf(),
            s.surveys@.len() == 0,
            s.primary is Empty,
            s.overlay is Empty,
            s.raytracer.aperture_at_creation == camera.aperture,
    {
        ImageSurveys {
            surveys: Vec::new(),
            primary: ImageSurveyIdx::Empty,
            overlay: ImageSurveyIdx::Empty,
            raytracer: RayTracer::new(camera),
        }
    }

    /// Rebuilds the raytracer mesh after a projection change.
    pub fn set_projection(&mut self, camera: &CameraViewPort)
        ensures
            final(self).raytracer.aperture_at_creation == camera.aperture,
            final(self).surveys@ == old(self).surveys@,
            final(self).primary == old(self).primary,
            final(self).overlay == old(self).overlay,
            final(self).wf() == old(self).wf(),
    {
        self.raytracer = RayTracer::new(camera);
    }

    /// The position of the survey with the given id.
    fn find_index(&self, id: &String) -> (r: Option<usize>)
        ensures
            match r {
                Some(i) => 0 <= i < self.surveys@.len() && self.surveys@[i as int].id@ == id@,
                None => !self.spec_has_id(id@),
            },
    {
        let mut i: usize = 0;
        while i < self.surveys.len()
            invariant
                0 <= i <= self.surveys@.len(),
                forall|j: int| 0 <= j < i ==> (#[trigger] self.surveys@[j]).id@ != id@,
            decreases self.surveys@.len() - i,
        {
            if self.surveys[i].id == *id {
                return Some(i);
            }
            i = i + 1;
        }
        None
    }

    /// The indexes of the surveys one slot names, in slot order.
    fn slot_indexes(&self, idx: &ImageSurveyIdx) -> (r: Vec<usize>)
        requires
            self.idx_ok(*idx),
            surveys_ok(self.surveys@),
        ensures
            r@.len() == spec_slot_index_seq(self.surveys@, *idx).len(),
            forall|k: int|
                0 <= k < r@.len() ==> (#[trigger] r@[k]) as int == spec_slot_index_seq(
                    self.surveys@,
                    *idx,
                )[k] && r@[k] < self.surveys@.len(),
    {
        let mut r: Vec<usize> = Vec::new();
        match idx {
            ImageSurveyIdx::Simple(id) => {
                let i = self.find_index(id);
                match i {
                    Some(i) => {
                        proof {
                            let j = spec_index_of(self.surveys@, id@);
                            assert(0 <= j < self.surveys@.len() && self.surveys@[j].id@ == id@);
                            assert(j == i as int);
                        }
                        r.push(i);
                    },
                    None => {
                        proof {
                            assert(false);
                        }
                    },
                }
            },
            ImageSurveyIdx::Composite(ids) => {
                let mut k: usize = 0;
                while k < ids.len()
                    invariant
                        0 <= k <= ids@.len(),
                        r@.len() == k,
                        surveys_ok(self.surveys@),
                        forall|m: int|
                            0 <= m < r@.len() ==> (#[trigger] r@[m]) as int == spec_index_of(
                                self.surveys@,
                                ids@[m]@,
                            ) && r@[m] < self.surveys@.len(),
                        forall|m: int|
                            0 <= m < ids@.len() ==> self.spec_has_id((#[trigger] ids@[m])@),
                    decreases ids@.len() - k,
                {
                    let i = self.find_index(&ids[k]);
                    match i {
                        Some(i) => {
                            proof {
                                let j = spec_index_of(self.surveys@, ids@[k as int]@);
                                assert(0 <= j < self.surveys@.len() && self.surveys@[j].id@
                                    == ids@[k as int]@);
                                assert(j == i as int);
                            }
                            r.push(i);
                        },
                        None => {
                            proof {
                                assert(false);
                            }
                        },
                    }
                    k = k + 1;
                }
            },
            ImageSurveyIdx::Empty => {},
        }
        r
    }

    /// Draws the primary surveys, then the overlay ones: one call per
    /// referenced survey, in slot order, each meeting the per-survey
    /// draw contract, and surveys referenced by neither slot are left
    /// alone. The mode is a function of the aperture alone: above the
    /// threshold every survey takes the raytraced path and no
    /// rasterized mesh is rebuilt.
    pub fn draw(
        &mut self,
        camera: &CameraViewPort,
        fov: &FieldOfViewVertices,
        time_now: u64,
    ) -> (r: (bool, Vec<DrawCall>))
        requires
            old(self).wf(),
            camera.wf(),
            !(old(self).primary is Empty),
        ensures
            final(self).wf(),
            r.0 == (camera.aperture > RAYTRACE_APERTURE_LIMIT),
            final(self).primary == old(self).primary,
            final(self).overlay == old(self).overlay,
            final(self).surveys@.len() == old(self).surveys@.len(),
            r.1@.len() == spec_slot_index_seq(old(self).surveys@, old(self).primary).len()
                + spec_slot_index_seq(old(self).surveys@, old(self).overlay).len(),
            draws_in_order(
                old(self).surveys@,
                final(self).surveys@,
                spec_slot_index_seq(old(self).surveys@, old(self).primary)
                    + spec_slot_index_seq(old(self).surveys@, old(self).overlay),
                r.1@,
                *camera,
                fov.spec_type(),
                time_now,
            ),
            forall|i: int|
                0 <= i < final(self).surveys@.len() && !(spec_slot_index_seq(
                    old(self).surveys@,
                    old(self).primary,
                ) + spec_slot_index_seq(old(self).surveys@, old(self).overlay)).contains(i) ==> (
                #[trigger] final(self).surveys@[i]) == old(self).surveys@[i],
            forall|i: int|
                0 <= i < final(self).surveys@.len() ==> (#[trigger] final(self).surveys@[i]).id@
                    == old(self).surveys@[i].id@,
            forall|i: int|
                0 <= i < final(self).surveys@.len() ==> (#[trigger] final(self).surveys@[i]).view
                    == old(self).surveys@[i].view,
            r.0 ==> final(self).surveys@ == old(self).surveys@,
            r.0 ==> forall|k: int|
                0 <= k < r.1@.len() ==> (#[trigger] r.1@[k]) is Raytrace || r.1@[k] is NotReady,
            !r.0 ==> forall|k: int|
                0 <= k < r.1@.len() ==> (#[trigger] r.1@[k]) is Raster || r.1@[k] is NotReady,
            forall|k: int|
                0 <= k < r.1@.len() ==> (match (#[trigger] r.1@[k]) {
                    DrawCall::NotReady => true,
                    DrawCall::Raytrace { current_time, .. } => current_time == time_now,
                    DrawCall::Raster { current_time, .. } => current_time == time_now,
                }),
    {
        let raytracing = camera.get_aperture() > RAYTRACE_APERTURE_LIMIT;
        let mut calls: Vec<DrawCall> = Vec::new();

        let primary_idx = self.slot_indexes(&self.primary);
        let overlay_idx = self.slot_indexes(&self.overlay);
        let plen = primary_idx.len();
        let ghost full_order = spec_slot_index_seq(old(self).surveys@, old(self).primary)
            + spec_slot_index_seq(old(self).surveys@, old(self).overlay);
        proof {
            assert(draws_in_order(
                old(self).surveys@,
                self.surveys@,
                full_order.take(0),
                calls@,
                *camera,
                fov.spec_type(),
                time_now,
            ));
        }

        let mut k: usize = 0;
        while k < plen
            invariant
                0 <= k <= plen,
                camera.wf(),
                raytracing == (camera.aperture > RAYTRACE_APERTURE_LIMIT),
                full_order == spec_slot_index_seq(old(self).surveys@, old(self).primary)
                    + spec_slot_index_seq(old(self).surveys@, old(self).overlay),
                plen == primary_idx@.len(),
                plen == spec_slot_index_seq(old(self).surveys@, old(self).primary).len(),
                overlay_idx@.len() == spec_slot_index_seq(
                    old(self).surveys@,
                    old(self).overlay,
                ).len(),
                forall|m: int|
                    0 <= m < primary_idx@.len() ==> (#[trigger] primary_idx@[m]) as int
                        == full_order[m] && primary_idx@[m] < self.surveys@.len(),
                forall|m: int|
                    0 <= m < overlay_idx@.len() ==> (#[trigger] overlay_idx@[m]) as int
                        == full_order[plen + m] && overlay_idx@[m] < self.surveys@.len(),
                self.surveys@.len() == old(self).surveys@.len(),
                forall|i: int|
                    0 <= i < self.surveys@.len() ==> (#[trigger] self.surveys@[i]).wf(),
                forall|i: int|
                    0 <= i < self.surveys@.len() ==> (#[trigger] self.surveys@[i]).id@ == old(
                        self,
                    ).surveys@[i].id@,
                forall|i: int|
                    0 <= i < self.surveys@.len() ==> (#[trigger] self.surveys@[i]).view == old(
                        self,
                    ).surveys@[i].view,
                forall|i: int|
                    0 <= i < self.surveys@.len() ==> (#[trigger] self.surveys@[i]) == old(
                        self,
                    ).surveys@[i] || full_order.take(k as int).contains(i),
                calls@.len() == k,
                draws_in_order(
                    old(self).surveys@,
                    self.surveys@,
                    full_order.take(k as int),
                    calls@,
                    *camera,
                    fov.spec_type(),
                    time_now,
                ),
                raytracing ==> self.surveys@ == old(self).surveys@,
                raytracing ==> forall|m: int|
                    0 <= m < calls@.len() ==> (#[trigger] calls@[m]) is Raytrace || calls@[m]
                        is NotReady,
                !raytracing ==> forall|m: int|
                    0 <= m < calls@.len() ==> (#[trigger] calls@[m]) is Raster || calls@[m]
                        is NotReady,
                forall|m: int|
                    0 <= m < calls@.len() ==> (match (#[trigger] calls@[m]) {
                        DrawCall::NotReady => true,
                        DrawCall::Raytrace { current_time, .. } => current_time == time_now,
                        DrawCall::Raster { current_time, .. } => current_time == time_now,
                    }),
                self.primary == old(self).primary,
                self.overlay == old(self).overlay,
            decreases plen - k,
        {
            let i = primary_idx[k];
            let ghost pre = self.surveys@;
            let s = &mut self.surveys[i];
            let d = s.draw(camera, fov, time_now);
            proof {
                if raytracing {
                    assert(self.surveys@ =~= pre);
                }
                let kk = k as int;
                let ord1 = full_order.take(kk + 1);
                assert(ord1.drop_last() =~= full_order.take(kk));
                assert(ord1.last() == full_order[kk]);
                assert(ord1.last() == i as int);
                assert(draw_post(
                    pre[i as int],
                    self.surveys@[i as int],
                    *camera,
                    fov.spec_type(),
                    time_now,
                    d,
                ));
                assert(self.surveys@ == pre.update(ord1.last(), self.surveys@[ord1.last()]));
                let calls1 = calls@.push(d);
                assert(calls1.drop_last() =~= calls@);
                assert(draws_in_order(
                    old(self).surveys@,
                    self.surveys@,
                    ord1,
                    calls1,
                    *camera,
                    fov.spec_type(),
                    time_now,
                ));
                assert forall|j: int|
                    0 <= j < self.surveys@.len() implies (#[trigger] self.surveys@[j]) == old(
                    self,
                ).surveys@[j] || ord1.contains(j) by {
                    if self.surveys@[j] != old(self).surveys@[j] {
                        if pre[j] == old(self).surveys@[j] {
                            assert(j == i as int);
                            assert(ord1[kk] == j);
                        } else {
                            let m = choose|m: int|
                                0 <= m < full_order.take(kk).len() && full_order.take(kk)[m] == j;
                            assert(ord1[m] == j);
                        }
                    }
                }
            }
            calls.push(d);
            k = k + 1;
        }

        let mut k2: usize = 0;
        while k2 < overlay_idx.len()
            invariant
                0 <= k2 <= overlay_idx@.len(),
                camera.wf(),
                raytracing == (camera.aperture > RAYTRACE_APERTURE_LIMIT),
                full_order == spec_slot_index_seq(old(self).surveys@, old(self).primary)
                    + spec_slot_index_seq(old(self).surveys@, old(self).overlay),
                plen == spec_slot_index_seq(old(self).surveys@, old(self).primary).len(),
                overlay_idx@.len() == spec_slot_index_seq(
                    old(self).surveys@,
                    old(self).overlay,
                ).len(),
                forall|m: int|
                    0 <= m < overlay_idx@.len() ==> (#[trigger] overlay_idx@[m]) as int
                        == full_order[plen + m] && overlay_idx@[m] < self.surveys@.len(),
                self.surveys@.len() == old(self).surveys@.len(),
                forall|i: int|
                    0 <= i < self.surveys@.len() ==> (#[trigger] self.surveys@[i]).wf(),
                forall|i: int|
                    0 <= i < self.surveys@.len() ==> (#[trigger] self.surveys@[i]).id@ == old(
                        self,
                    ).surveys@[i].id@,
                forall|i: int|
                    0 <= i < self.surveys@.len() ==> (#[trigger] self.surveys@[i]).view == old(
                        self,
                    ).surveys@[i].view,
                forall|i: int|
                    0 <= i < self.surveys@.len() ==> (#[trigger] self.surveys@[i]) == old(
                        self,
                    ).surveys@[i] || full_order.take(plen + k2).contains(i),
                calls@.len() == plen + k2,
                draws_in_order(
                    old(self).surveys@,
                    self.surveys@,
                    full_order.take(plen + k2),
                    calls@,
                    *camera,
                    fov.spec_type(),
                    time_now,
                ),
                raytracing ==> self.surveys@ == old(self).surveys@,
                raytracing ==> forall|m: int|
                    0 <= m < calls@.len() ==> (#[trigger] calls@[m]) is Raytrace || calls@[m]
                        is NotReady,
                !raytracing ==> forall|m: int|
                    0 <= m < calls@.len() ==> (#[trigger] calls@[m]) is Raster || calls@[m]
                        is NotReady,
                forall|m: int|
                    0 <= m < calls@.len() ==> (match (#[trigger] calls@[m]) {
                        DrawCall::NotReady => true,
                        DrawCall::Raytrace { current_time, .. } => current_time == time_now,
                        DrawCall::Raster { current_time, .. } => current_time == time_now,
                    }),
                self.primary == old(self).primary,
                self.overlay == old(self).overlay,
            decreases overlay_idx@.len() - k2,
        {
            let i = overlay_idx[k2];
            let ghost pre = self.surveys@;
            let s = &mut self.surveys[i];
            let d = s.draw(camera, fov, time_now);
            proof {
                if raytracing {
                    assert(self.surveys@ =~= pre);
                }
                let kk = plen + k2 as int;
                let ord1 = full_order.take(kk + 1);
                assert(ord1.drop_last() =~= full_order.take(kk));
                assert(ord1.last() == full_order[kk]);
                assert(ord1.last() == i as int);
                assert(draw_post(
                    pre[i as int],
                    self.surveys@[i as int],
                    *camera,
                    fov.spec_type(),
                    time_now,
                    d,
                ));
                assert(self.surveys@ == pre.update(ord1.last(), self.surveys@[ord1.last()]));
                let calls1 = calls@.push(d);
                assert(calls1.drop_last() =~= calls@);
                assert(draws_in_order(
                    old(self).surveys@,
                    self.surveys@,
                    ord1,
                    calls1,
                    *camera,
                    fov.spec_type(),
                    time_now,
                ));
                assert forall|j: int|
                    0 <= j < self.surveys@.len() implies (#[trigger] self.surveys@[j]) == old(
                    self,
                ).surveys@[j] || ord1.contains(j) by {
                    if self.surveys@[j] != old(self).surveys@[j] {
                        if pre[j] == old(self).surveys@[j] {
                            assert(j == i as int);
                            assert(ord1[kk] == j);
                        } else {
                            let m = choose|m: int|
                                0 <= m < full_order.take(kk).len() && full_order.take(kk)[m] == j;
                            assert(ord1[m] == j);
                        }
                    }
                }
            }
            calls.push(d);
            k2 = k2 + 1;
        }
        proof {
            assert(full_order.take(full_order.len() as int) =~= full_order);
            assert forall|i: int, j: int|
                0 <= i < j < self.surveys@.len() implies (#[trigger] self.surveys@[i]).id@ != (
            #[trigger] self.surveys@[j]).id@ by {
                assert(old(self).surveys@[i].id@ != old(self).surveys@[j].id@);
            }
            assert(self.idx_ok(self.primary)) by {
                lemma_idx_ok_ids(*old(self), *self, self.primary);
            }
            assert(self.idx_ok(self.overlay)) by {
                lemma_idx_ok_ids(*old(self), *self, self.overlay);
            }
        }
        (raytracing, calls)
    }

    /// Recomputes every survey's visible cells for the new frame.
    pub fn refresh_views(&mut self, camera: &CameraViewPort, fov: &FieldOfViewVertices)
        requires
            old(self).wf(),
            camera.wf(),
        ensures
            final(self).wf(),
            final(self).surveys@.len() == old(self).surveys@.len(),
            final(self).primary == old(self).primary,
            final(self).overlay == old(self).overlay,
            forall|i: int|
                0 <= i < final(self).surveys@.len() ==> {
                    let pre = old(self).surveys@[i];
                    let post = #[trigger] final(self).surveys@[i];
                    &&& refresh_post(
                        pre.view,
                        post.view,
                        *camera,
                        fov.spec_type(),
                        pre.textures.config.texture_size,
                        pre.textures.config.max_depth,
                    )
                    &&& post.textures == pre.textures
                    &&& post.id == pre.id
                    &&& post.color == pre.color
                    &&& post.survey_type == pre.survey_type
                },
    {
        let mut i: usize = 0;
        while i < self.surveys.len()
            invariant
                0 <= i <= self.surveys@.len(),
                camera.wf(),
                self.surveys@.len() == old(self).surveys@.len(),
                self.primary == old(self).primary,
                self.overlay == old(self).overlay,
                forall|j: int|
                    i <= j < self.surveys@.len() ==> (#[trigger] self.surveys@[j]) == old(
                        self,
                    ).surveys@[j],
                forall|j: int|
                    0 <= j < self.surveys@.len() ==> (#[trigger] self.surveys@[j]).wf(),
                forall|j: int|
                    0 <= j < i ==> {
                        let pre = old(self).surveys@[j];
                        let post = #[trigger] self.surveys@[j];
                        &&& refresh_post(
                            pre.view,
                            post.view,
                            *camera,
                            fov.spec_type(),
                            pre.textures.config.texture_size,
                            pre.textures.config.max_depth,
                        )
                        &&& post.textures == pre.textures
                        &&& post.id == pre.id
                        &&& post.color == pre.color
                        &&& post.survey_type == pre.survey_type
                    },
            decreases self.surveys@.len() - i,
        {
            let s = &mut self.surveys[i];
            s.refresh_view(camera, fov);
            i = i + 1;
        }
        proof {
            assert forall|i: int, j: int|
                0 <= i < j < self.surveys@.len() implies (#[trigger] self.surveys@[i]).id@ != (
            #[trigger] self.surveys@[j]).id@ by {
                assert(old(self).surveys@[i].id@ != old(self).surveys@[j].id@);
            }
            assert(self.idx_ok(self.primary)) by {
                lemma_idx_ok_ids(*old(self), *self, self.primary);
            }
            assert(self.idx_ok(self.overlay)) by {
                lemma_idx_ok_ids(*old(self), *self, self.overlay);
            }
        }
    }

    /// Tells each survey which of the announced tiles belong to it, so
    /// its draw path knows new data is on the way.
    pub fn set_available_tiles(&mut self, available_tiles: &Tiles)
        requires
            old(self).wf(),
            forall|k: int|
                0 <= k < available_tiles@.len() ==> old(self).spec_has_id(
                    (#[trigger] available_tiles@[k]).root_url@,
                ),
        ensures
            final(self).wf(),
            final(self).surveys@.len() == old(self).surveys@.len(),
            final(self).primary == old(self).primary,
            final(self).overlay == old(self).overlay,
            forall|i: int|
                0 <= i < final(self).surveys@.len() ==> {
                    let pre = old(self).surveys@[i];
                    let post = #[trigger] final(self).surveys@[i];
                    &&& post == (ImageSurvey {
                        textures: crate::buffer::ImageSurveyTextures {
                            available_tiles_flag: post.textures.available_tiles_flag,
                            ..pre.textures
                        },
                        ..pre
                    })
                    &&& post.textures.available_tiles_flag == (pre.textures.available_tiles_flag
                        || exists|k: int|
                        0 <= k < available_tiles@.len() && (
                        #[trigger] available_tiles@[k]).root_url@ == pre.id@)
                },
    {
        let mut k: usize = 0;
        while k < available_tiles.len()
            invariant
                0 <= k <= available_tiles@.len(),
                old(self).wf(),
                forall|m: int|
                    0 <= m < available_tiles@.len() ==> old(self).spec_has_id(
                        (#[trigger] available_tiles@[m]).root_url@,
                    ),
                self.surveys@.len() == old(self).surveys@.len(),
                self.primary == old(self).primary,
                self.overlay == old(self).overlay,
                forall|i: int|
                    0 <= i < self.surveys@.len() ==> {
                        let pre = old(self).surveys@[i];
                        let post = #[trigger] self.surveys@[i];
                        &&& post == (ImageSurvey {
                            textures: crate::buffer::ImageSurveyTextures {
                                available_tiles_flag: post.textures.available_tiles_flag,
                                ..pre.textures
                            },
                            ..pre
                        })
                        &&& post.textures.available_tiles_flag == (
                        pre.textures.available_tiles_flag || exists|m: int|
                            0 <= m < k && (#[trigger] available_tiles@[m]).root_url@ == pre.id@)
                    },
            decreases available_tiles@.len() - k,
        {
            let tile = &available_tiles[k];
            let found = self.find_index(&tile.root_url);
            match found {
                Some(i) => {
                    let ghost pre_loop = self.surveys@;
                    let s = &mut self.surveys[i];
                    s.get_textures_mut().register_available_tile();
                    proof {
                        assert forall|j: int| 0 <= j < self.surveys@.len() implies {
                            let pre = old(self).surveys@[j];
                            let post = #[trigger] self.surveys@[j];
                            &&& post == (ImageSurvey {
                                textures: crate::buffer::ImageSurveyTextures {
                                    available_tiles_flag: post.textures.available_tiles_flag,
                                    ..pre.textures
                                },
                                ..pre
                            })
                            &&& post.textures.available_tiles_flag == (
                            pre.textures.available_tiles_flag || exists|m: int|
                                0 <= m < k + 1 && (#[trigger] available_tiles@[m]).root_url@
                                    == pre.id@)
                        } by {
                            if j == i {
                                assert(available_tiles@[k as int].root_url@
                                    == old(self).surveys@[j].id@);
                            } else {
                                assert(self.surveys@[j] == pre_loop[j]);
                                if exists|m: int|
                                    0 <= m < k + 1 && (#[trigger] available_tiles@[m]).root_url@
                                        == old(self).surveys@[j].id@ {
                                    let m = choose|m: int|
                                        0 <= m < k + 1 && (
                                        #[trigger] available_tiles@[m]).root_url@ == old(
                                            self,
                                        ).surveys@[j].id@;
                                    if m == k {
                                        assert(old(self).surveys@[i as int].id@ == old(
                                            self,
                                        ).surveys@[j].id@);
                                    }
                                }
                            }
                        }
                    }
                },
                None => {
                    proof {
                        let ghost idseq = available_tiles@[k as int].root_url@;
                        assert(old(self).spec_has_id(idseq));
                        let i = choose|i: int|
                            0 <= i < old(self).surveys@.len() && (
                            #[trigger] old(self).surveys@[i]).id@ == idseq;
                        assert(self.surveys@[i].id@ == idseq);
                        assert(self.spec_has_id(idseq));
                        assert(false);
                    }
                },
            }
            k = k + 1;
        }
        proof {
            assert forall|i: int, j: int|
                0 <= i < j < self.surveys@.len() implies (#[trigger] self.surveys@[i]).id@ != (
            #[trigger] self.surveys@[j]).id@ by {
                assert(old(self).surveys@[i].id@ != old(self).surveys@[j].id@);
            }
            assert(self.idx_ok(self.primary)) by {
                lemma_idx_ok_ids(*old(self), *self, self.primary);
            }
            assert(self.idx_ok(self.overlay)) by {
                lemma_idx_ok_ids(*old(self), *self, self.overlay);
            }
        }
    }

    /// Admits the batch of resolved tiles into their surveys' caches:
    /// a missing tile becomes the blank placeholder. Root tiles and
    /// tiles of each survey's current visible set are never evicted by
    /// these admissions.
    pub fn add_resolved_tiles(&mut self, resolved_tiles: ResolvedTiles, now: u64)
        requires
            old(self).wf(),
            forall|k: int|
                0 <= k < resolved_tiles@.len() ==> old(self).spec_has_id(
                    (#[trigger] resolved_tiles@[k]).0.root_url@,
                ) && resolved_tiles@[k].0.cell.wf(),
        ensures
            final(self).wf(),
            final(self).surveys@.len() == old(self).surveys@.len(),
            final(self).primary == old(self).primary,
            final(self).overlay == old(self).overlay,
            forall|i: int|
                0 <= i < final(self).surveys@.len() ==> (#[trigger] final(self).surveys@[i]).id@
                    == old(self).surveys@[i].id@ && final(self).surveys@[i].view == old(
                    self,
                ).surveys@[i].view && final(self).surveys@[i].textures.config == old(
                    self,
                ).surveys@[i].textures.config,
            forall|i: int, c: HEALPixCell|
                0 <= i < final(self).surveys@.len() && old(self).surveys@[i].textures.resident(c)
                    && (c.depth == 0 || old(self).surveys@[i].view.view.cells@.contains(c)) ==> (
                #[trigger] final(self).surveys@[i].textures.resident(c)),
            admits_in_order(old(self).surveys@, final(self).surveys@, resolved_tiles@, now),
    {
        let n = resolved_tiles.len();
        let mut k: usize = 0;
        while k < n
            invariant
                0 <= k <= n,
                old(self).wf(),
                n == resolved_tiles@.len(),
                forall|m: int|
                    0 <= m < resolved_tiles@.len() ==> old(self).spec_has_id(
                        (#[trigger] resolved_tiles@[m]).0.root_url@,
                    ) && resolved_tiles@[m].0.cell.wf(),
                self.surveys@.len() == old(self).surveys@.len(),
                self.primary == old(self).primary,
                self.overlay == old(self).overlay,
                forall|i: int|
                    0 <= i < self.surveys@.len() ==> (#[trigger] self.surveys@[i]).wf(),
                forall|i: int|
                    0 <= i < self.surveys@.len() ==> (#[trigger] self.surveys@[i]).id@ == old(
                        self,
                    ).surveys@[i].id@ && self.surveys@[i].view == old(self).surveys@[i].view
                        && self.surveys@[i].textures.config == old(self).surveys@[i].textures.config,
                forall|i: int, c: HEALPixCell|
                    0 <= i < self.surveys@.len() && old(self).surveys@[i].textures.resident(c) && (
                    c.depth == 0 || old(self).surveys@[i].view.view.cells@.contains(c)) ==> (
                    #[trigger] self.surveys@[i].textures.resident(c)),
                admits_in_order(
                    old(self).surveys@,
                    self.surveys@,
                    resolved_tiles@.take(k as int),
                    now,
                ),
            decreases n - k,
        {
            let (tile, result) = &resolved_tiles[k];
            let missing = match result {
                TileResolved::Missing { .. } => true,
                TileResolved::Found { .. } => false,
            };
            let time_req = match result {
                TileResolved::Missing { time_req } => *time_req,
                TileResolved::Found { time_req, .. } => *time_req,
            };
            let cell = tile.cell;
            let found = self.find_index(&tile.root_url);
            match found {
                Some(i) => {
                    let ghost mid = self.surveys@;
                    let s = &mut self.surveys[i];
                    let protected = s.get_view().snapshot_cells();
                    let tex = s.get_textures_mut();
                    let admitted = tex.push(cell, missing, time_req, now, &protected);
                    proof {
                        let batch1 = resolved_tiles@.take(k + 1);
                        assert(batch1.drop_last() =~= resolved_tiles@.take(k as int));
                        assert(batch1.last() == resolved_tiles@[k as int]);
                        let j = spec_index_of(mid, resolved_tiles@[k as int].0.root_url@);
                        assert(0 <= j < mid.len() && mid[j].id@ == resolved_tiles@[k as int].0.root_url@);
                        assert(j == i as int);
                        assert(admit_post(
                            mid[i as int].textures,
                            self.surveys@[i as int].textures,
                            cell,
                            spec_missing(resolved_tiles@[k as int].1),
                            spec_time_req(resolved_tiles@[k as int].1),
                            now,
                            mid[i as int].view.view.cells@,
                            admitted,
                        ));
                        assert(self.surveys@[i as int] == (ImageSurvey {
                            textures: self.surveys@[i as int].textures,
                            ..mid[i as int]
                        }));
                        assert(self.surveys@ == mid.update(i as int, self.surveys@[i as int]));
                        assert(admits_in_order(old(self).surveys@, self.surveys@, batch1, now));
                    }
                },
                None => {
                    proof {
                        let ghost idseq = resolved_tiles@[k as int].0.root_url@;
                        assert(old(self).spec_has_id(idseq));
                        let i = choose|i: int|
                            0 <= i < old(self).surveys@.len() && (
                            #[trigger] old(self).surveys@[i]).id@ == idseq;
                        assert(self.surveys@[i].id@ == idseq);
                        assert(self.spec_has_id(idseq));
                        assert(false);
                    }
                },
            }
            k = k + 1;
        }
        proof {
            assert(resolved_tiles@.take(n as int) =~= resolved_tiles@);
            assert forall|i: int, j: int|
                0 <= i < j < self.surveys@.len() implies (#[trigger] self.surveys@[i]).id@ != (
            #[trigger] self.surveys@[j]).id@ by {
                assert(old(self).surveys@[i].id@ != old(self).surveys@[j].id@);
            }
            assert(self.idx_ok(self.primary)) by {
                lemma_idx_ok_ids(*old(self), *self, self.primary);
            }
            assert(self.idx_ok(self.overlay)) by {
                lemma_idx_ok_ids(*old(self), *self, self.overlay);
            }
        }
    }

    /// The view of the first primary survey, the one the global frame
    /// decisions are keyed on.
    pub fn get_view(&self) -> (v: Option<&HEALPixCellsInView>)
        requires
            self.wf(),
        ensures
            v is Some <==> self.surveys@.len() > 0 && !(self.primary is Empty),
            v matches Some(view) ==> exists|i: int|
                0 <= i < self.surveys@.len() && *view == (#[trigger] self.surveys@[i]).view
                    && match self.primary {
                    ImageSurveyIdx::Simple(id) => self.surveys@[i].id@ == id@,
                    ImageSurveyIdx::Composite(ids) => self.surveys@[i].id@ == ids@[0]@,
                    ImageSurveyIdx::Empty => false,
                },
    {
        if self.surveys.len() == 0 {
            return None;
        }
        match &self.primary {
            ImageSurveyIdx::Simple(id) => {
                match self.find_index(id) {
                    Some(i) => Some(self.surveys[i].get_view()),
                    None => {
                        proof {
                            assert(false);
                        }
                        None
                    },
                }
            },
            ImageSurveyIdx::Composite(ids) => {
                let first = &ids[0];
                match self.find_index(first) {
                    Some(i) => Some(self.surveys[i].get_view()),
                    None => {
                        proof {
                            assert(ids@.len() > 0);
                            assert(self.spec_has_id(ids@[0]@));
                            assert(false);
                        }
                        None
                    },
                }
            },
            ImageSurveyIdx::Empty => None,
        }
    }

    pub fn get(&self, root_url: &str) -> (r: Option<&ImageSurvey>)
        ensures
            r is Some <==> self.spec_has_id(root_url@),
            r matches Some(s) ==> s.id@ == root_url@ && exists|i: int|
                0 <= i < self.surveys@.len() && *s == (#[trigger] self.surveys@[i]),
    {
        let owned = root_url.to_owned();
        match self.find_index(&owned) {
            Some(i) => Some(&self.surveys[i]),
            None => None,
        }
    }

    pub fn len(&self) -> (n: usize)
        ensures
            n == self.surveys@.len(),
    {
        self.surveys.len()
    }

    pub fn iter(&self) -> (r: &Vec<ImageSurvey>)
        ensures
            r@ == self.surveys@,
    {
        &self.surveys
    }

    pub fn iter_mut(&mut self) -> (r: &mut Vec<ImageSurvey>)
        ensures
            *r == old(self).surveys,
            *final(self) == (ImageSurveys { surveys: *final(r), ..*old(self) }),
    {
        &mut self.surveys
    }

    /// Installs a survey as (part of) the primary layer, mirroring the
    /// previous selection: a reselected survey only changes color, a
    /// simple survey replaces whatever was primary, and a component
    /// joins or starts a composite.
    pub fn set_simple_hips(&mut self, survey: ImageSurvey)
        requires
            old(self).wf(),
            survey.wf(),
            overlay_survives(*old(self), survey),
        ensures
            final(self).wf(),
            final(self).overlay == old(self).overlay,
            set_simple_hips_post(*old(self), *final(self), survey),
    {
        let id = survey.id.clone();
        let survey_type = survey.get_type();
        let mut primary = ImageSurveyIdx::Empty;
        core::mem::swap(&mut primary, &mut self.primary);
        match primary {
            ImageSurveyIdx::Simple(curr_id) => {
                match survey_type {
                    ImageSurveyType::Simple => {
                        if curr_id == id {
                            // The same survey is already selected; we
                            // update it with the new color.
                            match self.find_index(&curr_id) {
                                Some(i) => {
                                    proof {
                                        let j = spec_index_of(self.surveys@, curr_id@);
                                        assert(0 <= j < self.surveys@.len()
                                            && self.surveys@[j].id@ == curr_id@);
                                        assert(j == i as int);
                                    }
                                    let color = *survey.get_color();
                                    let s = &mut self.surveys[i];
                                    s.set_color(&color);
                                },
                                None => {
                                    proof {
                                        assert(false);
                                    }
                                },
                            }
                            self.primary = ImageSurveyIdx::Simple(curr_id);
                            proof {
                                lemma_idx_ok_ids(*old(self), *self, self.primary);
                                lemma_idx_ok_ids(*old(self), *self, self.overlay);
                            }
                        } else {
                            // There is another survey; we remove it
                            // from the container and add the new one.
                            let ghost removed = spec_remove(old(self).surveys@, curr_id@);
                            self.remove_by_id(&curr_id);
                            self.insert_survey(survey);
                            self.primary = ImageSurveyIdx::Simple(id);
                            proof {
                                lemma_spec_insert_has(removed, survey);
                                lemma_has_from_seq(*self, survey.id@);
                                assert forall|oid: Seq<char>|
                                    old(self).spec_has_id(oid) && !(#[trigger] spec_removes(
                                        *old(self),
                                        survey,
                                        oid,
                                    )) implies self.spec_has_id(oid) by {
                                    assert(spec_removes(*old(self), survey, curr_id@));
                                    let w = choose|w: int|
                                        0 <= w < old(self).surveys@.len() && (
                                        #[trigger] old(self).surveys@[w]).id@ == oid;
                                    lemma_remove_keeps(old(self).surveys@, curr_id@, oid);
                                    lemma_insert_keeps(removed, survey, oid);
                                    lemma_has_from_seq(*self, oid);
                                }
                                lemma_overlay_ok(*old(self), *self, survey);
                            }
                        }
                    },
                    ImageSurveyType::Component => {
                        // A simple survey was in place; a composite
                        // replaces it.
                        let ghost removed = spec_remove(old(self).surveys@, curr_id@);
                        self.remove_by_id(&curr_id);
                        self.insert_survey(survey);
                        let mut ids: Vec<String> = Vec::new();
                        ids.push(id);
                        self.primary = ImageSurveyIdx::Composite(ids);
                        proof {
                            lemma_spec_insert_has(removed, survey);
                            lemma_has_from_seq(*self, survey.id@);
                            assert forall|oid: Seq<char>|
                                old(self).spec_has_id(oid) && !(#[trigger] spec_removes(
                                    *old(self),
                                    survey,
                                    oid,
                                )) implies self.spec_has_id(oid) by {
                                assert(spec_removes(*old(self), survey, curr_id@));
                                let w = choose|w: int|
                                    0 <= w < old(self).surveys@.len() && (
                                    #[trigger] old(self).surveys@[w]).id@ == oid;
                                lemma_remove_keeps(old(self).surveys@, curr_id@, oid);
                                lemma_insert_keeps(removed, survey, oid);
                                lemma_has_from_seq(*self, oid);
                            }
                            lemma_overlay_ok(*old(self), *self, survey);
                        }
                    },
                }
            },
            ImageSurveyIdx::Composite(curr_ids) => {
                match survey_type {
                    ImageSurveyType::Simple => {
                        // A composite was in place; we remove all its
                        // component surveys and install the simple one.
                        let ghost retained = spec_retained(old(self).surveys@, curr_ids@);
                        self.remove_by_ids(&curr_ids);
                        self.insert_survey(survey);
                        self.primary = ImageSurveyIdx::Simple(id);
                        proof {
                            lemma_spec_insert_has(retained, survey);
                            lemma_has_from_seq(*self, survey.id@);
                            assert forall|oid: Seq<char>|
                                old(self).spec_has_id(oid) && !(#[trigger] spec_removes(
                                    *old(self),
                                    survey,
                                    oid,
                                )) implies self.spec_has_id(oid) by {
                                assert(!contains_id_str(curr_ids@, oid));
                                let w = choose|w: int|
                                    0 <= w < old(self).surveys@.len() && (
                                    #[trigger] old(self).surveys@[w]).id@ == oid;
                                lemma_retained_keeps(old(self).surveys@, curr_ids@, oid);
                                lemma_insert_keeps(retained, survey, oid);
                                lemma_has_from_seq(*self, oid);
                            }
                            lemma_overlay_ok(*old(self), *self, survey);
                        }
                    },
                    ImageSurveyType::Component => {
                        if ids_contain(&curr_ids, &id) {
                            // The component is already in the
                            // composite; only its color changes.
                            match self.find_index(&id) {
                                Some(i) => {
                                    proof {
                                        let j = spec_index_of(self.surveys@, id@);
                                        assert(0 <= j < self.surveys@.len()
                                            && self.surveys@[j].id@ == id@);
                                        assert(j == i as int);
                                    }
                                    let color = *survey.get_color();
                                    let s = &mut self.surveys[i];
                                    s.set_color(&color);
                                },
                                None => {
                                    proof {
                                        let k = choose|k: int|
                                            0 <= k < curr_ids@.len() && (
                                            #[trigger] curr_ids@[k])@ == id@;
                                        assert(old(self).spec_has_id(curr_ids@[k]@));
                                        assert(false);
                                    }
                                },
                            }
                            self.primary = ImageSurveyIdx::Composite(curr_ids);
                            proof {
                                lemma_idx_ok_ids(*old(self), *self, self.primary);
                                lemma_idx_ok_ids(*old(self), *self, self.overlay);
                            }
                        } else {
                            // The component joins the composite.
                            let ghost pre_seq = self.surveys@;
                            self.insert_survey(survey);
                            let mut ids = curr_ids;
                            ids.push(id);
                            self.primary = ImageSurveyIdx::Composite(ids);
                            proof {
                                lemma_spec_insert_has(pre_seq, survey);
                                lemma_has_from_seq(*self, survey.id@);
                                assert forall|k: int|
                                    0 <= k < ids@.len() implies self.spec_has_id(
                                    (#[trigger] ids@[k])@,
                                ) by {
                                    if k < ids@.len() - 1 {
                                        let w = choose|w: int|
                                            0 <= w < old(self).surveys@.len() && (
                                            #[trigger] old(self).surveys@[w]).id@ == ids@[k]@;
                                        assert(self.surveys@[w].id@ == ids@[k]@);
                                    }
                                }
                                assert forall|oid: Seq<char>|
                                    old(self).spec_has_id(oid) && !(#[trigger] spec_removes(
                                        *old(self),
                                        survey,
                                        oid,
                                    )) implies self.spec_has_id(oid) by {
                                    let w = choose|w: int|
                                        0 <= w < old(self).surveys@.len() && (
                                        #[trigger] old(self).surveys@[w]).id@ == oid;
                                    lemma_insert_keeps(pre_seq, survey, oid);
                                    lemma_has_from_seq(*self, oid);
                                }
                                lemma_overlay_ok(*old(self), *self, survey);
                            }
                        }
                    },
                }
            },
            ImageSurveyIdx::Empty => {
                let ghost pre_seq = self.surveys@;
                self.insert_survey(survey);
                match survey_type {
                    ImageSurveyType::Simple => {
                        self.primary = ImageSurveyIdx::Simple(id);
                    },
                    ImageSurveyType::Component => {
                        let mut ids: Vec<String> = Vec::new();
                        ids.push(id);
                        self.primary = ImageSurveyIdx::Composite(ids);
                    },
                }
                proof {
                    lemma_spec_insert_has(pre_seq, survey);
                    lemma_has_from_seq(*self, survey.id@);
                    assert forall|oid: Seq<char>|
                        old(self).spec_has_id(oid) && !(#[trigger] spec_removes(
                            *old(self),
                            survey,
                            oid,
                        )) implies self.spec_has_id(oid) by {
                        let w = choose|w: int|
                            0 <= w < old(self).surveys@.len() && (
                            #[trigger] old(self).surveys@[w]).id@ == oid;
                        lemma_insert_keeps(pre_seq, survey, oid);
                        lemma_has_from_seq(*self, oid);
                    }
                    lemma_overlay_ok(*old(self), *self, survey);
                }
            },
        }
    }

    /// Map-style insertion into the survey list: an existing survey
    /// with the same id is replaced, otherwise the survey is appended.
    fn insert_survey(&mut self, survey: ImageSurvey)
        requires
            surveys_ok(old(self).surveys@),
            survey.wf(),
        ensures
            final(self).surveys@ == spec_insert(old(self).surveys@, survey),
            surveys_ok(final(self).surveys@),
            final(self).primary == old(self).primary,
            final(self).overlay == old(self).overlay,
            final(self).raytracer == old(self).raytracer,
    {
        let found = self.find_index(&survey.id);
        match found {
            Some(i) => {
                proof {
                    let j = spec_index_of(self.surveys@, survey.id@);
                    assert(0 <= j < self.surveys@.len() && self.surveys@[j].id@ == survey.id@);
                    assert(j == i as int);
                }
                self.surveys.set(i, survey);
            },
            None => {
                self.surveys.push(survey);
            },
        }
    }

    /// Map-style removal by id; absent ids leave the list unchanged.
    fn remove_by_id(&mut self, id: &String)
        requires
            surveys_ok(old(self).surveys@),
        ensures
            final(self).surveys@ == spec_remove(old(self).surveys@, id@),
            surveys_ok(final(self).surveys@),
            final(self).primary == old(self).primary,
            final(self).overlay == old(self).overlay,
            final(self).raytracer == old(self).raytracer,
    {
        let found = self.find_index(id);
        match found {
            Some(i) => {
                proof {
                    let j = spec_index_of(self.surveys@, id@);
                    assert(0 <= j < self.surveys@.len() && self.surveys@[j].id@ == id@);
                    assert(j == i as int);
                }
                let _ = self.surveys.remove(i);
            },
            None => {},
        }
    }

    /// Removes every survey one of the given ids names.
    fn remove_by_ids(&mut self, ids: &Vec<String>)
        requires
            surveys_ok(old(self).surveys@),
        ensures
            final(self).surveys@ == spec_retained(old(self).surveys@, ids@),
            surveys_ok(final(self).surveys@),
            final(self).primary == old(self).primary,
            final(self).overlay == old(self).overlay,
            final(self).raytracer == old(self).raytracer,
    {
        let mut kept: Vec<ImageSurvey> = Vec::new();
        let ghost orig = self.surveys@;
        let ghost mut j: int = 0;
        while self.surveys.len() > 0
            invariant
                0 <= j <= orig.len(),
                self.surveys@.len() == orig.len() - j,
                self.surveys@ == orig.skip(j),
                kept@ + spec_retained(self.surveys@, ids@) == spec_retained(orig, ids@),
                self.primary == old(self).primary,
                self.overlay == old(self).overlay,
                self.raytracer == old(self).raytracer,
            decreases self.surveys@.len(),
        {
            let ghost before = self.surveys@;
            let s = self.surveys.remove(0);
            proof {
                assert(s == orig[j]);
                assert forall|m: int| 0 <= m < before.len() - 1 implies before.drop_first()[m]
                    == orig.skip(j + 1)[m] by {
                    assert(before[m + 1] == orig[j + m + 1]);
                }
                assert(before.drop_first() =~= orig.skip(j + 1));
                assert(self.surveys@ =~= orig.skip(j + 1));
                assert(before.drop_first() =~= before.subrange(1, before.len() as int));
            }
            if !ids_contain(ids, &s.id) {
                kept.push(s);
                proof {
                    assert(spec_retained(before, ids@) == seq![s] + spec_retained(
                        orig.skip(j + 1),
                        ids@,
                    ));
                    assert(kept@ + spec_retained(self.surveys@, ids@) =~= spec_retained(
                        orig,
                        ids@,
                    ));
                }
            } else {
                proof {
                    assert(spec_retained(before, ids@) == spec_retained(orig.skip(j + 1), ids@));
                    assert(kept@ + spec_retained(self.surveys@, ids@) =~= spec_retained(
                        orig,
                        ids@,
                    ));
                }
            }
            proof {
                j = j + 1;
            }
        }
        proof {
            assert(spec_retained(self.surveys@, ids@) =~= Seq::<ImageSurvey>::empty());
            assert(kept@ =~= spec_retained(orig, ids@));
            lemma_retained_ok(orig, ids@);
        }
        core::mem::swap(&mut self.surveys, &mut kept);
    }
}

/// What installing a survey does, case by case: which surveys remain
/// and what the primary slot names afterwards.
pub open spec fn set_simple_hips_post(
    pre: ImageSurveys,
    post: ImageSurveys,
    survey: ImageSurvey,
) -> bool {
    match pre.primary {
        ImageSurveyIdx::Simple(curr) => match survey.survey_type {
            ImageSurveyType::Simple => if curr@ == survey.id@ {
                // The same survey is selected again: only its color
                // pipeline is updated.
                &&& post.surveys@ == pre.surveys@.update(
                    spec_index_of(pre.surveys@, curr@),
                    (ImageSurvey {
                        color: survey.color,
                        ..pre.surveys@[spec_index_of(pre.surveys@, curr@)]
                    }),
                )
                &&& post.primary matches ImageSurveyIdx::Simple(id) && id@ == curr@
            } else {
                // Another simple survey replaces the current one.
                &&& post.surveys@ == spec_insert(spec_remove(pre.surveys@, curr@), survey)
                &&& post.primary matches ImageSurveyIdx::Simple(id) && id@ == survey.id@
            },
            ImageSurveyType::Component => {
                // A composite survey replaces the simple one.
                &&& post.surveys@ == spec_insert(spec_remove(pre.surveys@, curr@), survey)
                &&& post.primary matches ImageSurveyIdx::Composite(ids) && ids@.len() == 1
                    && ids@[0]@ == survey.id@
            },
        },
        ImageSurveyIdx::Composite(curr_ids) => match survey.survey_type {
            ImageSurveyType::Simple => {
                // A simple survey replaces the whole composite.
                &&& post.surveys@ == spec_insert(spec_retained(pre.surveys@, curr_ids@), survey)
                &&& post.primary matches ImageSurveyIdx::Simple(id) && id@ == survey.id@
            },
            ImageSurveyType::Component => if contains_id_str(curr_ids@, survey.id@) {
                // The component is already part of the composite:
                // only its color pipeline is updated.
                &&& post.surveys@ == pre.surveys@.update(
                    spec_index_of(pre.surveys@, survey.id@),
                    (ImageSurvey {
                        color: survey.color,
                        ..pre.surveys@[spec_index_of(pre.surveys@, survey.id@)]
                    }),
                )
                &&& post.primary == pre.primary
            } else {
                // The component joins the composite.
                &&& post.surveys@ == spec_insert(pre.surveys@, survey)
                &&& post.primary matches ImageSurveyIdx::Composite(ids) && ids@.len()
                    == curr_ids@.len() + 1 && (forall|k: int|
                    0 <= k < curr_ids@.len() ==> (#[trigger] ids@[k])@ == curr_ids@[k]@)
                    && ids@[curr_ids@.len() as int]@ == survey.id@
            },
        },
        ImageSurveyIdx::Empty => {
            &&& post.surveys@ == spec_insert(pre.surveys@, survey)
            &&& match survey.survey_type {
                ImageSurveyType::Simple => post.primary matches ImageSurveyIdx::Simple(id) && id@
                    == survey.id@,
                ImageSurveyType::Component => post.primary matches ImageSurveyIdx::Composite(ids)
                    && ids@.len() == 1 && ids@[0]@ == survey.id@,
            }
        },
    }
}

/// After a map-style insertion the inserted survey's id is present.
proof fn lemma_spec_insert_has(pre: Seq<ImageSurvey>, survey: ImageSurvey)
    ensures
        exists|i: int|
            0 <= i < spec_insert(pre, survey).len() && (#[trigger] spec_insert(pre, survey)[i]).id@
                == survey.id@,
{
    if spec_has(pre, survey.id@) {
        let i = spec_index_of(pre, survey.id@);
        assert(0 <= i < pre.len() && pre[i].id@ == survey.id@);
        assert(spec_insert(pre, survey)[i] == survey);
    } else {
        assert(spec_insert(pre, survey)[pre.len() as int] == survey);
    }
}

/// The positions of the surveys one slot names, in slot order.
pub open spec fn spec_slot_index_seq(s: Seq<ImageSurvey>, idx: ImageSurveyIdx) -> Seq<int> {
    match idx {
        ImageSurveyIdx::Simple(id) => seq![spec_index_of(s, id@)],
        ImageSurveyIdx::Composite(ids) => Seq::new(
            ids@.len(),
            |k: int| spec_index_of(s, ids@[k]@),
        ),
        ImageSurveyIdx::Empty => Seq::empty(),
    }
}

/// The surveys at the given positions were drawn exactly once each, in
/// order: each one's final state and returned call meet the per-survey
/// draw contract against its state at that point, and nothing else
/// changes.
pub open spec fn draws_in_order(
    pre: Seq<ImageSurvey>,
    post: Seq<ImageSurvey>,
    order: Seq<int>,
    calls: Seq<DrawCall>,
    camera: CameraViewPort,
    fov_type: FieldOfViewType,
    time_now: u64,
) -> bool
    decreases order.len(),
{
    if order.len() == 0 {
        post == pre && calls.len() == 0
    } else {
        &&& calls.len() == order.len()
        &&& exists|mid: Seq<ImageSurvey>| #![trigger mid.update(order.last(), post[order.last()])]
            {
                &&& draws_in_order(
                    pre,
                    mid,
                    order.drop_last(),
                    calls.drop_last(),
                    camera,
                    fov_type,
                    time_now,
                )
                &&& 0 <= order.last() < mid.len()
                &&& mid.len() == post.len()
                &&& draw_post(
                    mid[order.last()],
                    post[order.last()],
                    camera,
                    fov_type,
                    time_now,
                    calls.last(),
                )
                &&& post == mid.update(order.last(), post[order.last()])
            }
    }
}

/// Whether a fetch outcome is the missing-tile placeholder.
pub open spec fn spec_missing(result: TileResolved) -> bool {
    result is Missing
}

/// The request time a fetch outcome carries.
pub open spec fn spec_time_req(result: TileResolved) -> u64 {
    match result {
        TileResolved::Missing { time_req } => time_req,
        TileResolved::Found { time_req, .. } => time_req,
    }
}

/// The batch of resolved tiles was admitted in order: for each element
/// the survey its root url names relates to its prior state by the
/// cache's admission contract, with that survey's own visible cells
/// protected, and nothing else changes.
pub open spec fn admits_in_order(
    pre: Seq<ImageSurvey>,
    post: Seq<ImageSurvey>,
    batch: Seq<(Tile, TileResolved)>,
    now: u64,
) -> bool
    decreases batch.len(),
{
    if batch.len() == 0 {
        post == pre
    } else {
        exists|mid: Seq<ImageSurvey>| #![trigger spec_index_of(mid, batch.last().0.root_url@)]
            {
                let tile = batch.last().0;
                let result = batch.last().1;
                let i = spec_index_of(mid, tile.root_url@);
                &&& admits_in_order(pre, mid, batch.drop_last(), now)
                &&& 0 <= i < mid.len()
                &&& mid.len() == post.len()
                &&& (admit_post(
                    mid[i].textures,
                    post[i].textures,
                    tile.cell,
                    spec_missing(result),
                    spec_time_req(result),
                    now,
                    mid[i].view.view.cells@,
                    true,
                ) || admit_post(
                    mid[i].textures,
                    post[i].textures,
                    tile.cell,
                    spec_missing(result),
                    spec_time_req(result),
                    now,
                    mid[i].view.view.cells@,
                    false,
                ))
                &&& post[i] == (ImageSurvey { textures: post[i].textures, ..mid[i] })
                &&& post == mid.update(i, post[i])
            }
    }
}

/// Whether installing `survey` removes the survey with the given id
/// from the map: a replaced simple primary goes, and a simple survey
/// sweeps a composite's components away; reselecting the same simple
/// survey removes nothing.
pub open spec fn spec_removes(pre: ImageSurveys, survey: ImageSurvey, id: Seq<char>) -> bool {
    match pre.primary {
        ImageSurveyIdx::Simple(curr) => id == curr@ && !(survey.survey_type
            == ImageSurveyType::Simple && curr@ == survey.id@),
        ImageSurveyIdx::Composite(ids) => survey.survey_type == ImageSurveyType::Simple
            && contains_id_str(ids@, id),
        ImageSurveyIdx::Empty => false,
    }
}

/// Every id the overlay references survives the installation: it is
/// not removed, or it is the installed survey's own id.
pub open spec fn overlay_survives(pre: ImageSurveys, survey: ImageSurvey) -> bool {
    match pre.overlay {
        ImageSurveyIdx::Simple(oid) => oid@ == survey.id@ || !spec_removes(pre, survey, oid@),
        ImageSurveyIdx::Composite(oids) => forall|k: int|
            0 <= k < oids@.len() ==> (#[trigger] oids@[k])@ == survey.id@ || !spec_removes(
                pre,
                survey,
                oids@[k]@,
            ),
        ImageSurveyIdx::Empty => true,
    }
}

/// Removing one id keeps every other id present.
proof fn lemma_remove_keeps(s: Seq<ImageSurvey>, removed_id: Seq<char>, oid: Seq<char>)
    requires
        spec_has(s, oid),
        oid != removed_id,
    ensures
        spec_has(spec_remove(s, removed_id), oid),
{
    let w = choose|w: int| 0 <= w < s.len() && (#[trigger] s[w]).id@ == oid;
    if spec_has(s, removed_id) {
        let ridx = spec_index_of(s, removed_id);
        assert(0 <= ridx < s.len() && s[ridx].id@ == removed_id);
        assert(w != ridx);
        if w < ridx {
            assert(s.remove(ridx)[w] == s[w]);
        } else {
            assert(s.remove(ridx)[w - 1] == s[w]);
        }
    }
}

/// Map-style insertion keeps every present id, and makes the inserted
/// survey's id present.
proof fn lemma_insert_keeps(s: Seq<ImageSurvey>, survey: ImageSurvey, oid: Seq<char>)
    requires
        spec_has(s, oid) || oid == survey.id@,
    ensures
        spec_has(spec_insert(s, survey), oid),
{
    if oid == survey.id@ {
        lemma_spec_insert_has(s, survey);
    } else {
        let w = choose|w: int| 0 <= w < s.len() && (#[trigger] s[w]).id@ == oid;
        if spec_has(s, survey.id@) {
            let u = spec_index_of(s, survey.id@);
            assert(0 <= u < s.len() && s[u].id@ == survey.id@);
            assert(w != u);
            assert(spec_insert(s, survey)[w] == s[w]);
        } else {
            assert(spec_insert(s, survey)[w] == s[w]);
        }
    }
}

/// Retaining the surveys outside an id list keeps every id the list
/// does not name.
proof fn lemma_retained_keeps(s: Seq<ImageSurvey>, ids: Seq<String>, oid: Seq<char>)
    requires
        spec_has(s, oid),
        !contains_id_str(ids, oid),
    ensures
        spec_has(spec_retained(s, ids), oid),
    decreases s.len(),
{
    let w = choose|w: int| 0 <= w < s.len() && (#[trigger] s[w]).id@ == oid;
    if w == 0 {
        assert(!contains_id_str(ids, s[0].id@));
        assert(spec_retained(s, ids)[0] == s[0]);
    } else {
        let tail = s.drop_first();
        assert(tail[w - 1] == s[w]);
        assert(spec_has(tail, oid));
        lemma_retained_keeps(tail, ids, oid);
        let rest = spec_retained(tail, ids);
        let w2 = choose|w2: int| 0 <= w2 < rest.len() && (#[trigger] rest[w2]).id@ == oid;
        if !contains_id_str(ids, s[0].id@) {
            assert((seq![s[0]] + rest)[w2 + 1] == rest[w2]);
        }
    }
}

/// A membership witness carries over from the sequence to the map.
proof fn lemma_has_from_seq(x: ImageSurveys, id: Seq<char>)
    requires
        spec_has(x.surveys@, id),
    ensures
        x.spec_has_id(id),
{
    let w = choose|w: int| 0 <= w < x.surveys@.len() && (#[trigger] x.surveys@[w]).id@ == id;
    assert(x.surveys@[w].id@ == id);
}

/// An overlay whose referenced ids all survive the installation still
/// references present surveys afterwards.
proof fn lemma_overlay_ok(pre: ImageSurveys, post: ImageSurveys, survey: ImageSurvey)
    requires
        pre.idx_ok(pre.overlay),
        overlay_survives(pre, survey),
        post.overlay == pre.overlay,
        post.spec_has_id(survey.id@),
        forall|oid: Seq<char>|
            pre.spec_has_id(oid) && !(#[trigger] spec_removes(pre, survey, oid))
                ==> post.spec_has_id(oid),
    ensures
        post.idx_ok(post.overlay),
{
    match pre.overlay {
        ImageSurveyIdx::Simple(oid) => {
            if oid@ != survey.id@ {
                assert(!spec_removes(pre, survey, oid@));
            }
        },
        ImageSurveyIdx::Composite(oids) => {
            assert forall|k: int| 0 <= k < oids@.len() implies post.spec_has_id(
                (#[trigger] oids@[k])@,
            ) by {
                if oids@[k]@ != survey.id@ {
                    assert(!spec_removes(pre, survey, oids@[k]@));
                }
            }
        },
        ImageSurveyIdx::Empty => {},
    }
}

/// Every survey in the list is well formed and no id repeats.
pub open spec fn surveys_ok(s: Seq<ImageSurvey>) -> bool {
    &&& forall|i: int| 0 <= i < s.len() ==> (#[trigger] s[i]).wf()
    &&& forall|i: int, j: int| 0 <= i < j < s.len() ==> (#[trigger] s[i]).id@ != (#[trigger] s[j]).id@
}

/// Whether the id list names the given id.
fn ids_contain(ids: &Vec<String>, id: &String) -> (b: bool)
    ensures
        b == contains_id_str(ids@, id@),
{
    let mut k: usize = 0;
    while k < ids.len()
        invariant
            0 <= k <= ids@.len(),
            forall|m: int| 0 <= m < k ==> (#[trigger] ids@[m])@ != id@,
        decreases ids@.len() - k,
    {
        if ids[k] == *id {
            return true;
        }
        k = k + 1;
    }
    false
}

/// Keeping only the surveys outside the id list leaves a well-formed
/// list whose entries all come from the starting list.
proof fn lemma_retained_ok(s: Seq<ImageSurvey>, ids: Seq<String>)
    requires
        surveys_ok(s),
    ensures
        surveys_ok(spec_retained(s, ids)),
        forall|x: ImageSurvey| #[trigger] spec_retained(s, ids).contains(x) ==> s.contains(x),
    decreases s.len(),
{
    if s.len() > 0 {
        let tail = s.drop_first();
        assert(surveys_ok(tail)) by {
            assert(forall|i: int| 0 <= i < tail.len() ==> (#[trigger] tail[i]) == s[i + 1]);
        }
        lemma_retained_ok(tail, ids);
        let rest = spec_retained(tail, ids);
        assert forall|x: ImageSurvey| #[trigger] spec_retained(s, ids).contains(x) implies s.contains(
            x,
        ) by {
            if contains_id_str(ids, s[0].id@) {
                assert(rest.contains(x));
                assert(tail.contains(x));
                let i = choose|i: int| 0 <= i < tail.len() && tail[i] == x;
                assert(s[i + 1] == x);
            } else {
                let full = seq![s[0]] + rest;
                let i = choose|i: int| 0 <= i < full.len() && full[i] == x;
                if i == 0 {
                    assert(s[0] == x);
                } else {
                    assert(rest.contains(x));
                    assert(tail.contains(x));
                    let m = choose|m: int| 0 <= m < tail.len() && tail[m] == x;
                    assert(s[m + 1] == x);
                }
            }
        }
        if !contains_id_str(ids, s[0].id@) {
            let full = seq![s[0]] + rest;
            assert forall|i: int, j: int| 0 <= i < j < full.len() implies (#[trigger] full[i]).id@
                != (#[trigger] full[j]).id@ by {
                if i == 0 {
                    assert(rest.contains(rest[j - 1]));
                    assert(tail.contains(full[j]));
                    let m = choose|m: int| 0 <= m < tail.len() && tail[m] == full[j];
                    assert(s[m + 1] == full[j]);
                    assert(s[0].id@ != s[m + 1].id@);
                } else {
                    assert(rest[i - 1] == full[i] && rest[j - 1] == full[j]);
                }
            }
            assert forall|i: int| 0 <= i < full.len() implies (#[trigger] full[i]).wf() by {
                if i == 0 {
                } else {
                    assert(rest[i - 1] == full[i]);
                }
            }
        }
    }
}

/// Whether a survey with the given id stands in the list.
pub open spec fn spec_has(s: Seq<ImageSurvey>, id: Seq<char>) -> bool {
    exists|i: int| 0 <= i < s.len() && (#[trigger] s[i]).id@ == id
}

/// The position of the survey with the given id.
pub open spec fn spec_index_of(s: Seq<ImageSurvey>, id: Seq<char>) -> int {
    choose|i: int| 0 <= i < s.len() && (#[trigger] s[i]).id@ == id
}

/// Whether the id list names the given id.
pub open spec fn contains_id_str(ids: Seq<String>, id: Seq<char>) -> bool {
    exists|k: int| 0 <= k < ids.len() && (#[trigger] ids[k])@ == id
}

/// Map-style insertion: a survey with the same id is replaced in
/// place, a new id is appended.
pub open spec fn spec_insert(s: Seq<ImageSurvey>, survey: ImageSurvey) -> Seq<ImageSurvey> {
    if spec_has(s, survey.id@) {
        s.update(spec_index_of(s, survey.id@), survey)
    } else {
        s.push(survey)
    }
}

/// Map-style removal by id.
pub open spec fn spec_remove(s: Seq<ImageSurvey>, id: Seq<char>) -> Seq<ImageSurvey> {
    if spec_has(s, id) {
        s.remove(spec_index_of(s, id))
    } else {
        s
    }
}

/// The surveys whose ids the list does not name, in order.
pub open spec fn spec_retained(s: Seq<ImageSurvey>, ids: Seq<String>) -> Seq<ImageSurvey>
    decreases s.len(),
{
    if s.len() == 0 {
        Seq::empty()
    } else {
        let rest = spec_retained(s.drop_first(), ids);
        if contains_id_str(ids, s[0].id@) {
            rest
        } else {
            seq![s[0]] + rest
        }
    }
}

/// A slot that referenced only ids still present keeps referencing
/// present ids when every id is preserved position by position.
proof fn lemma_idx_ok_ids(pre: ImageSurveys, post: ImageSurveys, idx: ImageSurveyIdx)
    requires
        pre.idx_ok(idx),
        post.surveys@.len() == pre.surveys@.len(),
        forall|i: int|
            0 <= i < post.surveys@.len() ==> (#[trigger] post.surveys@[i]).id@
                == pre.surveys@[i].id@,
    ensures
        post.idx_ok(idx),
{
    match idx {
        ImageSurveyIdx::Simple(id) => {
            let i = choose|i: int|
                0 <= i < pre.surveys@.len() && (#[trigger] pre.surveys@[i]).id@ == id@;
            assert(post.surveys@[i].id@ == id@);
        },
        ImageSurveyIdx::Composite(ids) => {
            assert forall|k: int| 0 <= k < ids@.len() implies post.spec_has_id(
                (#[trigger] ids@[k])@,
            ) by {
                let i = choose|i: int|
                    0 <= i < pre.surveys@.len() && (#[trigger] pre.surveys@[i]).id@ == ids@[k]@;
                assert(post.surveys@[i].id@ == ids@[k]@);
            }
        },
        ImageSurveyIdx::Empty => {},
    }
}

} // verus!
