//! One layered survey: its color pipeline, its texture cache, its
//! visible-cell view, and the per-frame draw decision — raytrace the
//! whole sphere above the aperture threshold, otherwise rebuild the
//! rasterized mesh exactly when the view changed, new tiles arrived,
//! or the camera moved.

use vstd::prelude::*;

use crate::buffer::ConfigError;
use crate::buffer::HiPSConfig;
use crate::buffer::ImageSurveyTextures;
use crate::buffer::Texture;
use crate::buffer::config_args_valid;
use crate::buffer::spec_config_error;
use crate::camera::CameraViewPort;
use crate::camera::UserAction;
use crate::cell::HEALPixCell;
use crate::fov::FieldOfViewType;
use crate::fov::FieldOfViewVertices;
use crate::mesh::MAX_NUM_INDICES_TO_DRAW;
use crate::mesh::MAX_NUM_VERTICES_TO_DRAW;
use crate::mesh::Mesh;
use crate::mesh::build_mesh;
use crate::mesh::greedy_taken;
use crate::mesh::mesh_indices_of;
use crate::mesh::mesh_vertices_of;
use crate::transition::Move;
use crate::transition::RecomputeRasterizer;
use crate::transition::SphereSubdivided;
use crate::transition::UnZoom;
use crate::transition::Zoom;
use crate::transition::TextureToDraw;
use crate::transition::spec_entries;
use crate::view::HEALPixCellsInView;
use crate::view::refresh_post;

verus! {

/// Fixed-point representation of 1.0 for shader parameters.
pub const FIXED_ONE: i64 = 0x10000;

/// Above this aperture the whole-sphere raytraced path replaces the
/// per-cell rasterized path: 110 degrees of the 360 the grid width
/// spans.
pub const RAYTRACE_APERTURE_LIMIT: i64 = 1312351118;

/// The transfer function applied to grayscale samples.
#[derive(Clone, Copy, PartialEq, Eq, Structural, Debug)]
pub enum TransferFunction {
    Linear,
    Sqrt,
    Log,
    Asinh,
    Pow2,
}

/// A named colormap for grayscale surveys.
#[derive(Clone, Copy, PartialEq, Eq, Structural, Debug)]
pub enum Colormap {
    BlackWhite,
    Parula,
    Rainbow,
    Spectral,
}

/// A shader-uniform slot this core computes a value for.
#[derive(Clone, Copy, PartialEq, Eq, Structural, Debug)]
pub enum UniformKey {
    TransferFunc,
    MinValue,
    MaxValue,
    Scale,
    Offset,
    Blank,
    ColormapId,
    ColorRed,
    ColorGreen,
    ColorBlue,
    Strength,
}

/// An RGB color in fixed point.
#[derive(Clone, Copy, PartialEq, Eq, Structural, Debug)]
pub struct ColorRGB {
    pub red: i64,
    pub green: i64,
    pub blue: i64,
}

/// One shader-uniform value, in fixed point where fractional.
#[derive(Clone, Copy, PartialEq, Eq, Structural, Debug)]
pub struct Uniform {
    pub key: UniformKey,
    pub value: i64,
}

pub open spec fn transfer_code(h: TransferFunction) -> i64 {
    match h {
        TransferFunction::Linear => 0,
        TransferFunction::Sqrt => 1,
        TransferFunction::Log => 2,
        TransferFunction::Asinh => 3,
        TransferFunction::Pow2 => 4,
    }
}

pub open spec fn colormap_code(c: Colormap) -> i64 {
    match c {
        Colormap::BlackWhite => 0,
        Colormap::Parula => 1,
        Colormap::Rainbow => 2,
        Colormap::Spectral => 3,
    }
}

/// The scaling parameters of a grayscale survey.
#[derive(Clone, Copy, PartialEq, Eq, Structural, Debug)]
pub struct GrayscaleParameter {
    pub h: TransferFunction,
    pub min_value: i64,
    pub max_value: i64,
    pub scale: i64,
    pub offset: i64,
    pub blank: i64,
}

/// The uniforms a grayscale parameter block contributes, in order.
pub open spec fn grayscale_uniforms(p: GrayscaleParameter) -> Seq<Uniform> {
    seq![
        Uniform { key: UniformKey::TransferFunc, value: transfer_code(p.h) },
        Uniform { key: UniformKey::MinValue, value: p.min_value },
        Uniform { key: UniformKey::MaxValue, value: p.max_value },
        Uniform { key: UniformKey::Scale, value: p.scale },
        Uniform { key: UniformKey::Offset, value: p.offset },
        Uniform { key: UniformKey::Blank, value: p.blank },
    ]
}

impl GrayscaleParameter {
    /// Appends this block's uniforms to the frame's uniform set.
    pub fn attach_uniforms(&self, out: &mut Vec<Uniform>)
        ensures
            final(out)@ == old(out)@ + grayscale_uniforms(*self),
    {
        let code: i64 = match self.h {
            TransferFunction::Linear => 0,
            TransferFunction::Sqrt => 1,
            TransferFunction::Log => 2,
            TransferFunction::Asinh => 3,
            TransferFunction::Pow2 => 4,
        };
        out.push(Uniform { key: UniformKey::TransferFunc, value: code });
        out.push(Uniform { key: UniformKey::MinValue, value: self.min_value });
        out.push(Uniform { key: UniformKey::MaxValue, value: self.max_value });
        out.push(Uniform { key: UniformKey::Scale, value: self.scale });
        out.push(Uniform { key: UniformKey::Offset, value: self.offset });
        out.push(Uniform { key: UniformKey::Blank, value: self.blank });
        proof {
            assert(out@ =~= old(out)@ + grayscale_uniforms(*self));
        }
    }
}

/// How a survey's samples become colors on screen.
#[derive(Clone, Copy, PartialEq, Eq, Structural, Debug)]
pub enum Color {
    Colored,
    Grayscale2Colormap { colormap: Colormap, param: GrayscaleParameter },
    Grayscale2Color { color: ColorRGB, k: i64, param: GrayscaleParameter },
}

/// Which compiled shader a draw call needs.
#[derive(Clone, Copy, PartialEq, Eq, Structural, Debug)]
pub enum ShaderKind {
    RasterColored,
    RasterGray2Colormap,
    RasterGray2Color,
    RaytracerColored,
    RaytracerGray2Colormap,
    RaytracerGray2Color,
}

/// The uniforms a color pipeline contributes, in order.
pub open spec fn color_uniforms(c: Color) -> Seq<Uniform> {
    match c {
        Color::Colored => Seq::empty(),
        Color::Grayscale2Colormap { colormap, param } => seq![
            Uniform { key: UniformKey::ColormapId, value: colormap_code(colormap) },
        ] + grayscale_uniforms(param),
        Color::Grayscale2Color { color, k, param } => grayscale_uniforms(param) + seq![
            Uniform { key: UniformKey::ColorRed, value: color.red },
            Uniform { key: UniformKey::ColorGreen, value: color.green },
            Uniform { key: UniformKey::ColorBlue, value: color.blue },
            Uniform { key: UniformKey::Strength, value: k },
        ],
    }
}

impl Color {
    /// The rasterized-path shader this pipeline draws with.
    pub fn get_raster_shader(&self) -> (s: ShaderKind)
        ensures
            s == match *self {
                Color::Colored => ShaderKind::RasterColored,
                Color::Grayscale2Colormap { .. } => ShaderKind::RasterGray2Colormap,
                Color::Grayscale2Color { .. } => ShaderKind::RasterGray2Color,
            },
    {
        match self {
            Color::Colored => ShaderKind::RasterColored,
            Color::Grayscale2Colormap { .. } => ShaderKind::RasterGray2Colormap,
            Color::Grayscale2Color { .. } => ShaderKind::RasterGray2Color,
        }
    }

    /// The raytraced-path shader this pipeline draws with.
    pub fn get_raytracer_shader(&self) -> (s: ShaderKind)
        ensures
            s == match *self {
                Color::Colored => ShaderKind::RaytracerColored,
                Color::Grayscale2Colormap { .. } => ShaderKind::RaytracerGray2Colormap,
                Color::Grayscale2Color { .. } => ShaderKind::RaytracerGray2Color,
            },
    {
        match self {
            Color::Colored => ShaderKind::RaytracerColored,
            Color::Grayscale2Colormap { .. } => ShaderKind::RaytracerGray2Colormap,
            Color::Grayscale2Color { .. } => ShaderKind::RaytracerGray2Color,
        }
    }

    /// Appends this pipeline's uniforms to the frame's uniform set.
    pub fn attach_uniforms(&self, out: &mut Vec<Uniform>)
        ensures
            final(out)@ == old(out)@ + color_uniforms(*self),
    {
        match self {
            Color::Colored => {
                proof {
                    assert(out@ =~= old(out)@ + color_uniforms(*self));
                }
            },
            Color::Grayscale2Colormap { colormap, param } => {
                let code: i64 = match colormap {
                    Colormap::BlackWhite => 0,
                    Colormap::Parula => 1,
                    Colormap::Rainbow => 2,
                    Colormap::Spectral => 3,
                };
                out.push(Uniform { key: UniformKey::ColormapId, value: code });
                param.attach_uniforms(out);
                proof {
                    assert(out@ =~= old(out)@ + color_uniforms(*self));
                }
            },
            Color::Grayscale2Color { color, k, param } => {
                param.attach_uniforms(out);
                out.push(Uniform { key: UniformKey::ColorRed, value: color.red });
                out.push(Uniform { key: UniformKey::ColorGreen, value: color.green });
                out.push(Uniform { key: UniformKey::ColorBlue, value: color.blue });
                out.push(Uniform { key: UniformKey::Strength, value: *k });
                proof {
                    assert(out@ =~= old(out)@ + color_uniforms(*self));
                }
            },
        }
    }
}

/// Whether a survey stands alone or is one component of a composite.
#[derive(Clone, Copy, PartialEq, Eq, Structural, Debug)]
pub enum ImageSurveyType {
    Simple,
    Component,
}

/// What one survey asks the graphics backend to do this frame.
#[derive(Clone, Copy, PartialEq, Eq, Structural, Debug)]
pub enum DrawCall {
    NotReady,
    Raytrace { depth: u8, current_time: u64 },
    Raster { num_idx: usize, depth: u8, current_time: u64, rebuilt: bool },
}

/// One image survey and its per-frame state.
pub struct ImageSurvey {
    pub id: String,
    pub color: Color,
    pub textures: ImageSurveyTextures,
    pub view: HEALPixCellsInView,
    pub num_idx: usize,
    pub sphere_sub: SphereSubdivided,
    pub mesh: Mesh,
    pub size_vertices_buf: u32,
    pub size_idx_vertices_buf: u32,
    pub survey_type: ImageSurveyType,
}

/// Whether some selection entry reads the given atlas slot.
pub open spec fn touched_by(entries: Seq<(HEALPixCell, TextureToDraw)>, i: int) -> bool {
    exists|j: int|
        0 <= j < entries.len() && ((#[trigger] entries[j]).1.starting_texture.slot_idx == i
            || entries[j].1.ending_texture.slot_idx == i)
}

/// The cache after the draw path touched the slots it read: every slot
/// keeps its tile, the slots of the drawn textures carry the recency
/// stamp `now`, and no other slot's stamp moves.
pub open spec fn touched_textures(
    pre: ImageSurveyTextures,
    post: ImageSurveyTextures,
    entries: Seq<(HEALPixCell, TextureToDraw)>,
    now: u64,
) -> bool {
    &&& post.config == pre.config
    &&& post.available_tiles_flag == pre.available_tiles_flag
    &&& post.slots@.len() == pre.slots@.len()
    &&& forall|i: int|
        0 <= i < pre.slots@.len() ==> ((#[trigger] post.slots@[i]) is Some <==> pre.slots@[i]
            is Some)
    &&& forall|i: int|
        0 <= i < pre.slots@.len() && pre.slots@[i] is Some ==> (#[trigger] post.slots@[i]).unwrap()
            == (Texture { last_used: post.slots@[i].unwrap().last_used, ..pre.slots@[i].unwrap() })
    &&& forall|j: int|
        0 <= j < entries.len() ==> ({
            let e = #[trigger] entries[j];
            &&& (e.1.starting_texture.slot_idx < pre.slots@.len()
                && pre.slots@[e.1.starting_texture.slot_idx as int] is Some
                ==> post.slots@[e.1.starting_texture.slot_idx as int].unwrap().last_used == now)
            &&& (e.1.ending_texture.slot_idx < pre.slots@.len()
                && pre.slots@[e.1.ending_texture.slot_idx as int] is Some
                ==> post.slots@[e.1.ending_texture.slot_idx as int].unwrap().last_used == now)
        })
    &&& forall|i: int|
        0 <= i < pre.slots@.len() && pre.slots@[i] is Some && (
        #[trigger] post.slots@[i]).unwrap().last_used != pre.slots@[i].unwrap().last_used ==> (
        post.slots@[i].unwrap().last_used == now && touched_by(entries, i))
}

/// What rebuilding the mesh under strategy T does to a survey.
pub open spec fn update_post<T: RecomputeRasterizer>(
    pre: ImageSurvey,
    post: ImageSurvey,
    camera: CameraViewPort,
    fov_type: FieldOfViewType,
    now: u64,
) -> bool {
    let entries = spec_entries::<T>(camera, pre.view, pre.textures, fov_type);
    let taken = greedy_taken::<T>(entries, pre.sphere_sub);
    &&& post.mesh.vertices@ == mesh_vertices_of::<T>(taken, pre.sphere_sub)
    &&& post.mesh.indices@ == mesh_indices_of::<T>(taken, pre.sphere_sub)
    &&& post.mesh.dropped_cells == entries.len() - taken.len()
    &&& post.num_idx == post.mesh.indices@.len()
    &&& post.mesh.vertices@.len() <= MAX_NUM_VERTICES_TO_DRAW
    &&& post.mesh.indices@.len() <= MAX_NUM_INDICES_TO_DRAW
    &&& post.id == pre.id
    &&& post.color == pre.color
    &&& touched_textures(pre.textures, post.textures, entries, now)
    &&& post.view == pre.view
    &&& post.sphere_sub == pre.sphere_sub
    &&& post.survey_type == pre.survey_type
}

/// The mesh rebuild the last gesture asks for.
pub open spec fn set_vertices_post(
    pre: ImageSurvey,
    post: ImageSurvey,
    action: UserAction,
    camera: CameraViewPort,
    fov_type: FieldOfViewType,
    now: u64,
) -> bool {
    match action {
        UserAction::Unzooming => update_post::<UnZoom>(pre, post, camera, fov_type, now),
        UserAction::Zooming => update_post::<Zoom>(pre, post, camera, fov_type, now),
        UserAction::Moving => update_post::<Move>(pre, post, camera, fov_type, now),
        UserAction::Starting => update_post::<Move>(pre, post, camera, fov_type, now),
    }
}

/// Everything one survey's draw decision promises, as one predicate:
/// what the call is and how the survey changed, in each of the three
/// regimes.
pub open spec fn draw_post(
    pre: ImageSurvey,
    post: ImageSurvey,
    camera: CameraViewPort,
    fov_type: FieldOfViewType,
    time_now: u64,
    d: DrawCall,
) -> bool {
    &&& (!pre.textures.spec_is_ready() ==> post == pre && d == DrawCall::NotReady)
    &&& (pre.textures.spec_is_ready() && camera.aperture > RAYTRACE_APERTURE_LIMIT ==> post == pre
        && d == (DrawCall::Raytrace { depth: pre.view.view.depth, current_time: time_now }))
    &&& (pre.textures.spec_is_ready() && camera.aperture <= RAYTRACE_APERTURE_LIMIT ==> ({
        let rebuilt = pre.view.new_cells_added || pre.textures.available_tiles_flag
            || camera.moved;
        let cleared = ImageSurvey {
            textures: ImageSurveyTextures { available_tiles_flag: false, ..pre.textures },
            ..pre
        };
        &&& d == (DrawCall::Raster {
            num_idx: post.num_idx,
            depth: pre.view.view.depth,
            current_time: time_now,
            rebuilt,
        })
        &&& !post.textures.available_tiles_flag
        &&& (!rebuilt ==> post == cleared)
        &&& (rebuilt ==> set_vertices_post(
            cleared,
            post,
            camera.last_user_action,
            camera,
            fov_type,
            time_now,
        ))
    }))
}

impl ImageSurvey {
    pub open spec fn wf(self) -> bool {
        &&& self.textures.wf()
        &&& self.view.wf()
        &&& self.id@ == self.textures.config.root_url@
    }

    /// A fresh survey: empty cache, empty view, empty mesh.
    pub fn new(config: HiPSConfig, color: Color, survey_type: ImageSurveyType) -> (s: ImageSurvey)
        requires
            config.wf(),
        ensures
            s.wf(),
            s.color == color,
            s.survey_type == survey_type,
            s.textures.config == config,
            s.id@ == config.root_url@,
            forall|c: HEALPixCell| !s.textures.resident(c),
            !s.textures.available_tiles_flag,
            s.view.view.cells@.len() == 0,
            s.num_idx == 0,
            s.mesh.vertices@.len() == 0,
            s.mesh.indices@.len() == 0,
    {
        let id = config.root_url.clone();
        let hysteresis_margin = config.hysteresis_margin;
        let textures = ImageSurveyTextures::new(config);
        let view = HEALPixCellsInView::new(hysteresis_margin);
        ImageSurvey {
            id,
            color,
            textures,
            view,
            num_idx: 0,
            sphere_sub: SphereSubdivided::new(),
            mesh: Mesh { vertices: Vec::new(), indices: Vec::new(), dropped_cells: 0 },
            size_vertices_buf: 0x9000,
            size_idx_vertices_buf: 0x1200,
            survey_type,
        }
    }

    /// Builds the survey a description asks for.
    pub fn from<T: HiPS>(hips: T) -> (r: Result<ImageSurvey, SurveyError>)
        ensures
            r is Ok <==> hips.creatable(),
            r matches Ok(s) ==> s.wf() && s.color == hips.spec_color() && s.survey_type
                == hips.spec_type() && s.id@ == hips.spec_props().root_url@ && (forall|
                c: HEALPixCell,
            | !s.textures.resident(c)),
            r matches Err(e) ==> e == hips.spec_err(),
    {
        hips.create()
    }

    pub fn set_color(&mut self, color: &Color)
        ensures
            *final(self) == (ImageSurvey { color: *color, ..*old(self) }),
    {
        self.color = *color;
    }

    /// Rebuilds the mesh with the strategy the last gesture selects.
    pub fn set_vertices(
        &mut self,
        last_user_action: UserAction,
        camera: &CameraViewPort,
        fov: &FieldOfViewVertices,
        now: u64,
    )
        requires
            old(self).wf(),
            camera.wf(),
            old(self).textures.spec_is_ready(),
        ensures
            final(self).wf(),
            set_vertices_post(
                *old(self),
                *final(self),
                last_user_action,
                *camera,
                fov.spec_type(),
                now,
            ),
    {
        match last_user_action {
            UserAction::Unzooming => self.update_vertices::<UnZoom>(camera, fov, now),
            UserAction::Zooming => self.update_vertices::<Zoom>(camera, fov, now),
            UserAction::Moving => self.update_vertices::<Move>(camera, fov, now),
            UserAction::Starting => self.update_vertices::<Move>(camera, fov, now),
        }
    }

    /// Selects the per-cell texture pairs and rebuilds the capped
    /// vertex and index streams from them.
    fn update_vertices<T: RecomputeRasterizer>(
        &mut self,
        camera: &CameraViewPort,
        fov: &FieldOfViewVertices,
        now: u64,
    )
        requires
            old(self).wf(),
            camera.wf(),
            old(self).textures.spec_is_ready(),
        ensures
            final(self).wf(),
            update_post::<T>(*old(self), *final(self), *camera, fov.spec_type(), now),
    {
        let textures = T::get_textures_from_survey(camera, &self.view, &self.textures, fov);
        proof {
            assert(textures.entries@ =~= spec_entries::<T>(
                *camera,
                self.view,
                self.textures,
                fov.spec_type(),
            ));
        }
        let mesh = build_mesh::<T>(&textures, &self.textures.config, &self.sphere_sub);
        self.num_idx = mesh.indices.len();
        if mesh.vertices.len() > self.size_vertices_buf as usize {
            self.size_vertices_buf = mesh.vertices.len() as u32;
        }
        if mesh.indices.len() > self.size_idx_vertices_buf as usize {
            self.size_idx_vertices_buf = mesh.indices.len() as u32;
        }
        self.mesh = mesh;

        // The tiles just read for drawing are the recently used ones:
        // advance their slots' recency stamps.
        let ghost pre_tex = self.textures;
        let ghost pre_self = *self;
        let mut t: usize = 0;
        while t < textures.entries.len()
            invariant
                0 <= t <= textures.entries@.len(),
                pre_tex == pre_self.textures,
                self.id == pre_self.id,
                self.color == pre_self.color,
                self.view == pre_self.view,
                self.num_idx == pre_self.num_idx,
                self.mesh == pre_self.mesh,
                self.sphere_sub == pre_self.sphere_sub,
                self.survey_type == pre_self.survey_type,
                self.size_vertices_buf == pre_self.size_vertices_buf,
                self.size_idx_vertices_buf == pre_self.size_idx_vertices_buf,
                self.textures.wf(),
                self.textures.config == pre_tex.config,
                self.textures.available_tiles_flag == pre_tex.available_tiles_flag,
                self.textures.slots@.len() == pre_tex.slots@.len(),
                forall|i: int|
                    0 <= i < pre_tex.slots@.len() ==> ((#[trigger] self.textures.slots@[i])
                        is Some <==> pre_tex.slots@[i] is Some),
                forall|i: int|
                    0 <= i < pre_tex.slots@.len() && pre_tex.slots@[i] is Some ==> (
                    #[trigger] self.textures.slots@[i]).unwrap() == (Texture {
                        last_used: self.textures.slots@[i].unwrap().last_used,
                        ..pre_tex.slots@[i].unwrap()
                    }),
                forall|j: int|
                    0 <= j < t ==> ({
                        let e = #[trigger] textures.entries@[j];
                        &&& (e.1.starting_texture.slot_idx < pre_tex.slots@.len()
                            && pre_tex.slots@[e.1.starting_texture.slot_idx as int] is Some
                            ==> self.textures.slots@[e.1.starting_texture.slot_idx as int].unwrap().last_used == now)
                        &&& (e.1.ending_texture.slot_idx < pre_tex.slots@.len()
                            && pre_tex.slots@[e.1.ending_texture.slot_idx as int] is Some
                            ==> self.textures.slots@[e.1.ending_texture.slot_idx as int].unwrap().last_used == now)
                    }),
                forall|i: int|
                    0 <= i < pre_tex.slots@.len() && pre_tex.slots@[i] is Some && (
                    #[trigger] self.textures.slots@[i]).unwrap().last_used
                        != pre_tex.slots@[i].unwrap().last_used ==> (
                    self.textures.slots@[i].unwrap().last_used == now && touched_by(
                        textures.entries@,
                        i,
                    )),
            decreases textures.entries@.len() - t,
        {
            let (_, ttd) = textures.entries[t];
            self.textures.touch_slot(ttd.starting_texture.slot_idx, now);
            self.textures.touch_slot(ttd.ending_texture.slot_idx, now);
            t = t + 1;
        }
    }

    /// Recomputes which cells are visible for this survey.
    pub fn refresh_view(&mut self, camera: &CameraViewPort, fov: &FieldOfViewVertices)
        requires
            old(self).wf(),
            camera.wf(),
        ensures
            final(self).wf(),
            refresh_post(
                old(self).view,
                final(self).view,
                *camera,
                fov.spec_type(),
                old(self).textures.config.texture_size,
                old(self).textures.config.max_depth,
            ),
            final(self).textures == old(self).textures,
            final(self).mesh == old(self).mesh,
            final(self).id == old(self).id,
            final(self).color == old(self).color,
            final(self).num_idx == old(self).num_idx,
            final(self).survey_type == old(self).survey_type,
    {
        let texture_size = self.textures.config().get_texture_size();
        let max_depth = self.textures.config().get_max_depth();
        self.view.refresh_cells(texture_size, max_depth, camera, fov);
    }

    /// Decides this survey's draw call for the frame: nothing before
    /// the root tiles are in, the raytraced path above the aperture
    /// limit, and otherwise the rasterized path, rebuilding the mesh
    /// exactly when cells were added, tiles arrived, or the camera
    /// moved.
    pub fn draw(
        &mut self,
        camera: &CameraViewPort,
        fov: &FieldOfViewVertices,
        time_now: u64,
    ) -> (d: DrawCall)
        requires
            old(self).wf(),
            camera.wf(),
        ensures
            final(self).wf(),
            draw_post(*old(self), *final(self), *camera, fov.spec_type(), time_now, d),
    {
        if !self.textures.is_ready() {
            // Do not render while the 12 root cell textures are not
            // loaded.
            return DrawCall::NotReady;
        }
        let depth = self.view.get_depth();
        if camera.get_aperture() > RAYTRACE_APERTURE_LIMIT {
            return DrawCall::Raytrace { depth, current_time: time_now };
        }
        let new_cells_added = self.view.is_there_new_cells_added();
        let available = self.textures.is_there_available_tiles();
        let recompute_vertices = new_cells_added || available || camera.has_camera_moved();
        if recompute_vertices {
            self.set_vertices(camera.get_last_user_action(), camera, fov, time_now);
        }
        DrawCall::Raster {
            num_idx: self.num_idx,
            depth,
            current_time: time_now,
            rebuilt: recompute_vertices,
        }
    }

    pub fn get_textures(&self) -> (t: &ImageSurveyTextures)
        ensures
            *t == self.textures,
    {
        &self.textures
    }

    pub fn get_textures_mut(&mut self) -> (t: &mut ImageSurveyTextures)
        ensures
            *t == old(self).textures,
            *final(self) == (ImageSurvey { textures: *final(t), ..*old(self) }),
    {
        &mut self.textures
    }

    pub fn get_view(&self) -> (v: &HEALPixCellsInView)
        ensures
            *v == self.view,
    {
        &self.view
    }

    pub fn get_id(&self) -> (id: &str)
        ensures
            id@ == self.id@,
    {
        self.id.as_str()
    }

    pub fn get_type(&self) -> (t: ImageSurveyType)
        ensures
            t == self.survey_type,
    {
        self.survey_type
    }

    pub fn get_color(&self) -> (c: &Color)
        ensures
            *c == self.color,
    {
        &self.color
    }
}

/// Why building a survey failed.
#[derive(Clone, Copy, PartialEq, Eq, Structural, Debug)]
pub enum SurveyError {
    Config(ConfigError),
    NotGrayscale,
}

/// The static description a survey is built from.
pub struct HiPSProperties {
    pub root_url: String,
    pub is_color: bool,
    pub min_cutout: i64,
    pub max_cutout: i64,
    pub max_depth: u8,
    pub texture_size: u32,
    pub num_slots: usize,
    pub hysteresis_margin: i64,
}

impl HiPSProperties {
    pub open spec fn valid(self) -> bool {
        config_args_valid(self.max_depth, self.texture_size, self.num_slots, self.hysteresis_margin)
    }
}

/// A survey description that can be turned into an ImageSurvey.
pub trait HiPS: Sized {
    /// On which descriptions building succeeds.
    spec fn creatable(self) -> bool;

    /// The color pipeline the built survey uses.
    spec fn spec_color(self) -> Color;

    spec fn spec_type(self) -> ImageSurveyType;

    spec fn spec_props(self) -> HiPSProperties;

    /// The rejection an uncreatable description earns.
    spec fn spec_err(self) -> SurveyError;

    fn create(self) -> (r: Result<ImageSurvey, SurveyError>)
        ensures
            r is Ok <==> self.creatable(),
            r matches Ok(s) ==> s.wf() && s.color == self.spec_color() && s.survey_type
                == self.spec_type() && s.id@ == self.spec_props().root_url@ && (forall|
                c: HEALPixCell,
            | !s.textures.resident(c)),
            r matches Err(e) ==> e == self.spec_err(),
    ;
}

/// A survey drawn on its own, colored or through a colormap.
pub struct SimpleHiPS {
    pub properties: HiPSProperties,
    pub colormap: Colormap,
    pub transfer: TransferFunction,
}

/// The parameter block a grayscale survey starts with: scale 1 and no
/// offset, refined later from tile metadata.
pub open spec fn initial_grayscale(p: HiPSProperties, transfer: TransferFunction) -> GrayscaleParameter {
    GrayscaleParameter {
        h: transfer,
        min_value: p.min_cutout,
        max_value: p.max_cutout,
        scale: FIXED_ONE,
        offset: 0,
        blank: 0,
    }
}

impl HiPS for SimpleHiPS {
    open spec fn creatable(self) -> bool {
        self.properties.valid()
    }

    open spec fn spec_color(self) -> Color {
        if self.properties.is_color {
            Color::Colored
        } else {
            Color::Grayscale2Colormap {
                colormap: self.colormap,
                param: initial_grayscale(self.properties, self.transfer),
            }
        }
    }

    open spec fn spec_type(self) -> ImageSurveyType {
        ImageSurveyType::Simple
    }

    open spec fn spec_props(self) -> HiPSProperties {
        self.properties
    }

    open spec fn spec_err(self) -> SurveyError {
        SurveyError::Config(
            spec_config_error(
                self.properties.max_depth,
                self.properties.texture_size,
                self.properties.num_slots,
                self.properties.hysteresis_margin,
            ),
        )
    }

    fn create(self) -> (r: Result<ImageSurvey, SurveyError>) {
        let SimpleHiPS { properties, colormap, transfer } = self;
        let is_color = properties.is_color;
        let min_cutout = properties.min_cutout;
        let max_cutout = properties.max_cutout;
        let config = match HiPSConfig::new(
            properties.root_url,
            properties.max_depth,
            properties.texture_size,
            properties.num_slots,
            properties.is_color,
            properties.min_cutout,
            properties.max_cutout,
            properties.hysteresis_margin,
        ) {
            Ok(c) => c,
            Err(e) => {
                return Err(SurveyError::Config(e));
            },
        };
        if is_color {
            Ok(ImageSurvey::new(config, Color::Colored, ImageSurveyType::Simple))
        } else {
            Ok(
                ImageSurvey::new(
                    config,
                    Color::Grayscale2Colormap {
                        colormap,
                        param: GrayscaleParameter {
                            h: transfer,
                            min_value: min_cutout,
                            max_value: max_cutout,
                            // These parameters are not in the
                            // properties; they are refined later from
                            // tile metadata.
                            scale: FIXED_ONE,
                            offset: 0,
                            blank: 0,
                        },
                    },
                    ImageSurveyType::Simple,
                ),
            )
        }
    }
}

/// One grayscale component of a composite survey, blended in with its
/// own color and strength.
pub struct ComponentHiPS {
    pub properties: HiPSProperties,
    pub color: ColorRGB,
    pub k: i64,
    pub transfer: TransferFunction,
}

impl HiPS for ComponentHiPS {
    open spec fn creatable(self) -> bool {
        self.properties.valid() && !self.properties.is_color
    }

    open spec fn spec_color(self) -> Color {
        Color::Grayscale2Color {
            color: self.color,
            k: self.k,
            param: initial_grayscale(self.properties, self.transfer),
        }
    }

    open spec fn spec_type(self) -> ImageSurveyType {
        ImageSurveyType::Component
    }

    open spec fn spec_props(self) -> HiPSProperties {
        self.properties
    }

    open spec fn spec_err(self) -> SurveyError {
        if !self.properties.valid() {
            SurveyError::Config(
                spec_config_error(
                    self.properties.max_depth,
                    self.properties.texture_size,
                    self.properties.num_slots,
                    self.properties.hysteresis_margin,
                ),
            )
        } else {
            SurveyError::NotGrayscale
        }
    }

    fn create(self) -> (r: Result<ImageSurvey, SurveyError>) {
        let ComponentHiPS { properties, color, k, transfer } = self;
        let is_color = properties.is_color;
        let min_cutout = properties.min_cutout;
        let max_cutout = properties.max_cutout;
        let config = match HiPSConfig::new(
            properties.root_url,
            properties.max_depth,
            properties.texture_size,
            properties.num_slots,
            properties.is_color,
            properties.min_cutout,
            properties.max_cutout,
            properties.hysteresis_margin,
        ) {
            Ok(c) => c,
            Err(e) => {
                return Err(SurveyError::Config(e));
            },
        };
        if is_color {
            // Composite components carry grayscale data only.
            Err(SurveyError::NotGrayscale)
        } else {
            Ok(
                ImageSurvey::new(
                    config,
                    Color::Grayscale2Color {
                        color,
                        k,
                        param: GrayscaleParameter {
                            h: transfer,
                            min_value: min_cutout,
                            max_value: max_cutout,
                            scale: FIXED_ONE,
                            offset: 0,
                            blank: 0,
                        },
                    },
                    ImageSurveyType::Component,
                ),
            )
        }
    }
}

} // verus!
