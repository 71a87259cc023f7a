//! Core pipeline for streaming a multi-resolution spherical image
//! survey: a hierarchical grid of tiles, a bounded tile cache with
//! ancestor fallback, per-gesture transition selection, and capped
//! mesh generation.
//!
//! All angular quantities are carried as fixed-point integers in grid
//! units, so that the whole pipeline can be stated and proved exactly;
//! the floating-point projection math and the graphics backend live
//! outside this crate and exchange plain values with it.

mod buffer;
mod camera;
mod cell;
mod fov;
mod geometry;
mod mesh;
mod survey;
mod surveys;
mod transition;
mod view;

pub use buffer::ConfigError;
pub use buffer::HiPSConfig;
pub use buffer::ImageSurveyTextures;
pub use buffer::Texture;
pub use buffer::admit_post;
pub use buffer::config_args_valid;
pub use buffer::lemma_eviction_safety;
pub use buffer::spec_config_error;
pub use buffer::spec_nearest_parent;
pub use buffer::spec_texture;
pub use camera::CameraViewPort;
pub use camera::UserAction;
pub use cell::HEALPixCell;
pub use cell::MAX_DEPTH;
pub use cell::NUM_ROOT_CELLS;
pub use cell::lemma_children_distinct;
pub use cell::lemma_parent_chain_reaches_root;
pub use cell::lemma_parent_child_round_trip;
pub use cell::pow4;
pub use fov::FieldOfViewType;
pub use fov::FieldOfViewVertices;
pub use fov::ModelCoord;
pub use fov::NDC_SCALE;
pub use fov::NUM_VERTICES;
pub use fov::NUM_VERTICES_HEIGHT;
pub use fov::NUM_VERTICES_WIDTH;
pub use fov::ndc_border_ring;
pub use fov::on_viewport_border;
pub use fov::polygon_bbox;
pub use fov::ring_step;
pub use fov::spec_fov_bbox;
pub use fov::spec_ring_point;
pub use geometry::BoundingBox;
pub use geometry::GRID_HEIGHT;
pub use geometry::GRID_WIDTH;
pub use geometry::ROOT_SIZE;
pub use geometry::cell_size;
pub use geometry::cell_size_at;
pub use geometry::spec_cell_bbox;
pub use mesh::MAX_NUM_CELLS_TO_DRAW;
pub use mesh::MAX_NUM_INDICES_TO_DRAW;
pub use mesh::MAX_NUM_VERTICES_TO_DRAW;
pub use mesh::Mesh;
pub use mesh::TileUVW;
pub use mesh::UV_SCALE;
pub use mesh::Vertex;
pub use mesh::add_vertices_grid;
pub use mesh::build_mesh;
pub use mesh::greedy_taken;
pub use mesh::grid_indices;
pub use mesh::grid_vertices;
pub use mesh::lemma_greedy_all_fit;
pub use mesh::mesh_indices_of;
pub use mesh::mesh_vertices_of;
pub use mesh::spec_tile_uvw;
pub use survey::Color;
pub use survey::ColorRGB;
pub use survey::Colormap;
pub use survey::ComponentHiPS;
pub use survey::DrawCall;
pub use survey::FIXED_ONE;
pub use survey::GrayscaleParameter;
pub use survey::HiPS;
pub use survey::HiPSProperties;
pub use survey::ImageSurvey;
pub use survey::ImageSurveyType;
pub use survey::RAYTRACE_APERTURE_LIMIT;
pub use survey::ShaderKind;
pub use survey::SimpleHiPS;
pub use survey::SurveyError;
pub use survey::TransferFunction;
pub use survey::Uniform;
pub use survey::UniformKey;
pub use survey::color_uniforms;
pub use survey::draw_post;
pub use survey::grayscale_uniforms;
pub use survey::set_vertices_post;
pub use survey::touched_by;
pub use survey::touched_textures;
pub use survey::update_post;
pub use surveys::ImageSurveyIdx;
pub use surveys::ImageSurveys;
pub use surveys::RayTracer;
pub use surveys::ResolvedTiles;
pub use surveys::RetrievedImageType;
pub use surveys::Tile;
pub use surveys::TileResolved;
pub use surveys::Tiles;
pub use surveys::admits_in_order;
pub use surveys::contains_id_str;
pub use surveys::draws_in_order;
pub use surveys::overlay_survives;
pub use surveys::set_simple_hips_post;
pub use surveys::spec_has;
pub use surveys::spec_index_of;
pub use surveys::spec_insert;
pub use surveys::spec_missing;
pub use surveys::spec_remove;
pub use surveys::spec_removes;
pub use surveys::spec_retained;
pub use surveys::spec_slot_index_seq;
pub use surveys::spec_time_req;
pub use surveys::surveys_ok;
pub use transition::Move;
pub use transition::RecomputeRasterizer;
pub use transition::SphereSubdivided;
pub use transition::TextureToDraw;
pub use transition::TexturesToDraw;
pub use transition::UnZoom;
pub use transition::Zoom;
pub use transition::spec_entries;
pub use view::HEALPixCells;
pub use view::HEALPixCellsInView;
pub use view::depth_from_resolution;
pub use view::get_cells_in_camera;
pub use view::lemma_refresh_idempotent;
pub use view::lemma_visible_cells_membership;
pub use view::refresh_post;
pub use view::root_cell;
pub use view::spec_depth_for;
pub use view::target_resolution;
pub use view::visible_cells;
