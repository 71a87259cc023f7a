use hips_core::CameraViewPort;
use hips_core::Color;
use hips_core::ColorRGB;
use hips_core::Colormap;
use hips_core::ComponentHiPS;
use hips_core::DrawCall;
use hips_core::FieldOfViewVertices;
use hips_core::GRID_WIDTH;
use hips_core::HEALPixCell;
use hips_core::HEALPixCells;
use hips_core::HiPSConfig;
use hips_core::HiPSProperties;
use hips_core::ImageSurvey;
use hips_core::ImageSurveyType;
use hips_core::MAX_NUM_INDICES_TO_DRAW;
use hips_core::MAX_NUM_VERTICES_TO_DRAW;
use hips_core::Move;
use hips_core::RAYTRACE_APERTURE_LIMIT;
use hips_core::RecomputeRasterizer;
use hips_core::ShaderKind;
use hips_core::SphereSubdivided;
use hips_core::SurveyError;
use hips_core::Texture;
use hips_core::TextureToDraw;
use hips_core::TexturesToDraw;
use hips_core::TransferFunction;
use hips_core::UnZoom;
use hips_core::UserAction;
use hips_core::Zoom;
use hips_core::build_mesh;

fn props(url: &str) -> HiPSProperties {
    HiPSProperties {
        root_url: String::from(url),
        is_color: false,
        min_cutout: 0,
        max_cutout: 1000,
        max_depth: 6,
        texture_size: 512,
        num_slots: 64,
        hysteresis_margin: 0,
    }
}

fn ready_survey(url: &str) -> ImageSurvey {
    let config = HiPSConfig::new(String::from(url), 6, 512, 64, false, 0, 1000, 0).unwrap();
    let mut survey = ImageSurvey::new(config, Color::Colored, ImageSurveyType::Simple);
    let none = HEALPixCells {
        depth: 0,
        cells: Vec::new(),
    };
    for r in 0..12 {
        survey
            .get_textures_mut()
            .push(HEALPixCell::new(0, r), false, 0, 0, &none);
    }
    survey
}

fn tex_for(cell: HEALPixCell, slot: usize, t: u64) -> Texture {
    Texture {
        cell,
        start_time: t,
        time_request: t,
        missing: false,
        slot_idx: slot,
        last_used: t,
    }
}

#[test]
fn subdivision_decreases_with_depth_and_unzoom_is_one_coarser() {
    let ss = SphereSubdivided::new();
    let deep = HEALPixCell::new(6, 0);
    let mid = HEALPixCell::new(3, 0);
    let shallow = HEALPixCell::new(0, 0);
    assert_eq!(Move::num_subdivision(&shallow, &ss), 3);
    assert_eq!(Move::num_subdivision(&mid, &ss), 2);
    assert_eq!(Move::num_subdivision(&deep, &ss), 0);
    assert_eq!(UnZoom::num_subdivision(&shallow, &ss), 2);
    assert_eq!(UnZoom::num_subdivision(&mid, &ss), 1);
    assert_eq!(UnZoom::num_subdivision(&deep, &ss), 0);
    assert_eq!(Zoom::num_subdivision(&mid, &ss), 2);
}

#[test]
fn pan_selection_blends_from_the_resident_ancestor() {
    let survey = ready_survey("s/pan");
    let camera = CameraViewPort::new(GRID_WIDTH / 8, 800);
    let fov = FieldOfViewVertices::new(None);
    let mut view_owner = ready_survey("s/pan2");
    view_owner.refresh_view(&camera, &fov);
    let view = view_owner.get_view();
    let textures = Move::get_textures_from_survey(&camera, view, survey.get_textures(), &fov);
    assert_eq!(textures.len(), view.get_cells().len());
    // No fine tile is resident, so every cell falls back to blending
    // between root tiles.
    for i in 0..view.get_cells().len() {
        let cell = view.get_cells().get(i);
        let pair = textures.get(&cell).unwrap();
        assert_eq!(pair.starting_texture.cell.depth(), 0);
        assert_eq!(pair.ending_texture.cell.depth(), 0);
        assert_eq!(pair.ending_texture.cell, cell.root_ancestor());
    }
}

#[test]
fn zoom_out_keeps_one_level_finer_cells_under_hysteresis() {
    // A wide hysteresis margin: the aperture has not yet grown enough
    // since the last depth change.
    let config =
        HiPSConfig::new(String::from("s/uz"), 6, 512, 64, false, 0, 1000, GRID_WIDTH / 4).unwrap();
    let mut survey = ImageSurvey::new(config, Color::Colored, ImageSurveyType::Simple);
    let none = HEALPixCells {
        depth: 0,
        cells: Vec::new(),
    };
    for r in 0..12 {
        survey
            .get_textures_mut()
            .push(HEALPixCell::new(0, r), false, 0, 0, &none);
    }
    let mut camera = CameraViewPort::new(GRID_WIDTH / 8, 800);
    let fov = FieldOfViewVertices::new(None);
    survey.refresh_view(&camera, &fov);
    let naive_depth = survey.get_view().get_depth();

    // A zoom-out gesture grows the aperture by less than the margin.
    camera.set_aperture(GRID_WIDTH / 8 + 1000, UserAction::Unzooming);
    let textures =
        UnZoom::get_textures_from_survey(&camera, survey.get_view(), survey.get_textures(), &fov);
    // The cells drawn are one depth finer than the naive visible set.
    assert!(textures.len() > 0);
    let (finer_cell, _) = textures.iter()[0];
    assert_eq!(finer_cell.depth(), naive_depth + 1);

    // With no margin the coarser set is promoted at once.
    let config2 = HiPSConfig::new(String::from("s/uz2"), 6, 512, 64, false, 0, 1000, 0).unwrap();
    let mut survey2 = ImageSurvey::new(config2, Color::Colored, ImageSurveyType::Simple);
    for r in 0..12 {
        survey2
            .get_textures_mut()
            .push(HEALPixCell::new(0, r), false, 0, 0, &none);
    }
    survey2.refresh_view(&camera, &fov);
    let d2 = survey2.get_view().get_depth();
    let textures2 =
        UnZoom::get_textures_from_survey(&camera, survey2.get_view(), survey2.get_textures(), &fov);
    let (kept_cell, _) = textures2.iter()[0];
    assert_eq!(kept_cell.depth(), d2);
}

#[test]
fn mesh_caps_are_never_exceeded() {
    // Depth-2 cells tessellate at the deepest level: 81 vertices and
    // 384 indices each, so the index cap cuts the build off well
    // before the selection ends.
    let mut textures = TexturesToDraw::new(0);
    for i in 0..40u64 {
        let cell = HEALPixCell::new(2, i);
        let t = tex_for(cell, i as usize, 1);
        textures.insert(cell, TextureToDraw::new(t, t));
    }
    let config = HiPSConfig::new(String::from("s/mesh"), 6, 512, 64, false, 0, 1000, 0).unwrap();
    let ss = SphereSubdivided::new();
    let mesh = build_mesh::<Move>(&textures, &config, &ss);
    assert!(mesh.vertices.len() <= MAX_NUM_VERTICES_TO_DRAW);
    assert!(mesh.indices.len() <= MAX_NUM_INDICES_TO_DRAW);
    // 4608 / 384 = 12 cells fit; the rest are dropped in order.
    assert_eq!(mesh.indices.len(), 12 * 384);
    assert_eq!(mesh.vertices.len(), 12 * 81);
    assert_eq!(mesh.dropped_cells, 40 - 12);
    for idx in &mesh.indices {
        assert!((*idx as usize) < mesh.vertices.len());
    }
}

#[test]
fn small_meshes_keep_every_cell() {
    let mut textures = TexturesToDraw::new(0);
    for i in 0..3u64 {
        let cell = HEALPixCell::new(6, i);
        let t = tex_for(cell, i as usize, 5);
        textures.insert(cell, TextureToDraw::new(t, t));
    }
    let config = HiPSConfig::new(String::from("s/mesh2"), 6, 512, 64, false, 0, 1000, 0).unwrap();
    let ss = SphereSubdivided::new();
    // Depth 6 cells are not subdivided: one quad each.
    let mesh = build_mesh::<Move>(&textures, &config, &ss);
    assert_eq!(mesh.dropped_cells, 0);
    assert_eq!(mesh.vertices.len(), 3 * 4);
    assert_eq!(mesh.indices.len(), 3 * 6);
    // The first quad's two triangles.
    assert_eq!(&mesh.indices[0..6], &[0u16, 1, 2, 1, 3, 2]);
    // The blend start is the end texture's admission time.
    assert_eq!(mesh.vertices[0].time_received, 5);
}

#[test]
fn shader_selection_follows_the_color_pipeline() {
    let colored = Color::Colored;
    assert_eq!(colored.get_raster_shader(), ShaderKind::RasterColored);
    assert_eq!(colored.get_raytracer_shader(), ShaderKind::RaytracerColored);
    let gray = Color::Grayscale2Color {
        color: ColorRGB {
            red: 1,
            green: 2,
            blue: 3,
        },
        k: 9,
        param: hips_core::GrayscaleParameter {
            h: TransferFunction::Linear,
            min_value: 0,
            max_value: 10,
            scale: 1,
            offset: 0,
            blank: 0,
        },
    };
    assert_eq!(gray.get_raster_shader(), ShaderKind::RasterGray2Color);
    assert_eq!(gray.get_raytracer_shader(), ShaderKind::RaytracerGray2Color);
}

#[test]
fn uniforms_are_attached_in_order() {
    let param = hips_core::GrayscaleParameter {
        h: TransferFunction::Asinh,
        min_value: -5,
        max_value: 5,
        scale: 2,
        offset: 1,
        blank: 0,
    };
    let mut out = Vec::new();
    param.attach_uniforms(&mut out);
    assert_eq!(out.len(), 6);
    assert_eq!(out[0].key, hips_core::UniformKey::TransferFunc);
    assert_eq!(out[0].value, 3);
    assert_eq!(out[1].value, -5);
    assert_eq!(out[2].value, 5);

    let color = Color::Grayscale2Colormap {
        colormap: Colormap::Rainbow,
        param,
    };
    let mut out2 = Vec::new();
    color.attach_uniforms(&mut out2);
    assert_eq!(out2.len(), 7);
    assert_eq!(out2[0].key, hips_core::UniformKey::ColormapId);
    assert_eq!(out2[0].value, 2);

    let mut out3 = Vec::new();
    Color::Colored.attach_uniforms(&mut out3);
    assert!(out3.is_empty());
}

#[test]
fn component_surveys_must_be_grayscale() {
    let mut p = props("s/comp");
    p.is_color = true;
    let hips = ComponentHiPS {
        properties: p,
        color: ColorRGB {
            red: 10,
            green: 20,
            blue: 30,
        },
        k: 7,
        transfer: TransferFunction::Sqrt,
    };
    match ImageSurvey::from(hips) {
        Err(e) => assert_eq!(e, SurveyError::NotGrayscale),
        Ok(_) => panic!("a colored component must be rejected"),
    }
}

#[test]
fn simple_survey_creation_uses_the_properties() {
    let hips = hips_core::SimpleHiPS {
        properties: props("s/simple"),
        colormap: Colormap::Parula,
        transfer: TransferFunction::Log,
    };
    let survey = match ImageSurvey::from(hips) {
        Ok(s) => s,
        Err(_) => panic!("a valid simple survey must be accepted"),
    };
    assert_eq!(survey.get_id(), "s/simple");
    assert_eq!(survey.get_type(), ImageSurveyType::Simple);
    match survey.get_color() {
        Color::Grayscale2Colormap { colormap, param } => {
            assert_eq!(*colormap, Colormap::Parula);
            assert_eq!(param.h, TransferFunction::Log);
            assert_eq!(param.min_value, 0);
            assert_eq!(param.max_value, 1000);
        }
        _ => panic!("expected a colormapped grayscale survey"),
    }

    let mut p2 = props("s/color");
    p2.is_color = true;
    let hips2 = hips_core::SimpleHiPS {
        properties: p2,
        colormap: Colormap::Parula,
        transfer: TransferFunction::Log,
    };
    match ImageSurvey::from(hips2) {
        Ok(s) => assert_eq!(*s.get_color(), Color::Colored),
        Err(_) => panic!("a valid color survey must be accepted"),
    }
}

#[test]
fn invalid_properties_are_rejected_as_config_errors() {
    let mut p = props("s/bad");
    p.max_depth = 31;
    let hips = hips_core::SimpleHiPS {
        properties: p,
        colormap: Colormap::BlackWhite,
        transfer: TransferFunction::Linear,
    };
    match ImageSurvey::from(hips) {
        Err(SurveyError::Config(e)) => assert_eq!(e, hips_core::ConfigError::DepthTooDeep),
        _ => panic!("expected a config rejection"),
    }
}

#[test]
fn nothing_is_drawn_before_the_roots_arrive() {
    let config = HiPSConfig::new(String::from("s/nr"), 6, 512, 64, false, 0, 1000, 0).unwrap();
    let mut survey = ImageSurvey::new(config, Color::Colored, ImageSurveyType::Simple);
    let camera = CameraViewPort::new(GRID_WIDTH / 8, 800);
    let fov = FieldOfViewVertices::new(None);
    assert_eq!(survey.draw(&camera, &fov, 0), DrawCall::NotReady);
}

#[test]
fn aperture_over_the_threshold_switches_to_raytracing() {
    let mut survey = ready_survey("s/modes");
    let fov = FieldOfViewVertices::new(None);
    let mut camera = CameraViewPort::new(0, 800);

    // 100 degrees: below the 110-degree threshold, rasterized path.
    let aperture_100 = GRID_WIDTH / 360 * 100;
    camera.set_aperture(aperture_100, UserAction::Zooming);
    assert!(aperture_100 <= RAYTRACE_APERTURE_LIMIT);
    survey.refresh_view(&camera, &fov);
    let d = survey.draw(&camera, &fov, 10);
    match d {
        DrawCall::Raster { rebuilt, .. } => assert!(rebuilt),
        _ => panic!("expected the rasterized path"),
    }

    // 120 degrees: above the threshold, raytraced path, and the
    // rasterized mesh is not rebuilt that frame.
    let aperture_120 = GRID_WIDTH / 360 * 120;
    assert!(aperture_120 > RAYTRACE_APERTURE_LIMIT);
    camera.set_aperture(aperture_120, UserAction::Unzooming);
    survey.get_textures_mut().register_available_tile();
    let num_idx_before = match survey.draw(&camera, &fov, 20) {
        DrawCall::Raytrace { current_time, .. } => {
            assert_eq!(current_time, 20);
            true
        }
        _ => panic!("expected the raytraced path"),
    };
    assert!(num_idx_before);
    // The new-tiles flag was not consumed: mesh generation was
    // skipped entirely.
    assert!(survey.get_textures_mut().is_there_available_tiles());
}

#[test]
fn tile_uvw_covers_the_whole_tile_for_its_own_cell() {
    let config = HiPSConfig::new(String::from("s/uv"), 6, 512, 64, false, 0, 1000, 0).unwrap();
    let cell = HEALPixCell::new(2, 9);
    let tex = tex_for(cell, 7, 0);
    let uv = hips_core::TileUVW::new(&cell, &tex, &config);
    assert_eq!(uv.u0, 0);
    assert_eq!(uv.v0, 0);
    assert_eq!(uv.u1, hips_core::UV_SCALE);
    assert_eq!(uv.v1, hips_core::UV_SCALE);
    assert_eq!(uv.layer, 7);
}

#[test]
fn tile_uvw_picks_the_child_quadrant() {
    let config = HiPSConfig::new(String::from("s/uv2"), 6, 512, 64, false, 0, 1000, 0).unwrap();
    let parent = HEALPixCell::new(1, 5);
    let tex = tex_for(parent, 0, 0);
    let half = hips_core::UV_SCALE / 2;
    // Child offset 3 selects the top-right quadrant.
    let child = HEALPixCell::new(2, 5 * 4 + 3);
    let uv = hips_core::TileUVW::new(&child, &tex, &config);
    assert_eq!(uv.u0, half);
    assert_eq!(uv.v0, half);
    assert_eq!(uv.u1, 2 * half);
    assert_eq!(uv.v1, 2 * half);
    // Child offset 0 selects the bottom-left quadrant.
    let child0 = HEALPixCell::new(2, 5 * 4);
    let uv0 = hips_core::TileUVW::new(&child0, &tex, &config);
    assert_eq!(uv0.u0, 0);
    assert_eq!(uv0.v0, 0);
    assert_eq!(uv0.u1, half);
    assert_eq!(uv0.v1, half);
}

#[test]
fn vertex_flattens_into_nine_scalars() {
    let v = hips_core::Vertex::new(100, 200, (1, 2, 3), (4, 5, 6), 77);
    let mut out = Vec::new();
    v.add_to_vertices(&mut out);
    assert_eq!(out, vec![100, 200, 1, 2, 3, 4, 5, 6, 77]);
    v.add_to_vertices(&mut out);
    assert_eq!(out.len(), 18);
}

#[test]
fn grid_vertices_interpolate_between_cell_corners() {
    // A single unsubdivided cell: its four vertices sit on the cell's
    // bounding box corners.
    let mut textures = TexturesToDraw::new(0);
    let cell = HEALPixCell::new(6, 123);
    let t = tex_for(cell, 0, 0);
    textures.insert(cell, TextureToDraw::new(t, t));
    let config = HiPSConfig::new(String::from("s/gv"), 6, 512, 64, false, 0, 1000, 0).unwrap();
    let ss = SphereSubdivided::new();
    let mesh = build_mesh::<Move>(&textures, &config, &ss);
    let b = cell.bbox();
    assert_eq!(mesh.vertices.len(), 4);
    assert_eq!(mesh.vertices[0].lon, b.x0);
    assert_eq!(mesh.vertices[0].lat, b.y0);
    assert_eq!(mesh.vertices[1].lon, b.x1);
    assert_eq!(mesh.vertices[1].lat, b.y0);
    assert_eq!(mesh.vertices[2].lon, b.x0);
    assert_eq!(mesh.vertices[2].lat, b.y1);
    assert_eq!(mesh.vertices[3].lon, b.x1);
    assert_eq!(mesh.vertices[3].lat, b.y1);
    // The uv span covers the whole tile.
    assert_eq!(mesh.vertices[0].uv1_u, 0);
    assert_eq!(mesh.vertices[3].uv1_u, hips_core::UV_SCALE);
}

#[test]
fn drawn_tiles_become_recently_used() {
    // 14 slots: the 12 roots plus two finer tiles.
    let config = HiPSConfig::new(String::from("s/lru"), 6, 512, 14, false, 0, 1000, 0).unwrap();
    let mut survey = ImageSurvey::new(config, Color::Colored, ImageSurveyType::Simple);
    let none = HEALPixCells {
        depth: 0,
        cells: Vec::new(),
    };
    for r in 0..12 {
        survey
            .get_textures_mut()
            .push(HEALPixCell::new(0, r), false, 0, 0, &none);
    }
    // A visible depth-2 tile admitted early, and a depth-3 tile
    // admitted later that no drawn cell reads.
    let visible_tile = HEALPixCell::new(2, 9);
    let stale_tile = HEALPixCell::new(3, 77);
    assert!(survey.get_textures_mut().push(visible_tile, false, 1, 1, &none));
    assert!(survey.get_textures_mut().push(stale_tile, false, 2, 2, &none));

    // A frame at depth 2 draws the visible tile, refreshing its
    // recency stamp past the stale tile's.
    let mut camera = CameraViewPort::new(GRID_WIDTH / 8, 800);
    camera.set_aperture(GRID_WIDTH / 8, UserAction::Zooming);
    let fov = FieldOfViewVertices::new(None);
    survey.refresh_view(&camera, &fov);
    match survey.draw(&camera, &fov, 10) {
        DrawCall::Raster { rebuilt, .. } => assert!(rebuilt),
        _ => panic!("expected the rasterized path"),
    }

    // The cache is full; the next admission evicts the least recently
    // used slot, which is now the stale tile, not the drawn one.
    let c = HEALPixCell::new(2, 50);
    assert!(survey.get_textures_mut().push(c, false, 20, 20, &none));
    assert!(survey.get_textures().contains(&visible_tile));
    assert!(!survey.get_textures().contains(&stale_tile));
}
