use hips_core::CameraViewPort;
use hips_core::Color;
use hips_core::ColorRGB;
use hips_core::DrawCall;
use hips_core::FieldOfViewVertices;
use hips_core::GRID_WIDTH;
use hips_core::HEALPixCell;
use hips_core::HEALPixCells;
use hips_core::HiPSConfig;
use hips_core::ImageSurvey;
use hips_core::ImageSurveyIdx;
use hips_core::ImageSurveyType;
use hips_core::ImageSurveys;
use hips_core::Tile;
use hips_core::TileResolved;
use hips_core::TransferFunction;
use hips_core::UserAction;

fn camera() -> CameraViewPort {
    CameraViewPort::new(GRID_WIDTH / 8, 800)
}

fn survey(url: &str, survey_type: ImageSurveyType) -> ImageSurvey {
    let config = HiPSConfig::new(String::from(url), 6, 512, 64, false, 0, 1000, 0).unwrap();
    ImageSurvey::new(config, Color::Colored, survey_type)
}

fn ready(mut s: ImageSurvey) -> ImageSurvey {
    let none = HEALPixCells {
        depth: 0,
        cells: Vec::new(),
    };
    for r in 0..12 {
        s.get_textures_mut()
            .push(HEALPixCell::new(0, r), false, 0, 0, &none);
    }
    s
}

#[test]
fn installing_the_first_simple_survey_selects_it() {
    let cam = camera();
    let mut surveys = ImageSurveys::new(&cam);
    surveys.set_simple_hips(survey("s/a", ImageSurveyType::Simple));
    assert_eq!(surveys.len(), 1);
    match surveys.iter()[0].get_color() {
        Color::Colored => {}
        _ => panic!("unexpected color"),
    }
    assert!(surveys.get("s/a").is_some());
    assert!(surveys.get("s/other").is_none());
    assert!(surveys.get_view().is_some());
}

#[test]
fn reselecting_the_same_survey_only_updates_its_color() {
    let cam = camera();
    let mut surveys = ImageSurveys::new(&cam);
    surveys.set_simple_hips(survey("s/a", ImageSurveyType::Simple));
    let mut replacement = survey("s/a", ImageSurveyType::Simple);
    let gray = Color::Grayscale2Color {
        color: ColorRGB {
            red: 1,
            green: 1,
            blue: 1,
        },
        k: 1,
        param: hips_core::GrayscaleParameter {
            h: TransferFunction::Linear,
            min_value: 0,
            max_value: 1,
            scale: 1,
            offset: 0,
            blank: 0,
        },
    };
    replacement.set_color(&gray);
    surveys.set_simple_hips(replacement);
    assert_eq!(surveys.len(), 1);
    assert_eq!(*surveys.get("s/a").unwrap().get_color(), gray);
}

#[test]
fn a_new_simple_survey_replaces_the_old_one() {
    let cam = camera();
    let mut surveys = ImageSurveys::new(&cam);
    surveys.set_simple_hips(survey("s/a", ImageSurveyType::Simple));
    surveys.set_simple_hips(survey("s/b", ImageSurveyType::Simple));
    assert_eq!(surveys.len(), 1);
    assert!(surveys.get("s/a").is_none());
    assert!(surveys.get("s/b").is_some());
}

#[test]
fn components_accumulate_into_a_composite() {
    let cam = camera();
    let mut surveys = ImageSurveys::new(&cam);
    surveys.set_simple_hips(survey("s/c1", ImageSurveyType::Component));
    surveys.set_simple_hips(survey("s/c2", ImageSurveyType::Component));
    assert_eq!(surveys.len(), 2);
    assert!(surveys.get("s/c1").is_some());
    assert!(surveys.get("s/c2").is_some());
    // Installing a simple survey sweeps the whole composite away.
    surveys.set_simple_hips(survey("s/solo", ImageSurveyType::Simple));
    assert_eq!(surveys.len(), 1);
    assert!(surveys.get("s/c1").is_none());
    assert!(surveys.get("s/c2").is_none());
    assert!(surveys.get("s/solo").is_some());
}

#[test]
fn compositor_switches_mode_at_the_threshold() {
    let mut cam = camera();
    let mut surveys = ImageSurveys::new(&cam);
    surveys.set_simple_hips(ready(survey("s/m", ImageSurveyType::Simple)));
    let fov = FieldOfViewVertices::new(None);
    surveys.refresh_views(&cam, &fov);

    cam.set_aperture(GRID_WIDTH / 360 * 100, UserAction::Zooming);
    surveys.refresh_views(&cam, &fov);
    let (raytracing, calls) = surveys.draw(&cam, &fov, 5);
    assert!(!raytracing);
    assert_eq!(calls.len(), 1);
    match calls[0] {
        DrawCall::Raster { .. } => {}
        _ => panic!("expected the rasterized path below the threshold"),
    }

    // The aperture crosses the threshold between two frames: the
    // compositor switches mode and skips rasterized mesh generation.
    cam.set_aperture(GRID_WIDTH / 360 * 120, UserAction::Unzooming);
    let (raytracing2, calls2) = surveys.draw(&cam, &fov, 6);
    assert!(raytracing2);
    assert_eq!(calls2.len(), 1);
    match calls2[0] {
        DrawCall::Raytrace { current_time, .. } => assert_eq!(current_time, 6),
        _ => panic!("expected the raytraced path above the threshold"),
    }
}

#[test]
fn announced_and_resolved_tiles_reach_their_survey() {
    let cam = camera();
    let mut surveys = ImageSurveys::new(&cam);
    surveys.set_simple_hips(ready(survey("s/t", ImageSurveyType::Simple)));
    let fov = FieldOfViewVertices::new(None);
    surveys.refresh_views(&cam, &fov);

    let announced = vec![Tile {
        cell: HEALPixCell::new(1, 3),
        root_url: String::from("s/t"),
        time_request: 1,
    }];
    surveys.set_available_tiles(&announced);
    assert!(surveys
        .iter_mut()[0]
        .get_textures_mut()
        .is_there_available_tiles());

    let resolved = vec![
        (
            Tile {
                cell: HEALPixCell::new(1, 3),
                root_url: String::from("s/t"),
                time_request: 1,
            },
            TileResolved::Found {
                image: hips_core::RetrievedImageType::CompressedImage,
                time_req: 1,
            },
        ),
        (
            Tile {
                cell: HEALPixCell::new(1, 4),
                root_url: String::from("s/t"),
                time_request: 2,
            },
            TileResolved::Missing { time_req: 2 },
        ),
    ];
    surveys.add_resolved_tiles(resolved, 9);
    let tex = surveys.get("s/t").unwrap().get_textures();
    assert!(tex.contains(&HEALPixCell::new(1, 3)));
    let placeholder = tex.get(&HEALPixCell::new(1, 4)).unwrap();
    assert!(placeholder.missing);
    assert_eq!(placeholder.start_time, 9);
    // The roots were not evicted by the admissions.
    for r in 0..12 {
        assert!(tex.contains(&HEALPixCell::new(0, r)));
    }
}

#[test]
fn empty_compositor_has_no_view() {
    let cam = camera();
    let surveys = ImageSurveys::new(&cam);
    assert!(surveys.get_view().is_none());
    assert!(matches!(surveys.primary, ImageSurveyIdx::Empty));
}

#[test]
fn every_referenced_survey_is_drawn_once_in_order() {
    let mut cam = camera();
    let mut surveys = ImageSurveys::new(&cam);
    surveys.set_simple_hips(ready(survey("s/d1", ImageSurveyType::Component)));
    surveys.set_simple_hips(ready(survey("s/d2", ImageSurveyType::Component)));
    let fov = FieldOfViewVertices::new(None);
    cam.set_aperture(GRID_WIDTH / 8, UserAction::Moving);
    surveys.refresh_views(&cam, &fov);
    let (raytracing, calls) = surveys.draw(&cam, &fov, 3);
    assert!(!raytracing);
    // One call per composite component, in slot order.
    assert_eq!(calls.len(), 2);
    for c in &calls {
        match c {
            DrawCall::Raster { current_time, .. } => assert_eq!(*current_time, 3),
            _ => panic!("expected the rasterized path for both components"),
        }
    }
}
