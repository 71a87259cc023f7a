use hips_core::BoundingBox;
use hips_core::CameraViewPort;
use hips_core::FieldOfViewVertices;
use hips_core::GRID_WIDTH;
use hips_core::HEALPixCell;
use hips_core::HEALPixCellsInView;
use hips_core::ModelCoord;
use hips_core::ROOT_SIZE;
use hips_core::UserAction;
use hips_core::depth_from_resolution;
use hips_core::get_cells_in_camera;

fn allsky() -> FieldOfViewVertices {
    FieldOfViewVertices::new(None)
}

#[test]
fn coarsest_depth_matching_resolution() {
    // A resolution as coarse as a root cell stays at depth 0.
    assert_eq!(depth_from_resolution(ROOT_SIZE, 10), 0);
    // Halving the resolution target descends exactly one level.
    assert_eq!(depth_from_resolution(ROOT_SIZE / 2, 10), 1);
    assert_eq!(depth_from_resolution(ROOT_SIZE / 4, 10), 2);
    // Between two levels the finer one is needed.
    assert_eq!(depth_from_resolution(ROOT_SIZE / 2 + 1, 10), 1);
    assert_eq!(depth_from_resolution(ROOT_SIZE / 2 - 1, 10), 2);
    // A zero target runs into the max-depth cap.
    assert_eq!(depth_from_resolution(0, 7), 7);
}

#[test]
fn allsky_view_holds_every_cell_of_the_depth() {
    let fov = allsky();
    let cells0 = get_cells_in_camera(0, &fov);
    assert_eq!(cells0.len(), 12);
    let cells1 = get_cells_in_camera(1, &fov);
    assert_eq!(cells1.len(), 48);
    let cells2 = get_cells_in_camera(2, &fov);
    assert_eq!(cells2.len(), 192);
}

#[test]
fn narrow_fov_prunes_the_walk() {
    // A box strictly inside root cell 0.
    let vs = vec![
        ModelCoord { x: 10, y: 10 },
        ModelCoord { x: 1000, y: 1000 },
    ];
    let fov = FieldOfViewVertices::new(Some(vs));
    let cells = get_cells_in_camera(3, &fov);
    // Only the corner subtree of root 0 survives pruning.
    assert!(cells.len() >= 1);
    assert!((cells.len() as u64) < 12 * 64);
    for i in 0..cells.len() {
        let c = cells.get(i);
        assert_eq!(c.depth(), 3);
        let b = c.bbox();
        assert!(b.x0 <= 1000 && b.y0 <= 1000);
    }
    // The exact corner cell is present.
    assert!(cells.contains(&HEALPixCell::new(3, 0)));
}

#[test]
fn view_membership_matches_bbox_intersection() {
    let vs = vec![
        ModelCoord { x: 0, y: 0 },
        ModelCoord {
            x: ROOT_SIZE / 2,
            y: ROOT_SIZE / 2,
        },
    ];
    let fov = FieldOfViewVertices::new(Some(vs));
    let cells = get_cells_in_camera(1, &fov);
    let q = fov.get_bounding_box();
    for i in 0..cells.len() {
        let b = cells.get(i).bbox();
        assert!(intersects(&b, &q));
    }
    // A far-away cell is absent.
    assert!(!cells.contains(&HEALPixCell::new(1, 47)));
}

fn intersects(a: &BoundingBox, b: &BoundingBox) -> bool {
    a.intersects(b)
}

#[test]
fn refresh_is_idempotent_for_an_unchanged_camera() {
    let camera = CameraViewPort::new(GRID_WIDTH / 8, 800);
    let fov = allsky();
    let mut view = HEALPixCellsInView::new(0);
    view.refresh_cells(512, 6, &camera, &fov);
    assert!(view.is_view_different());
    assert!(view.get_cells().len() > 0);
    // Second refresh with the unchanged camera and cache: no change.
    view.refresh_cells(512, 6, &camera, &fov);
    assert!(!view.is_view_different());
    assert!(!view.is_there_new_cells_added());
    let before = view.get_depth();
    view.refresh_cells(512, 6, &camera, &fov);
    assert_eq!(view.get_depth(), before);
}

#[test]
fn refresh_flags_new_cells_on_a_depth_change() {
    let fov = allsky();
    let mut camera = CameraViewPort::new(GRID_WIDTH / 8, 800);
    let mut view = HEALPixCellsInView::new(0);
    view.refresh_cells(512, 6, &camera, &fov);
    assert!(view.is_there_new_cells_added());
    // Zooming in shrinks the aperture; finer cells appear.
    camera.set_aperture(GRID_WIDTH / 64, UserAction::Zooming);
    let d0 = view.get_depth();
    view.refresh_cells(512, 6, &camera, &fov);
    assert!(view.get_depth() > d0);
    assert!(view.is_there_new_cells_added());
}

#[test]
fn hysteresis_holds_until_the_margin_is_passed() {
    let fov = allsky();
    let margin = 1_000_000;
    let mut camera = CameraViewPort::new(GRID_WIDTH / 8, 800);
    let mut view = HEALPixCellsInView::new(margin);
    view.refresh_cells(512, 6, &camera, &fov);
    // The last depth change happened at the current aperture; growing
    // by less than the margin keeps the predicate true.
    camera.set_aperture(GRID_WIDTH / 8 + margin / 2, UserAction::Unzooming);
    assert!(view.has_depth_decreased_while_unzooming(&camera));
    // Growing past the margin releases it.
    camera.set_aperture(GRID_WIDTH / 8 + 2 * margin, UserAction::Unzooming);
    assert!(!view.has_depth_decreased_while_unzooming(&camera));
}
