use hips_core::BoundingBox;
use hips_core::FieldOfViewType;
use hips_core::FieldOfViewVertices;
use hips_core::GRID_HEIGHT;
use hips_core::GRID_WIDTH;
use hips_core::HEALPixCell;
use hips_core::ModelCoord;
use hips_core::NDC_SCALE;
use hips_core::NUM_VERTICES;
use hips_core::ROOT_SIZE;
use hips_core::cell_size_at;
use hips_core::ndc_border_ring;
use hips_core::polygon_bbox;

#[test]
fn every_cell_has_four_children_one_level_down() {
    let cell = HEALPixCell::new(2, 17);
    let children = cell.children();
    assert_eq!(children.len(), 4);
    for (k, child) in children.iter().enumerate() {
        assert_eq!(child.depth(), 3);
        assert_eq!(child.idx(), 17 * 4 + k as u64);
        assert_eq!(child.parent(), cell);
    }
}

#[test]
fn parent_children_contains_the_cell() {
    let cell = HEALPixCell::new(3, 42);
    let siblings = cell.parent().children();
    assert!(siblings.iter().any(|c| *c == cell));
}

#[test]
fn root_ancestor_of_depth_three_cell() {
    let cell = HEALPixCell::new(3, 42);
    let root = cell.root_ancestor();
    assert_eq!(root, HEALPixCell::new(0, 0));
}

#[test]
fn root_ancestor_of_last_root_subtree() {
    // Cell 11 * 4^2 + 3 sits under root 11.
    let cell = HEALPixCell::new(2, 11 * 16 + 3);
    assert_eq!(cell.root_ancestor(), HEALPixCell::new(0, 11));
}

#[test]
fn child_offset_cycles_through_four() {
    let cell = HEALPixCell::new(1, 7);
    assert_eq!(cell.child_offset(), 3);
    assert_eq!(HEALPixCell::new(1, 4).child_offset(), 0);
}

#[test]
fn cell_sizes_halve_per_depth() {
    assert_eq!(cell_size_at(0), ROOT_SIZE);
    assert_eq!(cell_size_at(1), ROOT_SIZE / 2);
    assert_eq!(cell_size_at(2), ROOT_SIZE / 4);
    assert_eq!(cell_size_at(10), ROOT_SIZE >> 10);
}

#[test]
fn root_bbox_tiles_the_grid() {
    let b0 = HEALPixCell::new(0, 0).bbox();
    assert_eq!(
        b0,
        BoundingBox {
            x0: 0,
            y0: 0,
            x1: ROOT_SIZE,
            y1: ROOT_SIZE
        }
    );
    let b5 = HEALPixCell::new(0, 5).bbox();
    assert_eq!(b5.x0, ROOT_SIZE);
    assert_eq!(b5.y0, ROOT_SIZE);
    let b11 = HEALPixCell::new(0, 11).bbox();
    assert_eq!(b11.x1, GRID_WIDTH);
    assert_eq!(b11.y1, GRID_HEIGHT);
}

#[test]
fn child_bbox_is_a_quadrant_of_its_parent() {
    let parent = HEALPixCell::new(1, 6);
    let pb = parent.bbox();
    let half = cell_size_at(2);
    for child in parent.children() {
        let cb = child.bbox();
        assert!(pb.x0 <= cb.x0 && cb.x1 <= pb.x1);
        assert!(pb.y0 <= cb.y0 && cb.y1 <= pb.y1);
        assert_eq!(cb.x1 - cb.x0, half);
        assert_eq!(cb.y1 - cb.y0, half);
    }
}

#[test]
fn border_ring_has_the_fixed_sample_count() {
    let ring = ndc_border_ring();
    assert_eq!(ring.len() as u64, NUM_VERTICES);
    for (x, y) in ring {
        assert!(-NDC_SCALE <= x && x <= NDC_SCALE);
        assert!(-NDC_SCALE <= y && y <= NDC_SCALE);
        assert!(x == -NDC_SCALE || x == NDC_SCALE || y == -NDC_SCALE || y == NDC_SCALE);
    }
}

#[test]
fn polygon_bbox_is_tight() {
    let vs = vec![
        ModelCoord { x: 10, y: 200 },
        ModelCoord { x: 5, y: 40 },
        ModelCoord { x: 99, y: 77 },
    ];
    let b = polygon_bbox(&vs);
    assert_eq!(
        b,
        BoundingBox {
            x0: 5,
            y0: 40,
            x1: 99,
            y1: 200
        }
    );
}

#[test]
fn failed_unprojection_falls_back_to_allsky() {
    let fov = FieldOfViewVertices::new(None);
    assert!(fov._type().is_allsky());
    let b = fov.get_bounding_box();
    assert_eq!(
        b,
        BoundingBox {
            x0: 0,
            y0: 0,
            x1: GRID_WIDTH,
            y1: GRID_HEIGHT
        }
    );
}

#[test]
fn complete_samples_give_a_polygon() {
    let vs = vec![
        ModelCoord { x: 0, y: 0 },
        ModelCoord { x: 1000, y: 0 },
        ModelCoord { x: 1000, y: 800 },
        ModelCoord { x: 0, y: 800 },
    ];
    let fov = FieldOfViewVertices::new(Some(vs));
    assert!(!fov._type().is_allsky());
    let b = fov.get_bounding_box();
    assert_eq!(
        b,
        BoundingBox {
            x0: 0,
            y0: 0,
            x1: 1000,
            y1: 800
        }
    );
}

#[test]
fn wide_aperture_switches_the_fov_type_to_allsky() {
    let vs = vec![ModelCoord { x: 0, y: 0 }, ModelCoord { x: 10, y: 10 }];
    let mut fov = FieldOfViewVertices::new(Some(vs.clone()));
    assert!(!fov._type().is_allsky());
    // Aperture at or above the projection's raster threshold: the
    // polygon is dropped for the all-sky grid.
    fov.set_fov(Some(vs.clone()), 5000, 4000);
    assert!(fov._type().is_allsky());
    // Narrow again: the polygon comes back.
    fov.set_rotation(Some(vs), 1000, 4000);
    assert!(!fov._type().is_allsky());
}

#[test]
fn allsky_fov_equality() {
    assert_eq!(FieldOfViewType::new_allsky(), FieldOfViewType::Allsky);
}

#[test]
fn border_ring_starts_each_edge_at_a_corner() {
    let ring = ndc_border_ring();
    assert_eq!(ring[0], (-NDC_SCALE, -NDC_SCALE));
    assert_eq!(ring[11], (NDC_SCALE, -NDC_SCALE));
    assert_eq!(ring[22], (NDC_SCALE, NDC_SCALE));
    assert_eq!(ring[33], (-NDC_SCALE, NDC_SCALE));
}

#[test]
fn deepest_supported_cells_still_work() {
    let max = hips_core::MAX_DEPTH;
    let cell = HEALPixCell::new(max, 12 * 4u64.pow(max as u32) - 1);
    assert_eq!(cell.parent().depth(), max - 1);
    let b = cell.bbox();
    assert_eq!(b.x1 - b.x0, cell_size_at(max));
    assert!(cell_size_at(max) >= 2);
    assert_eq!(cell.root_ancestor(), HEALPixCell::new(0, 11));
}
