use hips_core::ConfigError;
use hips_core::HEALPixCell;
use hips_core::HEALPixCells;
use hips_core::HiPSConfig;
use hips_core::ImageSurveyTextures;

fn config(num_slots: usize) -> HiPSConfig {
    HiPSConfig::new(String::from("survey/a"), 6, 512, num_slots, false, 0, 1000, 0).unwrap()
}

fn no_protection() -> HEALPixCells {
    HEALPixCells {
        depth: 0,
        cells: Vec::new(),
    }
}

fn admit_roots(tex: &mut ImageSurveyTextures, t: u64) {
    let none = no_protection();
    for r in 0..12 {
        assert!(tex.push(HEALPixCell::new(0, r), false, t, t, &none));
    }
}

#[test]
fn config_rejections_name_the_first_failing_check() {
    assert_eq!(
        HiPSConfig::new(String::from("u"), 30, 512, 64, false, 0, 0, 0).unwrap_err(),
        ConfigError::DepthTooDeep
    );
    assert_eq!(
        HiPSConfig::new(String::from("u"), 6, 0, 64, false, 0, 0, 0).unwrap_err(),
        ConfigError::BadTextureSize
    );
    assert_eq!(
        HiPSConfig::new(String::from("u"), 6, 0x20000, 64, false, 0, 0, 0).unwrap_err(),
        ConfigError::BadTextureSize
    );
    assert_eq!(
        HiPSConfig::new(String::from("u"), 6, 512, 5, false, 0, 0, 0).unwrap_err(),
        ConfigError::TooFewSlots
    );
    assert_eq!(
        HiPSConfig::new(String::from("u"), 6, 512, 0x4000_0001, false, 0, 0, 0).unwrap_err(),
        ConfigError::TooManySlots
    );
    assert_eq!(
        HiPSConfig::new(String::from("u"), 6, 512, 64, false, 0, 0, -1).unwrap_err(),
        ConfigError::BadHysteresisMargin
    );
    assert!(HiPSConfig::new(String::from("u"), 6, 512, 64, false, 0, 0, 0).is_ok());
}

#[test]
fn ready_only_once_all_roots_are_resident() {
    let mut tex = ImageSurveyTextures::new(config(16));
    assert!(!tex.is_ready());
    let none = no_protection();
    for r in 0..11 {
        tex.push(HEALPixCell::new(0, r), false, 0, 0, &none);
    }
    assert!(!tex.is_ready());
    tex.push(HEALPixCell::new(0, 11), false, 0, 0, &none);
    assert!(tex.is_ready());
}

#[test]
fn nearest_resident_ancestor_with_roots_only() {
    let mut tex = ImageSurveyTextures::new(config(16));
    admit_roots(&mut tex, 0);
    // Requesting depth-3 cell (3, 42) returns the depth-0 ancestor of
    // 42's root.
    let a = tex.get_nearest_parent(&HEALPixCell::new(3, 42));
    assert_eq!(a, HEALPixCell::new(0, 0));
    let b = tex.get_nearest_parent(&HEALPixCell::new(3, 11 * 64 + 7));
    assert_eq!(b, HEALPixCell::new(0, 11));
}

#[test]
fn nearest_resident_ancestor_prefers_the_deepest() {
    let mut tex = ImageSurveyTextures::new(config(16));
    admit_roots(&mut tex, 0);
    let none = no_protection();
    // Admit the depth-1 ancestor of (3, 42): index 42 / 16 = 2.
    assert!(tex.push(HEALPixCell::new(1, 2), false, 1, 1, &none));
    let a = tex.get_nearest_parent(&HEALPixCell::new(3, 42));
    assert_eq!(a, HEALPixCell::new(1, 2));
    // A root's nearest ancestor is the root itself.
    assert_eq!(
        tex.get_nearest_parent(&HEALPixCell::new(0, 4)),
        HEALPixCell::new(0, 4)
    );
}

#[test]
fn get_and_contains_agree() {
    let mut tex = ImageSurveyTextures::new(config(16));
    admit_roots(&mut tex, 7);
    let cell = HEALPixCell::new(0, 3);
    assert!(tex.contains(&cell));
    let t = tex.get(&cell).unwrap();
    assert_eq!(t.cell(), cell);
    assert_eq!(t.start_time(), 7);
    assert!(!tex.contains(&HEALPixCell::new(1, 0)));
    assert!(tex.get(&HEALPixCell::new(1, 0)).is_none());
}

#[test]
fn visible_cells_are_never_evicted() {
    // 13 slots: the 12 roots plus one extra.
    let mut tex = ImageSurveyTextures::new(config(13));
    admit_roots(&mut tex, 0);
    let a = HEALPixCell::new(2, 9);
    let none = no_protection();
    assert!(tex.push(a, false, 1, 1, &none));
    // The cache is full, and the only evictable slot shows a visible
    // cell: the admission is rejected, a soft failure.
    let protected = HEALPixCells {
        depth: 2,
        cells: vec![a],
    };
    let b = HEALPixCell::new(2, 30);
    assert!(!tex.push(b, false, 2, 2, &protected));
    assert!(tex.contains(&a));
    assert!(!tex.contains(&b));
    // Without protection the slot is reclaimed.
    assert!(tex.push(b, false, 3, 3, &none));
    assert!(tex.contains(&b));
    assert!(!tex.contains(&a));
}

#[test]
fn root_tiles_are_never_evicted() {
    // Exactly 12 slots: after the roots the cache is oversubscribed.
    let mut tex = ImageSurveyTextures::new(config(12));
    admit_roots(&mut tex, 0);
    let none = no_protection();
    let c = HEALPixCell::new(1, 5);
    assert!(!tex.push(c, false, 9, 9, &none));
    for r in 0..12 {
        assert!(tex.contains(&HEALPixCell::new(0, r)));
    }
}

#[test]
fn least_recently_used_slot_is_evicted_first() {
    let mut tex = ImageSurveyTextures::new(config(14));
    admit_roots(&mut tex, 0);
    let none = no_protection();
    let older = HEALPixCell::new(2, 1);
    let newer = HEALPixCell::new(2, 2);
    assert!(tex.push(older, false, 3, 3, &none));
    assert!(tex.push(newer, false, 5, 5, &none));
    // Cache full; the next admission evicts the older of the two.
    let c = HEALPixCell::new(2, 3);
    assert!(tex.push(c, false, 9, 9, &none));
    assert!(!tex.contains(&older));
    assert!(tex.contains(&newer));
    assert!(tex.contains(&c));
}

#[test]
fn readmitting_a_resident_cell_refreshes_it_in_place() {
    let mut tex = ImageSurveyTextures::new(config(12));
    admit_roots(&mut tex, 0);
    let cell = HEALPixCell::new(0, 2);
    let none = no_protection();
    assert!(tex.push(cell, true, 42, 50, &none));
    let t = tex.get(&cell).unwrap();
    assert!(t.missing);
    assert_eq!(t.time_request, 42);
    assert_eq!(t.start_time, 50);
    // Still exactly the 12 roots.
    for r in 0..12 {
        assert!(tex.contains(&HEALPixCell::new(0, r)));
    }
}

#[test]
fn new_tile_flag_is_edge_triggered() {
    let mut tex = ImageSurveyTextures::new(config(12));
    assert!(!tex.is_there_available_tiles());
    tex.register_available_tile();
    assert!(tex.is_there_available_tiles());
    // Consumed: the second check is quiet.
    assert!(!tex.is_there_available_tiles());
    // An admission raises it too.
    let none = no_protection();
    tex.push(HEALPixCell::new(0, 0), false, 0, 0, &none);
    assert!(tex.is_there_available_tiles());
    assert!(!tex.is_there_available_tiles());
}
