use totk_map::resources::{update_lod, Lod, LOD_MAX_VALUE, LOD_MIN_VALUE};

#[test]
fn scale_one_gives_finest_level() {
    // ln(1) = 0, so the zoom step count is 0 and the level is 6
    let lod = Lod::from_zoom_steps(0);
    assert_eq!(lod, Lod(6));
    assert_eq!(lod.tiles_nb(), 64);
    // 12000 / 64 = 187.5 world units
    assert_eq!(lod.tile_size_milli(), 187_500);
}

#[test]
fn scale_e_cubed_gives_root_level() {
    // ln(e^3) = 3, doubled and rounded gives 6, clamped to 6, level 0
    let lod = Lod::from_zoom_steps(6);
    assert_eq!(lod, Lod(0));
    assert_eq!(lod.tiles_nb(), 1);
    assert_eq!(lod.tile_size_milli(), 12_000_000);
}

#[test]
fn zoom_steps_clamp_to_ladder() {
    assert_eq!(Lod::from_zoom_steps(-1000), Lod(6));
    assert_eq!(Lod::from_zoom_steps(1000), Lod(0));
    assert_eq!(Lod::from_zoom_steps(3), Lod(3));
}

#[test]
fn level_is_non_increasing_in_zoom_steps() {
    let mut last = Lod::from_zoom_steps(-10).0;
    for steps in -10..=10 {
        let here = Lod::from_zoom_steps(steps).0;
        assert!(here <= last);
        assert!((LOD_MIN_VALUE..=LOD_MAX_VALUE).contains(&here));
        last = here;
    }
}

#[test]
fn tiles_per_axis_is_a_power_of_two() {
    for level in 0..=6u32 {
        assert_eq!(Lod(level).tiles_nb(), 1u32 << level);
    }
}

#[test]
fn index_stays_on_the_grid_for_any_position() {
    for level in 0..=6u32 {
        let lod = Lod(level);
        let n = lod.tiles_nb();
        for pos in [
            i64::MIN / 2,
            -6_000_000,
            -1,
            0,
            5_999_999,
            6_000_000,
            i64::MAX / 2,
        ] {
            let idx = lod.index(pos);
            assert!(idx < n);
        }
    }
}

#[test]
fn index_boundaries() {
    for level in 0..=6u32 {
        let lod = Lod(level);
        // the left world edge is in the first tile
        assert_eq!(lod.index(-6_000_000), 0);
        // the last representable position before the right edge is in
        // the last tile
        assert_eq!(lod.index(5_999_999), lod.tiles_nb() - 1);
    }
}

#[test]
fn index_splits_the_world_evenly() {
    let lod = Lod(2);
    assert_eq!(lod.index(-3_000_001), 0);
    assert_eq!(lod.index(-3_000_000), 1);
    assert_eq!(lod.index(-1), 1);
    assert_eq!(lod.index(0), 2);
    assert_eq!(lod.index(2_999_999), 2);
    assert_eq!(lod.index(3_000_000), 3);
}

#[test]
fn update_lod_reports_changes() {
    let mut current = Lod(0);
    assert!(update_lod(&mut current, Lod(3)));
    assert_eq!(current, Lod(3));
    assert!(!update_lod(&mut current, Lod(3)));
    assert_eq!(current, Lod(3));
}
