use totk_map::maps::{
    load_tile, request_visible_tiles, tile_visible, update_visibility, visible_ranges, Tile,
};
use totk_map::resources::{u32_to_text, LoadedTiles, Lod, MapType};

#[test]
fn numbers_render_in_decimal() {
    assert_eq!(u32_to_text(0), "0");
    assert_eq!(u32_to_text(7), "7");
    assert_eq!(u32_to_text(10), "10");
    assert_eq!(u32_to_text(65535), "65535");
}

#[test]
fn map_type_names() {
    assert_eq!(MapType::Sky.as_str(), "sky");
    assert_eq!(MapType::Surface.as_str(), "surface");
    assert_eq!(MapType::Depths.as_str(), "depths");
    assert_eq!(MapType::iter(), vec![MapType::Sky, MapType::Surface, MapType::Depths]);
    assert_eq!(MapType::default(), MapType::Surface);
}

#[test]
fn tile_paths_follow_the_store_layout() {
    assert_eq!(
        MapType::Surface.tile_path(Lod(3), 2, 5),
        "tiles/surface/3/2_5.jpg"
    );
    assert_eq!(MapType::Sky.tile_path(Lod(0), 0, 0), "tiles/sky/0/0_0.jpg");
    assert_eq!(
        MapType::Depths.tile_path(Lod(6), 63, 10),
        "tiles/depths/6/63_10.jpg"
    );
}

#[test]
fn requesting_a_tile_twice_stores_it_once() {
    let mut cache = LoadedTiles::default();
    let first = load_tile(&mut cache, MapType::Surface, Lod(2), 1, 1);
    assert!(first.is_some());
    let second = load_tile(&mut cache, MapType::Surface, Lod(2), 1, 1);
    assert!(second.is_none());
    assert_eq!(cache.tiles().len(), 1);
    assert_eq!(cache.tiles()[0], "tiles/surface/2/1_1.jpg");
}

#[test]
fn request_reports_whether_the_path_is_new() {
    let mut cache = LoadedTiles::default();
    assert!(cache.request("tiles/sky/0/0_0.jpg".to_string()));
    assert!(!cache.request("tiles/sky/0/0_0.jpg".to_string()));
    assert!(cache.request("tiles/sky/1/0_0.jpg".to_string()));
    assert_eq!(cache.tiles().len(), 2);
}

#[test]
fn placements_center_the_grid_on_the_origin() {
    let mut cache = LoadedTiles::default();
    let root = load_tile(&mut cache, MapType::Surface, Lod(0), 0, 0).unwrap();
    assert_eq!(root.center_x_milli, 0);
    assert_eq!(root.center_y_milli, 0);
    assert_eq!(root.size_milli, 12_000_000);
    assert_eq!(root.z_layer, 0);

    let fine = load_tile(&mut cache, MapType::Surface, Lod(6), 0, 0).unwrap();
    assert_eq!(fine.size_milli, 187_500);
    assert_eq!(fine.center_x_milli, -6_000_000 + 93_750);
    assert_eq!(fine.center_y_milli, 6_000_000 - 93_750);
    assert_eq!(fine.z_layer, 60);

    let last = load_tile(&mut cache, MapType::Surface, Lod(6), 63, 63).unwrap();
    assert_eq!(last.center_x_milli, 6_000_000 - 93_750);
    assert_eq!(last.center_y_milli, -6_000_000 + 93_750);
}

#[test]
fn coarser_tiles_stay_visible_outside_the_ranges() {
    let current = Lod(2);
    let backdrop = Tile { map_type: MapType::Surface, lod: Lod(0), x_idx: 0, y_idx: 0 };
    let coarser = Tile { map_type: MapType::Surface, lod: Lod(1), x_idx: 0, y_idx: 0 };
    let outside = Tile { map_type: MapType::Surface, lod: Lod(2), x_idx: 0, y_idx: 0 };
    let inside = Tile { map_type: MapType::Surface, lod: Lod(2), x_idx: 1, y_idx: 1 };
    let other_map = Tile { map_type: MapType::Sky, lod: Lod(0), x_idx: 0, y_idx: 0 };
    assert!(tile_visible(&backdrop, MapType::Surface, current, 1, 1, 1, 1));
    assert!(tile_visible(&coarser, MapType::Surface, current, 1, 1, 1, 1));
    assert!(!tile_visible(&outside, MapType::Surface, current, 1, 1, 1, 1));
    assert!(tile_visible(&inside, MapType::Surface, current, 1, 1, 1, 1));
    assert!(!tile_visible(&other_map, MapType::Surface, current, 1, 1, 1, 1));
}

#[test]
fn viewport_inside_one_tile_requests_exactly_that_tile() {
    // level 2: four tiles per axis, each 3000 world units wide; tile
    // (1, 1) spans [-3000, 0) on both inverted axes
    let lod = Lod(2);
    let ranges = visible_ranges(
        lod,
        -1_500_000,
        1_500_000,
        -100_000,
        100_000,
        -100_000,
        100_000,
    );
    assert_eq!(ranges, (1, 1, 1, 1));

    let mut cache = LoadedTiles::default();
    load_tile(&mut cache, MapType::Surface, Lod(0), 0, 0);
    load_tile(&mut cache, MapType::Surface, Lod(1), 0, 0);
    let before = cache.tiles().len();
    let new_tiles = request_visible_tiles(
        &mut cache,
        MapType::Surface,
        lod,
        ranges.0,
        ranges.1,
        ranges.2,
        ranges.3,
    );
    assert_eq!(new_tiles.len(), 1);
    assert_eq!(new_tiles[0].path, "tiles/surface/2/1_1.jpg");
    assert_eq!(cache.tiles().len(), before + 1);

    // existing coarser tiles stay visible whatever the ranges say
    let known = vec![
        Tile { map_type: MapType::Surface, lod: Lod(0), x_idx: 0, y_idx: 0 },
        Tile { map_type: MapType::Surface, lod: Lod(1), x_idx: 0, y_idx: 0 },
        Tile { map_type: MapType::Surface, lod: Lod(2), x_idx: 1, y_idx: 1 },
    ];
    let vis = update_visibility(&known, MapType::Surface, lod, ranges.0, ranges.1, ranges.2, ranges.3);
    assert_eq!(vis, vec![true, true, true]);
}

#[test]
fn an_empty_index_range_requests_nothing() {
    let mut cache = LoadedTiles::default();
    let placed = request_visible_tiles(&mut cache, MapType::Sky, Lod(3), 5, 4, 0, 7);
    assert!(placed.is_empty());
    assert!(cache.tiles().is_empty());
}

#[test]
fn full_grid_is_requested_once_per_cell() {
    let mut cache = LoadedTiles::default();
    let lod = Lod(1);
    let first = request_visible_tiles(&mut cache, MapType::Depths, lod, 0, 1, 0, 1);
    assert_eq!(first.len(), 4);
    let again = request_visible_tiles(&mut cache, MapType::Depths, lod, 0, 1, 0, 1);
    assert!(again.is_empty());
    assert_eq!(cache.tiles().len(), 4);
}
