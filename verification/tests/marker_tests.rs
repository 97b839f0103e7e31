use totk_map::markers::{marker_scale, marker_visible, DisplayedMarkers, MarkerSprite};
use totk_map::resources::{
    FocusedMarkers, Lod, MapType, Options, SpawnedMarkers,
};
use totk_map::types::{max_lod, LocationLayerIcon};

#[test]
fn displayed_markers_toggle() {
    let mut d = DisplayedMarkers::default();
    assert!(!d.contains(&"Lookout Landing".to_string()));
    d.toggle("Lookout Landing".to_string());
    assert!(d.contains(&"Lookout Landing".to_string()));
    d.toggle("Lookout Landing".to_string());
    assert!(!d.contains(&"Lookout Landing".to_string()));
}

#[test]
fn displayed_markers_insert_is_idempotent() {
    let mut d = DisplayedMarkers::default();
    d.insert("Shrine".to_string());
    d.insert("Shrine".to_string());
    assert_eq!(d.markers().len(), 1);
}

#[test]
fn displayed_markers_bulk_add_and_remove() {
    let mut d = DisplayedMarkers::default();
    d.insert("A".to_string());
    let src = vec!["A".to_string(), "B".to_string(), "C".to_string()];
    d.add_missing_from(&src);
    assert_eq!(d.markers().len(), 3);
    let gone = vec!["B".to_string(), "Z".to_string()];
    d.remove_from(&gone);
    assert!(d.contains(&"A".to_string()));
    assert!(!d.contains(&"B".to_string()));
    assert!(d.contains(&"C".to_string()));
}

#[test]
fn display_name_joins_differing_layer_names() {
    let plain = MarkerSprite::new("Korok".to_string(), None, 0, 6);
    assert_eq!(plain.display_name(), "Korok");
    let same = MarkerSprite::new("Korok".to_string(), Some("Korok".to_string()), 0, 6);
    assert_eq!(same.display_name(), "Korok");
    let named = MarkerSprite::new("Korok".to_string(), Some("Hidden".to_string()), 0, 6);
    assert_eq!(named.display_name(), "Korok - Hidden");
}

#[test]
fn marker_visibility_needs_name_and_level_range() {
    let mut d = DisplayedMarkers::default();
    d.insert("Stable".to_string());
    let sprite = MarkerSprite::new("Stable".to_string(), None, 2, 4);
    assert!(!marker_visible(&d, Lod(1), &sprite));
    assert!(marker_visible(&d, Lod(2), &sprite));
    assert!(marker_visible(&d, Lod(4), &sprite));
    assert!(!marker_visible(&d, Lod(5), &sprite));
    let hidden = MarkerSprite::new("Cave".to_string(), None, 0, 6);
    assert!(!marker_visible(&d, Lod(3), &hidden));
}

#[test]
fn marker_scale_clamps() {
    assert_eq!(marker_scale(20_000), 200_000);
    assert_eq!(marker_scale(100), 2_000);
    assert_eq!(marker_scale(5_000), 50_000);
}

#[test]
fn spawned_markers_are_per_layer() {
    let mut s = SpawnedMarkers::default();
    assert!(!s.is_spawned(MapType::Surface));
    s.mark_spawned(MapType::Surface);
    assert!(s.is_spawned(MapType::Surface));
    assert!(!s.is_spawned(MapType::Sky));
    assert!(!s.is_spawned(MapType::Depths));
}

#[test]
fn focused_markers_collect_and_clear() {
    let mut f = FocusedMarkers::default();
    assert!(f.markers().is_empty());
    f.push("One".to_string());
    f.push("Two".to_string());
    assert_eq!(f.markers().as_slice(), ["One".to_string(), "Two".to_string()]);
    f.clear();
    assert!(f.markers().is_empty());
}

#[test]
fn plain_data_carries_through() {
    let opts = Options { debug_display: true, canvas: Some("#map".to_string()) };
    assert!(opts.debug_display);
    assert_eq!(opts.canvas.as_deref(), Some("#map"));
    let icon = LocationLayerIcon { url: "tower.png".to_string(), width: 24, height: 24 };
    assert_eq!(icon.url, "tower.png");
    assert_eq!(max_lod(), 6);
}
