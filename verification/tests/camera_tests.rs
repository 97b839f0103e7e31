use totk_map::camera::{
    accumulate_scroll, apply_events, camera_movement, camera_zoom, startup_config,
    startup_state, CamConfig, CamEvent, CamState, ScrollEvent, ScrollUnit,
};

fn unbounded() -> CamConfig {
    CamConfig {
        min_x: None,
        max_x: None,
        min_y: None,
        max_y: None,
        min_scale: 300,
        max_scale: Some(40_000),
        zoom_to_cursor: true,
        enabled: true,
    }
}

#[test]
fn startup_values() {
    let cfg = startup_config();
    assert_eq!(cfg.min_x, Some(-24_000_000));
    assert_eq!(cfg.max_x, Some(24_000_000));
    assert_eq!(cfg.min_scale, 300);
    assert_eq!(cfg.max_scale, Some(40_000));
    assert!(cfg.zoom_to_cursor);
    let st = startup_state();
    assert_eq!((st.x_milli, st.y_milli, st.scale_milli), (0, 0, 20_000));
}

#[test]
fn scroll_events_accumulate_with_line_factor() {
    let events = vec![
        ScrollEvent { amount_milli: -300_000, unit: ScrollUnit::Pixel },
        ScrollEvent { amount_milli: 2_000, unit: ScrollUnit::Line },
    ];
    // -300 pixels plus 2 lines of 100 pixels each
    assert_eq!(accumulate_scroll(&events), -100_000);
}

#[test]
fn zero_bounds_force_the_scale_down() {
    // camera at the origin at scale 20, every bound set to zero, a
    // scroll of -500 pixels, no cursor: the scale drops strictly and
    // the position stays put
    let cfg = CamConfig {
        min_x: Some(0),
        max_x: Some(0),
        min_y: Some(0),
        max_y: Some(0),
        min_scale: 300,
        max_scale: None,
        zoom_to_cursor: true,
        enabled: true,
    };
    let mut st = CamState { x_milli: 0, y_milli: 0, scale_milli: 20_000 };
    camera_zoom(&cfg, &mut st, 1_000, 1_000, -500_000, None);
    assert!(st.scale_milli < 20_000);
    assert_eq!(st.x_milli, 0);
    assert_eq!(st.y_milli, 0);
}

#[test]
fn scrolling_out_grows_the_scale_up_to_the_cap() {
    let cfg = unbounded();
    let mut st = CamState { x_milli: 0, y_milli: 0, scale_milli: 20_000 };
    camera_zoom(&cfg, &mut st, 1_000, 1_000, -500_000, None);
    // factor 1.5: the scale grows from 20 to 30, under the cap of 40
    assert_eq!(st.scale_milli, 30_000);
    assert_eq!((st.x_milli, st.y_milli), (0, 0));
    camera_zoom(&cfg, &mut st, 1_000, 1_000, -1_000_000, None);
    // factor 2 would give 60, the cap keeps it at 40
    assert_eq!(st.scale_milli, 40_000);
}

#[test]
fn scrolling_in_respects_the_minimum_scale() {
    let cfg = unbounded();
    let mut st = CamState { x_milli: 0, y_milli: 0, scale_milli: 400 };
    camera_zoom(&cfg, &mut st, 1_000, 1_000, 900_000, None);
    // factor 0.1 would give 40, the minimum keeps it at 300
    assert_eq!(st.scale_milli, 300);
}

#[test]
fn zoom_anchors_the_point_under_the_cursor() {
    let cfg = unbounded();
    let mut st = CamState { x_milli: 0, y_milli: 0, scale_milli: 20_000 };
    // cursor at (750, 250) in a 1000-by-1000 window: normalized offset
    // (1/2, 1/2) after the vertical flip
    camera_zoom(&cfg, &mut st, 1_000, 1_000, 500_000, Some((750_000, 250_000)));
    // factor 0.5 halves the scale to 10; the anchor moves the camera
    // halfway toward the cursor's world point
    assert_eq!(st.scale_milli, 10_000);
    assert_eq!(st.x_milli, 2_500_000);
    assert_eq!(st.y_milli, 2_500_000);
}

#[test]
fn zoom_without_scroll_or_when_disabled_is_a_no_op() {
    let cfg = unbounded();
    let mut st = CamState { x_milli: 7, y_milli: -7, scale_milli: 20_000 };
    camera_zoom(&cfg, &mut st, 1_000, 1_000, 0, Some((500_000, 500_000)));
    assert_eq!(st, CamState { x_milli: 7, y_milli: -7, scale_milli: 20_000 });
    let off = CamConfig { enabled: false, ..cfg };
    camera_zoom(&off, &mut st, 1_000, 1_000, 500_000, None);
    assert_eq!(st, CamState { x_milli: 7, y_milli: -7, scale_milli: 20_000 });
}

#[test]
fn pan_moves_against_the_cursor_travel() {
    let cfg = startup_config();
    let mut st = startup_state();
    // 100 pixels right, 50 pixels up in world terms
    camera_movement(&cfg, &mut st, 1_000, 1_000, 100_000, -50_000);
    assert_eq!(st.x_milli, -2_000_000);
    assert_eq!(st.y_milli, 1_000_000);
    assert_eq!(st.scale_milli, 20_000);
}

#[test]
fn pan_clamps_the_viewport_to_the_bounds() {
    let cfg = startup_config();
    let mut st = startup_state();
    // a huge drag: the viewport edge stops at the bound
    camera_movement(&cfg, &mut st, 1_000, 1_000, -100_000_000, 0);
    // half extent is 1000 px * 20 units/px / 2 = 10000 units
    assert_eq!(st.x_milli, 24_000_000 - 10_000_000);
    camera_movement(&cfg, &mut st, 1_000, 1_000, 100_000_000, 0);
    assert_eq!(st.x_milli, -24_000_000 + 10_000_000);
}

#[test]
fn pan_when_disabled_is_a_no_op() {
    let cfg = CamConfig { enabled: false, ..startup_config() };
    let mut st = startup_state();
    camera_movement(&cfg, &mut st, 1_000, 1_000, 100_000, 100_000);
    assert_eq!(st, startup_state());
}

#[test]
fn any_event_sequence_keeps_the_viewport_inside_the_bounds() {
    let cfg = startup_config();
    let mut st = startup_state();
    let events = vec![
        CamEvent::Zoom { scroll_mpx: -1_000_000, cursor: Some((900_000, 100_000)) },
        CamEvent::Pan { dx_mpx: -100_000_000, dy_mpx: 50_000_000 },
        CamEvent::Zoom { scroll_mpx: -1_000_000, cursor: None },
        CamEvent::Pan { dx_mpx: 100_000_000, dy_mpx: -100_000_000 },
        CamEvent::Zoom { scroll_mpx: 800_000, cursor: Some((0, 1_000_000)) },
        CamEvent::Pan { dx_mpx: 42_000, dy_mpx: -42_000 },
    ];
    apply_events(&cfg, &mut st, 1_000, 1_000, &events);
    let half = 1_000 * st.scale_milli / 2;
    assert!(st.x_milli - half >= -24_000_000);
    assert!(st.x_milli + half <= 24_000_000);
    assert!(st.y_milli - half >= -24_000_000);
    assert!(st.y_milli + half <= 24_000_000);
    assert!(st.scale_milli <= 40_000);
    assert!(st.scale_milli >= 300);
}
