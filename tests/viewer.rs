use fbpdf::frame::{clear_frame, pack_surface, surface_from_rgb, Geometry};
use fbpdf::keys::{decode, decode_all, Action};
use fbpdf::layout::{plan_pages, Placement};
use fbpdf::session::Viewer;
use fbpdf::viewport::{zoom_value, Viewport, MAX_ZOOM, MIN_ZOOM, UNIT};

fn screen_800x600() -> Geometry {
    Geometry { width: 800, height: 600, bytes_per_pixel: 4, line_length: 3200, buffer_rows: 600 }
}

#[test]
fn decode_follows_the_key_table() {
    for k in [3u8, 27, 113] {
        assert_eq!(decode(k), Action::Quit);
    }
    assert_eq!(decode(32), Action::PageUp);
    assert_eq!(decode(104), Action::PanRight);
    assert_eq!(decode(97), Action::PanRight);
    assert_eq!(decode(106), Action::PanUp);
    assert_eq!(decode(115), Action::PanUp);
    assert_eq!(decode(108), Action::PanLeft);
    assert_eq!(decode(110), Action::PanLeft);
    assert_eq!(decode(107), Action::PanDown);
    assert_eq!(decode(119), Action::PanDown);
    assert_eq!(decode(45), Action::ZoomOut);
    assert_eq!(decode(95), Action::ZoomOut);
    assert_eq!(decode(61), Action::ZoomIn);
    assert_eq!(decode(43), Action::ZoomIn);
    assert_eq!(decode(200), Action::Unknown(200));
    assert_eq!(decode(0), Action::Unknown(0));
}

#[test]
fn decode_all_keeps_order() {
    assert_eq!(
        decode_all(&[104, 200, 113]),
        vec![Action::PanRight, Action::Unknown(200), Action::Quit]
    );
    assert_eq!(decode_all(&[]), Vec::<Action>::new());
}

#[test]
fn zoom_levels() {
    assert_eq!(zoom_value(0), 65536);
    assert_eq!(zoom_value(1), 72089);
    assert_eq!(zoom_value(2), 79297);
    assert_eq!(zoom_value(-1), 59578);
    assert_eq!(zoom_value(-2), 54161);
}

#[test]
fn three_spaces_scroll_up_six_hundred() {
    let mut v = Viewport::new(0, 0);
    let r = v.apply_keys(&[32, 32, 32]);
    assert!(!r.quit);
    assert_eq!(r.applied, 3);
    assert_eq!(v.y_offset, -600 * UNIT);
    assert_eq!(v.x_offset, 0);
    assert_eq!(v.zoom_level, 0);
}

#[test]
fn unknown_byte_changes_nothing_and_is_reported() {
    let mut v = Viewport::new(5, 7);
    let r = v.apply_keys(&[200]);
    assert!(!r.quit);
    assert_eq!(r.applied, 1);
    assert_eq!(r.unknown, vec![200]);
    assert_eq!(v, Viewport::new(5, 7));
}

#[test]
fn quit_stops_the_batch() {
    let mut v = Viewport::new(0, 0);
    let r = v.apply_keys(&[104, 113, 104, 106]);
    assert!(r.quit);
    assert_eq!(r.applied, 1);
    assert_eq!(v.x_offset, 20 * UNIT);
    assert_eq!(v.y_offset, 0);
    for q in [3u8, 27] {
        let mut w = Viewport::new(0, 0);
        let r = w.apply_keys(&[107, q, 107]);
        assert!(r.quit);
        assert_eq!(w.y_offset, 20 * UNIT);
    }
}

#[test]
fn pan_steps_use_the_zoom_of_their_moment() {
    let mut v = Viewport::new(0, 0);
    v.apply_keys(&[104, 61, 104, 45, 108]);
    assert_eq!(v.x_offset, 20 * 65536 + 20 * 72089 - 20 * 65536);
    assert_eq!(v.zoom_level, 0);
    let mut w = Viewport::new(0, 0);
    w.apply_keys(&[119, 115, 115]);
    assert_eq!(w.y_offset, -20 * UNIT);
}

#[test]
fn zoom_in_then_out_returns() {
    let mut v = Viewport::new(3, 4);
    v.apply_keys(&[61, 43, 61]);
    assert_eq!(v.zoom_level, 3);
    assert_eq!(v.zoom(), 87226);
    v.apply_keys(&[45, 95, 45]);
    assert_eq!(v, Viewport::new(3, 4));
    assert_eq!(v.zoom(), UNIT);
}

#[test]
fn zoom_stays_within_bounds() {
    let mut v = Viewport::new(0, 0);
    for _ in 0..400 {
        v.apply(Action::ZoomIn);
    }
    assert!(v.zoom_level > 300);
    assert!(v.zoom() <= MAX_ZOOM);
    assert!(v.zoom() as i128 * 11 / 10 > MAX_ZOOM as i128);
    for _ in 0..800 {
        v.apply(Action::ZoomOut);
    }
    assert!(v.zoom() >= MIN_ZOOM);
    assert!(v.zoom() > 0);
    assert!(v.zoom() as i128 * 10 / 11 < MIN_ZOOM as i128);
}

#[test]
fn zoom_in_is_not_capped_at_one_hundred() {
    let mut v = Viewport::new(0, 0);
    for _ in 0..48 {
        v.zoom_in();
    }
    let before = v.zoom();
    assert!(before > 96 * UNIT && before < 100 * UNIT);
    v.apply_keys(&[61]);
    assert_eq!(v.zoom_level, 49);
    assert_eq!(v.zoom(), before * 11 / 10);
    assert!(v.zoom() > 100 * UNIT);
    v.apply_keys(&[45]);
    assert_eq!(v.zoom_level, 48);
    assert_eq!(v.zoom(), before);
}

#[test]
fn offsets_saturate() {
    let mut v = Viewport::new(i64::MAX - 5, i64::MIN + 5);
    v.apply(Action::PanRight);
    v.apply(Action::PageUp);
    assert_eq!(v.x_offset, i64::MAX);
    assert_eq!(v.y_offset, i64::MIN);
}

#[test]
fn page_filling_the_screen_is_drawn() {
    let plan = plan_pages(0, &vec![600 * UNIT], 600 * UNIT);
    assert_eq!(plan.pages, vec![Placement { index: 0, offset: 0 }]);
    assert_eq!(plan.visited, 1);
}

#[test]
fn one_page_document_first_frame() {
    let viewer = Viewer::new(screen_800x600(), 400 * UNIT, vec![600 * UNIT]);
    assert!(viewer.running);
    assert_eq!(viewer.viewport, Viewport::new(200 * UNIT, 0));
    let plan = viewer.plan();
    assert_eq!(plan.pages, vec![Placement { index: 0, offset: 0 }]);
}

#[test]
fn pages_outside_the_band_are_culled() {
    let u = UNIT;
    let plan = plan_pages(-1000 * u, &vec![500 * u, 600 * u, 700 * u, 100 * u], 600 * u);
    assert_eq!(
        plan.pages,
        vec![Placement { index: 1, offset: 500 * u as u64 }, Placement { index: 2, offset: 1100 * u as u64 }]
    );
    assert_eq!(plan.visited, 3);
    let above = plan_pages(-600 * u, &vec![600 * u, 100 * u], 600 * u);
    assert_eq!(above.pages, vec![Placement { index: 1, offset: 600 * u as u64 }]);
    let below = plan_pages(600 * u, &vec![100 * u, 100 * u], 600 * u);
    assert_eq!(below.pages, vec![]);
    assert_eq!(below.visited, 1);
}

#[test]
fn early_exit_after_the_screen_fills() {
    let u = UNIT;
    let plan = plan_pages(0, &vec![600 * u, 600 * u, 600 * u], 600 * u);
    assert_eq!(plan.pages, vec![Placement { index: 0, offset: 0 }]);
    assert_eq!(plan.visited, 1);
    let plan = plan_pages(0, &vec![200 * u, 300 * u, 300 * u, 50 * u], 600 * u);
    assert_eq!(plan.pages.len(), 3);
    assert_eq!(plan.visited, 3);
    let empty = plan_pages(0, &vec![], 600 * u);
    assert_eq!(empty.visited, 0);
    assert!(empty.pages.is_empty());
}

#[test]
fn viewer_stops_on_quit() {
    let mut viewer = Viewer::new(screen_800x600(), 0, vec![100 * UNIT]);
    assert_eq!(viewer.viewport.x_offset, 300 * UNIT);
    let r = viewer.handle_keys(&[106]);
    assert!(!r.quit);
    assert!(viewer.running);
    assert_eq!(viewer.viewport.y_offset, -20 * UNIT);
    let r = viewer.handle_keys(&[113]);
    assert!(r.quit);
    assert!(!viewer.running);
}

#[test]
fn initial_offset_rounds_down() {
    let viewer = Viewer::new(screen_800x600(), 2400 * UNIT + 1, vec![]);
    assert_eq!(viewer.viewport.x_offset, -300 * UNIT - 1);
}

#[test]
fn clear_frame_whitens_every_byte() {
    let mut buf = vec![0u8, 1, 2, 3, 4, 5, 6];
    clear_frame(&mut buf);
    assert_eq!(buf, vec![0xff; 7]);
}

#[test]
fn pack_surface_takes_blue_green_red() {
    let g = Geometry { width: 2, height: 2, bytes_per_pixel: 3, line_length: 8, buffer_rows: 3 };
    let surface: Vec<u8> = (0u8..24).collect();
    let out = pack_surface(&g, &surface, 12);
    assert_eq!(
        out,
        vec![0, 1, 2, 4, 5, 6, 0, 0, 12, 13, 14, 16, 17, 18, 0, 0, 0, 0, 0, 0, 0, 0, 0, 0]
    );
    let g4 = Geometry { width: 1, height: 1, bytes_per_pixel: 4, line_length: 4, buffer_rows: 1 };
    assert_eq!(pack_surface(&g4, &[9, 8, 7, 6], 4), vec![9, 8, 7, 0]);
    assert_eq!(g.dims(), (2, 2));
}

#[test]
fn surface_from_rgb_orders_bytes() {
    let s = surface_from_rgb(&vec![(1, 2, 3), (4, 5, 6)]);
    assert_eq!(s, vec![3, 2, 1, 0, 6, 5, 4, 0]);
}

#[test]
fn pan_scales_with_zoom() {
    let mut v = Viewport::new(0, 0);
    v.zoom_in();
    v.pan(5, -3);
    assert_eq!(v.x_offset, 5 * 72089);
    assert_eq!(v.y_offset, -3 * 72089);
    v.zoom_out();
    assert_eq!(v.zoom(), UNIT);
    v.pan(i64::MAX, i64::MIN);
    assert_eq!(v.x_offset, i64::MAX);
    assert_eq!(v.y_offset, i64::MIN);
}
