use pens_sidebar::bridge::PenSelectorBridge;
use pens_sidebar::pen::{init_order, PenKind};

fn name(s: &str) -> String {
    s.to_string()
}

#[test]
fn brush_page_selects_brush() {
    let bridge = PenSelectorBridge::new();
    assert_eq!(bridge.on_active_page_changed(Some(&name("brush_page"))), Some(PenKind::Brush));
    assert_eq!(bridge.pen_calls(&vec![Some(name("brush_page"))]), vec![PenKind::Brush]);
}

#[test]
fn unknown_page_selects_nothing() {
    let bridge = PenSelectorBridge::new();
    assert_eq!(bridge.on_active_page_changed(Some(&name("unknown_page"))), None);
    assert!(bridge.pen_calls(&vec![Some(name("unknown_page"))]).is_empty());
}

#[test]
fn absent_page_selects_nothing() {
    let bridge = PenSelectorBridge::new();
    assert_eq!(bridge.on_active_page_changed(None), None);
    assert!(bridge.pen_calls(&vec![None]).is_empty());
}

#[test]
fn near_miss_names_select_nothing() {
    let bridge = PenSelectorBridge::new();
    for n in ["", "marker", "Marker_page", "marker_page ", "selector_pages", "brush_pag"] {
        assert_eq!(bridge.on_active_page_changed(Some(&name(n))), None);
    }
}

#[test]
fn every_known_page_selects_its_pen() {
    let bridge = PenSelectorBridge::new();
    let cases = [
        ("marker_page", PenKind::Marker),
        ("brush_page", PenKind::Brush),
        ("shaper_page", PenKind::Shaper),
        ("eraser_page", PenKind::Eraser),
        ("selector_page", PenKind::Selector),
    ];
    for (n, k) in cases {
        assert_eq!(bridge.on_active_page_changed(Some(&name(n))), Some(k));
        assert_eq!(bridge.pen_calls(&vec![Some(name(n))]), vec![k]);
        assert_eq!(PenKind::from_page_name(&name(n)), Some(k));
        assert_eq!(k.page_name(), n);
    }
}

#[test]
fn marker_eraser_marker_gives_three_calls_in_order() {
    let bridge = PenSelectorBridge::new();
    let events = vec![Some(name("marker_page")), Some(name("eraser_page")), Some(name("marker_page"))];
    assert_eq!(bridge.pen_calls(&events), vec![PenKind::Marker, PenKind::Eraser, PenKind::Marker]);
}

#[test]
fn mixed_events_keep_order_and_skip_unknown() {
    let bridge = PenSelectorBridge::new();
    let events = vec![
        Some(name("shaper_page")),
        None,
        Some(name("nothing")),
        Some(name("selector_page")),
        Some(name("selector_page")),
    ];
    assert_eq!(bridge.pen_calls(&events), vec![PenKind::Shaper, PenKind::Selector, PenKind::Selector]);
    assert!(bridge.pen_calls(&vec![]).is_empty());
}

#[test]
fn destroyed_container_ignores_stale_event() {
    let mut bridge = PenSelectorBridge::new();
    assert!(bridge.is_active());
    bridge.detach();
    assert!(!bridge.is_active());
    assert_eq!(bridge.on_active_page_changed(Some(&name("marker_page"))), None);
    assert!(bridge.pen_calls(&vec![Some(name("brush_page")), Some(name("eraser_page"))]).is_empty());
}

#[test]
fn action_targets() {
    assert_eq!(PenKind::Marker.action_target(), "marker");
    assert_eq!(PenKind::Brush.action_target(), "brush");
    assert_eq!(PenKind::Shaper.action_target(), "shaper");
    assert_eq!(PenKind::Eraser.action_target(), "eraser");
    assert_eq!(PenKind::Selector.action_target(), "selector");
}

#[test]
fn init_visits_each_page_once_in_fixed_order() {
    let order = init_order();
    assert_eq!(
        order,
        vec![PenKind::Marker, PenKind::Brush, PenKind::Shaper, PenKind::Eraser, PenKind::Selector]
    );
    for k in [PenKind::Marker, PenKind::Brush, PenKind::Shaper, PenKind::Eraser, PenKind::Selector] {
        assert_eq!(order.iter().filter(|x| **x == k).count(), 1);
    }
}
