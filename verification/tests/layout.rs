use desktop_overlay::layout::{restore_layout_file, save_layout, LayoutFile};
use desktop_overlay::registry::{default_configs, LayoutChange, WidgetRegistry};
use desktop_overlay::snow::{next_seed, SnowWindow, WindowAction};
use desktop_overlay::widget::{config_sorts_before, DataWidget, DataWidgetConfig, DragGesture};

fn config(id: &str, section: &str, order: Option<i32>, x: i32, y: i32) -> DataWidgetConfig {
    DataWidgetConfig {
        id: id.to_string(),
        header_text: id.to_uppercase(),
        section_id: section.to_string(),
        method: format!("read_{id}"),
        display: String::new(),
        value_type: String::new(),
        order,
        margin_from_x: x,
        margin_from_y: y,
    }
}

fn registry() -> WidgetRegistry {
    let configs = vec![
        config("uptime", "SYSTEM", Some(1), 0, 0),
        config("ram", "SYSTEM", Some(2), 0, 0),
        config("gpu_usage", "GPU", None, 0, 0),
        config("vram", "GPU", Some(3), 120, 40),
    ];
    let mut r = WidgetRegistry::new(configs, vec!["SYSTEM".to_string(), "GPU".to_string()]);
    r.set_context();
    r
}

fn margins(r: &WidgetRegistry, id: &str) -> (i32, i32) {
    let w = r.widget_list().iter().find(|w| w.config.id == id).unwrap();
    (w.config.margin_from_x, w.config.margin_from_y)
}

#[test]
fn docked_means_both_margins_zero() {
    assert!(config("a", "S", None, 0, 0).is_docked());
    assert!(config("a", "S", None, 0, 5).is_floating());
    assert!(config("a", "S", None, -3, 0).is_floating());
}

#[test]
fn detaching_uses_saved_margins_or_the_default() {
    let mut w = DataWidget::new(config("a", "S", None, 0, 25));
    assert!(w.is_floating());
    assert!(w.detach(7).is_none());
    assert!(w.attach());
    assert!(w.is_docked());
    let p = w.detach(7).unwrap();
    assert_eq!((p.handle, p.top, p.right), (7, 70, 70));
    assert_eq!(w.get_float_position(), (70, 70));
    assert_eq!((w.config.margin_from_x, w.config.margin_from_y), (70, 70));
    let fresh = DataWidget::new(config("b", "S", None, 0, 0));
    assert_eq!(fresh.get_float_position(), (60, 60));
    assert_eq!(DataWidget::drag_position(70, 70, 15, 30), (100, 55));
}

#[test]
fn widget_detach_and_reattach_round_trip() {
    let mut r = registry();
    assert!(r.is_docked("uptime"));
    let p = r.detach_widget("uptime").unwrap();
    assert_eq!((p.top, p.right), (70, 70));
    assert!(!r.is_docked("uptime"));
    assert!(r.detach_widget("uptime").is_none());
    assert!(r.reattach_widget("uptime"));
    assert!(r.is_docked("uptime"));
    assert_eq!(margins(&r, "uptime"), (0, 0));
    assert!(!r.reattach_widget("uptime"));
    assert!(r.detach_widget("missing").is_none());
}

#[test]
fn the_lock_stops_header_double_clicks_only() {
    let mut r = registry();
    r.set_lock(true);
    assert!(r.is_lock_active());
    assert!(matches!(r.on_widget_header_released("ram", 2), LayoutChange::Unchanged));
    assert!(r.is_docked("ram"));
    r.set_lock(false);
    assert!(matches!(r.on_widget_header_released("ram", 1), LayoutChange::Unchanged));
    match r.on_widget_header_released("ram", 2) {
        LayoutChange::WidgetDetached { id, placement } => {
            assert_eq!(id, "ram");
            assert_eq!((placement.top, placement.right), (70, 70));
        }
        _ => panic!("the widget should have been detached"),
    }
    r.set_lock(true);
    assert!(matches!(r.on_widget_window_released("ram", 2), LayoutChange::WidgetAttached { .. }));
    assert!(r.is_docked("ram"));
}

#[test]
fn section_detach_and_reattach() {
    let mut r = registry();
    assert!(r.is_section_docked("SYSTEM"));
    assert!(!r.is_section_docked("GPU"));
    let f = r.detach_section("SYSTEM").unwrap();
    assert_eq!(f.section_id, "SYSTEM");
    assert_eq!(f.ids, vec!["uptime".to_string(), "ram".to_string()]);
    assert!(!r.is_docked("uptime") && !r.is_docked("ram"));
    let again = r.detach_section("SYSTEM").unwrap();
    assert_eq!(again.ids, vec!["uptime".to_string(), "ram".to_string()]);
    assert_eq!(again.placement.handle, f.placement.handle + 1);
    assert!(r.detach_section("Misc").is_none());
    let d = r.reattach_section("SYSTEM").unwrap();
    assert_eq!(d.ids, vec!["uptime".to_string(), "ram".to_string()]);
    assert!(d.had_window);
    assert!(r.is_section_docked("SYSTEM"));
    assert_eq!(margins(&r, "uptime"), (0, 0));
}

#[test]
fn default_order_is_by_section_then_position_and_stable() {
    let configs = vec![
        config("c", "SYSTEM", Some(2), 0, 0),
        config("a", "GPU", None, 0, 0),
        config("b", "SYSTEM", None, 0, 0),
        config("d", "GPU", Some(-1), 0, 0),
        config("e", "SYSTEM", Some(0), 0, 0),
        config("f", "Clocks", Some(5), 0, 0),
    ];
    let mut expected: Vec<String> = configs.iter().map(|c| c.id.clone()).collect();
    let mut keyed: Vec<(String, i32, String)> =
        configs.iter().map(|c| (c.section_id.clone(), c.order.unwrap_or(0), c.id.clone())).collect();
    keyed.sort_by(|a, b| a.0.cmp(&b.0).then(a.1.cmp(&b.1)));
    expected.clear();
    expected.extend(keyed.into_iter().map(|k| k.2));
    let sorted: Vec<String> = default_configs(configs).into_iter().map(|c| c.id).collect();
    assert_eq!(sorted, expected);
    assert_eq!(sorted, vec!["f", "d", "a", "b", "e", "c"]);
    assert!(config_sorts_before(&config("x", "A", Some(9), 0, 0), &config("y", "B", Some(0), 0, 0)));
    assert!(!config_sorts_before(&config("x", "A", None, 0, 0), &config("y", "A", Some(0), 0, 0)));
}

#[test]
fn snow_switch_opens_and_closes_the_window() {
    let mut s = SnowWindow::new(1920, 1080);
    assert!(!s.is_on());
    assert!(s.show() == Some(WindowAction::Open));
    assert!(s.show().is_none());
    assert!(s.set_snow_state(true).is_none());
    assert!(s.set_snow_state(false) == Some(WindowAction::Close));
    assert!(s.hide_window().is_none());
    assert!(s.toggle() == Some(WindowAction::Open));
    assert!(s.toggle() == Some(WindowAction::Close));
    assert!(!s.is_on());
    assert_eq!(SnowWindow::get_monitor_dimensions(1280, 720, 2), (2560, 1440));
}

#[test]
fn the_random_sequence_steps_like_the_lcg() {
    assert_eq!(next_seed(0, 1), 6364136223846793005u64.wrapping_add(1));
    assert_eq!(next_seed(5, 99), 5u64.wrapping_mul(6364136223846793005).wrapping_add(1));
    assert_eq!(next_seed(u64::MAX, 0), u64::MAX.wrapping_mul(6364136223846793005).wrapping_add(1));
}

#[test]
fn saved_layout_comes_back() {
    let mut r = registry();
    let mut snow = SnowWindow::new(800, 600);
    snow.show();
    r.detach_widget("uptime").unwrap();
    r.drag_moved(0, 90, 33);
    let saved: LayoutFile = save_layout(&mut r, &snow, true);
    assert!(saved.snow && saved.detach_lock);
    let uptime = saved.widgets.iter().find(|c| c.id == "uptime").unwrap();
    assert_eq!((uptime.margin_from_x, uptime.margin_from_y), (33, 90));

    let mut fresh = registry();
    let mut fresh_snow = SnowWindow::new(800, 600);
    let (action, changes) = restore_layout_file(&mut fresh, &mut fresh_snow, &saved);
    assert!(action == Some(WindowAction::Open));
    assert!(fresh_snow.is_on());
    assert!(fresh.is_lock_active());
    assert_eq!(margins(&fresh, "uptime"), (33, 90));
    assert_eq!(margins(&fresh, "vram"), (60, 60));
    assert_eq!(margins(&fresh, "ram"), (0, 0));
    assert_eq!(changes.len(), 2);
    match &changes[0] {
        LayoutChange::WidgetDetached { id, placement } => {
            assert_eq!(id, "uptime");
            assert_eq!((placement.handle, placement.top, placement.right), (0, 90, 33));
        }
        _ => panic!("the widget saved as floating should float again"),
    }
    match &changes[1] {
        LayoutChange::WidgetDetached { id, placement } => {
            assert_eq!(id, "vram");
            assert_eq!((placement.handle, placement.top, placement.right), (1, 60, 60));
        }
        _ => panic!("the widget saved as floating should float again"),
    }
    assert_eq!(fresh.drag_base(0), Some((90, 33)));
    assert!(fresh.widget_list().iter().all(|w| w.float_win == w.is_floating()));
}

#[test]
fn restoring_a_docked_configuration_docks_a_floating_widget() {
    let mut r = registry();
    r.detach_widget("uptime").unwrap();
    let changes = r.restore_layout(&[config("uptime", "SYSTEM", Some(1), 0, 0), config("missing", "SYSTEM", None, 5, 5)]);
    assert_eq!(changes.len(), 1);
    assert!(matches!(&changes[0], LayoutChange::WidgetAttached { id } if id == "uptime"));
    assert!(r.is_docked("uptime"));
    let again = r.restore_layout(&[config("uptime", "SYSTEM", Some(1), 0, 0)]);
    assert!(again.is_empty());
    let w = r.widget_list().iter().find(|w| w.config.id == "uptime").unwrap();
    assert!(!w.float_win && w.drag_state.is_none());
}

#[test]
fn a_section_gathers_its_floating_widgets_too() {
    let mut r = registry();
    let p = r.detach_widget("uptime").unwrap();
    assert_eq!(p.handle, 0);
    let f = r.detach_section("SYSTEM").unwrap();
    assert_eq!(f.ids, vec!["uptime".to_string(), "ram".to_string()]);
    assert_eq!(f.placement.handle, 1);
    assert_eq!((f.placement.top, f.placement.right), (70, 70));
    for w in r.widget_list().iter().filter(|w| w.config.section_id == "SYSTEM") {
        assert!(w.float_win);
        assert_eq!(w.drag_state.as_ref().map(|d| d.handle), Some(1));
    }
    let g = r.detach_section("GPU").unwrap();
    assert_eq!(g.ids, vec!["gpu_usage".to_string(), "vram".to_string()]);
    assert_eq!((g.placement.top, g.placement.right), (40, 120));
}

#[test]
fn section_header_double_clicks_detach_and_dock_the_section() {
    let mut r = registry();
    r.set_section_headers(vec!["SYSTEM".to_string()]);
    match r.on_section_header_released("SYSTEM", 2) {
        LayoutChange::SectionDetached(f) => {
            assert_eq!(f.ids, vec!["uptime".to_string(), "ram".to_string()]);
            assert!(f.has_header);
            assert_eq!((f.placement.top, f.placement.right), (70, 70));
        }
        _ => panic!("the section should have been detached"),
    }
    assert!(!r.is_section_docked("SYSTEM"));
    assert!(matches!(r.on_section_header_released("SYSTEM", 3), LayoutChange::Unchanged));
    match r.on_section_window_released("SYSTEM", 2) {
        LayoutChange::SectionAttached(d) => {
            assert_eq!(d.ids, vec!["uptime".to_string(), "ram".to_string()]);
            assert!(d.has_header && d.had_window);
        }
        _ => panic!("the section should have been docked"),
    }
    assert!(r.is_section_docked("SYSTEM"));
    assert!(matches!(r.on_section_window_released("SYSTEM", 2), LayoutChange::Unchanged));
}

#[test]
fn a_drag_moves_the_window_from_where_it_began() {
    let mut r = registry();
    r.detach_widget("uptime").unwrap();
    let mut g = DragGesture::new();
    assert_eq!(g.moved(5, 5), None);
    g.begin(r.drag_base(0));
    assert_eq!(g.base, Some((70, 70)));
    let (top, right) = g.moved(15, 30).unwrap();
    assert_eq!((top, right), (100, 55));
    r.drag_moved(0, top, right);
    assert_eq!(r.drag_base(0), Some((100, 55)));
    let (top, right) = g.moved(-10, -20).unwrap();
    r.drag_moved(0, top, right);
    assert_eq!(r.drag_base(0), Some((50, 80)));
    assert_eq!(r.drag_base(7), None);
    let mut lost = DragGesture::new();
    lost.begin(r.drag_base(7));
    assert_eq!(lost.moved(1, 1), None);
}
