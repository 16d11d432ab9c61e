use ratamud::observable::{CustomObservable, Empty, Observable, WorldInfo};
use ratamud::output::OutputManager;

#[test]
fn new_screen() {
    let o = OutputManager::new();
    assert!(o.is_log_open());
    assert!(!o.is_minimap_open());
    assert!(!o.is_side_panel_open());
    assert!(!o.is_map_open());
    assert_eq!(o.current_time(), "Day 1 09:00:00");
    assert_eq!(o.get_status(), "");
    assert_eq!(o.side_panel_lines(), vec!["無資料".to_string()]);
    assert_eq!(o.get_side_panel_content_height(), 3);
}

#[test]
fn printing_and_window() {
    let mut o = OutputManager::new();
    for i in 0..10 {
        o.print(format!("line {}", i));
    }
    assert_eq!(o.visible_messages(3), vec!["line 7".to_string(), "line 8".to_string(), "line 9".to_string()]);
    o.scroll_up();
    assert_eq!(o.visible_messages(3), vec!["line 4".to_string(), "line 5".to_string(), "line 6".to_string()]);
    o.scroll_up();
    o.scroll_up();
    assert_eq!(o.visible_messages(3)[0], "line 0");
    o.scroll_down(3);
    assert_eq!(o.visible_messages(3)[0], "line 5");
    o.scroll_down(3);
    assert_eq!(o.visible_messages(3)[0], "line 7");
    assert_eq!(o.visible_messages(20).len(), 10);
    o.clear_messages();
    assert!(o.visible_messages(3).is_empty());
}

#[test]
fn status_line() {
    let mut o = OutputManager::new();
    o.set_status("saved".to_string());
    assert_eq!(o.get_status(), "saved");
    o.update_status();
    assert_eq!(o.get_status(), "saved");
    assert_eq!(o.status_after(5_000_000_000), "saved");
    assert_eq!(o.status_after(5_000_000_001), "");
    o.expire_status(5_000_000_000);
    assert_eq!(o.get_status(), "saved");
    o.expire_status(6_000_000_000);
    assert_eq!(o.get_status(), "");
    assert_eq!(o.status_after(9_000_000_000), "");
}

#[test]
fn an_untimed_status_never_expires() {
    let o = OutputManager::new();
    assert_eq!(o.status_after(u128::MAX), "");
    let mut p = OutputManager::new();
    p.expire_status(u128::MAX);
    assert_eq!(p.get_status(), "");
}

#[test]
fn panels_toggle() {
    let mut o = OutputManager::new();
    o.toggle_side_panel();
    assert!(o.is_side_panel_open());
    o.close_side_panel();
    assert!(!o.is_side_panel_open());
    o.show_minimap();
    assert!(o.is_minimap_open());
    o.toggle_minimap();
    assert!(!o.is_minimap_open());
    o.hide_log();
    assert!(!o.is_log_open());
    o.toggle_log();
    assert!(o.is_log_open());
    o.update_minimap(vec!["a".to_string(), "b".to_string()]);
    assert_eq!(o.minimap_lines(), vec!["a".to_string(), "b".to_string()]);
    o.set_current_time("Day 2 10:00:00".to_string());
    assert_eq!(o.current_time(), "Day 2 10:00:00");
}

#[test]
fn side_panel_shows_an_observable() {
    let mut o = OutputManager::new();
    o.set_side_observable(Box::new(WorldInfo::new("世界".to_string(), "說明".to_string(), vec![])));
    assert_eq!(
        o.side_panel_lines(),
        vec!["【世界】", "", "說明", "", "• 無地圖"].into_iter().map(String::from).collect::<Vec<_>>()
    );
    assert_eq!(o.get_side_panel_content_height(), 7);
    o.set_side_observable(Box::new(CustomObservable::new("T".to_string(), String::new(), vec!["x".to_string()])));
    assert_eq!(o.side_panel_lines(), vec!["T".to_string(), "".to_string(), "• x".to_string()]);
}

#[test]
fn printing_an_observable() {
    let mut o = OutputManager::new();
    o.print_obserable(&CustomObservable::new("標題".to_string(), "描述".to_string(), vec!["a".to_string(), "b".to_string()]));
    assert_eq!(
        o.visible_messages(10),
        vec!["標題", "描述", "--", "• a", "• b"].into_iter().map(String::from).collect::<Vec<_>>()
    );
    let mut p = OutputManager::new();
    p.print_obserable(&Empty);
    assert_eq!(p.visible_messages(10), vec!["無資料".to_string(), "".to_string()]);
}

#[test]
fn observables() {
    assert_eq!(Empty.show_title(), "無資料");
    assert_eq!(Empty.show_description(), "");
    assert!(Empty.show_list().is_empty());
    let w = WorldInfo::new("W".to_string(), "d".to_string(), vec!["m1".to_string()]);
    assert_eq!(w.show_title(), "【W】");
    assert_eq!(w.show_list(), vec!["m1".to_string()]);
}

#[test]
fn side_messages_scroll() {
    let mut o = OutputManager::new();
    o.add_side_message("a".to_string());
    o.add_side_message("b".to_string());
    o.add_side_message("c".to_string());
    o.scroll_side_up();
    o.scroll_side_down(1);
    o.clear_side_messages();
}

#[test]
fn log_entries_are_stamped() {
    let mut o = OutputManager::new();
    o.log_with_timestamp("12:34:56", "started".to_string());
    assert_eq!(o.visible_log(5), vec!["[12:34:56] started".to_string()]);
    o.log("next".to_string());
    let v = o.visible_log(5);
    assert_eq!(v.len(), 2);
    assert!(v[1].starts_with('[') && v[1].ends_with("] next"));
    assert_eq!(o.visible_log(1).len(), 1);
    o.scroll_log_up();
    o.scroll_log_down(1);
}

#[test]
fn big_map_view() {
    let mut o = OutputManager::new();
    o.show_map(50, 30);
    assert!(o.is_map_open());
    assert_eq!(o.map_offset(), (30, 20));
    o.move_map_view(-5, 5, 100, 100);
    assert_eq!(o.map_offset(), (25, 25));
    o.move_map_view(200, 0, 100, 100);
    assert_eq!(o.map_offset(), (99, 25));
    o.show_map(3, 4);
    assert_eq!(o.map_offset(), (0, 0));
    o.move_map_view(-5, -5, 100, 100);
    assert_eq!(o.map_offset(), (0, 0));
    o.close_map();
    assert!(!o.is_map_open());
}
