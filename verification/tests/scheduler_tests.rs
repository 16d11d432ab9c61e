use ratamud::event_scheduler::{CronParser, EventScheduler};

#[test]
fn test_cron_parser() {
    assert!(CronParser::matches("*/10 * * * *", 0, 12, 1));
    assert!(CronParser::matches("*/10 * * * *", 10, 12, 1));
    assert!(CronParser::matches("*/10 * * * *", 20, 12, 1));
    assert!(!CronParser::matches("*/10 * * * *", 5, 12, 1));

    assert!(CronParser::matches("0 * * * *", 0, 12, 1));
    assert!(!CronParser::matches("0 * * * *", 30, 12, 1));

    assert!(CronParser::matches("0 9-17 * * *", 0, 9, 1));
    assert!(CronParser::matches("0 9-17 * * *", 0, 12, 1));
    assert!(CronParser::matches("0 9-17 * * *", 0, 17, 1));
    assert!(!CronParser::matches("0 9-17 * * *", 0, 8, 1));
    assert!(!CronParser::matches("0 9-17 * * *", 0, 18, 1));
}

#[test]
fn cron_schedule_needs_two_fields() {
    assert!(!CronParser::matches("*", 0, 0, 1));
    assert!(!CronParser::matches("", 0, 0, 1));
}

#[test]
fn cron_every_zero_matches_only_zero() {
    assert!(CronParser::matches("*/0 *", 0, 3, 1));
    assert!(!CronParser::matches("*/0 *", 7, 3, 1));
}

#[test]
fn cron_rejects_malformed_fields() {
    assert!(!CronParser::matches("1-2-3 *", 2, 3, 1));
    assert!(!CronParser::matches("x *", 2, 3, 1));
    assert!(CronParser::matches("+5 *", 5, 3, 1));
    assert!(!CronParser::matches("*/x *", 0, 3, 1));
}

#[test]
fn scheduler_starts_at_zero() {
    let s = EventScheduler::new();
    assert_eq!(s.last_check_time, (0, 0, 0));
}

use ratamud::event::{AreaRange, WhatCondition, WhereCondition};
use ratamud::inventory::Inventory;

#[test]
fn time_windows() {
    let s = EventScheduler::new();
    assert!(s.time_trigger_open("0 9-17", None, &None, 1, 9, 0, 30));
    assert!(!s.time_trigger_open("0 9-17", None, &None, 1, 9, 1, 0));
    assert!(!s.time_trigger_open("* *", Some([2, 5]), &None, 1, 9, 1, 0));
    assert!(s.time_trigger_open("* *", Some([2, 5]), &None, 5, 9, 1, 0));
    let range = Some(["08:00:00".to_string(), "09:30:00".to_string()]);
    assert!(s.time_trigger_open("* *", None, &range, 1, 9, 5, 7));
    assert!(!s.time_trigger_open("* *", None, &range, 1, 9, 30, 1));
    assert!(!s.time_trigger_open("* *", None, &range, 1, 7, 59, 59));
}

#[test]
fn event_conditions() {
    let s = EventScheduler::new();
    let mut items = Inventory::new();
    items.add_items("鑰匙", 1);
    let w = WhereCondition {
        map: Some("village".to_string()),
        positions: Some(vec![[1, 2], [3, 4]]),
        area: Some(AreaRange { x: [0, 5], y: [0, 5] }),
    };
    let what = WhatCondition { required_items: Some(vec!["鑰匙".to_string()]), map_objects: None };
    assert!(s.check_conditions(&w, &what, "village", 3, 4, &items));
    assert!(!s.check_conditions(&w, &what, "forest", 3, 4, &items));
    assert!(!s.check_conditions(&w, &what, "village", 2, 2, &items));
    let need_more = WhatCondition { required_items: Some(vec!["鑰匙".to_string(), "火把".to_string()]), map_objects: None };
    assert!(!s.check_conditions(&w, &need_more, "village", 1, 2, &items));
    let anywhere = WhereCondition { map: None, positions: None, area: None };
    let nothing = WhatCondition { required_items: None, map_objects: None };
    assert!(s.check_conditions(&anywhere, &nothing, "x", 99, 99, &Inventory::new()));
}
