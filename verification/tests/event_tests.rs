use ratamud::event::{
    EventAction, EventManager, EventRuntimeState, EventState, GameEvent, Position, TriggerType, WhatCondition,
    WhereCondition, WhoCondition,
};
use ratamud::event_executor::EventExecutor;
use ratamud::event_scheduler::EventScheduler;
use ratamud::map::GameMap;
use ratamud::person::{AttributeRanges, HealthStatusRanges, Person, PersonDescriptions};
use ratamud::world::GameWorld;

fn no_descriptions() -> PersonDescriptions {
    PersonDescriptions {
        appearance: Vec::new(),
        strength: AttributeRanges { ranges: Vec::new() },
        build: AttributeRanges { ranges: Vec::new() },
        health_status: HealthStatusRanges { ranges: Vec::new() },
    }
}

/// The player at (1, 1) on a 10 by 10 walkable map, and a second map.
fn world() -> GameWorld {
    let mut w = GameWorld::new(no_descriptions());
    let mut me = Person::new("me".to_string(), "玩家".to_string(), &w.person_descriptions);
    me.x = 1;
    me.y = 1;
    w.npc_manager.add_npc("me".to_string(), me, Vec::new());
    for name in ["beginMap", "cave"] {
        let mut map = GameMap::new(name.to_string(), 10, 10);
        for row in map.points.iter_mut() {
            for p in row.iter_mut() {
                p.walkable = true;
            }
        }
        w.add_map(map);
    }
    w.change_map("beginMap");
    w
}

fn event(id: &str, trigger: TriggerType, actions: Vec<EventAction>, state: EventState) -> GameEvent {
    GameEvent {
        id: id.to_string(),
        name: id.to_string(),
        description: String::new(),
        trigger,
        who: WhoCondition::default(),
        where_condition: WhereCondition::default(),
        what: WhatCondition::default(),
        actions,
        state,
    }
}

fn once() -> EventState {
    EventState { repeatable: false, cooldown: 0, max_triggers: -1, prerequisites: Vec::new() }
}

#[test]
fn an_event_fires_once_when_it_does_not_repeat() {
    let mut m = EventManager::new();
    m.add_event(event("bell", TriggerType::Manual, Vec::new(), once()));
    assert_eq!(m.list_events().len(), 1);
    assert!(m.get_event("bell").is_some());
    assert!(m.get_event("gong").is_none());
    let rt = m.get_runtime_state("bell").unwrap();
    assert_eq!(rt.trigger_count, 0);
    assert!(m.get_event("bell").unwrap().can_trigger_at(rt, 100));
    assert!(m.trigger_event_at("bell", 100));
    assert!(!m.trigger_event_at("gong", 100));
    let rt = m.get_runtime_state("bell").unwrap();
    assert_eq!(rt.trigger_count, 1);
    assert_eq!(rt.last_trigger_time, Some(100));
    assert!(!m.get_event("bell").unwrap().can_trigger_at(rt, 1000));
}

#[test]
fn a_cooldown_holds_an_event_back() {
    let st = EventState { repeatable: true, cooldown: 60, max_triggers: 2, prerequisites: Vec::new() };
    let mut rt = EventRuntimeState::new();
    assert!(st.can_trigger_at(&rt, 0));
    rt.record_trigger_at(10);
    assert!(!st.can_trigger_at(&rt, 69));
    assert!(st.can_trigger_at(&rt, 70));
    rt.record_trigger_at(70);
    assert!(!st.can_trigger_at(&rt, 1000));
}

#[test]
fn triggers_follow_their_chance() {
    let s = EventScheduler::new();
    let w = world();
    let lucky = event("luck", TriggerType::Random { interval_seconds: 60, chance: 500_000 }, Vec::new(), once());
    assert!(s.check_trigger(&lucky, &w, 500_000));
    assert!(!s.check_trigger(&lucky, &w, 500_001));
    let manual = event("m", TriggerType::Manual, Vec::new(), once());
    assert!(!s.check_trigger(&manual, &w, 0));
    let nowhere = event("n", TriggerType::Location { positions: Vec::new() }, Vec::new(), once());
    assert!(s.check_trigger(&nowhere, &w, 0));
    let at_nine = TriggerType::Time {
        schedule: "0 9 * * *".to_string(),
        random_chance: None,
        day_range: None,
        time_range: None,
    };
    let clock = event("clock", at_nine, Vec::new(), once());
    assert!(s.check_trigger(&clock, &w, 999_999));
}

#[test]
fn check_and_trigger_once_a_minute() {
    let mut s = EventScheduler::new();
    let mut m = EventManager::new();
    let w = world();
    let me = w.npc_manager.get_npc("me").unwrap().clone();
    m.add_event(event("a", TriggerType::Random { interval_seconds: 1, chance: 10 }, Vec::new(), once()));
    m.add_event(event("b", TriggerType::Random { interval_seconds: 1, chance: 10 }, Vec::new(), once()));
    let fired = s.check_and_trigger(&mut m, &w, &me, 5, &vec![3, 11]);
    assert_eq!(fired, vec!["a".to_string()]);
    assert_eq!(m.get_runtime_state("a").unwrap().trigger_count, 1);
    assert_eq!(m.get_runtime_state("b").unwrap().trigger_count, 0);
    // the same game minute: nothing is checked again
    let again = s.check_and_trigger(&mut m, &w, &me, 6, &vec![0, 0]);
    assert!(again.is_empty());
    assert_eq!(m.get_runtime_state("b").unwrap().trigger_count, 0);
}

#[test]
fn standing_on_a_place_sets_off_its_event() {
    let s = EventScheduler::new();
    let mut m = EventManager::new();
    m.add_event(event("trap", TriggerType::Location { positions: vec![[2, 3], [4, 4]] }, Vec::new(), once()));
    assert_eq!(s.check_location_trigger(&m, 2, 3, 0), vec!["trap".to_string()]);
    assert!(s.check_location_trigger(&m, 3, 2, 0).is_empty());
    m.trigger_event_at("trap", 0);
    assert!(s.check_location_trigger(&m, 2, 3, 1).is_empty());
}

#[test]
fn an_event_runs_its_actions_in_turn() {
    let mut w = world();
    let e = event(
        "fair",
        TriggerType::Manual,
        vec![
            EventAction::Message { text: "市集開張".to_string() },
            EventAction::Dialogue { npc_id: "商人".to_string(), text: "歡迎".to_string() },
            EventAction::AddItem { item: "蘋果".to_string(), position: Position::Fixed([2, 2]) },
            EventAction::RemoveItem { item: "蘋果".to_string(), position: Position::Fixed([2, 2]) },
            EventAction::SpawnNpc { npc_id: "商人".to_string(), position: Position::Fixed([3, 3]), dialogue: None },
            EventAction::RemoveNpc { npc_id: "商人".to_string() },
        ],
        once(),
    );
    let (res, msgs) = EventExecutor::execute_event(&e, &mut w);
    assert!(res.is_ok());
    assert_eq!(
        msgs,
        vec![
            "🎭 事件觸發: fair".to_string(),
            "📢 市集開張".to_string(),
            "💬 商人: \"歡迎\"".to_string(),
            "🎁 蘋果 出現在 (2, 2)".to_string(),
            "🗑️  蘋果 從 (2, 2) 消失了".to_string(),
            "👤 NPC 商人 出現在 (3, 3)".to_string(),
            "👤 NPC 商人 離開了".to_string(),
        ]
    );
    assert!(w.get_current_map().unwrap().get_point(2, 2).unwrap().objects.is_empty());
}

#[test]
fn an_event_stops_at_the_first_failed_action() {
    let mut w = world();
    let e = event(
        "lost",
        TriggerType::Manual,
        vec![
            EventAction::Message { text: "出發".to_string() },
            EventAction::RemoveItem { item: "金幣".to_string(), position: Position::Fixed([5, 5]) },
            EventAction::Message { text: "不會出現".to_string() },
        ],
        once(),
    );
    let (res, msgs) = EventExecutor::execute_event(&e, &mut w);
    assert_eq!(res, Err("執行動作失敗: 無法在位置 (5, 5) 移除物品 金幣".to_string()));
    assert_eq!(msgs, vec!["🎭 事件觸發: lost".to_string(), "📢 出發".to_string()]);
}

#[test]
fn teleporting_moves_the_player_to_another_map() {
    let mut w = world();
    let go = event(
        "portal",
        TriggerType::Manual,
        vec![EventAction::Teleport { map: "cave".to_string(), position: Position::Fixed([7, 8]) }],
        once(),
    );
    let (res, msgs) = EventExecutor::execute_event(&go, &mut w);
    assert!(res.is_ok());
    assert_eq!(msgs, vec!["🎭 事件觸發: portal".to_string(), "✨ 你被傳送到 cave (7, 8)".to_string()]);
    assert_eq!(w.current_map_name, "cave");
    let me = w.npc_manager.get_npc("me").unwrap();
    assert_eq!((me.x, me.y), (7, 8));
    let nowhere = event(
        "void",
        TriggerType::Manual,
        vec![EventAction::Teleport { map: "void".to_string(), position: Position::Fixed([0, 0]) }],
        once(),
    );
    let (res, msgs) = EventExecutor::execute_event(&nowhere, &mut w);
    assert_eq!(res, Err("執行動作失敗: 地圖 void 不存在".to_string()));
    assert_eq!(msgs, vec!["🎭 事件觸發: void".to_string()]);
}

#[test]
fn a_random_place_is_walkable() {
    let w = world();
    let map = w.get_current_map().unwrap();
    let p = Position::Random("any".to_string()).resolve(map).unwrap();
    assert!(p[0] < 10 && p[1] < 10);
    assert_eq!(Position::Fixed([4, 5]).resolve(map), Some([4, 5]));
}
