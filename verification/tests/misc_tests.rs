use ratamud::command_processor::{CommandProcessor, ProcessorStep};
use ratamud::event::{EventRuntimeState, EventState};
use ratamud::game_event::{GameEvent, InputEvent, SerializableGameEvent};
use ratamud::item::{Item, ItemType};
use ratamud::item_registry::{get_food_hp, get_item_display_name, is_food, resolve_item_name};
use ratamud::message::Message;
use ratamud::npc_action::NpcAction;
use ratamud::person::{AttributeRange, AttributeRanges, DialogueCondition};
use ratamud::settings::GameSettings;
use ratamud::time_updatable::{format_clock, TimeInfo, TimeUpdatable};
use ratamud::trade::TradeSystem;
use ratamud::ui::{HeaderDisplay, Menu};
use ratamud::world::{WorldMetadata, WorldTime};

#[test]
fn trade_prices() {
    assert_eq!(TradeSystem::get_item_base_price("蘋果"), 5);
    assert_eq!(TradeSystem::get_item_base_price("magic_book"), 100);
    assert_eq!(TradeSystem::get_item_base_price("unknown"), 10);
    assert_eq!(TradeSystem::calculate_buy_price("apple", 2), 14);
    assert_eq!(TradeSystem::calculate_sell_price("apple", 2), 6);
    assert_eq!(TradeSystem::calculate_buy_price("石子", 3), 3);
    assert_eq!(TradeSystem::calculate_sell_price("石子", 3), 0);
    assert_eq!(TradeSystem::calculate_buy_price("治療藥水", 1), 75);
    assert_eq!(TradeSystem::calculate_sell_price("治療藥水", 1), 35);
    for name in ["蘋果", "乾肉", "麵包", "治療藥水", "木劍", "石子", "魔法書", "金幣", "x"] {
        assert!(TradeSystem::calculate_sell_price(name, 7) <= TradeSystem::calculate_buy_price(name, 7));
    }
}

#[test]
fn registry_names() {
    assert_eq!(resolve_item_name("Apple"), "蘋果");
    assert_eq!(resolve_item_name("IRON_SWORD"), "鐵劍");
    assert_eq!(resolve_item_name("蘋果"), "蘋果");
    assert_eq!(resolve_item_name("unknown"), "unknown");
    assert_eq!(get_item_display_name("石子"), "石子 (stone)");
    let gold = get_item_display_name("金幣");
    assert!(gold == "金幣 (gold)" || gold == "金幣 (coin)");
    assert_eq!(get_item_display_name("寶石"), "寶石");
    assert!(is_food("麵包"));
    assert!(!is_food("bread"));
    assert_eq!(get_food_hp("乾肉"), Some(800));
    assert_eq!(get_food_hp("石子"), None);
}

#[test]
fn items() {
    let i = Item::new("木劍".to_string(), "sword".to_string(), ItemType::Weapon, "木頭做的".to_string(), 30);
    assert_eq!(i.display(), "木劍 (sword) [武器]");
    assert_eq!(i.age, 0);
    let mut aged = i.clone();
    aged.on_time_update(&TimeInfo::new(9, 0, 1));
    aged.on_time_update(&TimeInfo::new(9, 0, 2));
    assert_eq!(aged.age, 2);
    assert_eq!(aged.name, "木劍");
    assert_eq!(ItemType::Food.describe(), "食物");
    let r = Item::generate_random();
    assert!(!r.display().is_empty());
}

#[test]
fn messages() {
    let m = Message::Combat { attacker: "我".to_string(), target: "狼".to_string(), damage: -3 };
    assert_eq!(m.to_display_text(), "⚔️  我 攻擊 狼，造成 -3 點傷害");
    assert!(!m.is_log());
    let mv = Message::Movement { entity: "bob".to_string(), from: (1, 2), to: (3, 4) };
    assert_eq!(mv.to_display_text(), "🚶 bob 移動到 (3, 4)");
    assert!(mv.is_log());
    assert_eq!(Message::Error("壞".to_string()).to_display_text(), "❌ 壞");
    assert_eq!(
        Message::ItemPickup { entity: "我".to_string(), item: "石子".to_string(), count: 2 }.to_display_text(),
        "📦 我 撿起了 石子 x2"
    );
    assert!(Message::Log("x".to_string()).is_log());
}

#[test]
fn world_time_carries() {
    let mut t = WorldTime::new();
    assert_eq!(t.format_time(), "Day 1 09:00:00");
    t.advance_by(3661, 5);
    assert_eq!(t.format_time(), "Day 1 10:01:01");
    assert_eq!(t.last_update, 5);
    t.advance_by(86400 + 59, 6);
    assert_eq!(t.format_time(), "Day 2 10:02:00");
    assert_eq!(t.elapsed_real_ms(10), 4);
    assert_eq!(format_clock(3, 4, 5, 6), "Day 3 04:05:06");
    assert_eq!(TimeInfo::new_with_seconds(23, 59, 7, 12).format_time(), "Day 12 23:59:07");
}

#[test]
fn world_metadata_lists_maps_once() {
    let mut w = WorldMetadata::new("世界".to_string(), "d".to_string());
    w.add_map("a".to_string());
    w.add_map("b".to_string());
    w.add_map("a".to_string());
    assert_eq!(w.maps, vec!["a".to_string(), "b".to_string()]);
}

#[test]
fn menu_wraps() {
    let mut m = Menu::new("選單".to_string(), vec!["a".to_string(), "b".to_string(), "c".to_string()]);
    assert!(!m.active);
    assert_eq!(m.get_selected_item().map(|s| s.as_str()), Some("a"));
    m.previous();
    assert_eq!(m.selected_index, 2);
    m.next();
    assert_eq!(m.selected_index, 0);
    m.next();
    m.activate();
    assert!(m.active);
    m.deactivate();
    assert!(!m.active);
    assert_eq!(m.selected_index, 0);
    let mut e = Menu::new("空".to_string(), vec![]);
    e.next();
    e.previous();
    assert_eq!(e.selected_index, 0);
    assert!(e.get_selected_item().is_none());
}

#[test]
fn header_text() {
    assert_eq!(HeaderDisplay::header_text("初始世界", "Day 1 09:00:00"), "⚔️  初始世界 | 🕐 Day 1 09:00:00");
}

#[test]
fn settings_default() {
    let s = GameSettings::default();
    assert!(!s.show_minimap);
    assert!(s.show_log);
}

#[test]
fn event_limits() {
    let st = EventState { repeatable: false, cooldown: 10, max_triggers: -1, prerequisites: vec![] };
    let mut rt = EventRuntimeState::new();
    assert!(st.can_trigger_at(&rt, 100));
    rt.record_trigger_at(100);
    assert!(!st.can_trigger_at(&rt, 200));
    let again = EventState { repeatable: true, cooldown: 10, max_triggers: 2, prerequisites: vec![] };
    assert!(!again.can_trigger_at(&rt, 105));
    assert!(again.can_trigger_at(&rt, 110));
    rt.record_trigger_at(110);
    assert!(!again.can_trigger_at(&rt, 500));
    let d = EventState::default();
    assert!(d.repeatable);
    assert_eq!(d.max_triggers, -1);
}

#[test]
fn dialogue_conditions() {
    let c = |op: &str, v: &str| DialogueCondition { attribute: "hp".to_string(), operator: op.to_string(), value: v.to_string() };
    assert!(c(">", "10").holds_for("11"));
    assert!(!c(">", "10").holds_for("10"));
    assert!(c("<=", "10").holds_for("-3"));
    assert!(!c("<", "x").holds_for("1"));
    assert!(c("=", "女").holds_for("女"));
    assert!(c("==", "5").holds_for("5"));
    assert!(c("!=", "5").holds_for("6"));
    assert!(!c("~", "5").holds_for("5"));
}

#[test]
fn attribute_ranges() {
    let r = AttributeRanges {
        ranges: vec![
            AttributeRange { min: 0, max: 10, description: "弱".to_string() },
            AttributeRange { min: 5, max: 50, description: "普通".to_string() },
        ],
    };
    assert_eq!(r.description_for(7).as_deref(), Some("弱"));
    assert_eq!(r.description_for(30).as_deref(), Some("普通"));
    assert_eq!(r.description_for(99), None);
}

#[test]
fn recordable_events() {
    let e = GameEvent::NpcActions { npc_id: "bob".to_string(), actions: vec![NpcAction::Idle] };
    match e.to_serializable() {
        Some(SerializableGameEvent::NpcActions { npc_id, actions }) => {
            assert_eq!(npc_id, "bob");
            assert_eq!(actions.len(), 1);
        },
        other => panic!("{:?}", other),
    }
    assert!(matches!(
        GameEvent::TimerTick { elapsed_secs: 3 }.to_serializable(),
        Some(SerializableGameEvent::TimerTick { elapsed_secs: 3 })
    ));
    match GameEvent::Input(InputEvent::Command("look".to_string())).to_serializable() {
        Some(SerializableGameEvent::Command(c)) => assert_eq!(c, "look"),
        other => panic!("{:?}", other),
    }
}

#[test]
fn processor_asks_for_eagerness_scaling() {
    let p = CommandProcessor::new();
    match p.parse_command("seteagerness bob 0.5") {
        ProcessorStep::Eagerness { npc, level_text } => {
            assert_eq!(npc, "bob");
            assert_eq!(level_text, "0.5");
        },
        other => panic!("{:?}", other),
    }
    assert!(matches!(p.parse_command("LOOK"), ProcessorStep::Ready(_)));
}
