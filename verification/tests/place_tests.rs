use ratamud::command_executor::{execute_command, handle_get_all, handle_look_here, handle_namehere, run_command};
use ratamud::command_handler::CommandResult;
use ratamud::command_interact::{handle_quest_list, handle_trade, try_boost_stat};
use ratamud::core_output::OutputZone;
use ratamud::inventory::Inventory;
use ratamud::map::GameMap;
use ratamud::person::{AttributeRanges, HealthStatusRanges, Person, PersonDescriptions};
use ratamud::quest::{Quest, QuestStatus};
use ratamud::trade::TradeSystem;
use ratamud::trade_view::{render_trade, resolve_trade_npc};
use ratamud::world::{GameWorld, InteractionState};

fn no_descs() -> PersonDescriptions {
    PersonDescriptions {
        appearance: Vec::new(),
        strength: AttributeRanges { ranges: Vec::new() },
        build: AttributeRanges { ranges: Vec::new() },
        health_status: HealthStatusRanges { ranges: Vec::new() },
    }
}

fn line(t: &str) -> (OutputZone, String) {
    (OutputZone::Main, t.to_string())
}

/// The player (id me) at (2, 3) on a 10 by 10 walkable map, where two
/// apples lie.
fn plaza() -> GameWorld {
    let mut w = GameWorld::new(no_descs());
    let mut me = Person::new("me".to_string(), "玩家".to_string(), &w.person_descriptions);
    me.x = 2;
    me.y = 3;
    w.npc_manager.add_npc("me".to_string(), me, Vec::new());
    w.current_controlled_id = "me".to_string();
    let mut map = GameMap::new("beginMap".to_string(), 10, 10);
    for row in map.points.iter_mut() {
        for p in row.iter_mut() {
            p.walkable = true;
        }
    }
    map.points[3][2].objects.push("蘋果".to_string());
    map.points[3][2].objects.push("蘋果".to_string());
    w.add_map(map);
    w
}

fn add_merchant(w: &mut GameWorld) {
    let mut shop = Person::new("商人".to_string(), "".to_string(), &w.person_descriptions);
    shop.x = 2;
    shop.y = 3;
    shop.items.add_items("麵包", 5);
    w.npc_manager.add_npc("shop".to_string(), shop, Vec::new());
}

fn quest(id: &str, name: &str, status: QuestStatus) -> Quest {
    Quest {
        id: id.to_string(),
        name: name.to_string(),
        description: "測試".to_string(),
        prerequisites: vec![],
        conditions: vec![],
        rewards: vec![],
        status,
        giver: None,
        repeatable: false,
    }
}

#[test]
fn the_quest_list_shows_every_quest_with_its_state() {
    let mut w = plaza();
    assert_eq!(handle_quest_list(&w), vec![line("═══ 所有任務 ═══"), line("  （沒有任何任務）")]);
    w.quest_manager.add_quest(quest("a", "甲", QuestStatus::NotStarted));
    w.quest_manager.add_quest(quest("b", "乙", QuestStatus::InProgress));
    w.quest_manager.add_quest(quest("c", "丙", QuestStatus::Completed));
    let expected = vec![
        line("═══ 所有任務 ═══"),
        line("  [未開始]a - 甲"),
        line("  [進行中]b - 乙"),
        line("  [已完成]c - 丙"),
    ];
    assert_eq!(handle_quest_list(&w), expected);
    assert_eq!(execute_command(&mut w, "quest"), (true, expected));
}

#[test]
fn picking_up_everything_here() {
    let mut w = plaza();
    assert_eq!(handle_get_all(&mut w, "me"), vec![line("你撿起了 蘋果 x1"), line("你撿起了 蘋果 x1")]);
    assert!(w.get_current_map().unwrap().get_point(2, 3).unwrap().objects.is_empty());
    assert_eq!(w.npc_manager.get_npc("me").unwrap().items.get_item_count("蘋果"), 2);
    assert_eq!(execute_command(&mut w, "get"), (true, vec![line("這裡沒有物品")]));
    assert_eq!(
        handle_get_all(&mut w, "ghost"),
        vec![(OutputZone::Status, "找不到當前控制的角色".to_string())]
    );
}

#[test]
fn naming_and_looking_at_the_place() {
    let mut w = plaza();
    add_merchant(&mut w);
    assert_eq!(handle_namehere(&mut w, "me", "廣場"), vec![line("你將這裡命名為「廣場」")]);
    assert_eq!(w.get_current_map().unwrap().get_point(2, 3).unwrap().name, "廣場");
    let desc = w.get_current_map().unwrap().get_point(2, 3).unwrap().description.clone();
    let shop_desc = w.npc_manager.get_npc("shop").unwrap().description.clone();
    let out = handle_look_here(&w, "me");
    assert_eq!(out[0..5].to_vec(), vec![
        line("📍 beginMap"),
        line("【當前位置: (2, 3)】"),
        line(&format!("【{}】", desc)),
        line("此處是【廣場】"),
        line("🎁 此處物品:"),
    ]);
    assert!(out[5].1.starts_with("  • 蘋果") && out[5].1.ends_with(" x1"));
    assert!(out[6].1.starts_with("  • 蘋果") && out[6].1.ends_with(" x1"));
    assert_eq!(out[7..].to_vec(), vec![line("👥 此處的人物:"), line(&format!("  • 商人 - {}", shop_desc))]);
    assert_eq!(run_command(&mut w, CommandResult::Look(None)).1, out);
    assert_eq!(
        handle_look_here(&w, "ghost"),
        vec![(OutputZone::Status, "找不到當前控制的角色".to_string())]
    );
}

#[test]
fn opening_the_trade_view() {
    let mut w = plaza();
    assert_eq!(resolve_trade_npc(&w, ""), None);
    assert_eq!(handle_trade(&mut w, "nobody"), vec![(OutputZone::Status, "此處找不到 nobody".to_string())]);
    assert_eq!(w.interaction_state, InteractionState::NotInteracting);
    assert_eq!(render_trade(&w, ""), "（這裡沒有可以交易的對象。走到商人所在的格子再試試。）");
    add_merchant(&mut w);
    assert_eq!(resolve_trade_npc(&w, ""), Some("shop".to_string()));
    assert_eq!(resolve_trade_npc(&w, "shop"), Some("shop".to_string()));
    let out = handle_trade(&mut w, "shop");
    assert_eq!(w.interaction_state, InteractionState::Trading { npc_name: "shop".to_string() });
    assert_eq!(out.len(), 1);
    let text = &out[0].1;
    let lines: Vec<&str> = text.lines().collect();
    assert_eq!(lines[0], "🤝 與 商人 交易    你的金幣: 10000");
    assert_eq!(lines[1], "═════════════════════════");
    assert_eq!(lines[2], "【可購買】(名稱 / 庫存 / 買價)");
    let price = TradeSystem::calculate_buy_price("麵包", 1);
    assert!(lines[3].starts_with("  • 麵包") && lines[3].ends_with(&format!("  x5  {}金/個", price)));
    assert_eq!(lines[4], "─────────────────────────");
    assert_eq!(lines[5], "【可出售】(名稱 / 持有 / 賣價)");
    assert_eq!(lines[6], "  （你沒有可賣的東西）");
    assert_eq!(lines.len(), 7);
    assert_eq!(execute_command(&mut w, "trade shop").1.len(), 1);
}

#[test]
fn the_player_sells_at_the_selling_price() {
    let mut inv = Inventory::new();
    inv.add_items("麵包", 2);
    inv.add_items("金幣", 5);
    let sell = TradeSystem::get_player_items(&inv);
    assert_eq!(sell, vec![("麵包".to_string(), 2, TradeSystem::calculate_sell_price("麵包", 1))]);
}

#[test]
fn a_stat_boost_that_does_not_fit_is_refused() {
    let w = plaza();
    let mut p = Person::new("阿福".to_string(), "".to_string(), &w.person_descriptions);
    assert_eq!(try_boost_stat(&mut p, "STRENGTH", 5), Some(Vec::new()));
    assert_eq!(p.strength, 105);
    assert_eq!(try_boost_stat(&mut p, "strength", i32::MAX), None);
    assert_eq!(p.strength, 105);
    assert_eq!(
        try_boost_stat(&mut p, "luck", 1),
        Some(vec![(OutputZone::Log, "未知的屬性加成: luck".to_string())])
    );
}

#[test]
fn each_listed_quest_appears_once() {
    let mut w = plaza();
    w.quest_manager.add_quest(quest("a", "甲", QuestStatus::NotStarted));
    w.quest_manager.add_quest(quest("b", "乙", QuestStatus::InProgress));
    w.quest_manager.add_quest(quest("c", "丙", QuestStatus::NotStarted));
    w.quest_manager.add_quest(quest("a", "甲二", QuestStatus::NotStarted));
    let available: Vec<String> = w.quest_manager.get_available_quests().iter().map(|q| q.id.clone()).collect();
    assert_eq!(available, vec!["a".to_string(), "c".to_string()]);
    let active: Vec<String> = w.quest_manager.get_active_quests().iter().map(|q| q.id.clone()).collect();
    assert_eq!(active, vec!["b".to_string()]);
}
