use ratamud::command_executor::{
    execute_command, handle_create, handle_destroy, handle_drop, handle_get_item, handle_help, handle_look_npc, run_command,
};
use ratamud::command_handler::{parse_command, CommandResult};
use ratamud::command_interact::execute_trade;
use ratamud::trade::TradeSystem;
use ratamud::world_panel::{npc_spots, render_world_map, render_world_minimap};
use ratamud::core_output::OutputZone;
use ratamud::map::GameMap;
use ratamud::person::{AttributeRanges, HealthStatusRanges, Person, PersonDescriptions};
use ratamud::world::GameWorld;

fn no_descriptions() -> PersonDescriptions {
    PersonDescriptions {
        appearance: Vec::new(),
        strength: AttributeRanges { ranges: Vec::new() },
        build: AttributeRanges { ranges: Vec::new() },
        health_status: HealthStatusRanges { ranges: Vec::new() },
    }
}

fn main(t: &str) -> (OutputZone, String) {
    (OutputZone::Main, t.to_string())
}

fn status(t: &str) -> (OutputZone, String) {
    (OutputZone::Status, t.to_string())
}

/// The player (id me) at (2, 3) on a 10 by 10 walkable map, where two
/// apples lie.
fn field() -> GameWorld {
    let mut w = GameWorld::new(no_descriptions());
    let mut me = Person::new("me".to_string(), "玩家".to_string(), &w.person_descriptions);
    me.x = 2;
    me.y = 3;
    w.npc_manager.add_npc("me".to_string(), me, Vec::new());
    w.current_controlled_id = "me".to_string();
    let mut map = GameMap::new("beginMap".to_string(), 10, 10);
    for row in map.points.iter_mut() {
        for p in row.iter_mut() {
            p.walkable = true;
        }
    }
    map.points[3][2].objects.push("蘋果".to_string());
    map.points[3][2].objects.push("蘋果".to_string());
    w.add_map(map);
    w
}

fn apples_here(w: &GameWorld) -> usize {
    w.get_current_map().unwrap().get_point(2, 3).unwrap().objects.iter().filter(|o| o.as_str() == "蘋果").count()
}

fn apples_carried(w: &GameWorld) -> u32 {
    w.npc_manager.get_npc("me").unwrap().items.get_item_count("蘋果")
}

#[test]
fn exit_ends_the_game() {
    let mut w = field();
    assert_eq!(execute_command(&mut w, "exit"), (false, vec![main("再見！")]));
    assert_eq!(execute_command(&mut w, "quit"), (false, vec![main("再見！")]));
}

#[test]
fn simple_commands_answer_directly() {
    let mut w = field();
    assert_eq!(execute_command(&mut w, "clear"), (true, vec![main("\n\n\n清除輸出\n\n\n")]));
    let (go_on, out) = execute_command(&mut w, "help");
    assert!(go_on);
    assert_eq!(out, handle_help());
    assert_eq!(out[0], main("=== RataMUD 指令說明 ==="));
    assert!(out.len() > 10);
    assert_eq!(
        run_command(&mut w, CommandResult::Output("你好".to_string())),
        (true, vec![main("你好")])
    );
    assert_eq!(
        run_command(&mut w, CommandResult::AddToSide("旁注".to_string())),
        (true, vec![(OutputZone::Side, "旁注".to_string())])
    );
    assert_eq!(
        run_command(&mut w, CommandResult::ToggleTypewriter),
        (true, vec![(OutputZone::Log, "此命令僅在終端 UI 模式可用".to_string())])
    );
}

#[test]
fn a_bad_line_is_answered_with_its_error() {
    let mut w = field();
    let expected = match parse_command("drop") {
        CommandResult::Error(e) => format!("錯誤: {}", e),
        _ => panic!("drop without an item is an error"),
    };
    assert_eq!(execute_command(&mut w, "drop"), (true, vec![status(&expected)]));
    assert_eq!(expected, "錯誤: Usage: drop <item name> [quantity]");
}

#[test]
fn picking_up_and_putting_down() {
    let mut w = field();
    assert_eq!(handle_get_item(&mut w, "me", "蘋果", 1), vec![main("你撿起了 蘋果 x1")]);
    assert_eq!(apples_here(&w), 1);
    assert_eq!(apples_carried(&w), 1);
    // asking for more than lies there takes what there is
    assert_eq!(handle_get_item(&mut w, "me", "蘋果", 5), vec![main("你撿起了 蘋果 x1")]);
    assert_eq!(apples_here(&w), 0);
    assert_eq!(apples_carried(&w), 2);
    assert_eq!(handle_get_item(&mut w, "me", "蘋果", 1), vec![status("這裡沒有 蘋果")]);
    assert_eq!(handle_get_item(&mut w, "ghost", "蘋果", 1), vec![status("找不到當前控制的角色")]);
    // dropping more than one carries drops what there is
    assert_eq!(handle_drop(&mut w, "me", "蘋果", 9), vec![main("你放下了 蘋果 x2")]);
    assert_eq!(apples_here(&w), 2);
    assert_eq!(apples_carried(&w), 0);
    assert_eq!(handle_drop(&mut w, "me", "蘋果", 1), vec![status("你沒有 蘋果")]);
}

#[test]
fn commands_reach_their_handlers() {
    let mut w = field();
    assert_eq!(execute_command(&mut w, "get 蘋果 2"), (true, vec![main("你撿起了 蘋果 x2")]));
    assert_eq!(apples_carried(&w), 2);
    assert_eq!(execute_command(&mut w, "drop 蘋果"), (true, vec![main("你放下了 蘋果 x1")]));
    assert_eq!(apples_here(&w), 1);
    let (go_on, out) = execute_command(&mut w, "sleep");
    assert!(go_on);
    assert_eq!(out[0], main("你進入了睡眠狀態..."));
    assert!(w.npc_manager.get_npc("me").unwrap().is_sleeping);
    assert_eq!(execute_command(&mut w, "wakeup"), (true, vec![main("你醒來了！")]));
    let (_, out) = execute_command(&mut w, "right");
    assert_eq!(out[0], main("你向東移動到 (3, 3)"));
    assert_eq!(w.npc_manager.get_npc("me").unwrap().x, 3);
}

#[test]
fn looking_around_changes_nothing() {
    let mut w = field();
    let (go_on, out) = execute_command(&mut w, "look");
    assert!(go_on);
    assert_eq!(out[0], main("📍 beginMap"));
    assert_eq!(out[1], main("【當前位置: (2, 3)】"));
    assert_eq!(out.len(), 6);
    assert_eq!(apples_here(&w), 2);
}

#[test]
fn destroying_takes_a_person_or_a_thing_away() {
    let mut w = field();
    let fu = Person::new("阿福".to_string(), "店員".to_string(), &w.person_descriptions);
    w.npc_manager.add_npc("fu".to_string(), fu, Vec::new());
    assert_eq!(handle_destroy(&mut w, "me", "fu"), vec![main("你刪除了 NPC fu")]);
    assert!(w.npc_manager.get_npc("fu").is_none());
    assert_eq!(handle_destroy(&mut w, "me", "蘋果"), vec![main("你刪除了物品 蘋果")]);
    assert_eq!(apples_here(&w), 1);
    assert_eq!(handle_destroy(&mut w, "me", "石頭"), vec![status("找不到 石頭")]);
    assert_eq!(apples_here(&w), 1);
    assert_eq!(handle_destroy(&mut w, "ghost", "蘋果"), vec![status("找不到當前控制的角色")]);
}

#[test]
fn creating_a_person_or_a_thing_here() {
    let mut w = field();
    assert_eq!(handle_create(&mut w, "me", "item", "蘋果", None), vec![main("你創建了物品「蘋果」")]);
    assert_eq!(apples_here(&w), 3);
    assert_eq!(
        handle_create(&mut w, "me", "npc", "商人", Some("老王".to_string())),
        vec![main("你創建了 NPC「老王」")]
    );
    let wang = w.npc_manager.get_npc("老王").unwrap();
    assert_eq!((wang.x, wang.y), (2, 3));
    assert_eq!(wang.items.get_item_count("金幣"), 10000);
    assert_eq!(handle_create(&mut w, "me", "npc", "商人", None), vec![main("你創建了 NPC「商人」")]);
    assert!(w.npc_manager.get_npc("商人").is_some());
    assert_eq!(
        handle_create(&mut w, "me", "house", "木屋", None),
        vec![status("未知類型: house，請使用 item 或 npc")]
    );
    assert_eq!(handle_create(&mut w, "ghost", "item", "蘋果", None), vec![status("找不到當前控制的角色")]);
}

#[test]
fn create_and_destroy_through_the_command_line() {
    let mut w = field();
    let (_, out) = execute_command(&mut w, "destroy 蘋果");
    assert_eq!(out, vec![main("你刪除了物品 蘋果")]);
    assert_eq!(apples_here(&w), 1);
}

#[test]
fn trading_with_a_merchant() {
    let mut w = field();
    let mut shop = Person::new("商人".to_string(), "".to_string(), &w.person_descriptions);
    shop.items.add_items("麵包", 5);
    w.npc_manager.add_npc("shop".to_string(), shop, Vec::new());
    assert_eq!(execute_trade(&mut w, "shop", "麵包", 0, true), (false, vec![status("數量必須大於 0")]));
    assert_eq!(execute_trade(&mut w, "nobody", "麵包", 1, true), (false, vec![status("這裡沒有可以交易的對象")]));
    assert_eq!(execute_trade(&mut w, "me", "麵包", 1, true), (false, vec![status("這裡沒有可以交易的對象")]));
    let price = TradeSystem::calculate_buy_price("麵包", 2);
    assert_eq!(
        execute_trade(&mut w, "shop", "麵包", 2, true),
        (true, vec![main(&format!("你花費 {} 金幣從 商人 購買了 麵包 x2", price))])
    );
    let me = w.npc_manager.get_npc("me").unwrap();
    assert_eq!(me.items.get_item_count("麵包"), 2);
    assert_eq!(me.items.get_item_count("金幣"), 10000 - price);
    assert_eq!(w.npc_manager.get_npc("shop").unwrap().items.get_item_count("麵包"), 3);
    let sale = TradeSystem::calculate_sell_price("麵包", 1);
    assert_eq!(
        execute_command(&mut w, "sell shop 麵包 1"),
        (true, vec![main(&format!("你以 {} 金幣向 商人 出售了 麵包 x1", sale))])
    );
    assert_eq!(w.npc_manager.get_npc("me").unwrap().items.get_item_count("麵包"), 1);
    assert_eq!(
        execute_command(&mut w, "buy shop 麵包 99"),
        (true, vec![status("商人 沒有足夠的 麵包（只有 4）")])
    );
}

#[test]
fn the_map_panels_go_to_the_side() {
    let mut w = field();
    let mut shop = Person::new("商人".to_string(), "".to_string(), &w.person_descriptions);
    shop.x = 3;
    shop.y = 3;
    w.npc_manager.add_npc("shop".to_string(), shop, Vec::new());
    let spots = npc_spots(&w);
    assert_eq!(spots, vec![(3, 3, 'M')]);
    let (go_on, out) = run_command(&mut w, CommandResult::ShowMap);
    assert!(go_on);
    assert_eq!(out.len(), 1);
    assert_eq!(out[0].0, OutputZone::Side);
    let text = &out[0].1;
    assert_eq!(text, &render_world_map(&w));
    let lines: Vec<&str> = text.lines().collect();
    assert_eq!(lines[0], "▣ 地圖 — beginMap [10x10] 你在 (2, 3)");
    // the whole 10 by 10 map shows; the apples lie under the player
    assert_eq!(lines.len(), 12);
    assert_eq!(lines[4], "..@M......");
    assert_eq!(lines[1], "..........");
    assert_eq!(lines[11], "圖例: @你 M商人 N居民 i物品 .可走 #牆 ?界外");
    let (_, out) = run_command(&mut w, CommandResult::ShowMinimap);
    assert!(out[0].1.starts_with("⊕ 小地圖 — beginMap [10x10] 你在 (2, 3)\n"));
    assert_eq!(out[0].1, render_world_minimap(&w));
}

#[test]
fn looking_at_someone() {
    let mut w = field();
    let mut shop = Person::new("商人".to_string(), "".to_string(), &w.person_descriptions);
    shop.x = 3;
    shop.y = 3;
    shop.items.add_items("麵包", 5);
    w.npc_manager.add_npc("shop".to_string(), shop, Vec::new());
    let desc = w.npc_manager.get_npc("shop").unwrap().description.clone();
    let (go_on, out) = execute_command(&mut w, "look shop");
    assert!(go_on);
    assert_eq!(out[0..6].to_vec(), vec![
        main("👤 商人"),
        main("════════════════════"),
        main(&format!("📝 {}", desc)),
        main("📍 位置: (3, 3)"),
        main("💫 狀態: 正常"),
        main("🎒 攜帶物品:"),
    ]);
    assert_eq!(out.len(), 8);
    assert!(out[6].1.starts_with("  • 麵包") && out[6].1.ends_with(" x5"));
    assert!(out[7].1.starts_with("  • 金幣") && out[7].1.ends_with(" x10000"));
    assert_eq!(
        handle_look_npc(&w, "nobody"),
        vec![status("找不到 NPC: nobody")]
    );
}
