use ratamud::command_executor::{
    handle_check_npc, handle_conquer, handle_dream, handle_eat, handle_flyto, handle_give, handle_list_npcs,
    handle_move, handle_name, handle_set, handle_sleep, handle_summon, handle_switch_control, handle_wakeup,
};
use ratamud::core_output::OutputZone;
use ratamud::map::GameMap;
use ratamud::person::{AttributeRanges, HealthStatusRanges, Person, PersonDescriptions};
use ratamud::world::{CombatState, GameWorld};

fn no_descriptions() -> PersonDescriptions {
    PersonDescriptions {
        appearance: Vec::new(),
        strength: AttributeRanges { ranges: Vec::new() },
        build: AttributeRanges { ranges: Vec::new() },
        health_status: HealthStatusRanges { ranges: Vec::new() },
    }
}

fn main(t: &str) -> (OutputZone, String) {
    (OutputZone::Main, t.to_string())
}

fn status(t: &str) -> (OutputZone, String) {
    (OutputZone::Status, t.to_string())
}

/// The player at (50, 50) and 阿福 (id fu) at (3, 4), on a 60 by 60 map
/// that is walkable everywhere.
fn town() -> GameWorld {
    let mut w = GameWorld::new(no_descriptions());
    let me = Person::new("me".to_string(), "玩家".to_string(), &w.person_descriptions);
    w.npc_manager.add_npc("me".to_string(), me, Vec::new());
    let mut fu = Person::new("阿福".to_string(), "店員".to_string(), &w.person_descriptions);
    fu.x = 3;
    fu.y = 4;
    w.npc_manager.add_npc("fu".to_string(), fu, Vec::new());
    let mut map = GameMap::new("beginMap".to_string(), 60, 60);
    for row in map.points.iter_mut() {
        for p in row.iter_mut() {
            p.walkable = true;
        }
    }
    w.add_map(map);
    w
}

#[test]
fn sleeping_and_dreaming() {
    let mut w = town();
    assert_eq!(handle_dream(&w, "me", None), vec![status("你需要先睡覺才能做夢！使用 sleep 指令進入睡眠")]);
    assert_eq!(handle_wakeup(&mut w, "me"), vec![status("你還沒睡覺呢！")]);
    assert_eq!(handle_sleep(&mut w, "me")[0], main("你進入了睡眠狀態..."));
    assert_eq!(handle_dream(&w, "me", None), vec![main("💭 一場美好的夢境...")]);
    assert_eq!(handle_dream(&w, "me", Some("飛翔".to_string())), vec![main("💭 飛翔")]);
    assert_eq!(handle_wakeup(&mut w, "me"), vec![main("你醒來了！")]);
    assert!(!w.npc_manager.get_npc("me").unwrap().is_sleeping);
    assert!(handle_sleep(&mut w, "ghost").is_empty());
}

#[test]
fn control_summon_and_rename() {
    let mut w = town();
    assert_eq!(handle_switch_control(&mut w, "nobody"), vec![status("找不到名為 nobody 的 NPC")]);
    assert_eq!(handle_summon(&mut w, "me", "fu"), vec![main("阿福 被召喚到了這裡")]);
    let fu = w.npc_manager.get_npc("fu").unwrap();
    assert_eq!((fu.x, fu.y), (50, 50));
    assert_eq!(handle_name(&mut w, "fu", "老福"), vec![main("你將 阿福 重命名為 老福")]);
    assert_eq!(handle_name(&mut w, "nobody", "x"), vec![status("找不到 nobody")]);
    assert_eq!(handle_switch_control(&mut w, "fu"), vec![main("現在控制 fu")]);
    assert_eq!(w.current_controlled_id, "fu");
}

#[test]
fn listing_and_checking_people() {
    let w = town();
    assert_eq!(
        handle_list_npcs(&w),
        vec![
            main("=== 所有 NPC ==="),
            main("  me 在 (50, 50) - HP:100000/100000"),
            main("  阿福 在 (3, 4) - HP:100000/100000"),
        ]
    );
    let out = handle_check_npc(&w, "阿福");
    assert_eq!(out[0], main("=== 阿福 ==="));
    assert_eq!(out[1], main("位置: (3, 4)"));
    assert_eq!(out[3], main("力量: 100"));
    assert_eq!(out[6], main("\n物品:"));
    assert_eq!(out[7], main("  金幣 x10000"));
    assert_eq!(handle_check_npc(&w, "nobody"), vec![status("找不到名為 nobody 的 NPC")]);
}

#[test]
fn eating_and_giving() {
    let mut w = town();
    assert_eq!(handle_eat(&mut w, "me", "apple"), vec![status("你沒有 apple")]);
    {
        let me = w.npc_manager.get_npc_mut("me").unwrap();
        me.hp = 1000;
        me.add_items("蘋果".to_string(), 2);
    }
    assert_eq!(handle_eat(&mut w, "me", "apple"), vec![main("你吃了 蘋果，回復了 50 HP"), status("HP: 1050/100000")]);
    assert_eq!(handle_give(&mut w, "me", "fu", "蘋果", 5), vec![main("你給了 fu 蘋果 x1")]);
    assert!(!w.npc_manager.get_npc("me").unwrap().items.contains("蘋果"));
    assert_eq!(w.npc_manager.get_npc("fu").unwrap().items.get_item_count("蘋果"), 1);
    assert_eq!(handle_give(&mut w, "me", "fu", "蘋果", 1), vec![status("你沒有 蘋果")]);
}

#[test]
fn setting_attributes() {
    let mut w = town();
    assert_eq!(handle_set(&mut w, "me", "ME", "STR", 7), vec![main("me 的力量設置為 7")]);
    assert_eq!(w.npc_manager.get_npc("me").unwrap().strength, 7);
    assert_eq!(handle_set(&mut w, "me", "fu", "gold", -5), vec![main("阿福 的金幣設置為 0")]);
    assert_eq!(w.npc_manager.get_npc("fu").unwrap().items.get_item_count("金幣"), 0);
    assert_eq!(handle_set(&mut w, "me", "fu", "luck", 1), vec![status("未知屬性: luck")]);
    assert_eq!(handle_set(&mut w, "me", "ghost", "hp", 1), vec![status("找不到 ghost")]);
    assert_eq!(handle_set(&mut w, "me", "Item", "蘋果", -3), vec![main("物品「蘋果」的價格設置為 0 金幣")]);
}

#[test]
fn opening_ways_and_walking() {
    let mut w = town();
    w.get_current_map_mut().unwrap().points[50][51].walkable = false;
    assert_eq!(handle_move(&mut w, "me", 1, 0), vec![status("前方是牆壁，無法通過")]);
    assert_eq!(handle_conquer(&mut w, "me", "sideways"), vec![status("無效的方向")]);
    assert_eq!(handle_conquer(&mut w, "me", "east"), vec![main("你征服了 east 方向，現在可以通行了")]);
    assert!(w.get_current_map().unwrap().points[50][51].walkable);
    let out = handle_move(&mut w, "me", 1, 0);
    assert_eq!(out[0], main("你向東移動到 (51, 50)"));
    assert_eq!(w.npc_manager.get_npc("me").unwrap().x, 51);
    w.combat_state = CombatState::InCombat { participants: vec!["me".to_string()], round: 1 };
    assert_eq!(handle_move(&mut w, "me", 0, 1), vec![main("戰鬥中無法移動！")]);
}

#[test]
fn teleporting() {
    let mut w = town();
    assert_eq!(handle_flyto(&mut w, "me", " (7, 8) "), vec![main("你傳送到了 (7, 8)")]);
    let me = w.npc_manager.get_npc("me").unwrap();
    assert_eq!((me.x, me.y), (7, 8));
    assert_eq!(handle_flyto(&mut w, "me", "beginMap"), vec![main("你傳送到了地圖 beginMap")]);
    assert_eq!(handle_flyto(&mut w, "me", "moon"), vec![status("無法傳送到 moon")]);
}
