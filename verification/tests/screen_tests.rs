use ratamud::input::{InputHandler, Key, KeyOutcome};
use ratamud::map::{GameMap, MapType};
use ratamud::minimap::{is_merchant_name, minimap_lines, NpcSpot};
use ratamud::output::OutputManager;
use ratamud::person::{
    can_start_combat, check_hp, check_mp, dialogue_state_for, gender_word, relationship_after,
    relationship_description,
};

#[test]
fn typing_a_line() {
    let mut h = InputHandler::new();
    assert!(matches!(h.key_to_command_string(Key::Enter), KeyOutcome::Nothing));
    h.key_to_command_string(Key::Char('l'));
    h.key_to_command_string(Key::Char('o'));
    h.key_to_command_string(Key::Char('x'));
    h.key_to_command_string(Key::Backspace);
    h.key_to_command_string(Key::Char('k'));
    assert_eq!(h.get_input(), "lok");
    match h.key_to_command_string(Key::Enter) {
        KeyOutcome::Command(c) => assert_eq!(c, "lok"),
        other => panic!("{:?}", other),
    }
    assert_eq!(h.get_input(), "");
    h.key_to_command_string(Key::Backspace);
    assert_eq!(h.get_input(), "");
    match h.key_to_command_string(Key::Left) {
        KeyOutcome::Command(c) => assert_eq!(c, "left"),
        other => panic!("{:?}", other),
    }
    assert!(matches!(h.key_to_command_string(Key::Esc), KeyOutcome::ToggleMenu));
    assert!(matches!(h.key_to_command_string(Key::PageUp), KeyOutcome::Nothing));
}

#[test]
fn screen_keys() {
    let mut o = OutputManager::new();
    for i in 0..30 {
        o.print(format!("{}", i));
    }
    o.apply_screen_key(Key::PageUp, false, None);
    assert_eq!(o.get_status(), "向上捲動訊息");
    assert_eq!(o.visible_messages(5)[0], "24");
    o.apply_screen_key(Key::Down, true, None);
    assert_eq!(o.get_status(), "向下捲動訊息");
    assert_eq!(o.visible_messages(5)[0], "10");
    o.apply_screen_key(Key::F(1), false, None);
    assert!(o.is_side_panel_open());
    o.show_map(50, 50);
    o.apply_screen_key(Key::Right, false, Some((100, 100)));
    assert_eq!(o.map_offset(), (35, 40));
    o.apply_screen_key(Key::Up, false, None);
    assert_eq!(o.map_offset(), (35, 40));
    o.apply_screen_key(Key::Char('q'), false, None);
    assert!(!o.is_map_open());
    assert_eq!(o.get_status(), "大地圖已關閉");
}

#[test]
fn merchants_by_name() {
    assert!(is_merchant_name("村口商人"));
    assert!(is_merchant_name("Old MERCHANT Joe"));
    assert!(!is_merchant_name("農夫"));
}

#[test]
fn minimap_of_a_corner() {
    let mut m = GameMap::new_with_type("m".to_string(), 3, 3, MapType::Normal);
    for y in 0..3 {
        for x in 0..3 {
            let p = m.get_point_mut(x, y).unwrap();
            p.walkable = !(x == 1 && y == 1);
            p.description = format!("{}{}", x, y);
        }
    }
    m.get_point_mut(2, 2).unwrap().add_object("石子".to_string());
    let npcs = vec![NpcSpot { x: 1, y: 0, merchant: true }, NpcSpot { x: 0, y: 2, merchant: false }];
    let lines = minimap_lines(&m, 0, 0, &npcs);
    assert_eq!(lines.len(), 16);
    assert_eq!(lines[0], "【位置: (0, 0)】");
    assert_eq!(lines[1], "↑ (邊界)");
    assert_eq!(lines[2], "↓ 01 ✓");
    assert_eq!(lines[3], "← (邊界)");
    assert_eq!(lines[4], "→ 10 ✓");
    assert_eq!(lines[5], "────────────────────────────────────────");
    let row0 = &lines[6 + 5];
    let row: Vec<char> = row0.chars().collect();
    assert_eq!(row.len(), 40);
    assert_eq!(row[20], 'P');
    assert_eq!(row[21], 'M');
    assert_eq!(row[22], '·');
    assert_eq!(row[19], ' ');
    let row2: Vec<char> = lines[6 + 7].chars().collect();
    assert_eq!(row2[20], 'N');
    assert_eq!(row2[22], 'I');
    let row1: Vec<char> = lines[6 + 6].chars().collect();
    assert_eq!(row1[21], '▓');
    assert!(lines[6].chars().all(|c| c == ' '));
}

#[test]
fn person_rules() {
    assert_eq!(relationship_after(90, 30), 100);
    assert_eq!(relationship_after(-90, -30), -100);
    assert_eq!(relationship_after(10, 5), 15);
    assert_eq!(dialogue_state_for(70), "摯友");
    assert_eq!(dialogue_state_for(30), "好友");
    assert_eq!(dialogue_state_for(0), "普通");
    assert_eq!(dialogue_state_for(-30), "冷淡");
    assert_eq!(dialogue_state_for(-31), "敵對");
    assert_eq!(relationship_description(-45), "敵對 (-45)");
    assert_eq!(relationship_description(80), "摯友 (80)");
    assert_eq!(check_hp(100, 100, -1), (99, "正常"));
    assert_eq!(check_hp(30, 100, -10), (20, "感到疲憊"));
    assert_eq!(check_hp(60, 100, -20), (40, "精疲力盡"));
    assert_eq!(check_hp(5, 100, -10), (0, "感到疲憊"));
    assert_eq!(check_hp(90, 100, 50), (100, "正常"));
    assert_eq!(check_mp(100, -60), (40, true));
    assert_eq!(check_mp(10, -60), (0, true));
    assert_eq!(check_mp(100, 1), (101, false));
    assert!(can_start_combat(50, 100));
    assert!(!can_start_combat(49, 100));
    assert!(can_start_combat(-1, -3));
    assert_eq!(gender_word("female"), "女子");
    assert_eq!(gender_word("男性"), "男子");
    assert_eq!(gender_word("未知"), "人");
}
