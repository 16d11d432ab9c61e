use ratamud::inventory::Inventory;
use ratamud::npc_manager::NpcManager;
use ratamud::person::{
    parse_dialogue_conditions, AttributeRange, AttributeRanges, DialogueCondition, DialogueOption,
    HealthStatusRange, HealthStatusRanges, Person, PersonDescriptions,
};
use ratamud::time_updatable::TimeInfo;

fn no_descriptions() -> PersonDescriptions {
    PersonDescriptions {
        appearance: Vec::new(),
        strength: AttributeRanges { ranges: Vec::new() },
        build: AttributeRanges { ranges: Vec::new() },
        health_status: HealthStatusRanges { ranges: Vec::new() },
    }
}

fn some_descriptions() -> PersonDescriptions {
    PersonDescriptions {
        appearance: vec![("50".to_string(), "相貌平平的".to_string()), ("100".to_string(), "絕世的".to_string())],
        strength: AttributeRanges {
            ranges: vec![
                AttributeRange { min: 0, max: 50, description: "瘦弱的".to_string() },
                AttributeRange { min: 51, max: 1000, description: "強壯的".to_string() },
            ],
        },
        build: AttributeRanges { ranges: vec![AttributeRange { min: 0, max: 100, description: "勻稱".to_string() }] },
        health_status: HealthStatusRanges {
            ranges: vec![
                HealthStatusRange { hp_ratio: 200, description: "奄奄一息".to_string() },
                HealthStatusRange { hp_ratio: 700, description: "有點疲倦".to_string() },
            ],
        },
    }
}

#[test]
fn test_relationship_system() {
    let descs = no_descriptions();
    let mut person = Person::new("測試NPC".to_string(), "測試用NPC".to_string(), &descs);

    assert_eq!(person.relationship, 0);
    assert_eq!(person.dialogue_state, "初見");
    assert!(!person.met_player);
    assert_eq!(person.interaction_count, 0);

    person.change_relationship(50);
    assert_eq!(person.relationship, 50);
    assert_eq!(person.dialogue_state, "好友");

    person.change_relationship(30);
    assert_eq!(person.relationship, 80);
    assert_eq!(person.dialogue_state, "摯友");

    person.change_relationship(50);
    assert_eq!(person.relationship, 100);

    person.change_relationship(-150);
    assert_eq!(person.relationship, -50);
    assert_eq!(person.dialogue_state, "敵對");

    person.mark_met_player();
    assert!(person.met_player);
    assert_eq!(person.relationship, -45);

    person.mark_met_player();
    assert_eq!(person.relationship, -45);
}

#[test]
fn test_context_dialogue() {
    let descs = no_descriptions();
    let mut person = Person::new("商人".to_string(), "測試商人".to_string(), &descs);

    person.set_dialogue("對話:敵對".to_string(), "走開！".to_string());
    person.set_dialogue("對話:普通".to_string(), "你好".to_string());
    person.set_dialogue("對話:好友".to_string(), "嘿朋友！".to_string());
    person.set_dialogue("對話".to_string(), "預設對話".to_string());

    person.relationship = -50;
    person.change_relationship(0);
    assert_eq!(person.get_context_dialogue("對話"), Some("走開！".to_string()));

    person.change_relationship(60);
    assert_eq!(person.get_context_dialogue("對話"), Some("你好".to_string()));

    person.change_relationship(30);
    assert_eq!(person.get_context_dialogue("對話"), Some("嘿朋友！".to_string()));

    assert_eq!(person.get_context_dialogue("告別"), None);
}

#[test]
fn test_relationship_description() {
    let descs = no_descriptions();
    let mut person = Person::new("NPC".to_string(), "測試".to_string(), &descs);

    person.relationship = 80;
    assert!(person.get_relationship_description().contains("摯友"));

    person.relationship = 50;
    assert!(person.get_relationship_description().contains("好友"));

    person.relationship = 10;
    assert!(person.get_relationship_description().contains("普通"));

    person.relationship = -20;
    assert!(person.get_relationship_description().contains("冷淡"));

    person.relationship = -50;
    assert!(person.get_relationship_description().contains("敵對"));
}

#[test]
fn new_person_defaults_and_description() {
    let descs = some_descriptions();
    let p = Person::new("me".to_string(), "x".to_string(), &descs);
    assert_eq!(p.hp, 100000);
    assert_eq!(p.x, 50);
    assert_eq!(p.map, "beginMap");
    assert_eq!(p.status, "正常");
    assert_eq!(p.description, "一位相貌平平的，強壯的人，看起來健康的。");
    assert_eq!(p.skill_dialogues[0].1, "吃我一拳");
    assert_eq!(p.dialogues[0].0, "被叫住");
    assert_eq!(p.dialogues[0].1[0].text, "me 有什麼事嗎？");
    let q = Person::new("路人".to_string(), "x".to_string(), &no_descriptions());
    assert_eq!(q.description, "一位普通的，普通的人，看起來健康的。");
    assert_eq!(q.skill_dialogues[1].1, "別惹我");
}

#[test]
fn description_follows_gender_looks_and_health() {
    let descs = some_descriptions();
    let mut p = Person::new("甲".to_string(), "x".to_string(), &descs);
    p.set_gender("女".to_string(), &descs);
    assert_eq!(p.description, "一位相貌平平的，勻稱體格，強壯的女子，看起來健康的。");
    p.set_appearance(150, &descs);
    assert_eq!(p.appearance, 100);
    assert!(p.description.starts_with("一位絕世的"));
    p.set_hp(15000, &descs);
    assert!(p.description.ends_with("看起來奄奄一息。"));
    p.set_hp(60000, &descs);
    assert!(p.description.ends_with("看起來有點疲倦。"));
    p.set_strength(10, &descs);
    assert!(p.description.contains("瘦弱的女子"));
    p.set_talk_eagerness(200, &descs);
    assert_eq!(p.talk_eagerness, 100);
    assert_eq!(descs.get_health_status_description(1, 0), "未知");
}

#[test]
fn health_and_will_power() {
    let descs = no_descriptions();
    let mut p = Person::new("乙".to_string(), "x".to_string(), &descs);
    p.check_hp(-80000, &descs);
    assert_eq!(p.hp, 20000);
    assert_eq!(p.status, "感到疲憊");
    p.check_hp(-30000, &descs);
    assert_eq!(p.hp, 0);
    p.check_mp(-99960);
    assert_eq!(p.mp, 40);
    assert!(p.is_sleeping);
    p.move_to(3, 4, &descs);
    assert_eq!((p.x, p.y), (3, 4));
    assert_eq!(p.hp, 0);
}

#[test]
fn practising_and_cooling_skills() {
    let descs = no_descriptions();
    let mut p = Person::new("丙".to_string(), "x".to_string(), &descs);
    assert_eq!(p.practice_skill("punch", true), Some("你練習了 punch (熟練度 +2)".to_string()));
    assert_eq!(p.combat_skills[0].1.proficiency, 2);
    assert_eq!(p.get_skill_cooldown("punch"), 2);
    assert_eq!(p.practice_skill("punch", false), Some("你還沒準備好punch".to_string()));
    assert_eq!(p.practice_skill("fly", false), None);
    p.reduce_skill_cooldowns();
    p.reduce_skill_cooldowns();
    assert_eq!(p.get_skill_cooldown("punch"), 0);
    assert_eq!(p.practice_skill("punch", false), Some("你練習了 punch (熟練度 +1)".to_string()));
    assert_eq!(p.combat_skills[0].1.proficiency, 3);
    assert!(p.can_start_combat());
}

#[test]
fn conditions_on_a_person() {
    let descs = no_descriptions();
    let mut p = Person::new("丁".to_string(), "x".to_string(), &descs);
    p.add_items("麵包".to_string(), 3);
    p.add_item("水".to_string());
    let cs = parse_dialogue_conditions("hp>50,item:麵包>=3,物品數量=4,性別=");
    assert_eq!(cs.len(), 3);
    for c in &cs {
        assert!(c.evaluate(&p));
    }
    let unknown = DialogueCondition { attribute: "luck".to_string(), operator: "=".to_string(), value: "1".to_string() };
    assert!(!unknown.evaluate(&p));
    let o = DialogueOption::with_conditions("嗨".to_string(), cs);
    assert_eq!(o.get_effective_weight(&p), 1000);
    assert!(p.drop_items("麵包", 3).is_some());
    assert_eq!(o.get_effective_weight(&p), 0);
    assert_eq!(p.get_item_count("麵包"), 0);
    assert!(!p.remove_item("水", 2));
    assert!(p.remove_item("水", 1));
}

#[test]
fn weighted_lines_and_eagerness() {
    let descs = no_descriptions();
    let mut p = Person::new("戊".to_string(), "x".to_string(), &descs);
    let me = Person::new("me".to_string(), "x".to_string(), &descs);
    p.set_dialogue("問候".to_string(), "你好".to_string());
    assert_eq!(p.get_weighted_dialogue("問候", &me), Some("你好".to_string()));
    assert_eq!(p.get_weighted_dialogue("告別", &me), None);
    let locked = DialogueOption::with_conditions(
        "秘密".to_string(),
        parse_dialogue_conditions("hp<0"),
    );
    p.add_dialogue_option("秘密".to_string(), locked);
    assert_eq!(p.get_weighted_dialogue("秘密", &me), None);
    p.set_talk_eagerness(0, &descs);
    assert_eq!(p.try_talk("問候", &me), None);
    p.set_talk_eagerness(100, &descs);
    assert_eq!(p.try_talk("問候", &me), Some("你好".to_string()));
}

#[test]
fn a_clock_tick() {
    let descs = no_descriptions();
    let mut p = Person::new("己".to_string(), "x".to_string(), &descs);
    p.on_time_update(&TimeInfo::new(10, 0, 1), &descs);
    assert_eq!(p.age, 1);
    assert_eq!(p.hp, 99900);
    assert_eq!(p.last_hunger_hour, 10);
    assert_eq!(p.status, "");
    p.on_time_update(&TimeInfo::new(10, 1, 1), &descs);
    assert_eq!(p.hp, 99900);
    p.mp = 10;
    p.on_time_update(&TimeInfo::new(11, 0, 1), &descs);
    assert!(p.is_sleeping);
    assert_eq!(p.mp, 11);
    assert_eq!(p.hp, 99900);
}

#[test]
fn details_of_a_person() {
    let descs = no_descriptions();
    let mut p = Person::new("庚".to_string(), "描述".to_string(), &descs);
    p.description = "描述".to_string();
    p.dialogues.clear();
    p.talk_eagerness = 0;
    p.hp = 5;
    p.max_hp = 10;
    p.mp = 1234;
    p.max_mp = 7;
    let d = p.show_detail();
    let expected = " 庚 \n│ 描述\n│ 位置: (50, 50) @ beginMap\n│ 狀態: 正常\n│ HP:   5/10   力量: 100\n│ MP: 1234/7    知識: 100\n│ 年齡: 0秒   交誼: 100\n│ 性別:     顏值: 50\n└─────────────────────────\n";
    assert_eq!(d, expected);
    p.add_ability("劍術".to_string());
    p.add_items("木劍".to_string(), 2);
    p.met_player = true;
    p.interaction_count = 3;
    p.talk_eagerness = 40;
    let d = p.show_detail();
    assert!(d.contains("├─────────────────────────\n│ 關係: 普通 (0)\n│ 互動次數: 3\n"));
    assert!(d.contains("│ 持有物品:\n│  • 木劍 x2\n"));
    assert!(d.contains("│ 能力:\n│  • 劍術\n"));
    assert!(d.contains("│ 說話積極度: 40%\n"));
    p.set_dialogue("問候".to_string(), "一二三四五六七八九十一二三四五六七八九十一二三四五六七八九十一".to_string());
    let d = p.show_detail();
    assert!(d.contains("│ 對話 (積極度: 40%)\n│  [問候] 1 個選項\n│    1. 一二三四五六七八九十一二三四五六七八九十一二三四五六七八九十... (無條件)\n"));
}

#[test]
fn manager_adds_and_finds_people() {
    let descs = no_descriptions();
    let mut m = NpcManager::new();
    let merchant = Person::new("商人".to_string(), "x".to_string(), &descs);
    m.add_npc("Trader".to_string(), merchant, vec!["Shop".to_string()]);
    assert_eq!(m.count(), 1);
    assert_eq!(m.get_npc("shop").unwrap().name, "商人");
    assert_eq!(m.get_npc("TRADER").unwrap().name, "商人");
    assert_eq!(m.get_npc("商人").unwrap().get_item_count("金幣"), 10000);
    assert!(m.get_npc("nobody").is_none());
    let mut rich = Person::new("富翁".to_string(), "x".to_string(), &descs);
    rich.add_items("金幣".to_string(), 5);
    m.add_npc("rich".to_string(), rich, vec![]);
    assert_eq!(m.get_npc("rich").unwrap().get_item_count("金幣"), 5);
    assert_eq!(m.get_all_npc_ids(), vec!["Trader".to_string(), "rich".to_string()]);
    assert_eq!(m.get_all_npcs().len(), 2);
    m.get_npc_mut("shop").unwrap().x = 7;
    assert_eq!(m.get_npc("Trader").unwrap().x, 7);
    assert_eq!(m.get_npcs_at(7, 50).len(), 1);
    assert_eq!(m.get_npcs_at_in_map("beginMap", 50, 50)[0].name, "富翁");
    assert_eq!(m.get_npcs_at_in_map_excluding("beginMap", 50, 50, "rich").len(), 0);
    assert_eq!(m.get_npcs_with_ids_at_in_map("beginMap", 7, 50)[0].0, "Trader");
    assert!(m.get_me().is_none());
    assert_eq!(NpcManager::get_display_char("商人"), 'M');
    assert!(m.remove_npc_at("shop", 1, 1).is_none());
    let (id, p) = m.remove_npc_at("shop", 7, 50).unwrap();
    assert_eq!((id.as_str(), p.name.as_str()), ("Trader", "商人"));
    assert_eq!(m.remove_npc("rich").unwrap().name, "富翁");
    assert_eq!(m.count(), 0);
    assert!(m.remove_npc("rich").is_none());
}

#[test]
fn manager_tells_who_comes_and_goes() {
    let descs = no_descriptions();
    let mut m = NpcManager::new();
    m.add_npc("me".to_string(), Person::new("me".to_string(), "x".to_string(), &descs), vec![]);
    let mut guard = Person::new("守衛".to_string(), "x".to_string(), &descs);
    guard.x = 51;
    m.add_npc("guard".to_string(), guard, vec![]);
    assert!(m.update_proximity("me", 50, 50, "beginMap", false).is_empty());
    m.get_npc_mut("guard").unwrap().x = 50;
    let n = m.update_proximity("me", 50, 50, "beginMap", false);
    assert_eq!(n, vec![("guard".to_string(), "守衛 往這邊走來".to_string(), true)]);
    m.get_npc_mut("guard").unwrap().x = 51;
    let n = m.update_proximity("me", 50, 50, "beginMap", false);
    assert_eq!(n, vec![("guard".to_string(), "守衛 離開了".to_string(), false)]);
    let n = m.update_proximity("me", 51, 50, "beginMap", true);
    assert_eq!(n, vec![("guard".to_string(), "你看到這裡有 守衛".to_string(), true)]);
    m.update_all_time(&TimeInfo::new(12, 0, 1), &descs);
    assert_eq!(m.get_me().unwrap().age, 1);
    assert_eq!(m.get_npc("guard").unwrap().age, 1);
}

#[test]
fn inventory_totals() {
    let mut inv = Inventory::new();
    assert!(inv.is_empty());
    inv.add_items("a", 2);
    inv.add_items("b", 5);
    assert_eq!(inv.total(), 7);
    assert_eq!(inv.len(), 2);
    assert_eq!(inv.entry(1).1, 5);
    inv.set_count("a", 0);
    assert_eq!(inv.total(), 5);
    assert!(!inv.is_empty());
}
