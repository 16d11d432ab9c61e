use ratamud::combat::{check_combat_end, execute_attack, execute_combat_round, handle_combat_skill, handle_escape};
use ratamud::core_output::OutputZone;
use ratamud::person::{AttributeRanges, HealthStatusRanges, Person, PersonDescriptions};
use ratamud::world::{CombatState, GameWorld};

fn no_descriptions() -> PersonDescriptions {
    PersonDescriptions {
        appearance: Vec::new(),
        strength: AttributeRanges { ranges: Vec::new() },
        build: AttributeRanges { ranges: Vec::new() },
        health_status: HealthStatusRanges { ranges: Vec::new() },
    }
}

/// A world with the player at (50, 50) and 阿強 (id npc1) next to them.
fn arena() -> GameWorld {
    let mut w = GameWorld::new(no_descriptions());
    let me = Person::new("me".to_string(), "玩家".to_string(), &w.person_descriptions);
    w.npc_manager.add_npc("me".to_string(), me, Vec::new());
    let mut npc = Person::new("阿強".to_string(), "路人".to_string(), &w.person_descriptions);
    npc.x = 51;
    w.npc_manager.add_npc("npc1".to_string(), npc, vec!["qiang".to_string()]);
    w
}

fn main_lines(out: &[(OutputZone, String)]) -> Vec<String> {
    out.iter().map(|(z, t)| {
        assert_eq!(*z, OutputZone::Main);
        t.clone()
    }).collect()
}

#[test]
fn escaping_outside_a_fight() {
    let mut w = arena();
    let out = handle_escape(&mut w);
    assert_eq!(main_lines(&out), vec!["你不在戰鬥中".to_string()]);
    assert!(w.combat_state.is_not_in_combat());
}

#[test]
fn targets_that_cannot_be_fought() {
    let mut w = arena();
    let out = handle_combat_skill(&mut w, "punch", Some("nobody".to_string()));
    assert_eq!(main_lines(&out), vec!["找不到 nobody".to_string()]);

    w.npc_manager.get_npc_mut("npc1").unwrap().x = 53;
    let out = handle_combat_skill(&mut w, "punch", Some("qiang".to_string()));
    assert_eq!(main_lines(&out), vec!["阿強 距離太遠".to_string()]);

    w.npc_manager.get_npc_mut("npc1").unwrap().x = 51;
    w.npc_manager.get_npc_mut("npc1").unwrap().hp = 100;
    let out = handle_combat_skill(&mut w, "punch", Some("npc1".to_string()));
    assert_eq!(main_lines(&out), vec!["阿強 沒力氣跟你打".to_string()]);
    assert!(w.combat_state.is_not_in_combat());
}

#[test]
fn a_worn_player_does_not_start_a_fight() {
    let mut w = arena();
    w.npc_manager.get_npc_mut("me").unwrap().hp = 49_999;
    let out = handle_combat_skill(&mut w, "kick", Some("npc1".to_string()));
    assert_eq!(main_lines(&out), vec!["你沒力氣戰鬥".to_string()]);
    assert!(w.combat_state.is_not_in_combat());
}

#[test]
fn practising_without_a_target() {
    let mut w = arena();
    let out = handle_combat_skill(&mut w, "punch", None);
    assert_eq!(main_lines(&out), vec!["你練習了 punch (熟練度 +1)".to_string()]);
    let me = w.npc_manager.get_npc("me").unwrap();
    assert_eq!(me.combat_skills[0].1.proficiency, 1);
    assert_eq!(me.combat_skills[0].1.current_cooldown, 2);
    let out = handle_combat_skill(&mut w, "punch", None);
    assert_eq!(main_lines(&out), vec!["你還沒準備好punch".to_string()]);
    let out = handle_combat_skill(&mut w, "fly", None);
    assert_eq!(main_lines(&out), vec!["未知技能: fly".to_string()]);
    assert!(w.combat_state.is_not_in_combat());
}

#[test]
fn starting_a_fight_and_escaping() {
    let mut w = arena();
    let out = handle_combat_skill(&mut w, "punch", Some("npc1".to_string()));
    let lines = main_lines(&out);
    assert_eq!(lines[0], "⚔️  戰鬥開始！你 vs npc1");
    assert_eq!(lines[1], "💥 me 說：「吃我一拳」造成 2 點傷害！阿強 剩餘 HP: 99998/100000");
    match &w.combat_state {
        CombatState::InCombat { participants, round } => {
            assert_eq!(participants, &vec!["me".to_string(), "npc1".to_string()]);
            assert_eq!(*round, 2);
        }
        CombatState::NotInCombat => panic!("the fight should go on"),
    }
    let me = w.npc_manager.get_npc("me").unwrap();
    assert_eq!(me.combat_skills[0].1.proficiency, 2);
    assert_eq!(me.combat_skills[0].1.current_cooldown, 1);
    assert!(me.hp >= 99_997);
    assert_eq!(w.npc_manager.get_npc("npc1").unwrap().hp, 99_998);

    let out = handle_combat_skill(&mut w, "punch", None);
    assert_eq!(main_lines(&out)[0], "你還沒準備好 punch");

    let out = handle_escape(&mut w);
    assert_eq!(
        main_lines(&out),
        vec!["逃跑獲得 1 點戰鬥經驗".to_string(), "你逃離了戰鬥！".to_string()]
    );
    assert!(w.combat_state.is_not_in_combat());
    assert!(w.npc_manager.get_npc("me").unwrap().combat_exp >= 1);
    assert!(w.npc_manager.get_npc("npc1").unwrap().combat_exp >= 1);
}

#[test]
fn a_fight_ends_when_someone_is_worn() {
    let mut w = arena();
    w.combat_state = CombatState::InCombat { participants: vec!["me".to_string(), "npc1".to_string()], round: 3 };
    assert!(check_combat_end(&mut w).is_empty());
    w.npc_manager.get_npc_mut("npc1").unwrap().hp = 50_000;
    assert!(check_combat_end(&mut w).is_empty());
    assert!(!w.combat_state.is_not_in_combat());
    w.npc_manager.get_npc_mut("npc1").unwrap().hp = 49_999;
    let out = check_combat_end(&mut w);
    assert_eq!(
        main_lines(&out),
        vec![
            "阿強 的HP低於50%，戰鬥結束！".to_string(),
            "⚔️  戰鬥結束！".to_string(),
            "你的 HP: 100000/100000".to_string(),
            "阿強 的 HP: 49999/100000".to_string(),
            "獲得 6 點戰鬥經驗！".to_string(),
        ]
    );
    assert!(w.combat_state.is_not_in_combat());
    assert_eq!(w.npc_manager.get_npc("me").unwrap().combat_exp, 6);
    assert_eq!(w.npc_manager.get_npc("npc1").unwrap().combat_exp, 6);
}

#[test]
fn an_attack_outside_the_list_of_moves() {
    let mut w = arena();
    w.combat_state = CombatState::InCombat { participants: vec!["me".to_string(), "npc1".to_string()], round: 1 };
    let out = execute_attack(&mut w, "headbutt", "npc1", "me");
    assert_eq!(main_lines(&out), vec!["💥 阿強 說：「」造成 1 點傷害！你 剩餘 HP: 99999/100000".to_string()]);
    assert_eq!(w.npc_manager.get_npc("me").unwrap().hp, 99_999);
    assert!(execute_attack(&mut w, "punch", "ghost", "me").is_empty());
}

#[test]
fn a_round_outside_a_fight() {
    let mut w = arena();
    let (ran, out) = execute_combat_round(&mut w);
    assert!(!ran);
    assert!(out.is_empty());
}

#[test]
fn a_long_fight_gives_experience_up_to_what_an_i32_holds() {
    let mut w = arena();
    w.combat_state = CombatState::InCombat { participants: vec!["me".to_string(), "npc1".to_string()], round: 1_000_000_000 };
    w.npc_manager.get_npc_mut("npc1").unwrap().hp = 1;
    let out = check_combat_end(&mut w);
    assert_eq!(main_lines(&out).last().unwrap(), "獲得 2000000000 點戰鬥經驗！");
    assert_eq!(w.npc_manager.get_npc("me").unwrap().combat_exp, 2_000_000_000);
    assert_eq!(w.npc_manager.get_npc("npc1").unwrap().combat_exp, 2_000_000_000);
}
