use ratamud::npc_action::{
    CombatStrategy, Direction, HealingStrategy, InteractingStrategy, NpcAction, NpcAiStrategy,
    NpcAiStrategyComposer, PartyStrategy, RandomBehaviorStrategy, Strategy,
};
use ratamud::npc_ai::NpcAiController;
use ratamud::npc_view::{ItemInfo, NpcView, Position};

#[test]
fn directions_and_deltas() {
    assert_eq!(Direction::Up.to_delta(), (0, -1));
    assert_eq!(Direction::Right.to_delta(), (1, 0));
    assert_eq!(Direction::from_delta(0, 1), Some(Direction::Down));
    assert_eq!(Direction::from_delta(-1, 0), Some(Direction::Left));
    assert_eq!(Direction::from_delta(1, 1), None);
    for d in [Direction::Up, Direction::Down, Direction::Left, Direction::Right] {
        let (dx, dy) = d.to_delta();
        assert_eq!(Direction::from_delta(dx, dy), Some(d));
    }
}

#[test]
fn action_descriptions() {
    assert_eq!(NpcAction::Say("你好".to_string()).describe(), "說: 你好");
    assert_eq!(NpcAction::Move(Direction::Left).describe(), "移動: Left");
    assert_eq!(
        NpcAction::PickupItem { item_name: "蘋果".to_string(), quantity: 3 }.describe(),
        "撿起: 蘋果 x3"
    );
    assert_eq!(NpcAction::DropItem { item_name: "石子".to_string(), quantity: 12 }.describe(), "放下: 石子 x12");
    assert_eq!(NpcAction::UseItem("麵包".to_string()).describe(), "使用: 麵包");
    assert_eq!(NpcAction::Trade { target_id: "me".to_string() }.describe(), "交易請求: me");
    assert_eq!(NpcAction::Attack { target_id: "wolf".to_string() }.describe(), "攻擊: wolf");
    assert_eq!(
        NpcAction::UseCombatSkill { skill_name: "kick".to_string(), target_id: "me".to_string() }.describe(),
        "使用技能: kick -> me"
    );
    assert_eq!(NpcAction::Idle.describe(), "閒置");
}

#[test]
fn priorities() {
    assert_eq!(InteractingStrategy.priority(), 10);
    assert_eq!(CombatStrategy.priority(), 20);
    assert_eq!(PartyStrategy.priority(), 30);
    assert_eq!(HealingStrategy.priority(), 40);
    assert_eq!(RandomBehaviorStrategy.priority(), 1000);
}

#[test]
fn interacting_and_party_npcs_idle() {
    let mut v = NpcView::empty("bob".to_string());
    assert!(InteractingStrategy.decide_action(&v).is_none());
    v.is_interacting = true;
    assert!(matches!(InteractingStrategy.decide_action(&v), Some(NpcAction::Idle)));
    v.in_party = true;
    assert!(matches!(PartyStrategy.decide_action(&v), Some(NpcAction::Idle)));
}

#[test]
fn combat_roll_picks_the_skill() {
    let mut v = NpcView::empty("bob".to_string());
    assert!(CombatStrategy.decide_with_roll(&v, 0).is_none());
    v.in_combat = true;
    match CombatStrategy.decide_with_roll(&v, 1) {
        Some(NpcAction::UseCombatSkill { skill_name, target_id }) => {
            assert_eq!(skill_name, "kick");
            assert_eq!(target_id, "me");
        },
        other => panic!("{:?}", other),
    }
    match CombatStrategy.decide_action(&v) {
        Some(NpcAction::UseCombatSkill { skill_name, .. }) => assert!(skill_name == "punch" || skill_name == "kick"),
        other => panic!("{:?}", other),
    }
}

#[test]
fn wounded_npc_eats_preferred_food() {
    let mut v = NpcView::empty("bob".to_string());
    v.self_items = vec![("麵包".to_string(), 2), ("乾肉".to_string(), 1), ("蘋果".to_string(), 0)];
    assert!(HealingStrategy.decide_action(&v).is_none());
    v.self_hp = 49;
    match HealingStrategy.decide_action(&v) {
        Some(NpcAction::UseItem(f)) => assert_eq!(f, "乾肉"),
        other => panic!("{:?}", other),
    }
    v.self_hp = 50;
    assert!(HealingStrategy.decide_action(&v).is_none());
    v.self_hp = 1;
    v.self_items = vec![("石子".to_string(), 5)];
    assert!(HealingStrategy.decide_action(&v).is_none());
}

#[test]
fn random_behaviour_by_rolls() {
    let mut v = NpcView::empty("bob".to_string());
    assert!(matches!(RandomBehaviorStrategy.decide_with_rolls(&v, 10, 0), Some(NpcAction::Move(Direction::Up))));
    assert!(matches!(RandomBehaviorStrategy.decide_with_rolls(&v, 25, 3), Some(NpcAction::Move(Direction::Right))));
    assert!(matches!(RandomBehaviorStrategy.decide_with_rolls(&v, 30, 0), Some(NpcAction::Idle)));
    v.visible_items = vec![ItemInfo { item_name: "石子".to_string(), count: 4, pos: Position { x: 1, y: 1 } }];
    match RandomBehaviorStrategy.decide_with_rolls(&v, 5, 2) {
        Some(NpcAction::PickupItem { item_name, quantity }) => {
            assert_eq!(item_name, "石子");
            assert_eq!(quantity, 1);
        },
        other => panic!("{:?}", other),
    }
    assert!(RandomBehaviorStrategy.decide_action(&v).is_some());
}

#[test]
fn composer_asks_in_priority_order() {
    let composer = NpcAiStrategyComposer::new()
        .add_strategy(Strategy::RandomBehavior(RandomBehaviorStrategy))
        .add_strategy(Strategy::Interacting(InteractingStrategy));
    let mut v = NpcView::empty("bob".to_string());
    v.is_interacting = true;
    assert!(matches!(composer.decide_action(&v), Some(NpcAction::Idle)));
    let empty = NpcAiStrategyComposer::new();
    assert!(empty.decide_action(&v).is_none());
}

#[test]
fn controller_standard_behaviour() {
    let c = NpcAiController::new();
    let mut v = NpcView::empty("bob".to_string());
    v.is_interacting = true;
    v.in_combat = true;
    assert!(matches!(c.decide_action(&v), Some(NpcAction::Idle)));
    v.is_interacting = false;
    assert!(matches!(c.decide_action(&v), Some(NpcAction::UseCombatSkill { .. })));
    v.in_combat = false;
    assert!(NpcAiController::default().decide_action(&v).is_some());
}
