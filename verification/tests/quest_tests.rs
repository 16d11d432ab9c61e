use ratamud::quest::{Quest, QuestCondition, QuestManager, QuestReward, QuestStatus};

fn plain(id: &str, name: &str, prerequisites: Vec<String>) -> Quest {
    Quest {
        id: id.to_string(),
        name: name.to_string(),
        description: "測試".to_string(),
        prerequisites,
        conditions: vec![],
        rewards: vec![],
        status: QuestStatus::NotStarted,
        giver: None,
        repeatable: false,
    }
}

#[test]
fn test_quest_creation() {
    let quest = Quest {
        id: "test_quest".to_string(),
        name: "測試任務".to_string(),
        description: "這是一個測試任務".to_string(),
        prerequisites: vec![],
        conditions: vec![QuestCondition::TalkToNpc { npc_id: "商人".to_string(), completed: false }],
        rewards: vec![QuestReward::Item { item: "金幣".to_string(), count: 100 }],
        status: QuestStatus::NotStarted,
        giver: Some("村長".to_string()),
        repeatable: false,
    };
    assert_eq!(quest.status, QuestStatus::NotStarted);
    assert!(!quest.check_conditions());
}

#[test]
fn test_quest_manager() {
    let mut manager = QuestManager::new();
    let quest = Quest {
        id: "quest1".to_string(),
        name: "任務1".to_string(),
        description: "測試".to_string(),
        prerequisites: vec![],
        conditions: vec![],
        rewards: vec![],
        status: QuestStatus::NotStarted,
        giver: None,
        repeatable: false,
    };
    manager.add_quest(quest);
    assert!(manager.start_quest("quest1").is_ok());
    assert_eq!(manager.get_quest("quest1").unwrap().status, QuestStatus::InProgress);
}

#[test]
fn test_quest_prerequisites() {
    let mut manager = QuestManager::new();
    let quest1 = Quest {
        id: "quest1".to_string(),
        name: "任務1".to_string(),
        description: "前置任務".to_string(),
        prerequisites: vec![],
        conditions: vec![],
        rewards: vec![],
        status: QuestStatus::Completed,
        giver: None,
        repeatable: false,
    };
    let quest2 = Quest {
        id: "quest2".to_string(),
        name: "任務2".to_string(),
        description: "需要完成任務1".to_string(),
        prerequisites: vec!["quest1".to_string()],
        conditions: vec![],
        rewards: vec![],
        status: QuestStatus::NotStarted,
        giver: None,
        repeatable: false,
    };
    manager.add_quest(quest1);
    manager.add_quest(quest2);
    manager.completed_quests.push("quest1".to_string());
    assert!(manager.start_quest("quest2").is_ok());
}

#[test]
fn start_quest_errors() {
    let mut m = QuestManager::new();
    assert_eq!(m.start_quest("nope"), Err("找不到任務: nope".to_string()));
    m.add_quest(plain("q2", "二", vec!["q1".to_string()]));
    assert_eq!(m.start_quest("q2"), Err("未完成前置任務: [\"q1\"]".to_string()));
    m.add_quest(plain("q3", "三", vec![]));
    assert_eq!(m.start_quest("q3"), Ok("開始任務: 三".to_string()));
    assert_eq!(m.start_quest("q3"), Err("任務已經在進行中".to_string()));
}

#[test]
fn complete_and_abandon() {
    let mut m = QuestManager::new();
    let mut q = plain("q", "名", vec![]);
    q.conditions.push(QuestCondition::KillEnemy { enemy: "狼".to_string(), count: 2, current: 1 });
    q.rewards.push(QuestReward::Experience { amount: 5 });
    m.add_quest(q);
    assert_eq!(m.complete_quest("q").err(), Some("任務未在進行中".to_string()));
    assert_eq!(m.abandon_quest("q"), Err("只能放棄進行中的任務".to_string()));
    m.start_quest("q").unwrap();
    assert_eq!(m.complete_quest("q").err(), Some("任務條件未全部完成".to_string()));
    assert!(!m.check_quest_progress("q"));
    m.get_quest_mut("q").unwrap().conditions[0] =
        QuestCondition::KillEnemy { enemy: "狼".to_string(), count: 2, current: 2 };
    assert!(m.check_quest_progress("q"));
    let rewards = m.complete_quest("q").unwrap();
    assert_eq!(rewards.len(), 1);
    assert_eq!(rewards[0].description(), "獲得 5 經驗值");
    assert_eq!(m.completed_quests, vec!["q".to_string()]);
    assert_eq!(m.start_quest("q"), Err("任務已完成且不可重複".to_string()));
    assert_eq!(m.get_completed_quests().len(), 1);
}

#[test]
fn start_then_abandon_restores_state() {
    let mut m = QuestManager::new();
    m.add_quest(plain("a", "甲", vec![]));
    m.start_quest("a").unwrap();
    assert_eq!(m.get_active_quests().len(), 1);
    assert_eq!(m.abandon_quest("a"), Ok("已放棄任務: 甲".to_string()));
    assert_eq!(m.get_quest("a").unwrap().status, QuestStatus::NotStarted);
    assert_eq!(m.get_active_quests().len(), 0);
    assert_eq!(m.get_available_quests().len(), 1);
}

#[test]
fn add_quest_replaces_same_id() {
    let mut m = QuestManager::new();
    m.add_quest(plain("a", "舊", vec![]));
    m.add_quest(plain("a", "新", vec![]));
    assert_eq!(m.get_quest("a").unwrap().name, "新");
    assert_eq!(m.quests.len(), 1);
}

#[test]
fn descriptions() {
    let c = QuestCondition::ReachLocation { map: "村".to_string(), x: 3, y: 14, completed: true };
    assert_eq!(c.description(), "✓ 到達 村 (3, 14)");
    let c = QuestCondition::PlayerStat { stat: "hp".to_string(), min_value: -5, completed: false };
    assert_eq!(c.description(), "○ hp 達到 -5");
    let r = QuestReward::Relationship { npc_id: "商人".to_string(), change: 10 };
    assert_eq!(r.description(), "商人 好感度 +10");
    let r = QuestReward::Relationship { npc_id: "商人".to_string(), change: -3 };
    assert_eq!(r.description(), "商人 好感度 -3");
    let r = QuestReward::StatBoost { stat: "力量".to_string(), amount: 7 };
    assert_eq!(r.description(), "力量 +7");
}

#[test]
fn detail_view() {
    let mut q = plain("q9", "尋寶", vec!["q1".to_string()]);
    q.rewards.push(QuestReward::Item { item: "金幣".to_string(), count: 3 });
    let d = q.show_detail();
    let expected = "┌─ 尋寶 ─────────────────\n│ ID: q9\n│ 測試\n│ 狀態: 未開始\n├─────────────────────────\n│ 前置任務:\n│  • q1\n├─────────────────────────\n│ 任務獎勵:\n│  • 獲得 金幣 x3\n└─────────────────────────\n";
    assert_eq!(d, expected);
}
