use ratamud::command_interact::{
    apply_quest_rewards, handle_disband, handle_party, handle_quest_abandon, handle_quest_active, handle_quest_complete,
    handle_quest_info, handle_quest_start, handle_set_eagerness, handle_set_relationship, handle_talk,
    handle_use_item_on, handle_wait, try_stop_npc,
};
use ratamud::core_output::OutputZone;
use ratamud::person::{AttributeRanges, HealthStatusRanges, Person, PersonDescriptions};
use ratamud::quest::{Quest, QuestReward, QuestStatus};
use ratamud::world::GameWorld;

fn no_descriptions() -> PersonDescriptions {
    PersonDescriptions {
        appearance: Vec::new(),
        strength: AttributeRanges { ranges: Vec::new() },
        build: AttributeRanges { ranges: Vec::new() },
        health_status: HealthStatusRanges { ranges: Vec::new() },
    }
}

/// The player at (50, 50) of beginMap, 小美 (id mei) on the same spot and
/// 老王 (id wang) two steps away.
fn village() -> GameWorld {
    let mut w = GameWorld::new(no_descriptions());
    let me = Person::new("me".to_string(), "玩家".to_string(), &w.person_descriptions);
    w.npc_manager.add_npc("me".to_string(), me, Vec::new());
    let mei = Person::new("小美".to_string(), "村民".to_string(), &w.person_descriptions);
    w.npc_manager.add_npc("mei".to_string(), mei, vec!["meimei".to_string()]);
    let mut wang = Person::new("老王".to_string(), "村民".to_string(), &w.person_descriptions);
    wang.y = 52;
    w.npc_manager.add_npc("wang".to_string(), wang, Vec::new());
    w
}

fn lines(out: &[(OutputZone, String)]) -> Vec<(OutputZone, String)> {
    out.to_vec()
}

fn main(t: &str) -> (OutputZone, String) {
    (OutputZone::Main, t.to_string())
}

fn status(t: &str) -> (OutputZone, String) {
    (OutputZone::Status, t.to_string())
}

fn errand() -> Quest {
    Quest {
        id: "errand".to_string(),
        name: "跑腿".to_string(),
        description: "幫忙送信".to_string(),
        prerequisites: vec![],
        conditions: vec![],
        rewards: vec![
            QuestReward::Experience { amount: 30 },
            QuestReward::Relationship { npc_id: "mei".to_string(), change: 5 },
        ],
        status: QuestStatus::NotStarted,
        giver: None,
        repeatable: false,
    }
}

#[test]
fn quest_commands() {
    let mut w = village();
    assert_eq!(lines(&handle_quest_info(&w, "errand")), vec![status("找不到任務: errand")]);
    w.quest_manager.add_quest(errand());
    assert_eq!(
        lines(&handle_quest_info(&w, "errand")),
        vec![main("═══ 跑腿 ═══"), main("ID: errand"), main("狀態: NotStarted"), main("目標:\n  幫忙送信")]
    );
    assert_eq!(
        lines(&handle_quest_active(&w)),
        vec![main("═══ 進行中的任務 ═══"), main("  沒有進行中的任務。")]
    );
    assert_eq!(lines(&handle_quest_complete(&mut w, "errand")), vec![status("任務未在進行中")]);
    assert_eq!(lines(&handle_quest_start(&mut w, "errand")), vec![main("開始任務: 跑腿")]);
    assert_eq!(lines(&handle_quest_start(&mut w, "errand")), vec![status("任務已經在進行中")]);
    assert_eq!(lines(&handle_quest_abandon(&mut w, "errand"))[0].0, OutputZone::Main);
    assert_eq!(w.quest_manager.get_quest("errand").unwrap().status, QuestStatus::NotStarted);
    handle_quest_start(&mut w, "errand");
    assert_eq!(
        lines(&handle_quest_complete(&mut w, "errand")),
        vec![
            main("任務完成: 跑腿"),
            main("獲得獎勵:"),
            main("  - 經驗值: 30"),
            main("  - mei 對你的好感度變化: 5"),
        ]
    );
    assert_eq!(w.npc_manager.get_npc("me").unwrap().combat_exp, 30);
    assert_eq!(w.npc_manager.get_npc("mei").unwrap().relationship, 5);
    assert_eq!(w.quest_manager.get_quest("errand").unwrap().status, QuestStatus::Completed);
}

#[test]
fn rewards_for_someone_missing_tell_nothing() {
    let mut w = village();
    let out = apply_quest_rewards(
        &mut w,
        vec![
            QuestReward::Relationship { npc_id: "nobody".to_string(), change: 5 },
            QuestReward::StatBoost { stat: "strength".to_string(), amount: 3 },
        ],
    );
    assert_eq!(out.len(), 1);
    assert_eq!(w.npc_manager.get_npc("me").unwrap().strength, 103);
}

#[test]
fn setting_eagerness_and_liking() {
    let mut w = village();
    assert_eq!(lines(&handle_set_eagerness(&mut w, "nobody", 10)), vec![status("找不到 nobody")]);
    assert_eq!(lines(&handle_set_eagerness(&mut w, "meimei", 150)), vec![main("小美 的說話積極度設為 100")]);
    assert_eq!(lines(&handle_set_eagerness(&mut w, "小美", 30)), vec![main("小美 的說話積極度設為 30")]);
    assert_eq!(w.npc_manager.get_npc("mei").unwrap().talk_eagerness, 30);
    assert_eq!(lines(&handle_set_relationship(&mut w, "mei", 500, false)), vec![main("小美 的好感度：100（摯友 (100)）")]);
    assert_eq!(lines(&handle_set_relationship(&mut w, "mei", -60, true)), vec![main("小美 的好感度：40（好友 (40)）")]);
    assert_eq!(w.npc_manager.get_npc("mei").unwrap().relationship, 40);
}

#[test]
fn a_party_forms_and_breaks_up() {
    let mut w = village();
    assert_eq!(lines(&handle_disband(&mut w)), vec![main("當前沒有隊員")]);
    assert_eq!(lines(&handle_party(&mut w, "me", "wang")), vec![main("老王 距離太遠，無法組隊")]);
    assert_eq!(lines(&handle_party(&mut w, "me", "mei")), vec![main("小美 加入了你的隊伍")]);
    assert_eq!(lines(&handle_party(&mut w, "me", "mei")), vec![main("小美 已經在隊伍中了")]);
    assert_eq!(lines(&handle_party(&mut w, "ghost", "mei")), vec![status("無法取得當前角色資訊")]);
    assert_eq!(
        lines(&handle_disband(&mut w)),
        vec![main("小美 離開了隊伍"), main("已解散隊伍，共 1 名隊員離隊")]
    );
    assert!(w.npc_manager.get_npc("mei").unwrap().party_leader.is_none());
}

#[test]
fn talking_with_an_eager_person() {
    let mut w = village();
    assert_eq!(
        lines(&handle_talk(&mut w, "me", "小美", "被叫住")),
        vec![main("💬 跟小美開始被叫住..."), main("小美 說：「小美 有什麼事嗎？」")]
    );
    assert_eq!(w.npc_manager.get_npc("mei").unwrap().interaction_count, 1);
    assert_eq!(
        lines(&handle_talk(&mut w, "me", "小美", "天氣")),
        vec![main("小美 對「天氣」這個話題似乎不想說話。")]
    );
    handle_set_eagerness(&mut w, "mei", 0);
    assert_eq!(
        lines(&handle_talk(&mut w, "me", "小美", "被叫住")),
        vec![main("小美 對「被叫住」這個話題似乎不想說話。")]
    );
}

#[test]
fn using_food_on_someone() {
    let mut w = village();
    w.npc_manager.get_npc_mut("mei").unwrap().hp = 1000;
    assert_eq!(lines(&handle_use_item_on(&mut w, "me", "石子", "小美")), vec![status("你沒有 石子")]);
    assert_eq!(lines(&handle_use_item_on(&mut w, "me", "金幣", "老王")), vec![status("此處找不到 老王")]);
    w.npc_manager.get_npc_mut("me").unwrap().add_item("蘋果".to_string());
    let out = handle_use_item_on(&mut w, "me", "蘋果", "小美");
    assert_eq!(out.len(), 1);
    let mei = w.npc_manager.get_npc("mei").unwrap();
    assert!(mei.hp > 1000);
    assert_eq!(mei.relationship, 2);
    assert_eq!(out[0], main(&format!("你對 小美 使用了 蘋果 (apple)，小美 回復到 {}/100000 HP", mei.hp)));
    assert!(!w.npc_manager.get_npc("me").unwrap().items.contains("蘋果"));
}

#[test]
fn calling_out() {
    let mut w = village();
    assert_eq!(lines(&handle_wait(&mut w, "me", "wang")), vec![main("老王 距離太遠，無法叫住")]);
    w.npc_manager.get_npc_mut("mei").unwrap().relationship = 100;
    assert_eq!(
        lines(&handle_wait(&mut w, "me", "mei")),
        vec![main("你叫住了 小美"), main("小美 說：「小美 有什麼事嗎？」")]
    );
    assert!(w.npc_manager.get_npc("mei").unwrap().is_interacting);

    let mut stubborn = Person::new("石頭".to_string(), "".to_string(), &no_descriptions());
    stubborn.relationship = -100;
    let (stopped, out) = try_stop_npc(&mut stubborn);
    assert!(!stopped);
    assert_eq!(lines(&out), vec![main("石頭 沒有理會你")]);
    assert!(!stubborn.is_interacting);
}
