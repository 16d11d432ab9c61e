//! Commands that deal with other people and with quests, on the world's
//! state. Each answers with what it tells the player, line by line with
//! the zone each line goes to; keeping the changed people and quests on
//! disk is left to the caller.
use vstd::prelude::*;
use crate::core_output::OutputZone;
use crate::npc_manager::{at_spot, id_views, keys_of, npcs_where, opt_text, NpcManager};
use crate::person::{
    clamp_int, condition_view, div_toward_zero, hp_check, PersonDescriptions, conditions_of, dialogue_state_text, effective_weight, option_added, options_of,
    parse_dialogue_conditions, person_words, weight_total, DialogueCondition, DialogueOption, Person,
};
use crate::inventory::{taken, total_of};
use crate::item_registry::{chinese_of, display_name_of, food_hp, get_food_hp, get_item_display_name, resolve_item_name};
use crate::npc_rules::{abs_diff, manhattan_distance};
use crate::random::random_below;
use crate::quest::{is_active, is_available, is_completed, status_text, Quest, QuestReward, QuestStatus};
use crate::text::{decimal, lowercase, push_decimal, push_signed, signed_decimal, split_on, str_eq, to_lowercase};
use crate::world::{GameWorld, InteractionState};
use crate::trade_view::{render_trade, resolve_trade_npc, trade_partner, trade_view};
use crate::inventory::Inventory;
use crate::trade::{bought, buy_ready, sell_ready, sold, unit_buy_price, unit_sell_price, TradeResult, TradeSystem};

verus! {

/// The lines told, each with its zone.
pub open spec fn told(v: Seq<(OutputZone, String)>) -> Seq<(OutputZone, Seq<char>)> {
    v.map_values(|e: (OutputZone, String)| (e.0, e.1@))
}

/// Adds the line `text` for `zone`.
pub fn tell(out: &mut Vec<(OutputZone, String)>, zone: OutputZone, text: String)
    ensures
        told(final(out)@) == told(old(out)@).push((zone, text@)),
{
    let ghost t = text@;
    out.push((zone, text));
    proof {
        assert(told(out@) =~= told(old(out)@).push((zone, t)));
    }
}

/// The line for a quest in a list: `  • <id> - <name>`.
pub open spec fn quest_line(q: Quest) -> Seq<char> {
    "  • "@ + q.id@ + " - "@ + q.name@
}

/// A titled list of quests: the title, then a line for each quest or the
/// hint that there is none.
pub open spec fn quest_group_text(title: Seq<char>, quests: Seq<Quest>, empty_hint: Seq<char>) -> Seq<(OutputZone, Seq<char>)> {
    seq![(OutputZone::Main, title)] + if quests.len() == 0 {
        seq![(OutputZone::Main, empty_hint)]
    } else {
        quests.map_values(|q: Quest| (OutputZone::Main, quest_line(q)))
    }
}

/// Lists `quests` under `title`, or `empty_hint` when there are none.
pub fn print_quest_group(title: &str, quests: Vec<&Quest>, empty_hint: &str) -> (r: Vec<(OutputZone, String)>)
    ensures
        told(r@) == quest_group_text(title@, quests@.map_values(|q: &Quest| *q), empty_hint@),
{
    let mut out: Vec<(OutputZone, String)> = Vec::new();
    tell(&mut out, OutputZone::Main, String::from_str(title));
    if quests.len() == 0 {
        tell(&mut out, OutputZone::Main, String::from_str(empty_hint));
        proof {
            assert(told(out@) =~= quest_group_text(title@, quests@.map_values(|q: &Quest| *q), empty_hint@));
        }
        return out;
    }
    let ghost qs = quests@.map_values(|q: &Quest| *q);
    let mut i: usize = 0;
    while i < quests.len()
        invariant
            i <= quests@.len(),
            qs == quests@.map_values(|q: &Quest| *q),
            told(out@) == seq![(OutputZone::Main, title@)] + qs.take(i as int).map_values(
                |q: Quest| (OutputZone::Main, quest_line(q)),
            ),
        decreases quests@.len() - i,
    {
        let q = quests[i];
        let mut line = String::from_str("  • ");
        line.append(q.id.as_str());
        line.append(" - ");
        line.append(q.name.as_str());
        let ghost before = told(out@);
        tell(&mut out, OutputZone::Main, line);
        proof {
            reveal_strlit("  • ");
            reveal_strlit(" - ");
            assert(qs.take(i + 1) =~= qs.take(i as int).push(qs[i as int]));
            assert(qs.take(i + 1).map_values(|q: Quest| (OutputZone::Main, quest_line(q))) =~= qs.take(
                i as int,
            ).map_values(|q: Quest| (OutputZone::Main, quest_line(q))).push((OutputZone::Main, quest_line(qs[i as int]))));
        }
        i = i + 1;
    }
    proof {
        assert(qs.take(i as int) =~= qs);
    }
    out
}

/// When `handle_trade` may be called: the people are well kept.
pub open spec fn handle_trade_ready(g: GameWorld) -> bool {
    &&& g.npc_manager.wf()
    &&& forall|i: int| 0 <= i < g.npc_manager.people().len() ==> (#[trigger] g.npc_manager.people()[i]).1.wf()
}

/// What `handle_trade` leaves behind and answers: with someone to trade
/// with (see [`trade_partner`]) the world enters trading with them and the
/// trade view (see [`trade_view`]) is shown; else nothing changes and the
/// player is told that no one is found here.
pub open spec fn handle_trade_done(old_world: GameWorld, new_world: GameWorld, npc_name: Seq<char>, r: Seq<(OutputZone, String)>) -> bool {
    match trade_partner(old_world, npc_name) {
        None => new_world == old_world && told(r) =~= seq![(OutputZone::Status, "此處找不到 "@ + npc_name)],
        Some(id) => {
            &&& new_world == (GameWorld { interaction_state: new_world.interaction_state, ..old_world })
            &&& new_world.interaction_state matches InteractionState::Trading { npc_name: n } && n@ == id
            &&& r.len() == 1
            &&& r[0].0 == OutputZone::Main
            &&& trade_view(old_world, id, r[0].1@)
        },
    }
}

/// Opens trading with whom `npc_name` names here (see [`trade_partner`]).
pub fn handle_trade(game_world: &mut GameWorld, npc_name: &str) -> (r: Vec<(OutputZone, String)>)
    requires
        handle_trade_ready(*old(game_world)),
    ensures
        handle_trade_done(*old(game_world), *final(game_world), npc_name@, r@),
{
    let mut out: Vec<(OutputZone, String)> = Vec::new();
    let resolved = match resolve_trade_npc(game_world, npc_name) {
        None => {
            tell(&mut out, OutputZone::Status, crate::text::concat("此處找不到 ", npc_name));
            return out;
        },
        Some(id) => id,
    };
    let view = render_trade(game_world, resolved.as_str());
    game_world.interaction_state = InteractionState::Trading { npc_name: resolved };
    out.push((OutputZone::Main, view));
    out
}

/// The line for a quest in the full list: `  [<state>]<id> - <name>`.
pub open spec fn quest_list_line(q: Quest) -> Seq<char> {
    "  ["@ + status_text(q.status) + "]"@ + q.id@ + " - "@ + q.name@
}

/// What `handle_quest_list` answers: a heading, then a line for each quest
/// of the book in its order, or a line saying there are none.
pub open spec fn handle_quest_list_done(old_world: GameWorld, r: Seq<(OutputZone, String)>) -> bool {
    told(r) =~= seq![(OutputZone::Main, "═══ 所有任務 ═══"@)] + if old_world.quest_manager.quests@.len() == 0 {
        seq![(OutputZone::Main, "  （沒有任何任務）"@)]
    } else {
        old_world.quest_manager.quests@.map_values(|q: Quest| (OutputZone::Main, quest_list_line(q)))
    }
}

/// Every quest of the book with its state.
pub fn handle_quest_list(game_world: &GameWorld) -> (r: Vec<(OutputZone, String)>)
    ensures
        handle_quest_list_done(*game_world, r@),
{
    let mut out: Vec<(OutputZone, String)> = Vec::new();
    tell(&mut out, OutputZone::Main, String::from_str("═══ 所有任務 ═══"));
    let quests = &game_world.quest_manager.quests;
    if quests.len() == 0 {
        tell(&mut out, OutputZone::Main, String::from_str("  （沒有任何任務）"));
        return out;
    }
    let ghost qs = quests@;
    let mut i: usize = 0;
    while i < quests.len()
        invariant
            i <= qs.len(),
            qs == quests@,
            told(out@) =~= seq![(OutputZone::Main, "═══ 所有任務 ═══"@)] + qs.take(i as int).map_values(
                |q: Quest| (OutputZone::Main, quest_list_line(q)),
            ),
        decreases qs.len() - i,
    {
        let q = &quests[i];
        let mut line = String::from_str("  [");
        line.append(q.get_status_char());
        line.append("]");
        line.append(q.id.as_str());
        line.append(" - ");
        line.append(q.name.as_str());
        tell(&mut out, OutputZone::Main, line);
        proof {
            reveal_strlit("  [");
            reveal_strlit("]");
            reveal_strlit(" - ");
            assert(qs.take(i + 1) =~= qs.take(i as int).push(qs[i as int]));
            assert(qs.take(i + 1).map_values(|q: Quest| (OutputZone::Main, quest_list_line(q))) =~= qs.take(
                i as int,
            ).map_values(|q: Quest| (OutputZone::Main, quest_list_line(q))).push(
                (OutputZone::Main, quest_list_line(qs[i as int])),
            ));
        }
        i = i + 1;
    }
    proof {
        assert(qs.take(i as int) =~= qs);
    }
    out
}

/// What `handle_quest_active` leaves behind and answers.
pub open spec fn handle_quest_active_done(old_world: GameWorld, r: Seq<(OutputZone, String)>) -> bool {
    &&& told(r) == quest_group_text(
        "═══ 進行中的任務 ═══"@,
        old_world.quest_manager.quest_seq().filter(|q: Quest| is_active(q)),
        "  沒有進行中的任務。"@,
    )
}

/// The quests in progress.
pub fn handle_quest_active(game_world: &GameWorld) -> (r: Vec<(OutputZone, String)>)
    ensures
        handle_quest_active_done(*game_world, r@),
{
    print_quest_group("═══ 進行中的任務 ═══", game_world.quest_manager.get_active_quests(), "  沒有進行中的任務。")
}

/// What `handle_quest_available` leaves behind and answers.
pub open spec fn handle_quest_available_done(old_world: GameWorld, r: Seq<(OutputZone, String)>) -> bool {
    &&& told(r) == quest_group_text(
        "═══ 可接取的任務 ═══"@,
        old_world.quest_manager.quest_seq().filter(
            |q: Quest| is_available(q, old_world.quest_manager.completed_quests@),
        ),
        "  沒有可接取的任務。"@,
    )
}

/// The quests that can be taken now.
pub fn handle_quest_available(game_world: &GameWorld) -> (r: Vec<(OutputZone, String)>)
    ensures
        handle_quest_available_done(*game_world, r@),
{
    print_quest_group("═══ 可接取的任務 ═══", game_world.quest_manager.get_available_quests(), "  沒有可接取的任務。")
}

/// What `handle_quest_completed` leaves behind and answers.
pub open spec fn handle_quest_completed_done(old_world: GameWorld, r: Seq<(OutputZone, String)>) -> bool {
    &&& told(r) == quest_group_text(
        "═══ 已完成的任務 ═══"@,
        old_world.quest_manager.quest_seq().filter(|q: Quest| is_completed(q)),
        "  尚未完成任何任務。"@,
    )
}

/// The completed quests.
pub fn handle_quest_completed(game_world: &GameWorld) -> (r: Vec<(OutputZone, String)>)
    ensures
        handle_quest_completed_done(*game_world, r@),
{
    print_quest_group("═══ 已完成的任務 ═══", game_world.quest_manager.get_completed_quests(), "  尚未完成任何任務。")
}

/// The name of a quest's state as the program writes it.
pub open spec fn status_name(s: QuestStatus) -> Seq<char> {
    match s {
        QuestStatus::NotStarted => "NotStarted"@,
        QuestStatus::InProgress => "InProgress"@,
        QuestStatus::Completed => "Completed"@,
        QuestStatus::Failed => "Failed"@,
    }
}

fn status_name_of(s: &QuestStatus) -> (r: &'static str)
    ensures
        r@ == status_name(*s),
{
    match s {
        QuestStatus::NotStarted => "NotStarted",
        QuestStatus::InProgress => "InProgress",
        QuestStatus::Completed => "Completed",
        QuestStatus::Failed => "Failed",
    }
}

/// What `handle_quest_info` leaves behind and answers.
pub open spec fn handle_quest_info_done(old_world: GameWorld, quest_id: Seq<char>, r: Seq<(OutputZone, String)>) -> bool {
    &&& told(r) == match old_world.quest_manager.quest(quest_id) {
        Some(q) => seq![
            (OutputZone::Main, "═══ "@ + q.name@ + " ═══"@),
            (OutputZone::Main, "ID: "@ + q.id@),
            (OutputZone::Main, "狀態: "@ + status_name(q.status)),
            (OutputZone::Main, "目標:\n  "@ + q.description@),
        ],
        None => seq![(OutputZone::Status, "找不到任務: "@ + quest_id)],
    }
}

/// When `handle_quest_info` may be called.
pub open spec fn handle_quest_info_ready(old_world: GameWorld, quest_id: Seq<char>) -> bool {
    &&& old_world.quest_manager.wf()
}

/// The details of the quest `quest_id`: its name, id, state and goal; on
/// the status line that it is not known.
pub fn handle_quest_info(game_world: &GameWorld, quest_id: &str) -> (r: Vec<(OutputZone, String)>)
    requires
        game_world.quest_manager.wf(),
    ensures
        handle_quest_info_done(*game_world, quest_id@, r@),
{
    let mut out: Vec<(OutputZone, String)> = Vec::new();
    match game_world.quest_manager.get_quest(quest_id) {
        Some(q) => {
            let mut a = String::from_str("═══ ");
            a.append(q.name.as_str());
            a.append(" ═══");
            tell(&mut out, OutputZone::Main, a);
            tell(&mut out, OutputZone::Main, crate::text::concat("ID: ", q.id.as_str()));
            tell(&mut out, OutputZone::Main, crate::text::concat("狀態: ", status_name_of(&q.status)));
            tell(&mut out, OutputZone::Main, crate::text::concat("目標:\n  ", q.description.as_str()));
            proof {
                reveal_strlit("═══ ");
                reveal_strlit(" ═══");
                assert(told(out@) =~= seq![
                    (OutputZone::Main, "═══ "@ + q.name@ + " ═══"@),
                    (OutputZone::Main, "ID: "@ + q.id@),
                    (OutputZone::Main, "狀態: "@ + status_name(q.status)),
                    (OutputZone::Main, "目標:\n  "@ + q.description@),
                ]);
            }
        },
        None => {
            tell(&mut out, OutputZone::Status, crate::text::concat("找不到任務: ", quest_id));
            proof {
                assert(told(out@) =~= seq![(OutputZone::Status, "找不到任務: "@ + quest_id@)]);
            }
        },
    }
    out
}

/// What a quest command's result tells: the message on the main area when
/// it went through, the error on the status line when not.
pub open spec fn result_told(r: Result<String, String>) -> Seq<(OutputZone, Seq<char>)> {
    match r {
        Ok(m) => seq![(OutputZone::Main, m@)],
        Err(e) => seq![(OutputZone::Status, e@)],
    }
}

fn tell_result(res: Result<String, String>) -> (r: Vec<(OutputZone, String)>)
    ensures
        told(r@) == result_told(res),
{
    let mut out: Vec<(OutputZone, String)> = Vec::new();
    match res {
        Ok(m) => tell(&mut out, OutputZone::Main, m),
        Err(e) => tell(&mut out, OutputZone::Status, e),
    }
    proof {
        assert(told(out@) =~= result_told(res));
    }
    out
}

/// What `handle_quest_start` leaves behind and answers.
pub open spec fn handle_quest_start_done(old_world: GameWorld, new_world: GameWorld, quest_id: Seq<char>, r: Seq<(OutputZone, String)>) -> bool {
    &&& new_world.quest_manager.wf()
    &&& exists|res: Result<String, String>|
        #[trigger] result_told(res) == told(r) && crate::quest::started(
            old_world.quest_manager,
            new_world.quest_manager,
            quest_id,
            res,
        )
    &&& new_world == (GameWorld { quest_manager: new_world.quest_manager, ..old_world })
}

/// When `handle_quest_start` may be called.
pub open spec fn handle_quest_start_ready(old_world: GameWorld, quest_id: Seq<char>) -> bool {
    &&& old_world.quest_manager.wf()
}

/// Starts the quest `quest_id` (see [`crate::quest::QuestManager::start_quest`]) and tells
/// how it went.
pub fn handle_quest_start(game_world: &mut GameWorld, quest_id: &str) -> (r: Vec<(OutputZone, String)>)
    requires
        old(game_world).quest_manager.wf(),
    ensures
        handle_quest_start_done(*old(game_world), *final(game_world), quest_id@, r@),
{
    let res = game_world.quest_manager.start_quest(quest_id);
    let ghost rv = res;
    let out = tell_result(res);
    proof {
        assert(result_told(rv) == told(out@));
    }
    out
}

/// What `handle_quest_abandon` leaves behind and answers.
pub open spec fn handle_quest_abandon_done(old_world: GameWorld, new_world: GameWorld, quest_id: Seq<char>, r: Seq<(OutputZone, String)>) -> bool {
    &&& new_world.quest_manager.wf()
    &&& exists|res: Result<String, String>|
        #[trigger] result_told(res) == told(r) && crate::quest::abandoned(
            old_world.quest_manager,
            new_world.quest_manager,
            quest_id,
            res,
        )
    &&& new_world == (GameWorld { quest_manager: new_world.quest_manager, ..old_world })
}

/// When `handle_quest_abandon` may be called.
pub open spec fn handle_quest_abandon_ready(old_world: GameWorld, quest_id: Seq<char>) -> bool {
    &&& old_world.quest_manager.wf()
}

/// Abandons the quest `quest_id` (see [`crate::quest::QuestManager::abandon_quest`]) and
/// tells how it went.
pub fn handle_quest_abandon(game_world: &mut GameWorld, quest_id: &str) -> (r: Vec<(OutputZone, String)>)
    requires
        old(game_world).quest_manager.wf(),
    ensures
        handle_quest_abandon_done(*old(game_world), *final(game_world), quest_id@, r@),
{
    let res = game_world.quest_manager.abandon_quest(quest_id);
    let ghost rv = res;
    let out = tell_result(res);
    proof {
        assert(result_told(rv) == told(out@));
    }
    out
}


/// The entry of `m` that a command naming `name` changes: the id that the
/// name resolves to is looked up once more, as the person to change.
pub open spec fn target_of(m: NpcManager, name: Seq<char>) -> Option<int> {
    match m.found(name) {
        Some(i) => m.found(m.people()[i].0@),
        None => None,
    }
}

/// `after` is `before` with only the person at `j` changed, to `p`.
pub open spec fn person_changed(before: NpcManager, after: NpcManager, j: int, p: Person) -> bool {
    &&& after.wf()
    &&& after.people() == before.people().update(j, (before.people()[j].0, p))
    &&& after.alias_list() == before.alias_list()
    &&& after.distance_list() == before.distance_list()
}

/// What `handle_set_eagerness` leaves behind and answers.
pub open spec fn handle_set_eagerness_done(old_world: GameWorld, new_world: GameWorld, npc_name: Seq<char>, eagerness: u8, r: Seq<(OutputZone, String)>) -> bool {
    &&& new_world.npc_manager.wf()
    &&& new_world == (GameWorld { npc_manager: new_world.npc_manager, ..old_world })
    &&& match old_world.npc_manager.found(npc_name) {
        None => told(r) =~= seq![(OutputZone::Status, "找不到 "@ + npc_name)] && new_world.npc_manager
            == old_world.npc_manager,
        Some(_) => match target_of(old_world.npc_manager, npc_name) {
            None => told(r).len() == 0 && new_world.npc_manager == old_world.npc_manager,
            Some(j) => {
                let before = old_world.npc_manager.people()[j].1;
                let after = new_world.npc_manager.people()[j].1;
                let e: u8 = if eagerness > 100 {
                    100
                } else {
                    eagerness
                };
                &&& person_changed(old_world.npc_manager, new_world.npc_manager, j, after)
                &&& after == (Person { talk_eagerness: e, description: after.description, ..before })
                &&& after.description@ == person_words(old_world.person_descriptions, before)
                &&& told(r) =~= seq![(OutputZone::Main, before.name@ + " 的說話積極度設為 "@ + decimal(e as nat))]
            },
        },
    }
}

/// When `handle_set_eagerness` may be called.
pub open spec fn handle_set_eagerness_ready(old_world: GameWorld, npc_name: Seq<char>, eagerness: u8) -> bool {
    &&& old_world.npc_manager.wf()
}

/// Sets how readily the person `npc_name` talks (see
/// [`Person::set_talk_eagerness`]) and tells the new value.
pub fn handle_set_eagerness(game_world: &mut GameWorld, npc_name: &str, eagerness: u8) -> (r: Vec<(OutputZone, String)>)
    requires
        old(game_world).npc_manager.wf(),
    ensures
        handle_set_eagerness_done(*old(game_world), *final(game_world), npc_name@, eagerness, r@),
{
    let mut out: Vec<(OutputZone, String)> = Vec::new();
    let id = match game_world.npc_manager.resolve_id(npc_name) {
        Some(id) => id,
        None => {
            tell(&mut out, OutputZone::Status, crate::text::concat("找不到 ", npc_name));
            proof {
                assert(told(out@) =~= seq![(OutputZone::Status, "找不到 "@ + npc_name@)]);
            }
            return out;
        },
    };
    let npc = match game_world.npc_manager.get_npc_mut(id.as_str()) {
        Some(n) => n,
        None => {
            return out;
        },
    };
    npc.set_talk_eagerness(eagerness, &game_world.person_descriptions);
    let mut line = npc.name.clone();
    line.append(" 的說話積極度設為 ");
    push_decimal(&mut line, npc.talk_eagerness as u64);
    tell(&mut out, OutputZone::Main, line);
    proof {
        reveal_strlit(" 的說話積極度設為 ");
    }
    out
}

/// What `handle_set_relationship` leaves behind and answers.
pub open spec fn handle_set_relationship_done(old_world: GameWorld, new_world: GameWorld, npc_name: Seq<char>, value: i32, is_delta: bool, r: Seq<(OutputZone, String)>) -> bool {
    &&& new_world.npc_manager.wf()
    &&& new_world == (GameWorld { npc_manager: new_world.npc_manager, ..old_world })
    &&& match old_world.npc_manager.found(npc_name) {
        None => told(r) =~= seq![(OutputZone::Status, "找不到 "@ + npc_name)] && new_world.npc_manager
            == old_world.npc_manager,
        Some(_) => match target_of(old_world.npc_manager, npc_name) {
            None => told(r).len() == 0 && new_world.npc_manager == old_world.npc_manager,
            Some(j) => {
                let before = old_world.npc_manager.people()[j].1;
                let after = new_world.npc_manager.people()[j].1;
                &&& person_changed(old_world.npc_manager, new_world.npc_manager, j, after)
                &&& if is_delta {
                    &&& after.relationship == clamp_int(before.relationship + value, -100, 100)
                    &&& after.dialogue_state@ == dialogue_state_text(after.relationship)
                    &&& after == (Person {
                        relationship: after.relationship,
                        dialogue_state: after.dialogue_state,
                        ..before
                    })
                } else {
                    after == (Person { relationship: clamp_int(value as int, -100, 100) as i32, ..before })
                }
                &&& told(r) =~= seq![
                    (OutputZone::Main, before.name@ + " 的好感度："@ + signed_decimal(after.relationship as int)
                        + "（"@ + dialogue_state_text(after.relationship) + " ("@ + signed_decimal(
                        after.relationship as int,
                    ) + ")"@ + "）"@),
                ]
            },
        },
    }
}

/// When `handle_set_relationship` may be called.
pub open spec fn handle_set_relationship_ready(old_world: GameWorld, npc_name: Seq<char>, value: i32, is_delta: bool) -> bool {
    &&& old_world.npc_manager.wf()
    &&& is_delta ==> forall|i: int|
        0 <= i < old_world.npc_manager.people().len()
            ==> i32::MIN <= (#[trigger] old_world.npc_manager.people()[i]).1.relationship + value <= i32::MAX
}

/// Sets the person `npc_name`'s liking for the player, kept within
/// -100..=100, or changes it by `value` when `is_delta` (see
/// [`Person::change_relationship`]), and tells the result.
pub fn handle_set_relationship(game_world: &mut GameWorld, npc_name: &str, value: i32, is_delta: bool) -> (r: Vec<
    (OutputZone, String),
>)
    requires
        old(game_world).npc_manager.wf(),
        is_delta ==> forall|i: int|
            0 <= i < old(game_world).npc_manager.people().len()
                ==> i32::MIN <= (#[trigger] old(game_world).npc_manager.people()[i]).1.relationship + value <= i32::MAX,
    ensures
        handle_set_relationship_done(*old(game_world), *final(game_world), npc_name@, value, is_delta, r@),
{
    let mut out: Vec<(OutputZone, String)> = Vec::new();
    let id = match game_world.npc_manager.resolve_id(npc_name) {
        Some(id) => id,
        None => {
            tell(&mut out, OutputZone::Status, crate::text::concat("找不到 ", npc_name));
            proof {
                assert(told(out@) =~= seq![(OutputZone::Status, "找不到 "@ + npc_name@)]);
            }
            return out;
        },
    };
    let npc = match game_world.npc_manager.get_npc_mut(id.as_str()) {
        Some(n) => n,
        None => {
            return out;
        },
    };
    if is_delta {
        npc.change_relationship(value);
    } else {
        npc.relationship = if value < -100 {
            -100
        } else if value > 100 {
            100
        } else {
            value
        };
    }
    let mut line = npc.name.clone();
    line.append(" 的好感度：");
    push_signed(&mut line, npc.relationship as i64);
    line.append("（");
    let d = npc.get_relationship_description();
    line.append(d.as_str());
    line.append("）");
    proof {
        assert(line@ =~= npc.name@ + " 的好感度："@ + signed_decimal(npc.relationship as int) + "（"@
            + dialogue_state_text(npc.relationship) + " ("@ + signed_decimal(npc.relationship as int) + ")"@ + "）"@);
    }
    tell(&mut out, OutputZone::Main, line);
    proof {
        reveal_strlit(" 的好感度：");
        reveal_strlit("（");
        reveal_strlit("）");
    }
    out
}

/// The person follows the player's party.
pub open spec fn follows_me(p: Person) -> bool {
    p.party_leader matches Some(l) && l@ == "me"@
}

/// The entries, in order, that disbanding takes out of the party after
/// looking up the first `n` ids of `m`: each id's person, when it follows
/// the player and is not taken already.
pub open spec fn disband_hits(m: NpcManager, n: int) -> Seq<int>
    decreases n,
{
    if n <= 0 {
        Seq::empty()
    } else {
        let prev = disband_hits(m, n - 1);
        match m.found(m.people()[n - 1].0@) {
            Some(j) => if follows_me(m.people()[j].1) && !prev.contains(j) {
                prev.push(j)
            } else {
                prev
            },
            None => prev,
        }
    }
}

/// The people of `m` with those at `hits` out of the party.
pub open spec fn disbanded(m: NpcManager, hits: Seq<int>) -> Seq<(String, Person)> {
    Seq::new(
        m.people().len(),
        |j: int|
            if hits.contains(j) {
                (m.people()[j].0, Person { party_leader: None, ..m.people()[j].1 })
            } else {
                m.people()[j]
            },
    )
}

/// What disbanding tells: who left, then the count (or that there was no
/// one).
pub open spec fn disband_text(m: NpcManager, hits: Seq<int>) -> Seq<(OutputZone, Seq<char>)> {
    hits.map_values(|j: int| (OutputZone::Main, m.people()[j].1.name@ + " 離開了隊伍"@)) + if hits.len() == 0 {
        seq![(OutputZone::Main, "當前沒有隊員"@)]
    } else {
        seq![(OutputZone::Main, "已解散隊伍，共 "@ + decimal(hits.len()) + " 名隊員離隊"@)]
    }
}

pub proof fn lemma_found_stable(m: NpcManager, t: NpcManager, q: Seq<char>)
    requires
        t.alias_list() == m.alias_list(),
        t.people().len() == m.people().len(),
        forall|j: int|
            0 <= j < m.people().len() ==> (#[trigger] t.people()[j]).0 == m.people()[j].0 && t.people()[j].1.name
                == m.people()[j].1.name,
    ensures
        t.found(q) == m.found(q),
{
    let key = crate::text::lowercase(q);
    assert(keys_of(t.people()) =~= keys_of(m.people()));
    match t.alias(key) {
        Some(id) => {
            crate::person::lemma_same_keys_pub(t.people(), m.people(), id);
        },
        None => {
            let s = m.people();
            let u = t.people();
            assert forall|j: int| 0 <= j < s.len() implies crate::text::lowercase(u[j].1.name@)
                == crate::text::lowercase(s[j].1.name@) by {
                assert(t.people()[j].1.name == m.people()[j].1.name);
            }
            if exists|i: int| crate::npc_manager::is_first_named(s, key, i) {
                let i = choose|i: int| crate::npc_manager::is_first_named(s, key, i);
                assert(crate::npc_manager::is_first_named(u, key, i));
                let c = choose|c: int| crate::npc_manager::is_first_named(u, key, c);
                if c < i {
                    assert(crate::text::lowercase(u[c].1.name@) != key);
                } else if c > i {
                    assert(crate::text::lowercase(u[i].1.name@) != key);
                }
            } else {
                assert(!exists|i: int| crate::npc_manager::is_first_named(u, key, i)) by {
                    if exists|i: int| crate::npc_manager::is_first_named(u, key, i) {
                        let i = choose|i: int| crate::npc_manager::is_first_named(u, key, i);
                        assert(crate::npc_manager::is_first_named(s, key, i));
                    }
                }
            }
        },
    }
}

/// What `handle_disband` leaves behind and answers.
pub open spec fn handle_disband_done(old_world: GameWorld, new_world: GameWorld, r: Seq<(OutputZone, String)>) -> bool {
    &&& new_world.npc_manager.wf()
    &&& new_world == (GameWorld { npc_manager: new_world.npc_manager, ..old_world })
    &&& ({
        let m = old_world.npc_manager;
        let hits = disband_hits(m, m.people().len() as int);
        &&& new_world.npc_manager.people() == disbanded(m, hits)
        &&& new_world.npc_manager.alias_list() == m.alias_list()
        &&& new_world.npc_manager.distance_list() == m.distance_list()
        &&& told(r) == disband_text(m, hits)
    })
}

/// When `handle_disband` may be called.
pub open spec fn handle_disband_ready(old_world: GameWorld) -> bool {
    &&& old_world.npc_manager.wf()
}

/// Everyone who follows the player leaves the party; tells who left and
/// how many.
pub fn handle_disband(game_world: &mut GameWorld) -> (r: Vec<(OutputZone, String)>)
    requires
        old(game_world).npc_manager.wf(),
    ensures
        handle_disband_done(*old(game_world), *final(game_world), r@),
{
    let ghost m = game_world.npc_manager;
    let ids = game_world.npc_manager.get_all_npc_ids();
    let mut out: Vec<(OutputZone, String)> = Vec::new();
    let mut count: u64 = 0;
    let mut k: usize = 0;
    proof {
        assert(ids@.len() == m.people().len()) by {
            assert(ids@.map_values(|s: String| s@).len() == keys_of(m.people()).len());
        }
        assert(disbanded(m, Seq::empty()) =~= m.people());
        assert(disband_hits(m, 0) =~= Seq::<int>::empty());
    }
    while k < ids.len()
        invariant
            k <= ids@.len(),
            ids@.len() == m.people().len(),
            ids@.map_values(|s: String| s@) == keys_of(m.people()),
            m.wf(),
            game_world.npc_manager.wf(),
            *game_world == (GameWorld { npc_manager: game_world.npc_manager, ..*old(game_world) }),
            m == old(game_world).npc_manager,
            game_world.npc_manager.people() == disbanded(m, disband_hits(m, k as int)),
            game_world.npc_manager.alias_list() == m.alias_list(),
            game_world.npc_manager.distance_list() == m.distance_list(),
            count == disband_hits(m, k as int).len(),
            count <= k,
            told(out@) == disband_hits(m, k as int).map_values(
                |j: int| (OutputZone::Main, m.people()[j].1.name@ + " 離開了隊伍"@),
            ),
            forall|j: int| #[trigger] disband_hits(m, k as int).contains(j) ==> 0 <= j < m.people().len() && follows_me(m.people()[j].1),
        decreases ids@.len() - k,
    {
        let ghost hits = disband_hits(m, k as int);
        let ghost cur = game_world.npc_manager;
        proof {
            assert(ids@[k as int]@ == m.people()[k as int].0@) by {
                assert(ids@.map_values(|s: String| s@)[k as int] == keys_of(m.people())[k as int]);
            }
            lemma_found_stable(m, cur, ids@[k as int]@);
        }
        match game_world.npc_manager.get_npc_mut(ids[k].as_str()) {
            Some(npc) => {
                let follows = match &npc.party_leader {
                    Some(l) => crate::text::str_eq(l.as_str(), "me"),
                    None => false,
                };
                proof {
                    reveal_strlit("me");
                }
                if follows {
                    npc.party_leader = None;
                    let mut line = npc.name.clone();
                    line.append(" 離開了隊伍");
                    let ghost before_out = told(out@);
                    tell(&mut out, OutputZone::Main, line);
                    count = count + 1;
                    proof {
                        let j = m.found(m.people()[k as int].0@)->0;
                        crate::npc_manager::lemma_found_in_range(m, m.people()[k as int].0@);
                        assert(!hits.contains(j)) by {
                            if hits.contains(j) {
                                assert(disbanded(m, hits)[j].1.party_leader is None);
                            }
                        }
                        assert(follows_me(m.people()[j].1));
                        assert(disband_hits(m, k + 1) == hits.push(j));
                        assert forall|x: int| #[trigger] hits.push(j).contains(x) <==> (hits.contains(x) || x == j) by {
                            if hits.push(j).contains(x) {
                                let y = choose|y: int| 0 <= y < hits.push(j).len() && hits.push(j)[y] == x;
                                if y < hits.len() {
                                    assert(hits[y] == x);
                                }
                            }
                            if hits.contains(x) {
                                let y = choose|y: int| 0 <= y < hits.len() && hits[y] == x;
                                assert(hits.push(j)[y] == x);
                            }
                            if x == j {
                                assert(hits.push(j)[hits.len() as int] == x);
                            }
                        }
                        assert(game_world.npc_manager.people() =~= disbanded(m, hits.push(j)));
                        assert(told(out@) =~= hits.push(j).map_values(
                            |j: int| (OutputZone::Main, m.people()[j].1.name@ + " 離開了隊伍"@),
                        ));
                    }
                } else {
                    proof {
                        let j = m.found(m.people()[k as int].0@)->0;
                        crate::npc_manager::lemma_found_in_range(m, m.people()[k as int].0@);
                        if !hits.contains(j) {
                            assert(!follows_me(m.people()[j].1));
                        }
                        assert(disband_hits(m, k + 1) == hits);
                    }
                }
            },
            None => {
                proof {
                    assert(disband_hits(m, k + 1) == hits);
                }
            },
        }
        k = k + 1;
    }
    if count == 0 {
        tell(&mut out, OutputZone::Main, String::from_str("當前沒有隊員"));
    } else {
        let mut line = String::from_str("已解散隊伍，共 ");
        push_decimal(&mut line, count);
        line.append(" 名隊員離隊");
        tell(&mut out, OutputZone::Main, line);
    }
    proof {
        reveal_strlit("已解散隊伍，共 ");
        reveal_strlit(" 名隊員離隊");
        let hits = disband_hits(m, m.people().len() as int);
        assert(told(out@) =~= disband_text(m, hits));
    }
    out
}


/// `o` is the line that `set dialogue` adds: `text` with a weight of 1,
/// with the conditions written in `conditions` when there are any.
pub open spec fn line_set(o: DialogueOption, text: Seq<char>, conditions: Option<Seq<char>>) -> bool {
    &&& o.text@ == text
    &&& o.weight == 1000
    &&& match conditions {
        Some(c) => o.conditions@.map_values(|d: DialogueCondition| condition_view(d)) == conditions_of(split_on(c, ',')),
        None => o.conditions@.len() == 0,
    }
}

/// What `handle_set_dialogue` leaves behind and answers.
pub open spec fn handle_set_dialogue_done(old_world: GameWorld, new_world: GameWorld, npc_name: Seq<char>, topic: Seq<char>, text: Seq<char>, conditions: Option<&str>, r: Seq<(OutputZone, String)>) -> bool {
    &&& new_world.npc_manager.wf()
    &&& new_world == (GameWorld { npc_manager: new_world.npc_manager, ..old_world })
    &&& match old_world.npc_manager.found(npc_name) {
        None => told(r) == seq![(OutputZone::Status, "找不到 "@ + npc_name)] && new_world.npc_manager
            == old_world.npc_manager,
        Some(_) => match target_of(old_world.npc_manager, npc_name) {
            None => told(r).len() == 0 && new_world.npc_manager == old_world.npc_manager,
            Some(j) => {
                let before = old_world.npc_manager.people()[j].1;
                let after = new_world.npc_manager.people()[j].1;
                &&& person_changed(old_world.npc_manager, new_world.npc_manager, j, after)
                &&& after == (Person { dialogues: after.dialogues, ..before })
                &&& exists|o: DialogueOption|
                    #[trigger] option_added(before.dialogues@, after.dialogues@, topic, o) && line_set(
                        o,
                        text,
                        opt_text(conditions),
                    ) && told(r) == seq![
                        (OutputZone::Main, "已為 "@ + npc_name + " 設定「"@ + topic + "」台詞"@ + match conditions {
                            Some(_) => "（"@ + decimal(o.conditions@.len()) + " 個條件）"@,
                            None => Seq::<char>::empty(),
                        } + "："@ + text),
                    ]
            },
        },
    }
}

/// When `handle_set_dialogue` may be called.
pub open spec fn handle_set_dialogue_ready(old_world: GameWorld, npc_name: Seq<char>, topic: Seq<char>, text: Seq<char>, conditions: Option<&str>) -> bool {
    &&& old_world.npc_manager.wf()
}

/// Adds a line on `topic` for the person `npc_name`, with the conditions
/// written in `conditions` (such as `hp>50,顏值>=60`) when given, and
/// tells what was set.
pub fn handle_set_dialogue(
    game_world: &mut GameWorld,
    npc_name: &str,
    topic: &str,
    text: &str,
    conditions: Option<&str>,
) -> (r: Vec<(OutputZone, String)>)
    requires
        old(game_world).npc_manager.wf(),
    ensures
        handle_set_dialogue_done(*old(game_world), *final(game_world), npc_name@, topic@, text@, conditions, r@),
{
    let mut out: Vec<(OutputZone, String)> = Vec::new();
    let id = match game_world.npc_manager.resolve_id(npc_name) {
        Some(id) => id,
        None => {
            tell(&mut out, OutputZone::Status, crate::text::concat("找不到 ", npc_name));
            proof {
                assert(told(out@) =~= seq![(OutputZone::Status, "找不到 "@ + npc_name@)]);
            }
            return out;
        },
    };
    let npc = match game_world.npc_manager.get_npc_mut(id.as_str()) {
        Some(n) => n,
        None => {
            return out;
        },
    };
    proof {
        reveal_strlit("已為 ");
        reveal_strlit(" 設定「");
        reveal_strlit("」台詞");
        reveal_strlit("（");
        reveal_strlit(" 個條件）");
        reveal_strlit("：");
    }
    let mut line = String::from_str("已為 ");
    line.append(npc_name);
    line.append(" 設定「");
    line.append(topic);
    line.append("」台詞");
    match conditions {
        Some(cond_str) => {
            let parsed = parse_dialogue_conditions(cond_str);
            let count = parsed.len();
            let option = DialogueOption::with_conditions(String::from_str(text), parsed);
            let ghost o = option;
            npc.add_dialogue_option(String::from_str(topic), option);
            line.append("（");
            push_decimal(&mut line, count as u64);
            line.append(" 個條件）");
            line.append("：");
            line.append(text);
            proof {
                assert(o.conditions@.len() == count);
                assert(line@ =~= "已為 "@ + npc_name@ + " 設定「"@ + topic@ + "」台詞"@ + ("（"@ + decimal(
                    o.conditions@.len(),
                ) + " 個條件）"@) + "："@ + text@);
            }
            tell(&mut out, OutputZone::Main, line);
            proof {
                assert(line_set(o, text@, opt_text(conditions)));
                assert(told(out@) =~= seq![
                    (OutputZone::Main, "已為 "@ + npc_name@ + " 設定「"@ + topic@ + "」台詞"@ + ("（"@ + decimal(
                        o.conditions@.len(),
                    ) + " 個條件）"@) + "："@ + text@),
                ]);
            }
        },
        None => {
            let option = DialogueOption::new(String::from_str(text));
            let ghost o = option;
            npc.add_dialogue_option(String::from_str(topic), option);
            line.append("：");
            line.append(text);
            tell(&mut out, OutputZone::Main, line);
            proof {
                assert(line_set(o, text@, opt_text(conditions)));
                assert(told(out@) =~= seq![
                    (OutputZone::Main, "已為 "@ + npc_name@ + " 設定「"@ + topic@ + "」台詞"@ + Seq::<char>::empty() + "："@
                        + text@),
                ]);
            }
        },
    }
    out
}

/// The ids and people of `c` that a command naming `name` may mean: the
/// id or the person's name, in lower case, is `name` in lower case.
pub open spec fn named_as(e: (Seq<char>, Person), name: Seq<char>) -> bool {
    lowercase(e.0) == lowercase(name) || lowercase(e.1.name@) == lowercase(name)
}

/// `k` is the first entry of `c` meant by `name`, other than `exclude`.
pub open spec fn is_first_meant(c: Seq<(Seq<char>, Person)>, exclude: Option<Seq<char>>, name: Seq<char>, k: int) -> bool {
    &&& 0 <= k < c.len()
    &&& named_as(c[k], name) && !(exclude matches Some(x) && c[k].0 == x)
    &&& forall|j: int| 0 <= j < k ==> !(named_as(c[j], name) && !(exclude matches Some(x) && c[j].0 == x))
}

/// The first entry of `c` meant by `name`, other than `exclude`.
pub open spec fn first_meant(c: Seq<(Seq<char>, Person)>, exclude: Option<Seq<char>>, name: Seq<char>) -> Option<int> {
    if exists|k: int| is_first_meant(c, exclude, name, k) {
        Some(choose|k: int| is_first_meant(c, exclude, name, k))
    } else {
        None
    }
}

/// The people at (x, y) of the player's map, with their ids.
pub open spec fn here(m: NpcManager, map: Seq<char>, x: usize, y: usize) -> Seq<(Seq<char>, Person)> {
    id_views(npcs_where(m.people(), |e: (String, Person)| at_spot(e, Some(map), x, y, None)))
}

/// The id of the first person at (x, y) of `map` meant by `name`, other
/// than `exclude`.
fn find_here<'a>(m: &'a NpcManager, map: &str, x: usize, y: usize, exclude: Option<&str>, name: &str) -> (r: Option<(
    String,
    &'a Person,
)>)
    ensures
        match first_meant(here(*m, map@, x, y), opt_text(exclude), name@) {
            Some(k) => r matches Some(e) && e.0@ == here(*m, map@, x, y)[k].0 && *e.1 == here(*m, map@, x, y)[k].1,
            None => r is None,
        },
{
    let c = m.get_npcs_with_ids_at_in_map(map, x, y);
    let ghost cv = c@.map_values(|e: (String, &Person)| (e.0@, *e.1));
    let key = to_lowercase(name);
    let mut i: usize = 0;
    while i < c.len()
        invariant
            i <= c@.len(),
            cv == c@.map_values(|e: (String, &Person)| (e.0@, *e.1)),
            cv == here(*m, map@, x, y),
            key@ == lowercase(name@),
            forall|j: int| 0 <= j < i ==> !(named_as(cv[j], name@) && !(opt_text(exclude) matches Some(z) && cv[j].0 == z)),
        decreases c@.len() - i,
    {
        let e = &c[i];
        proof {
            assert(cv[i as int] == (e.0@, *e.1));
        }
        let id_l = to_lowercase(e.0.as_str());
        let name_l = to_lowercase(e.1.name.as_str());
        let excluded = match exclude {
            Some(z) => str_eq(e.0.as_str(), z),
            None => false,
        };
        if (str_eq(id_l.as_str(), key.as_str()) || str_eq(name_l.as_str(), key.as_str())) && !excluded {
            proof {
                assert(is_first_meant(cv, opt_text(exclude), name@, i as int));
                let k = choose|k: int| is_first_meant(cv, opt_text(exclude), name@, k);
                if k < i {
                    assert(!(named_as(cv[k], name@) && !(opt_text(exclude) matches Some(z) && cv[k].0 == z)));
                } else if k > i {
                    assert(!(named_as(cv[i as int], name@) && !(opt_text(exclude) matches Some(z) && cv[i as int].0
                        == z)));
                }
            }
            return Some((e.0.clone(), e.1));
        }
        i = i + 1;
    }
    None
}


/// Every person's belongings are well kept and countable.
pub open spec fn people_ok(m: NpcManager) -> bool {
    forall|i: int|
        0 <= i < m.people().len() ==> (#[trigger] m.people()[i]).1.wf() && total_of(m.people()[i].1.items.listing())
            <= u32::MAX
}

/// What `npc` says, or not, when `me` talks to them on `topic`: the
/// opening and one of the lines on the topic whose conditions `me` meets,
/// or that the topic does not interest them. One who never talks never
/// does; one who always talks does whenever a line fits.
pub open spec fn talk_told(npc: Person, me: Person, topic: Seq<char>, t: Seq<(OutputZone, Seq<char>)>) -> bool {
    let opts = options_of(npc.dialogues@, topic);
    let w = weight_total(opts, me);
    let refused = seq![(OutputZone::Main, npc.name@ + " 對「"@ + topic + "」這個話題似乎不想說話。"@)];
    let talked = exists|i: int|
        0 <= i < opts.len() && effective_weight(opts[i], me) > 0 && t == seq![
            (OutputZone::Main, "💬 跟"@ + npc.name@ + "開始"@ + topic + "..."@),
            (OutputZone::Main, npc.name@ + " 說：「"@ + (#[trigger] opts[i]).text@ + "」"@),
        ];
    &&& talked || t == refused
    &&& talked ==> w > 0
    &&& npc.talk_eagerness == 0 ==> t == refused
    &&& npc.talk_eagerness >= 100 && w > 0 ==> talked
}

/// What `npc` says, or not, when `me` talks to them on `topic` (see
/// [`talk_told`]).
fn talk_to(npc: &Person, me: &Person, topic: &str) -> (r: Vec<(OutputZone, String)>)
    requires
        me.wf(),
        total_of(me.items.listing()) <= u32::MAX,
        weight_total(options_of(npc.dialogues@, topic@), *me) <= usize::MAX,
    ensures
        talk_told(*npc, *me, topic@, told(r@)),
{
    let mut out: Vec<(OutputZone, String)> = Vec::new();
    let said = npc.try_talk(topic, me);
    proof {
        reveal_strlit("💬 跟");
        reveal_strlit("開始");
        reveal_strlit("...");
        reveal_strlit(" 說：「");
        reveal_strlit("」");
        reveal_strlit(" 對「");
        reveal_strlit("」這個話題似乎不想說話。");
    }
    match said {
        Some(d) => {
            let mut a1 = String::from_str("💬 跟");
            a1.append(npc.name.as_str());
            a1.append("開始");
            a1.append(topic);
            a1.append("...");
            tell(&mut out, OutputZone::Main, a1);
            let mut a2 = npc.name.clone();
            a2.append(" 說：「");
            a2.append(d.as_str());
            a2.append("」");
            tell(&mut out, OutputZone::Main, a2);
            proof {
                let opts = options_of(npc.dialogues@, topic@);
                let i = choose|i: int| 0 <= i < opts.len() && effective_weight(opts[i], *me) > 0 && d@ == #[trigger] opts[i].text@;
                assert(told(out@) =~= seq![
                    (OutputZone::Main, "💬 跟"@ + npc.name@ + "開始"@ + topic@ + "..."@),
                    (OutputZone::Main, npc.name@ + " 說：「"@ + opts[i].text@ + "」"@),
                ]);
            }
        },
        None => {
            let mut a1 = npc.name.clone();
            a1.append(" 對「");
            a1.append(topic);
            a1.append("」這個話題似乎不想說話。");
            tell(&mut out, OutputZone::Main, a1);
            proof {
                assert(told(out@) =~= seq![(OutputZone::Main, npc.name@ + " 對「"@ + topic@ + "」這個話題似乎不想說話。"@)]);
            }
        },
    }
    out
}

/// What `handle_talk` leaves behind and answers.
pub open spec fn handle_talk_done(old_world: GameWorld, new_world: GameWorld, current_id: Seq<char>, npc_name: Seq<char>, topic: Seq<char>, r: Seq<(OutputZone, String)>) -> bool {
    &&& new_world.npc_manager.wf()
    &&& new_world == (GameWorld { npc_manager: new_world.npc_manager, ..old_world })
    &&& ({
        let m = old_world.npc_manager;
        match m.found(current_id) {
            None => told(r) == seq![(OutputZone::Status, "無法取得當前角色資訊"@)] && new_world.npc_manager
                == m,
            Some(a) => {
                let me = m.people()[a].1;
                let c = here(m, old_world.current_map_name@, me.x, me.y);
                match first_meant(c, Some(current_id), npc_name) {
                    None => told(r) == seq![(OutputZone::Status, "此處找不到 "@ + npc_name)]
                        && new_world.npc_manager == m,
                    Some(k) => {
                        &&& talk_told(c[k].1, me, topic, told(r))
                        &&& match m.found(c[k].0) {
                            Some(j) => person_changed(
                                m,
                                new_world.npc_manager,
                                j,
                                Person {
                                    interaction_count: (m.people()[j].1.interaction_count + 1) as u32,
                                    ..m.people()[j].1
                                },
                            ),
                            None => new_world.npc_manager == m,
                        }
                    },
                }
            },
        }
    })
}

/// When `handle_talk` may be called.
pub open spec fn handle_talk_ready(old_world: GameWorld, current_id: Seq<char>, npc_name: Seq<char>, topic: Seq<char>) -> bool {
    &&& old_world.npc_manager.wf()
    &&& people_ok(old_world.npc_manager)
    &&& forall|i: int|
        0 <= i < old_world.npc_manager.people().len()
            ==> (#[trigger] old_world.npc_manager.people()[i]).1.interaction_count < u32::MAX
    &&& forall|i: int, j: int|
        0 <= i < old_world.npc_manager.people().len() && 0 <= j < old_world.npc_manager.people().len()
            ==> weight_total(
            options_of((#[trigger] old_world.npc_manager.people()[i]).1.dialogues@, topic),
            (#[trigger] old_world.npc_manager.people()[j]).1,
        ) <= usize::MAX
}

/// Talks on `topic` with the person `npc_name` standing where the
/// controlled person `current_id` stands (see [`Person::try_talk`]); the
/// talk counts as one more meeting with them.
pub fn handle_talk(game_world: &mut GameWorld, current_id: &str, npc_name: &str, topic: &str) -> (r: Vec<
    (OutputZone, String),
>)
    requires
        old(game_world).npc_manager.wf(),
        people_ok(old(game_world).npc_manager),
        forall|i: int|
            0 <= i < old(game_world).npc_manager.people().len()
                ==> (#[trigger] old(game_world).npc_manager.people()[i]).1.interaction_count < u32::MAX,
        forall|i: int, j: int|
            0 <= i < old(game_world).npc_manager.people().len() && 0 <= j < old(game_world).npc_manager.people().len()
                ==> weight_total(
                options_of((#[trigger] old(game_world).npc_manager.people()[i]).1.dialogues@, topic@),
                (#[trigger] old(game_world).npc_manager.people()[j]).1,
            ) <= usize::MAX,
    ensures
        handle_talk_done(*old(game_world), *final(game_world), current_id@, npc_name@, topic@, r@),
{
    let ghost m = game_world.npc_manager;
    let mut out: Vec<(OutputZone, String)> = Vec::new();
    let me = match game_world.npc_manager.get_npc(current_id) {
        Some(p) => p,
        None => {
            tell(&mut out, OutputZone::Status, String::from_str("無法取得當前角色資訊"));
            proof {
                assert(told(out@) =~= seq![(OutputZone::Status, "無法取得當前角色資訊"@)]);
            }
            return out;
        },
    };
    let ghost a = m.found(current_id@)->0;
    let found = find_here(
        &game_world.npc_manager,
        game_world.current_map_name.as_str(),
        me.x,
        me.y,
        Some(current_id),
        npc_name,
    );
    let (npc_id, npc) = match found {
        Some(e) => e,
        None => {
            tell(&mut out, OutputZone::Status, crate::text::concat("此處找不到 ", npc_name));
            proof {
                assert(told(out@) =~= seq![(OutputZone::Status, "此處找不到 "@ + npc_name@)]);
            }
            return out;
        },
    };
    proof {
        crate::npc_manager::lemma_found_in_range(m, current_id@);
        let k = first_meant(here(m, game_world.current_map_name@, me.x, me.y), Some(current_id@), npc_name@)->0;
        crate::npc_manager::lemma_where_members(m.people(), |e: (String, Person)| at_spot(e, Some(game_world.current_map_name@), me.x, me.y, None), k);
        assert(npc.wf() && total_of(npc.items.listing()) <= u32::MAX);
    }
    let out = talk_to(npc, me, topic);
    match game_world.npc_manager.get_npc_mut(npc_id.as_str()) {
        Some(n) => {
            proof {
                let j = m.found(npc_id@)->0;
                crate::npc_manager::lemma_found_in_range(m, npc_id@);
            }
            n.interaction_count = n.interaction_count + 1;
        },
        None => {},
    }
    out
}


/// The item that a name typed by the player stands for (see
/// [`crate::item_registry::resolve_item_name`]).
pub open spec fn resolved_item(input: Seq<char>) -> Seq<char> {
    match chinese_of(lowercase(input)) {
        Some(c) => c,
        None => input,
    }
}

/// The health an item gives when used on someone: a food's, 50 for
/// anything else.
pub open spec fn heal_of(item: Seq<char>) -> i32 {
    match food_hp(item) {
        Some(h) => h,
        None => 50,
    }
}

/// `p` with one `item` fewer.
pub open spec fn one_used(before: Person, after: Person, item: Seq<char>) -> bool {
    &&& after == (Person { items: after.items, ..before })
    &&& after.wf()
    &&& after.items.amount(item) == taken(before.items.amount(item), 1)
    &&& forall|k: Seq<char>| k != item ==> #[trigger] after.items.amount(k) == before.items.amount(k)
}

/// `after` is `before` treated with something healing `heal`: its health
/// changed by `heal` (see [`crate::person::hp_check`]), its liking raised by 2.
pub open spec fn treated(before: Person, after: Person, heal: i32, descs: PersonDescriptions) -> bool {
    let h = hp_check(before.hp, before.max_hp, heal);
    let rel = clamp_int(before.relationship + 2, -100, 100);
    &&& after == (Person {
        hp: h.0 as i32,
        status: after.status,
        description: after.description,
        relationship: rel as i32,
        dialogue_state: after.dialogue_state,
        ..before
    })
    &&& after.status@ == h.1
    &&& after.description@ == person_words(descs, Person { hp: h.0 as i32, ..before })
    &&& after.dialogue_state@ == dialogue_state_text(rel as i32)
}

/// What `handle_use_item_on` leaves behind and answers.
pub open spec fn handle_use_item_on_done(old_world: GameWorld, new_world: GameWorld, current_id: Seq<char>, item_name: Seq<char>, npc_name: Seq<char>, r: Seq<(OutputZone, String)>) -> bool {
    &&& new_world.npc_manager.wf()
    &&& new_world == (GameWorld { npc_manager: new_world.npc_manager, ..old_world })
    &&& ({
        let m = old_world.npc_manager;
        let item = resolved_item(item_name);
        match m.found(current_id) {
            None => told(r) =~= seq![(OutputZone::Status, "找不到當前控制的角色"@)] && new_world.npc_manager
                == m,
            Some(a) => {
                let me = m.people()[a].1;
                let c = here(m, old_world.current_map_name@, me.x, me.y);
                match first_meant(c, None, npc_name) {
                    None => told(r) =~= seq![(OutputZone::Status, "此處找不到 "@ + npc_name)]
                        && new_world.npc_manager == m,
                    Some(k) => if !(me.items.amount(item) matches Some(n) && n > 0) {
                        told(r) =~= seq![(OutputZone::Status, "你沒有 "@ + item_name)]
                            && new_world.npc_manager.people() == m.people()
                            && new_world.npc_manager.alias_list() == m.alias_list()
                            && new_world.npc_manager.distance_list() == m.distance_list()
                    } else {
                        exists|spent: Person|
                            #[trigger] one_used(me, spent, item) && {
                                let m1 = m.people().update(a, (m.people()[a].0, spent));
                                match m.found(c[k].0) {
                                    None => new_world.npc_manager.people() == m1 && told(r).len() == 0,
                                    Some(j) => {
                                        let healed = new_world.npc_manager.people()[j].1;
                                        &&& new_world.npc_manager.people() == m1.update(j, (m1[j].0, healed))
                                        &&& treated(m1[j].1, healed, heal_of(item), old_world.person_descriptions)
                                        &&& exists|d: Seq<char>|
                                            display_name_of(item, d) && told(r) =~= seq![
                                                (OutputZone::Main, "你對 "@ + healed.name@ + " 使用了 "@ + d + "，"@
                                                    + healed.name@ + " 回復到 "@ + signed_decimal(healed.hp as int) + "/"@
                                                    + signed_decimal(healed.max_hp as int) + " HP"@),
                                            ]
                                    },
                                }
                            } && new_world.npc_manager.alias_list() == m.alias_list()
                            && new_world.npc_manager.distance_list() == m.distance_list()
                    },
                }
            },
        }
    })
}

/// When `handle_use_item_on` may be called.
pub open spec fn handle_use_item_on_ready(old_world: GameWorld, current_id: Seq<char>, item_name: Seq<char>, npc_name: Seq<char>) -> bool {
    &&& old_world.npc_manager.wf()
    &&& people_ok(old_world.npc_manager)
    &&& forall|i: int|
        0 <= i < old_world.npc_manager.people().len() ==> (#[trigger] old_world.npc_manager.people()[i]).1.hp
            + 800 <= i32::MAX && old_world.npc_manager.people()[i].1.relationship + 2 <= i32::MAX
}

/// Uses one `item_name` of the controlled person `current_id` on the
/// person `npc_name` standing at the same place: the item is spent, and
/// the person heals (a food's worth, 50 otherwise) and likes the player
/// 2 more.
pub fn handle_use_item_on(game_world: &mut GameWorld, current_id: &str, item_name: &str, npc_name: &str) -> (r: Vec<
    (OutputZone, String),
>)
    requires
        old(game_world).npc_manager.wf(),
        people_ok(old(game_world).npc_manager),
        forall|i: int|
            0 <= i < old(game_world).npc_manager.people().len() ==> (#[trigger] old(game_world).npc_manager.people()[i]).1.hp
                + 800 <= i32::MAX && old(game_world).npc_manager.people()[i].1.relationship + 2 <= i32::MAX,
    ensures
        handle_use_item_on_done(*old(game_world), *final(game_world), current_id@, item_name@, npc_name@, r@),
{
    let ghost m = game_world.npc_manager;
    let resolved = resolve_item_name(item_name);
    let mut out: Vec<(OutputZone, String)> = Vec::new();
    let me = match game_world.npc_manager.get_npc(current_id) {
        Some(p) => p,
        None => {
            tell(&mut out, OutputZone::Status, String::from_str("找不到當前控制的角色"));
            proof {
                assert(told(out@) =~= seq![(OutputZone::Status, "找不到當前控制的角色"@)]);
            }
            return out;
        },
    };
    let target = find_here(
        &game_world.npc_manager,
        game_world.current_map_name.as_str(),
        me.x,
        me.y,
        None,
        npc_name,
    );
    let target_id = match target {
        Some(e) => e.0,
        None => {
            tell(&mut out, OutputZone::Status, crate::text::concat("此處找不到 ", npc_name));
            proof {
                assert(told(out@) =~= seq![(OutputZone::Status, "此處找不到 "@ + npc_name@)]);
            }
            return out;
        },
    };
    proof {
        crate::npc_manager::lemma_found_in_range(m, current_id@);
    }
    let ghost a = m.found(current_id@)->0;
    let ghost me_before = m.people()[a].1;
    let me_mut = match game_world.npc_manager.get_npc_mut(current_id) {
        Some(p) => p,
        None => {
            return out;
        },
    };
    let have = me_mut.items.get_item_count(resolved.as_str());
    if have == 0 {
        tell(&mut out, OutputZone::Status, crate::text::concat("你沒有 ", item_name));
        proof {
            assert(told(out@) =~= seq![(OutputZone::Status, "你沒有 "@ + item_name@)]);
            assert(game_world.npc_manager.people() =~= m.people());
        }
        return out;
    }
    me_mut.remove_item(resolved.as_str(), 1);
    let ghost spent = *me_mut;
    let display_name = get_item_display_name(resolved.as_str());
    let ghost m1 = m.people().update(a, (m.people()[a].0, spent));
    proof {
        assert(one_used(me_before, spent, resolved@));
        assert(game_world.npc_manager.people() == m1);
        crate::command_interact::lemma_found_after_change(m, game_world.npc_manager, a, spent, target_id@);
    }
    match game_world.npc_manager.get_npc_mut(target_id.as_str()) {
        Some(t) => {
            proof {
                crate::npc_manager::lemma_found_in_range(m, target_id@);
                let j = m.found(target_id@)->0;
                assert(*t == m1[j].1);
                assert(m1[j].1.hp + 800 <= i32::MAX && m1[j].1.relationship + 2 <= i32::MAX) by {
                    assert(m.people()[j].1.hp == m1[j].1.hp || j == a);
                }
            }
            let heal = match get_food_hp(resolved.as_str()) {
                Some(h) => h,
                None => 50,
            };
            t.check_hp(heal, &game_world.person_descriptions);
            t.change_relationship(2);
            let mut line = String::from_str("你對 ");
            line.append(t.name.as_str());
            line.append(" 使用了 ");
            line.append(display_name.as_str());
            line.append("，");
            line.append(t.name.as_str());
            line.append(" 回復到 ");
            push_signed(&mut line, t.hp as i64);
            line.append("/");
            push_signed(&mut line, t.max_hp as i64);
            line.append(" HP");
            tell(&mut out, OutputZone::Main, line);
            proof {
                reveal_strlit("你對 ");
                reveal_strlit(" 使用了 ");
                reveal_strlit("，");
                reveal_strlit(" 回復到 ");
                reveal_strlit("/");
                reveal_strlit(" HP");
                assert(display_name_of(resolved@, display_name@));
            }
        },
        None => {},
    }
    out
}

/// Changing one person, without touching names, ids or aliases, leaves
/// what each name finds as it was.
pub proof fn lemma_found_after_change(m: NpcManager, t: NpcManager, a: int, p: Person, q: Seq<char>)
    requires
        0 <= a < m.people().len(),
        t.people() == m.people().update(a, (m.people()[a].0, p)),
        p.name == m.people()[a].1.name,
        t.alias_list() == m.alias_list(),
    ensures
        t.found(q) == m.found(q),
{
    assert forall|j: int| 0 <= j < m.people().len() implies (#[trigger] t.people()[j]).0 == m.people()[j].0
        && t.people()[j].1.name == m.people()[j].1.name by {}
    lemma_found_stable(m, t, q);
}


/// `v + a` stays an `i32`.
pub open spec fn fits(v: i32, a: i32) -> bool {
    i32::MIN <= v + a <= i32::MAX
}

/// A raise of the stat `stat` (in lower case) by `amount` can be made
/// without overflow.
pub open spec fn boost_fits(p: Person, stat: Seq<char>, amount: i32) -> bool {
    if stat == "hp"@ || stat == "體力"@ {
        fits(p.max_hp, amount) && fits(p.hp, amount)
    } else if stat == "mp"@ || stat == "精神"@ {
        fits(p.max_mp, amount) && fits(p.mp, amount)
    } else if stat == "strength"@ || stat == "力量"@ {
        fits(p.strength, amount)
    } else if stat == "knowledge"@ || stat == "知識"@ {
        fits(p.knowledge, amount)
    } else if stat == "sociality"@ || stat == "交誼"@ {
        fits(p.sociality, amount)
    } else {
        true
    }
}

/// `p` with the stat `stat` (in lower case) raised by `amount`: health
/// (its most and its present value), will power (likewise), strength,
/// knowledge or sociality; nothing for any other name.
pub open spec fn boosted(p: Person, stat: Seq<char>, amount: i32) -> Option<Person> {
    if stat == "hp"@ || stat == "體力"@ {
        Some(Person { max_hp: (p.max_hp + amount) as i32, hp: (p.hp + amount) as i32, ..p })
    } else if stat == "mp"@ || stat == "精神"@ {
        Some(Person { max_mp: (p.max_mp + amount) as i32, mp: (p.mp + amount) as i32, ..p })
    } else if stat == "strength"@ || stat == "力量"@ {
        Some(Person { strength: (p.strength + amount) as i32, ..p })
    } else if stat == "knowledge"@ || stat == "知識"@ {
        Some(Person { knowledge: (p.knowledge + amount) as i32, ..p })
    } else if stat == "sociality"@ || stat == "交誼"@ {
        Some(Person { sociality: (p.sociality + amount) as i32, ..p })
    } else {
        None
    }
}

/// Whether `v + a` stays within an `i32`.
fn fits_exec(v: i32, a: i32) -> (r: bool)
    ensures
        r == fits(v, a),
{
    v.checked_add(a).is_some()
}

/// Raises the stat `stat` of `person` by `amount` as [`boost_stat`] does
/// when the raise fits an `i32` (see [`boost_fits`]); otherwise leaves
/// `person` as it is and answers nothing.
pub fn try_boost_stat(person: &mut Person, stat: &str, amount: i32) -> (r: Option<Vec<(OutputZone, String)>>)
    ensures
        !boost_fits(*old(person), lowercase(stat@), amount) ==> r is None && *final(person) == *old(person),
        boost_fits(*old(person), lowercase(stat@), amount) ==> (r matches Some(out) && match boosted(
            *old(person),
            lowercase(stat@),
            amount,
        ) {
            Some(p) => *final(person) == p && told(out@).len() == 0,
            None => *final(person) == *old(person) && told(out@) == seq![
                (OutputZone::Log, "未知的屬性加成: "@ + lowercase(stat@)),
            ],
        }),
{
    let s = to_lowercase(stat);
    let k = s.as_str();
    proof {
        reveal_strlit("hp");
        reveal_strlit("體力");
        reveal_strlit("mp");
        reveal_strlit("精神");
        reveal_strlit("strength");
        reveal_strlit("力量");
        reveal_strlit("knowledge");
        reveal_strlit("知識");
        reveal_strlit("sociality");
        reveal_strlit("交誼");
    }
    let ok = if str_eq(k, "hp") || str_eq(k, "體力") {
        fits_exec(person.max_hp, amount) && fits_exec(person.hp, amount)
    } else if str_eq(k, "mp") || str_eq(k, "精神") {
        fits_exec(person.max_mp, amount) && fits_exec(person.mp, amount)
    } else if str_eq(k, "strength") || str_eq(k, "力量") {
        fits_exec(person.strength, amount)
    } else if str_eq(k, "knowledge") || str_eq(k, "知識") {
        fits_exec(person.knowledge, amount)
    } else if str_eq(k, "sociality") || str_eq(k, "交誼") {
        fits_exec(person.sociality, amount)
    } else {
        true
    };
    if !ok {
        return None;
    }
    Some(boost_stat(person, stat, amount))
}

/// Raises the stat `stat` of `person` by `amount` (see [`boosted`]); an
/// unknown stat is noted in the log.
pub fn boost_stat(person: &mut Person, stat: &str, amount: i32) -> (r: Vec<(OutputZone, String)>)
    requires
        boost_fits(*old(person), lowercase(stat@), amount),
    ensures
        match boosted(*old(person), lowercase(stat@), amount) {
            Some(p) => *final(person) == p && told(r@).len() == 0,
            None => *final(person) == *old(person) && told(r@) == seq![
                (OutputZone::Log, "未知的屬性加成: "@ + lowercase(stat@)),
            ],
        },
{
    let s = to_lowercase(stat);
    let k = s.as_str();
    let mut out: Vec<(OutputZone, String)> = Vec::new();
    proof {
        reveal_strlit("hp");
        reveal_strlit("體力");
        reveal_strlit("mp");
        reveal_strlit("精神");
        reveal_strlit("strength");
        reveal_strlit("力量");
        reveal_strlit("knowledge");
        reveal_strlit("知識");
        reveal_strlit("sociality");
        reveal_strlit("交誼");
    }
    if str_eq(k, "hp") || str_eq(k, "體力") {
        person.max_hp = person.max_hp + amount;
        person.hp = person.hp + amount;
    } else if str_eq(k, "mp") || str_eq(k, "精神") {
        person.max_mp = person.max_mp + amount;
        person.mp = person.mp + amount;
    } else if str_eq(k, "strength") || str_eq(k, "力量") {
        person.strength = person.strength + amount;
    } else if str_eq(k, "knowledge") || str_eq(k, "知識") {
        person.knowledge = person.knowledge + amount;
    } else if str_eq(k, "sociality") || str_eq(k, "交誼") {
        person.sociality = person.sociality + amount;
    } else {
        tell(&mut out, OutputZone::Log, crate::text::concat("未知的屬性加成: ", k));
        proof {
            assert(told(out@) =~= seq![(OutputZone::Log, "未知的屬性加成: "@ + lowercase(stat@))]);
        }
    }
    out
}

/// The rewards' numbers are small: each at most 2^20 in size.
pub open spec fn reward_small(rw: QuestReward) -> bool {
    match rw {
        QuestReward::Item { count, .. } => count <= 0x10_0000,
        QuestReward::Experience { amount } => amount <= 0x10_0000,
        QuestReward::Relationship { change, .. } => -0x10_0000 <= change <= 0x10_0000,
        QuestReward::UnlockDialogue { .. } => true,
        QuestReward::StatBoost { amount, .. } => -0x10_0000 <= amount <= 0x10_0000,
    }
}

/// The people's numbers are at most `lim` in size.
pub open spec fn people_within(m: NpcManager, lim: int) -> bool {
    forall|i: int|
        0 <= i < m.people().len() ==> {
            let p = (#[trigger] m.people()[i]).1;
            &&& -lim <= p.hp <= lim && -lim <= p.max_hp <= lim && -lim <= p.mp <= lim && -lim <= p.max_mp <= lim
            &&& -lim <= p.strength <= lim && -lim <= p.knowledge <= lim && -lim <= p.sociality <= lim
            &&& -lim <= p.combat_exp <= lim && -lim <= p.relationship <= lim
            &&& p.wf()
            &&& forall|k: Seq<char>| #[trigger] p.items.count_of(k) <= lim
        }
}

/// `m2` and `t` follow from `m` by granting the reward `rw` (what the
/// player is told, and how the player, or the person the reward names,
/// changes).
pub open spec fn reward_step(
    m: NpcManager,
    m2: NpcManager,
    rw: QuestReward,
    descs: PersonDescriptions,
    t: Seq<(OutputZone, Seq<char>)>,
) -> bool {
    &&& m2.wf()
    &&& m2.alias_list() == m.alias_list()
    &&& m2.distance_list() == m.distance_list()
    &&& match rw {
        QuestReward::Item { item, count } => {
            &&& exists|d: Seq<char>|
                display_name_of(item@, d) && t == seq![(OutputZone::Main, "  - 物品: "@ + d + " x"@ + decimal(count as nat))]
            &&& match m.found("me"@) {
                None => m2.people() == m.people(),
                Some(a) => {
                    let p = m2.people()[a].1;
                    &&& m2.people() == m.people().update(a, (m.people()[a].0, p))
                    &&& p == (Person { items: p.items, ..m.people()[a].1 })
                    &&& p.wf()
                    &&& p.items.amount(item@) == Some((m.people()[a].1.items.count_of(item@) + count) as u32)
                    &&& forall|k: Seq<char>| k != item@ ==> #[trigger] p.items.amount(k) == m.people()[a].1.items.amount(k)
                },
            }
        },
        QuestReward::Experience { amount } => {
            &&& t == seq![(OutputZone::Main, "  - 經驗值: "@ + decimal(amount as nat))]
            &&& match m.found("me"@) {
                None => m2.people() == m.people(),
                Some(a) => m2.people() == m.people().update(
                    a,
                    (
                        m.people()[a].0,
                        Person {
                            combat_exp: (m.people()[a].1.combat_exp + (amount as i32)) as i32,
                            ..m.people()[a].1
                        },
                    ),
                ),
            }
        },
        QuestReward::Relationship { npc_id, change } => match m.found(npc_id@) {
            None => t.len() == 0 && m2.people() == m.people(),
            Some(j) => {
                let p = m2.people()[j].1;
                &&& m2.people() == m.people().update(j, (m.people()[j].0, p))
                &&& p.relationship == clamp_int(m.people()[j].1.relationship + change, -100, 100)
                &&& p.dialogue_state@ == dialogue_state_text(p.relationship)
                &&& p == (Person { relationship: p.relationship, dialogue_state: p.dialogue_state, ..m.people()[j].1 })
                &&& t == seq![(OutputZone::Main, "  - "@ + npc_id@ + " 對你的好感度變化: "@ + signed_decimal(change as int))]
            },
        },
        QuestReward::UnlockDialogue { npc_id, scene, text } => match m.found(npc_id@) {
            None => t.len() == 0 && m2.people() == m.people(),
            Some(j) => {
                let p = m2.people()[j].1;
                &&& m2.people() == m.people().update(j, (m.people()[j].0, p))
                &&& p == (Person { dialogues: p.dialogues, ..m.people()[j].1 })
                &&& exists|o: DialogueOption|
                    #[trigger] option_added(m.people()[j].1.dialogues@, p.dialogues@, scene@, o) && line_set(
                        o,
                        text@,
                        None,
                    )
                &&& t == seq![(OutputZone::Main, "  - 解鎖 "@ + npc_id@ + " 的 "@ + scene@ + " 對話"@)]
            },
        },
        QuestReward::StatBoost { stat, amount } => {
            let head = seq![(OutputZone::Main, "  - 屬性提升: "@ + stat@ + " +"@ + signed_decimal(amount as int))];
            match m.found("me"@) {
                None => t == head && m2.people() == m.people(),
                Some(a) => match boosted(m.people()[a].1, lowercase(stat@), amount) {
                    Some(p) => t == head && m2.people() == m.people().update(a, (m.people()[a].0, p)),
                    None => t == head + seq![(OutputZone::Log, "未知的屬性加成: "@ + lowercase(stat@))]
                        && m2.people() == m.people(),
                },
            }
        },
    }
}

/// Granting `rw` cannot overflow.
pub open spec fn reward_fits(m: NpcManager, rw: QuestReward) -> bool {
    match rw {
        QuestReward::Item { item, count } => m.found("me"@) matches Some(a) ==> m.people()[a].1.wf()
            && m.people()[a].1.items.count_of(item@) + count <= u32::MAX,
        QuestReward::Experience { amount } => m.found("me"@) matches Some(a) ==> amount <= i32::MAX && fits(
            m.people()[a].1.combat_exp,
            amount as i32,
        ),
        QuestReward::Relationship { npc_id, change } => m.found(npc_id@) matches Some(j) ==> fits(
            m.people()[j].1.relationship,
            change,
        ),
        QuestReward::UnlockDialogue { .. } => true,
        QuestReward::StatBoost { stat, amount } => m.found("me"@) matches Some(a) ==> boost_fits(
            m.people()[a].1,
            lowercase(stat@),
            amount,
        ),
    }
}

/// Grants one reward to the player (or to the person it names) and tells
/// it (see [`reward_step`]).
fn grant_reward(game_world: &mut GameWorld, reward: QuestReward) -> (r: Vec<(OutputZone, String)>)
    requires
        old(game_world).npc_manager.wf(),
        reward_fits(old(game_world).npc_manager, reward),
    ensures
        reward_step(
            old(game_world).npc_manager,
            final(game_world).npc_manager,
            reward,
            old(game_world).person_descriptions,
            told(r@),
        ),
        *final(game_world) == (GameWorld { npc_manager: final(game_world).npc_manager, ..*old(game_world) }),
{
    let ghost m = game_world.npc_manager;
    let ghost rw = reward;
    let mut out: Vec<(OutputZone, String)> = Vec::new();
    proof {
        reveal_strlit("me");
        reveal_strlit("  - 物品: ");
        reveal_strlit(" x");
        reveal_strlit("  - 經驗值: ");
        reveal_strlit("  - ");
        reveal_strlit(" 對你的好感度變化: ");
        reveal_strlit("  - 解鎖 ");
        reveal_strlit(" 的 ");
        reveal_strlit(" 對話");
        reveal_strlit("  - 屬性提升: ");
        reveal_strlit(" +");
    }
    match reward {
        QuestReward::Item { item, count } => {
            let display_name = get_item_display_name(item.as_str());
            let mut line = String::from_str("  - 物品: ");
            line.append(display_name.as_str());
            line.append(" x");
            push_decimal(&mut line, count as u64);
            tell(&mut out, OutputZone::Main, line);
            proof {
                assert(display_name_of(item@, display_name@));
                assert(told(out@) =~= seq![(OutputZone::Main, "  - 物品: "@ + display_name@ + " x"@ + decimal(count as nat))]);
            }
            match game_world.npc_manager.get_npc_mut("me") {
                Some(me) => {
                    me.add_items(item, count);
                },
                None => {},
            }
        },
        QuestReward::Experience { amount } => {
            let mut line = String::from_str("  - 經驗值: ");
            push_decimal(&mut line, amount as u64);
            tell(&mut out, OutputZone::Main, line);
            proof {
                assert(told(out@) =~= seq![(OutputZone::Main, "  - 經驗值: "@ + decimal(amount as nat))]);
            }
            match game_world.npc_manager.get_npc_mut("me") {
                Some(me) => {
                    me.combat_exp = me.combat_exp + amount as i32;
                },
                None => {},
            }
        },
        QuestReward::Relationship { npc_id, change } => {
            match game_world.npc_manager.get_npc_mut(npc_id.as_str()) {
                Some(npc) => {
                    npc.change_relationship(change);
                    let mut line = String::from_str("  - ");
                    line.append(npc_id.as_str());
                    line.append(" 對你的好感度變化: ");
                    push_signed(&mut line, change as i64);
                    tell(&mut out, OutputZone::Main, line);
                    proof {
                        assert(told(out@) =~= seq![
                            (OutputZone::Main, "  - "@ + npc_id@ + " 對你的好感度變化: "@ + signed_decimal(change as int)),
                        ]);
                    }
                },
                None => {},
            }
        },
        QuestReward::UnlockDialogue { npc_id, scene, text } => {
            match game_world.npc_manager.get_npc_mut(npc_id.as_str()) {
                Some(npc) => {
                    let option = DialogueOption::new(text);
                    let ghost o = option;
                    npc.add_dialogue_option(scene.clone(), option);
                    let mut line = String::from_str("  - 解鎖 ");
                    line.append(npc_id.as_str());
                    line.append(" 的 ");
                    line.append(scene.as_str());
                    line.append(" 對話");
                    tell(&mut out, OutputZone::Main, line);
                    proof {
                        assert(line_set(o, o.text@, None));
                        assert(told(out@) =~= seq![(OutputZone::Main, "  - 解鎖 "@ + npc_id@ + " 的 "@ + scene@ + " 對話"@)]);
                    }
                },
                None => {},
            }
        },
        QuestReward::StatBoost { stat, amount } => {
            let mut line = String::from_str("  - 屬性提升: ");
            line.append(stat.as_str());
            line.append(" +");
            push_signed(&mut line, amount as i64);
            tell(&mut out, OutputZone::Main, line);
            let ghost head = told(out@);
            proof {
                assert(head =~= seq![(OutputZone::Main, "  - 屬性提升: "@ + stat@ + " +"@ + signed_decimal(amount as int))]);
            }
            match game_world.npc_manager.get_npc_mut("me") {
                Some(me) => {
                    let logged = boost_stat(me, stat.as_str(), amount);
                    if logged.len() > 0 {
                        let ghost before = told(out@);
                        let mut logged = logged;
                        let e = logged.remove(0);
                        tell(&mut out, e.0, e.1);
                        proof {
                            assert(told(out@) =~= head + seq![(OutputZone::Log, "未知的屬性加成: "@ + lowercase(stat@))]);
                        }
                    }
                },
                None => {},
            }
            proof {
                if m.found("me"@) is Some {
                    let a = m.found("me"@)->0;
                    if boosted(m.people()[a].1, lowercase(stat@), amount) is None {
                        assert(game_world.npc_manager.people() =~= m.people());
                    }
                }
            }
        },
    }
    out
}


/// The lines of `parts`, one part after the other.
pub open spec fn flat(parts: Seq<Seq<(OutputZone, Seq<char>)>>) -> Seq<(OutputZone, Seq<char>)>
    decreases parts.len(),
{
    if parts.len() == 0 {
        Seq::empty()
    } else {
        flat(parts.drop_last()) + parts.last()
    }
}

/// `states` and `parts` show `rewards` granted one after the other, from
/// `states[0]` on.
pub open spec fn rewards_granted(
    states: Seq<NpcManager>,
    parts: Seq<Seq<(OutputZone, Seq<char>)>>,
    rewards: Seq<QuestReward>,
    descs: PersonDescriptions,
) -> bool {
    &&& states.len() == rewards.len() + 1
    &&& parts.len() == rewards.len()
    &&& forall|k: int|
        0 <= k < rewards.len() ==> reward_step(states[k], states[k + 1], #[trigger] rewards[k], descs, parts[k])
}

proof fn lemma_reward_fits(m: NpcManager, rw: QuestReward, lim: int)
    requires
        people_within(m, lim),
        reward_small(rw),
        0 <= lim,
        lim + 0x10_0000 <= i32::MAX,
    ensures
        reward_fits(m, rw),
{
    crate::npc_manager::lemma_found_in_range(m, "me"@);
    match rw {
        QuestReward::Item { item, count } => {
            if m.found("me"@) is Some {
                let a = m.found("me"@)->0;
                let p = m.people()[a].1;
                assert(p.items.count_of(item@) <= lim);
            }
        },
        QuestReward::Relationship { npc_id, change } => {
            crate::npc_manager::lemma_found_in_range(m, npc_id@);
        },
        _ => {},
    }
}

proof fn lemma_step_within(
    m: NpcManager,
    m2: NpcManager,
    rw: QuestReward,
    descs: PersonDescriptions,
    t: Seq<(OutputZone, Seq<char>)>,
    lim: int,
)
    requires
        reward_step(m, m2, rw, descs, t),
        people_within(m, lim),
        reward_small(rw),
        0 <= lim,
        lim + 0x10_0000 <= i32::MAX,
    ensures
        people_within(m2, lim + 0x10_0000),
{
    let l2 = lim + 0x10_0000;
    crate::npc_manager::lemma_found_in_range(m, "me"@);
    assert forall|i: int| 0 <= i < m2.people().len() implies {
        let p = (#[trigger] m2.people()[i]).1;
        &&& -l2 <= p.hp <= l2 && -l2 <= p.max_hp <= l2 && -l2 <= p.mp <= l2 && -l2 <= p.max_mp <= l2
        &&& -l2 <= p.strength <= l2 && -l2 <= p.knowledge <= l2 && -l2 <= p.sociality <= l2
        &&& -l2 <= p.combat_exp <= l2 && -l2 <= p.relationship <= l2
        &&& p.wf()
        &&& forall|k: Seq<char>| #[trigger] p.items.count_of(k) <= l2
    } by {
        let q = m.people()[i].1;
        assert(m.people()[i] == m.people()[i]);
        match rw {
            QuestReward::Item { item, count } => {
                if m.found("me"@) is Some && i == m.found("me"@)->0 {
                    let p = m2.people()[i].1;
                    assert forall|k: Seq<char>| #[trigger] p.items.count_of(k) <= l2 by {
                        assert(q.items.count_of(k) <= lim);
                    }
                }
            },
            QuestReward::Relationship { npc_id, change } => {
                crate::npc_manager::lemma_found_in_range(m, npc_id@);
            },
            QuestReward::UnlockDialogue { npc_id, .. } => {
                crate::npc_manager::lemma_found_in_range(m, npc_id@);
            },
            _ => {},
        }
        assert forall|k: Seq<char>| #[trigger] q.items.count_of(k) <= l2 by {
            assert(q.items.count_of(k) <= lim);
        }
    }
}

/// Grants the `rewards` one after the other (see [`reward_step`]) and
/// tells each. The numbers involved are taken to be small enough that no
/// sum overflows: the people's at most 2^30, each reward's at most 2^20,
/// and at most 512 rewards.
pub fn apply_quest_rewards(game_world: &mut GameWorld, rewards: Vec<QuestReward>) -> (r: Vec<(OutputZone, String)>)
    requires
        old(game_world).npc_manager.wf(),
        people_within(old(game_world).npc_manager, 0x4000_0000),
        rewards@.len() <= 512,
        forall|k: int| 0 <= k < rewards@.len() ==> reward_small(#[trigger] rewards@[k]),
    ensures
        *final(game_world) == (GameWorld { npc_manager: final(game_world).npc_manager, ..*old(game_world) }),
        final(game_world).npc_manager.wf(),
        exists|states: Seq<NpcManager>, parts: Seq<Seq<(OutputZone, Seq<char>)>>|
            #[trigger] rewards_granted(states, parts, rewards@, old(game_world).person_descriptions) && states[0]
                == old(game_world).npc_manager && states[rewards@.len() as int] == final(game_world).npc_manager
                && told(r@) == flat(parts),
{
    let ghost rs = rewards@;
    let ghost descs = game_world.person_descriptions;
    let mut out: Vec<(OutputZone, String)> = Vec::new();
    let ghost mut states: Seq<NpcManager> = seq![game_world.npc_manager];
    let ghost mut parts: Seq<Seq<(OutputZone, Seq<char>)>> = Seq::empty();
    let mut k: usize = 0;
    let mut rewards = rewards;
    // take the rewards in order
    while rewards.len() > 0
        invariant
            rs.len() <= 512,
            forall|j: int| 0 <= j < rs.len() ==> reward_small(#[trigger] rs[j]),
            k + rewards@.len() == rs.len(),
            rewards@ == rs.skip(k as int),
            descs == game_world.person_descriptions,
            *game_world == (GameWorld { npc_manager: game_world.npc_manager, ..*old(game_world) }),
            game_world.npc_manager.wf(),
            people_within(game_world.npc_manager, 0x4000_0000 + k * 0x10_0000),
            states.len() == k + 1,
            parts.len() == k,
            states[0] == old(game_world).npc_manager,
            states[k as int] == game_world.npc_manager,
            forall|j: int| 0 <= j < k ==> reward_step(states[j], states[j + 1], #[trigger] rs[j], descs, parts[j]),
            told(out@) == flat(parts),
        decreases rewards@.len(),
    {
        let rw = rewards.remove(0);
        proof {
            assert(rs.skip(k as int)[0] == rs[k as int]);
            assert(rewards@ =~= rs.skip(k + 1));
            lemma_reward_fits(game_world.npc_manager, rw, 0x4000_0000 + k * 0x10_0000);
        }
        let ghost before = game_world.npc_manager;
        let part = grant_reward(game_world, rw);
        let ghost pv = told(part@);
        proof {
            lemma_step_within(before, game_world.npc_manager, rw, descs, pv, 0x4000_0000 + k * 0x10_0000);
        }
        let mut part = part;
        let ghost old_out = out@;
        out.append(&mut part);
        proof {
            assert(told(out@) =~= told(old_out) + pv);
            let ghost old_parts = parts;
            states = states.push(game_world.npc_manager);
            parts = parts.push(pv);
            assert(parts.drop_last() =~= old_parts);
            assert(flat(parts) == flat(old_parts) + pv);
        }
        k = k + 1;
    }
    proof {
        assert(rewards_granted(states, parts, rs, descs));
    }
    out
}


/// Every quest's rewards are few and small (see [`apply_quest_rewards`]).
pub open spec fn rewards_small(qm: crate::quest::QuestManager) -> bool {
    forall|i: int|
        0 <= i < qm.quest_seq().len() ==> (#[trigger] qm.quest_seq()[i]).rewards@.len() <= 512 && forall|k: int|
            0 <= k < qm.quest_seq()[i].rewards@.len() ==> reward_small(#[trigger] qm.quest_seq()[i].rewards@[k])
}

/// What `handle_quest_complete` leaves behind and answers.
pub open spec fn handle_quest_complete_done(old_world: GameWorld, new_world: GameWorld, quest_id: Seq<char>, r: Seq<(OutputZone, String)>) -> bool {
    &&& new_world.quest_manager.wf()
    &&& new_world.npc_manager.wf()
    &&& new_world == (GameWorld {
        quest_manager: new_world.quest_manager,
        npc_manager: new_world.npc_manager,
        ..old_world
    })
    &&& exists|res: Result<Vec<QuestReward>, String>|
        #[trigger] crate::quest::completed_with(
            old_world.quest_manager,
            new_world.quest_manager,
            quest_id,
            res,
        ) && match res {
            Err(e) => told(r) == seq![(OutputZone::Status, e@)]
                && new_world.npc_manager == old_world.npc_manager,
            Ok(rw) => {
                let name = match new_world.quest_manager.quest(quest_id) {
                    Some(q) => q.name@,
                    None => quest_id,
                };
                exists|states: Seq<NpcManager>, parts: Seq<Seq<(OutputZone, Seq<char>)>>|
                    #[trigger] rewards_granted(states, parts, rw@, old_world.person_descriptions)
                        && states[0] == old_world.npc_manager
                        && states[rw@.len() as int] == new_world.npc_manager && told(r) == seq![
                        (OutputZone::Main, "任務完成: "@ + name),
                        (OutputZone::Main, "獲得獎勵:"@),
                    ] + flat(parts)
            },
        }
}

/// When `handle_quest_complete` may be called.
pub open spec fn handle_quest_complete_ready(old_world: GameWorld, quest_id: Seq<char>) -> bool {
    &&& old_world.quest_manager.wf()
    &&& old_world.npc_manager.wf()
    &&& people_within(old_world.npc_manager, 0x4000_0000)
    &&& rewards_small(old_world.quest_manager)
}

/// Completes the quest `quest_id` (see
/// [`crate::quest::QuestManager::complete_quest`]); on success tells its
/// name and grants its rewards (see [`apply_quest_rewards`]), else tells
/// the error.
pub fn handle_quest_complete(game_world: &mut GameWorld, quest_id: &str) -> (r: Vec<(OutputZone, String)>)
    requires
        old(game_world).quest_manager.wf(),
        old(game_world).npc_manager.wf(),
        people_within(old(game_world).npc_manager, 0x4000_0000),
        rewards_small(old(game_world).quest_manager),
    ensures
        handle_quest_complete_done(*old(game_world), *final(game_world), quest_id@, r@),
{
    let ghost qm0 = game_world.quest_manager;
    let res = game_world.quest_manager.complete_quest(quest_id);
    let ghost rv = res;
    let mut out: Vec<(OutputZone, String)> = Vec::new();
    match res {
        Ok(rewards) => {
            let name = match game_world.quest_manager.get_quest(quest_id) {
                Some(q) => q.name.clone(),
                None => String::from_str(quest_id),
            };
            tell(&mut out, OutputZone::Main, crate::text::concat("任務完成: ", name.as_str()));
            tell(&mut out, OutputZone::Main, String::from_str("獲得獎勵:"));
            let ghost head = told(out@);
            proof {
                let q = qm0.quest(quest_id@)->0;
                let i = crate::quest::quest_index(qm0.quest_seq(), quest_id@);
                assert(qm0.quest_seq()[i] == q);
                assert(rewards@ == q.rewards@);
            }
            let mut granted = apply_quest_rewards(game_world, rewards);
            let ghost g = told(granted@);
            let ghost before = out@;
            out.append(&mut granted);
            proof {
                assert(told(out@) =~= told(before) + g);
                assert(head =~= seq![(OutputZone::Main, "任務完成: "@ + name@), (OutputZone::Main, "獲得獎勵:"@)]);
            }
        },
        Err(e) => {
            tell(&mut out, OutputZone::Status, e);
            proof {
                assert(told(out@) =~= seq![(OutputZone::Status, e@)]);
            }
        },
    }
    out
}


/// The chance, in percent, that calling out stops `npc`: half the liking
/// (rounded toward zero) above 50, within 0..=100.
pub open spec fn stop_rate(npc: Person) -> int {
    clamp_int(50 + div_toward_zero(npc.relationship as int, 2), 0, 100)
}

/// What calling out to `npc` did: when `stopped`, the person is now busy
/// with the player and says their line for being called, if one fits;
/// otherwise the person ignores the player and nothing changes.
pub open spec fn stop_told(before: Person, after: Person, stopped: bool, t: Seq<(OutputZone, Seq<char>)>) -> bool {
    if stopped {
        &&& after == (Person { is_interacting: true, ..before })
        &&& {
            let opts = options_of(before.dialogues@, "被叫住"@);
            let head = seq![(OutputZone::Main, "你叫住了 "@ + before.name@)];
            ||| t == head && weight_total(opts, after) == 0
            ||| exists|i: int|
                0 <= i < opts.len() && effective_weight(opts[i], after) > 0 && t == head + seq![
                    (OutputZone::Main, before.name@ + " 說：「"@ + (#[trigger] opts[i]).text@ + "」"@),
                ]
        }
    } else {
        after == before && t == seq![(OutputZone::Main, before.name@ + " 沒有理會你"@)]
    }
}

/// Calls out to `npc`, who stops with a chance that grows with their
/// liking (see [`stop_rate`]): a sure stop from a liking of 100, never
/// from -100. The answer says whether they stopped.
pub fn try_stop_npc(npc: &mut Person) -> (r: (bool, Vec<(OutputZone, String)>))
    requires
        old(npc).wf(),
        total_of(old(npc).items.listing()) <= u32::MAX,
        weight_total(options_of(old(npc).dialogues@, "被叫住"@), Person { is_interacting: true, ..*old(npc) })
            <= usize::MAX,
    ensures
        stop_told(*old(npc), *final(npc), r.0, told(r.1@)),
        stop_rate(*old(npc)) <= 0 ==> !r.0,
        stop_rate(*old(npc)) >= 100 ==> r.0,
{
    let mut out: Vec<(OutputZone, String)> = Vec::new();
    let half = npc.relationship / 2;
    let raw: i64 = 50 + half as i64;
    let rate: i64 = if raw < 0 {
        0
    } else if raw > 100 {
        100
    } else {
        raw
    };
    proof {
        assert(half == div_toward_zero(npc.relationship as int, 2));
    }
    let roll = random_below(100);
    proof {
        reveal_strlit("你叫住了 ");
        reveal_strlit(" 說：「");
        reveal_strlit("」");
        reveal_strlit(" 沒有理會你");
        reveal_strlit("被叫住");
    }
    if (roll as i64) < rate {
        npc.is_interacting = true;
        tell(&mut out, OutputZone::Main, crate::text::concat("你叫住了 ", npc.name.as_str()));
        let ghost head = told(out@);
        proof {
            assert(head =~= seq![(OutputZone::Main, "你叫住了 "@ + npc.name@)]);
        }
        match npc.get_weighted_dialogue("被叫住", npc) {
            Some(resp) => {
                let mut line = npc.name.clone();
                line.append(" 說：「");
                line.append(resp.as_str());
                line.append("」");
                tell(&mut out, OutputZone::Main, line);
                proof {
                    let opts = options_of(npc.dialogues@, "被叫住"@);
                    let i = choose|i: int| 0 <= i < opts.len() && effective_weight(opts[i], *npc) > 0 && resp@ == #[trigger] opts[i].text@;
                    assert(told(out@) =~= head + seq![
                        (OutputZone::Main, npc.name@ + " 說：「"@ + opts[i].text@ + "」"@),
                    ]);
                }
            },
            None => {},
        }
        (true, out)
    } else {
        let mut line = npc.name.clone();
        line.append(" 沒有理會你");
        tell(&mut out, OutputZone::Main, line);
        proof {
            assert(told(out@) =~= seq![(OutputZone::Main, npc.name@ + " 沒有理會你"@)]);
        }
        (false, out)
    }
}

/// The person stands on `map`, at most one step from (x, y).
pub open spec fn within_reach(p: Person, map: Seq<char>, x: usize, y: usize) -> bool {
    p.map@ == map && abs_diff(p.x as int, x as int) + abs_diff(p.y as int, y as int) <= 1
}

/// Everyone's position fits an `i32`, with room for a step.
pub open spec fn positions_small(m: NpcManager) -> bool {
    forall|i: int|
        0 <= i < m.people().len() ==> (#[trigger] m.people()[i]).1.x < 0x4000_0000 && m.people()[i].1.y < 0x4000_0000
}

/// What `handle_party` leaves behind and answers.
pub open spec fn handle_party_done(old_world: GameWorld, new_world: GameWorld, current_id: Seq<char>, npc_name: Seq<char>, r: Seq<(OutputZone, String)>) -> bool {
    &&& new_world.npc_manager.wf()
    &&& new_world == (GameWorld { npc_manager: new_world.npc_manager, ..old_world })
    &&& ({
        let m = old_world.npc_manager;
        let map = old_world.current_map_name@;
        match m.found(current_id) {
            None => told(r) =~= seq![(OutputZone::Status, "無法取得當前角色資訊"@)] && new_world.npc_manager
                == m,
            Some(a) => {
                let me = m.people()[a].1;
                match m.found(npc_name) {
                    None => told(r) =~= seq![(OutputZone::Status, "找不到 "@ + npc_name)]
                        && new_world.npc_manager == m,
                    Some(_) => match target_of(m, npc_name) {
                        None => told(r).len() == 0 && new_world.npc_manager == m,
                        Some(j) => {
                            let npc = m.people()[j].1;
                            if npc.map@ != map {
                                told(r) =~= seq![(OutputZone::Main, npc.name@ + " 不在這個地圖"@)]
                                    && new_world.npc_manager.people() =~= m.people()
                                    && new_world.npc_manager.alias_list() == m.alias_list()
                                    && new_world.npc_manager.distance_list() == m.distance_list()
                            } else if !within_reach(npc, map, me.x, me.y) {
                                told(r) =~= seq![(OutputZone::Main, npc.name@ + " 距離太遠，無法組隊"@)]
                                    && new_world.npc_manager.people() =~= m.people()
                                    && new_world.npc_manager.alias_list() == m.alias_list()
                                    && new_world.npc_manager.distance_list() == m.distance_list()
                            } else if npc.party_leader is Some {
                                told(r) =~= seq![(OutputZone::Main, npc.name@ + " 已經在隊伍中了"@)]
                                    && new_world.npc_manager.people() =~= m.people()
                                    && new_world.npc_manager.alias_list() == m.alias_list()
                                    && new_world.npc_manager.distance_list() == m.distance_list()
                            } else {
                                &&& told(r) =~= seq![(OutputZone::Main, npc.name@ + " 加入了你的隊伍"@)]
                                &&& new_world.npc_manager.people()[j].1.party_leader matches Some(l) && l@ == "me"@
                                &&& person_changed(
                                    m,
                                    new_world.npc_manager,
                                    j,
                                    Person { party_leader: new_world.npc_manager.people()[j].1.party_leader, ..npc },
                                )
                            }
                        },
                    },
                }
            },
        }
    })
}

/// When `handle_party` may be called.
pub open spec fn handle_party_ready(old_world: GameWorld, current_id: Seq<char>, npc_name: Seq<char>) -> bool {
    &&& old_world.npc_manager.wf()
    &&& positions_small(old_world.npc_manager)
}

/// Invites the person `npc_name` into the player's party: they must be on
/// the player's map, at most a step away from the controlled person
/// `current_id`, and not in a party yet.
pub fn handle_party(game_world: &mut GameWorld, current_id: &str, npc_name: &str) -> (r: Vec<(OutputZone, String)>)
    requires
        old(game_world).npc_manager.wf(),
        positions_small(old(game_world).npc_manager),
    ensures
        handle_party_done(*old(game_world), *final(game_world), current_id@, npc_name@, r@),
{
    let ghost m = game_world.npc_manager;
    let mut out: Vec<(OutputZone, String)> = Vec::new();
    let (x, y) = match game_world.npc_manager.get_npc(current_id) {
        Some(me) => (me.x, me.y),
        None => {
            tell(&mut out, OutputZone::Status, String::from_str("無法取得當前角色資訊"));
            proof {
                assert(told(out@) =~= seq![(OutputZone::Status, "無法取得當前角色資訊"@)]);
            }
            return out;
        },
    };
    proof {
        crate::npc_manager::lemma_found_in_range(m, current_id@);
    }
    let id = match game_world.npc_manager.resolve_id(npc_name) {
        Some(id) => id,
        None => {
            tell(&mut out, OutputZone::Status, crate::text::concat("找不到 ", npc_name));
            proof {
                assert(told(out@) =~= seq![(OutputZone::Status, "找不到 "@ + npc_name@)]);
            }
            return out;
        },
    };
    proof {
        crate::npc_manager::lemma_found_in_range(m, id@);
    }
    let npc = match game_world.npc_manager.get_npc_mut(id.as_str()) {
        Some(n) => n,
        None => {
            return out;
        },
    };
    proof {
        reveal_strlit(" 不在這個地圖");
        reveal_strlit(" 距離太遠，無法組隊");
        reveal_strlit(" 已經在隊伍中了");
        reveal_strlit(" 加入了你的隊伍");
        reveal_strlit("me");
    }
    if !str_eq(npc.map.as_str(), game_world.current_map_name.as_str()) {
        let mut line = npc.name.clone();
        line.append(" 不在這個地圖");
        tell(&mut out, OutputZone::Main, line);
        proof {
            assert(told(out@) =~= seq![(OutputZone::Main, npc.name@ + " 不在這個地圖"@)]);
        }
    } else if manhattan_distance(npc.x, npc.y, x, y) > 1 {
        let mut line = npc.name.clone();
        line.append(" 距離太遠，無法組隊");
        tell(&mut out, OutputZone::Main, line);
        proof {
            assert(told(out@) =~= seq![(OutputZone::Main, npc.name@ + " 距離太遠，無法組隊"@)]);
        }
    } else if npc.party_leader.is_some() {
        let mut line = npc.name.clone();
        line.append(" 已經在隊伍中了");
        tell(&mut out, OutputZone::Main, line);
        proof {
            assert(told(out@) =~= seq![(OutputZone::Main, npc.name@ + " 已經在隊伍中了"@)]);
        }
    } else {
        npc.party_leader = Some(String::from_str("me"));
        let mut line = npc.name.clone();
        line.append(" 加入了你的隊伍");
        tell(&mut out, OutputZone::Main, line);
        proof {
            assert(told(out@) =~= seq![(OutputZone::Main, npc.name@ + " 加入了你的隊伍"@)]);
        }
    }
    proof {
        assert(game_world.npc_manager.people().len() == m.people().len());
    }
    out
}


/// Each person can be called out to: their belongings are well kept and
/// countable, and the weights of their lines for being called fit a
/// `usize`.
pub open spec fn callable(m: NpcManager) -> bool {
    forall|i: int|
        0 <= i < m.people().len() ==> {
            let p = (#[trigger] m.people()[i]).1;
            &&& p.wf()
            &&& total_of(p.items.listing()) <= u32::MAX
            &&& weight_total(options_of(p.dialogues@, "被叫住"@), Person { is_interacting: true, ..p }) <= usize::MAX
        }
}

/// The ids of the people at (x, y) of `map` other than `cid`, in order.
pub open spec fn others_here(m: NpcManager, map: Seq<char>, x: usize, y: usize, cid: Seq<char>) -> Seq<Seq<char>> {
    here(m, map, x, y).filter(|e: (Seq<char>, Person)| e.0 != cid).map_values(|e: (Seq<char>, Person)| e.0)
}

/// `states`, `parts` and `flags` show calling out to the people `ids`
/// one after the other, from `states[0]` on: each id is looked up, and
/// the person found (if any) stopped or not.
pub open spec fn calls_made(
    ids: Seq<Seq<char>>,
    states: Seq<NpcManager>,
    parts: Seq<Seq<(OutputZone, Seq<char>)>>,
    flags: Seq<bool>,
) -> bool {
    &&& states.len() == ids.len() + 1
    &&& parts.len() == ids.len()
    &&& flags.len() == ids.len()
    &&& forall|k: int|
        0 <= k < ids.len() ==> match states[k].found(#[trigger] ids[k]) {
            None => states[k + 1] == states[k] && parts[k].len() == 0 && !flags[k],
            Some(j) => stop_told(states[k].people()[j].1, states[k + 1].people()[j].1, flags[k], parts[k])
                && person_changed(states[k], states[k + 1], j, states[k + 1].people()[j].1),
        }
}

/// The number of `true` in `flags`.
pub open spec fn count_true(flags: Seq<bool>) -> nat
    decreases flags.len(),
{
    if flags.len() == 0 {
        0
    } else {
        count_true(flags.drop_last()) + if flags.last() {
            1nat
        } else {
            0nat
        }
    }
}

proof fn lemma_count_true_le(flags: Seq<bool>)
    ensures
        count_true(flags) <= flags.len(),
    decreases flags.len(),
{
    if flags.len() > 0 {
        lemma_count_true_le(flags.drop_last());
    }
}

proof fn lemma_callable_kept(m: NpcManager, t: NpcManager, j: int)
    requires
        callable(m),
        0 <= j < m.people().len(),
        t.people() == m.people().update(j, (m.people()[j].0, t.people()[j].1)),
        t.people()[j].1 == m.people()[j].1 || t.people()[j].1 == (Person { is_interacting: true, ..m.people()[j].1 }),
    ensures
        callable(t),
{
    assert forall|i: int| 0 <= i < t.people().len() implies {
        let p = (#[trigger] t.people()[i]).1;
        &&& p.wf()
        &&& total_of(p.items.listing()) <= u32::MAX
        &&& weight_total(options_of(p.dialogues@, "被叫住"@), Person { is_interacting: true, ..p }) <= usize::MAX
    } by {
        let q = m.people()[i].1;
        if i == j {
            assert(Person { is_interacting: true, ..t.people()[j].1 } == Person { is_interacting: true, ..q });
        }
    }
}

/// What `handle_wait` leaves behind and answers.
pub open spec fn handle_wait_done(old_world: GameWorld, new_world: GameWorld, current_id: Seq<char>, npc_name: Seq<char>, r: Seq<(OutputZone, String)>) -> bool {
    &&& new_world.npc_manager.wf()
    &&& new_world == (GameWorld { npc_manager: new_world.npc_manager, ..old_world })
    &&& ({
        let m = old_world.npc_manager;
        let map = old_world.current_map_name@;
        match m.found(current_id) {
            None => told(r) =~= seq![(OutputZone::Status, "無法取得當前角色資訊"@)] && new_world.npc_manager
                == m,
            Some(a) => {
                let me = m.people()[a].1;
                if npc_name.len() == 0 {
                    let ids = others_here(m, map, me.x, me.y, current_id);
                    if ids.len() == 0 {
                        told(r) =~= seq![(OutputZone::Main, "此處沒有 NPC"@)] && new_world.npc_manager == m
                    } else {
                        exists|states: Seq<NpcManager>, parts: Seq<Seq<(OutputZone, Seq<char>)>>, flags: Seq<bool>|
                            #[trigger] calls_made(ids, states, parts, flags) && states[0] == m
                                && states[ids.len() as int] == new_world.npc_manager && told(r) =~= flat(parts)
                                + seq![
                                (OutputZone::Status, "叫住了 "@ + decimal(count_true(flags)) + "/"@ + decimal(ids.len())
                                    + " 個 NPC"@),
                            ]
                    }
                } else {
                    match m.found(npc_name) {
                        None => told(r) =~= seq![(OutputZone::Status, "找不到 "@ + npc_name)]
                            && new_world.npc_manager == m,
                        Some(_) => match target_of(m, npc_name) {
                            None => told(r).len() == 0 && new_world.npc_manager == m,
                            Some(j) => {
                                let npc = m.people()[j].1;
                                if npc.map@ != map {
                                    told(r) =~= seq![(OutputZone::Main, npc.name@ + " 不在這個地圖"@)]
                                        && new_world.npc_manager.people() =~= m.people()
                                } else if !within_reach(npc, map, me.x, me.y) {
                                    told(r) =~= seq![(OutputZone::Main, npc.name@ + " 距離太遠，無法叫住"@)]
                                        && new_world.npc_manager.people() =~= m.people()
                                } else {
                                    exists|stopped: bool|
                                        #[trigger] stop_told(
                                            npc,
                                            new_world.npc_manager.people()[j].1,
                                            stopped,
                                            told(r),
                                        ) && person_changed(
                                            m,
                                            new_world.npc_manager,
                                            j,
                                            new_world.npc_manager.people()[j].1,
                                        )
                                }
                            },
                        },
                    }
                }
            },
        }
    })
}

/// When `handle_wait` may be called.
pub open spec fn handle_wait_ready(old_world: GameWorld, current_id: Seq<char>, npc_name: Seq<char>) -> bool {
    &&& old_world.npc_manager.wf()
    &&& positions_small(old_world.npc_manager)
    &&& callable(old_world.npc_manager)
}

/// Calls out to everyone standing where the controlled person
/// `current_id` stands (when `npc_name` is empty), or to the person
/// `npc_name`, who must be on the player's map at most a step away (see
/// [`try_stop_npc`]).
pub fn handle_wait(game_world: &mut GameWorld, current_id: &str, npc_name: &str) -> (r: Vec<(OutputZone, String)>)
    requires
        old(game_world).npc_manager.wf(),
        positions_small(old(game_world).npc_manager),
        callable(old(game_world).npc_manager),
    ensures
        handle_wait_done(*old(game_world), *final(game_world), current_id@, npc_name@, r@),
{
    let ghost m = game_world.npc_manager;
    let mut out: Vec<(OutputZone, String)> = Vec::new();
    let (x, y) = match game_world.npc_manager.get_npc(current_id) {
        Some(me) => (me.x, me.y),
        None => {
            tell(&mut out, OutputZone::Status, String::from_str("無法取得當前角色資訊"));
            proof {
                assert(told(out@) =~= seq![(OutputZone::Status, "無法取得當前角色資訊"@)]);
            }
            return out;
        },
    };
    proof {
        crate::npc_manager::lemma_found_in_range(m, current_id@);
        reveal_strlit("此處沒有 NPC");
        reveal_strlit("叫住了 ");
        reveal_strlit("/");
        reveal_strlit(" 個 NPC");
        reveal_strlit(" 不在這個地圖");
        reveal_strlit(" 距離太遠，無法叫住");
    }
    if npc_name.unicode_len() == 0 {
        let ids = others_ids(&game_world.npc_manager, game_world.current_map_name.as_str(), x, y, current_id);
        let ghost idv = ids@.map_values(|s: String| s@);
        if ids.len() == 0 {
            tell(&mut out, OutputZone::Main, String::from_str("此處沒有 NPC"));
            proof {
                assert(told(out@) =~= seq![(OutputZone::Main, "此處沒有 NPC"@)]);
            }
            return out;
        }
        let total = ids.len();
        let mut success: u64 = 0;
        let ghost mut states: Seq<NpcManager> = seq![m];
        let ghost mut parts: Seq<Seq<(OutputZone, Seq<char>)>> = Seq::empty();
        let ghost mut flags: Seq<bool> = Seq::empty();
        let mut k: usize = 0;
        while k < ids.len()
            invariant
                k <= ids@.len(),
                idv == ids@.map_values(|s: String| s@),
                *game_world == (GameWorld { npc_manager: game_world.npc_manager, ..*old(game_world) }),
                game_world.npc_manager.wf(),
                callable(game_world.npc_manager),
                states.len() == k + 1,
                parts.len() == k,
                flags.len() == k,
                states[0] == m,
                states[k as int] == game_world.npc_manager,
                forall|q: int|
                    0 <= q < k ==> match states[q].found(#[trigger] idv[q]) {
                        None => states[q + 1] == states[q] && parts[q].len() == 0 && !flags[q],
                        Some(j) => stop_told(states[q].people()[j].1, states[q + 1].people()[j].1, flags[q], parts[q])
                            && person_changed(states[q], states[q + 1], j, states[q + 1].people()[j].1),
                    },
                told(out@) == flat(parts),
                success == count_true(flags),
                success <= k,
            decreases ids@.len() - k,
        {
            let ghost cur = game_world.npc_manager;
            proof {
                assert(idv[k as int] == ids@[k as int]@);
                crate::npc_manager::lemma_found_in_range(cur, idv[k as int]);
            }
            let ghost old_parts = parts;
            let ghost old_flags = flags;
            match game_world.npc_manager.get_npc_mut(ids[k].as_str()) {
                Some(npc) => {
                    let (stopped, mut said) = try_stop_npc(npc);
                    let ghost pv = told(said@);
                    let ghost before = out@;
                    out.append(&mut said);
                    if stopped {
                        success = success + 1;
                    }
                    proof {
                        assert(told(out@) =~= told(before) + pv);
                        parts = parts.push(pv);
                        flags = flags.push(stopped);
                        assert(parts.drop_last() =~= old_parts);
                        assert(flags.drop_last() =~= old_flags);
                    }
                },
                None => {
                    proof {
                        parts = parts.push(Seq::empty());
                        flags = flags.push(false);
                        assert(parts.drop_last() =~= old_parts);
                        assert(flags.drop_last() =~= old_flags);
                        assert(flat(parts) =~= flat(old_parts));
                    }
                },
            }
            proof {
                let j = cur.found(idv[k as int]);
                if j is Some {
                    lemma_callable_kept(cur, game_world.npc_manager, j->0);
                }
                states = states.push(game_world.npc_manager);
                lemma_count_true_le(flags);
            }
            k = k + 1;
        }
        let mut line = String::from_str("叫住了 ");
        push_decimal(&mut line, success);
        line.append("/");
        push_decimal(&mut line, total as u64);
        line.append(" 個 NPC");
        let ghost before = out@;
        tell(&mut out, OutputZone::Status, line);
        proof {
            assert(idv.len() == others_here(m, game_world.current_map_name@, x, y, current_id@).len());
            assert(told(out@) =~= flat(parts) + seq![
                (OutputZone::Status, "叫住了 "@ + decimal(count_true(flags)) + "/"@ + decimal(idv.len()) + " 個 NPC"@),
            ]);
            assert(calls_made(idv, states, parts, flags));
        }
        return out;
    }
    let id = match game_world.npc_manager.resolve_id(npc_name) {
        Some(id) => id,
        None => {
            tell(&mut out, OutputZone::Status, crate::text::concat("找不到 ", npc_name));
            proof {
                assert(told(out@) =~= seq![(OutputZone::Status, "找不到 "@ + npc_name@)]);
            }
            return out;
        },
    };
    proof {
        crate::npc_manager::lemma_found_in_range(m, id@);
    }
    let npc = match game_world.npc_manager.get_npc_mut(id.as_str()) {
        Some(n) => n,
        None => {
            return out;
        },
    };
    if !str_eq(npc.map.as_str(), game_world.current_map_name.as_str()) {
        let mut line = npc.name.clone();
        line.append(" 不在這個地圖");
        tell(&mut out, OutputZone::Main, line);
        proof {
            assert(told(out@) =~= seq![(OutputZone::Main, npc.name@ + " 不在這個地圖"@)]);
        }
    } else if manhattan_distance(npc.x, npc.y, x, y) > 1 {
        let mut line = npc.name.clone();
        line.append(" 距離太遠，無法叫住");
        tell(&mut out, OutputZone::Main, line);
        proof {
            assert(told(out@) =~= seq![(OutputZone::Main, npc.name@ + " 距離太遠，無法叫住"@)]);
        }
    } else {
        let (stopped, said) = try_stop_npc(npc);
        out = said;
        proof {
            let j = m.found(id@)->0;
            assert(stop_told(m.people()[j].1, game_world.npc_manager.people()[j].1, stopped, told(out@)));
        }
    }
    out
}

/// The ids of the people at (x, y) of `map` other than `cid`, in order.
fn others_ids(m: &NpcManager, map: &str, x: usize, y: usize, cid: &str) -> (r: Vec<String>)
    ensures
        r@.map_values(|s: String| s@) == others_here(*m, map@, x, y, cid@),
{
    let c = m.get_npcs_with_ids_at_in_map(map, x, y);
    let ghost cv = c@.map_values(|e: (String, &Person)| (e.0@, *e.1));
    let ghost f = |e: (Seq<char>, Person)| e.0 != cid@;
    let mut r: Vec<String> = Vec::new();
    let mut i: usize = 0;
    proof {
        reveal_with_fuel(Seq::<_>::filter, 1);
        assert(cv.take(0) =~= Seq::<(Seq<char>, Person)>::empty());
        assert(r@.map_values(|s: String| s@) =~= cv.take(0).filter(f).map_values(|e: (Seq<char>, Person)| e.0));
    }
    while i < c.len()
        invariant
            i <= c@.len(),
            cv == c@.map_values(|e: (String, &Person)| (e.0@, *e.1)),
            cv == here(*m, map@, x, y),
            f == (|e: (Seq<char>, Person)| e.0 != cid@),
            r@.map_values(|s: String| s@) == cv.take(i as int).filter(f).map_values(|e: (Seq<char>, Person)| e.0),
        decreases c@.len() - i,
    {
        proof {
            reveal_with_fuel(Seq::<_>::filter, 1);
            assert(cv.take(i + 1).drop_last() =~= cv.take(i as int));
            assert(cv[i as int] == (c@[i as int].0@, *c@[i as int].1));
        }
        let ghost before = r@;
        if !str_eq(c[i].0.as_str(), cid) {
            r.push(c[i].0.clone());
            proof {
                assert(r@.map_values(|s: String| s@) =~= before.map_values(|s: String| s@).push(cv[i as int].0));
                assert(cv.take(i + 1).filter(f) == cv.take(i as int).filter(f).push(cv[i as int]));
                assert(cv.take(i + 1).filter(f).map_values(|e: (Seq<char>, Person)| e.0) =~= cv.take(i as int).filter(
                    f,
                ).map_values(|e: (Seq<char>, Person)| e.0).push(cv[i as int].0));
            }
        } else {
            proof {
                assert(cv.take(i + 1).filter(f) == cv.take(i as int).filter(f));
            }
        }
        i = i + 1;
    }
    proof {
        assert(cv.take(i as int) =~= cv);
    }
    r
}

/// A buy (see [`bought`]) when `is_buy`, else a sale (see [`sold`]).
pub open spec fn trade_outcome(
    p0: Inventory,
    n0: Inventory,
    p1: Inventory,
    n1: Inventory,
    npc_name: Seq<char>,
    item: Seq<char>,
    quantity: u32,
    price: u32,
    is_buy: bool,
    res: TradeResult,
) -> bool {
    if is_buy {
        bought(p0, n0, p1, n1, npc_name, item, quantity, price, res)
    } else {
        sold(p0, n0, p1, n1, npc_name, item, quantity, price, res)
    }
}

/// The price of `quantity` of `item`, buying or selling.
pub open spec fn trade_price(item: Seq<char>, quantity: u32, is_buy: bool) -> int {
    if is_buy {
        unit_buy_price(item) * quantity
    } else {
        unit_sell_price(item) * quantity
    }
}

/// When `execute_trade` may be called: the price and the counts after the
/// trade fit their integers.
pub open spec fn execute_trade_ready(g: GameWorld, npc_name: Seq<char>, item_name: Seq<char>, quantity: u32, is_buy: bool) -> bool {
    let m = g.npc_manager;
    &&& m.wf()
    &&& (quantity > 0 && m.found(npc_name) is Some && m.found(g.current_controlled_id@) is Some && m.found(npc_name)
        != m.found(g.current_controlled_id@)) ==> {
        let it = resolved_item(item_name);
        let me = m.people()[m.found(g.current_controlled_id@)->0].1;
        let npc = m.people()[m.found(npc_name)->0].1;
        let price = trade_price(it, quantity, is_buy);
        &&& price <= u32::MAX
        &&& if is_buy {
            buy_ready(me.items, npc.items, it, quantity, price as u32)
        } else {
            sell_ready(me.items, npc.items, it, quantity, price as u32)
        }
    }
}

/// What `execute_trade` leaves behind and answers: the controlled person
/// buys from, or sells to, the person `npc_name` finds, at the listed price
/// of what `item_name` names (see [`trade_outcome`]), only the two
/// inventories changing.
pub open spec fn execute_trade_done(
    g0: GameWorld,
    g1: GameWorld,
    npc_name: Seq<char>,
    item_name: Seq<char>,
    quantity: u32,
    is_buy: bool,
    ok: bool,
    r: Seq<(OutputZone, String)>,
) -> bool {
    let m = g0.npc_manager;
    let none_here = g1 == g0 && !ok && told(r) =~= seq![(OutputZone::Status, "這裡沒有可以交易的對象"@)];
    if quantity == 0 {
        g1 == g0 && !ok && told(r) =~= seq![(OutputZone::Status, "數量必須大於 0"@)]
    } else {
        match m.found(npc_name) {
            None => none_here,
            Some(j) => match m.found(g0.current_controlled_id@) {
                None => g1 == g0 && !ok && told(r) =~= seq![(OutputZone::Status, "找不到當前控制的角色"@)],
                Some(a) => if a == j {
                    none_here
                } else {
                    let it = resolved_item(item_name);
                    let me = m.people()[a].1;
                    let npc = m.people()[j].1;
                    let p1 = g1.npc_manager.people()[a].1.items;
                    let n1 = g1.npc_manager.people()[j].1.items;
                    &&& exists|res: TradeResult|
                        #[trigger] trade_outcome(
                            me.items,
                            npc.items,
                            p1,
                            n1,
                            npc.name@,
                            it,
                            quantity,
                            trade_price(it, quantity, is_buy) as u32,
                            is_buy,
                            res,
                        ) && ok == (res is Success) && told(r) =~= match res {
                            TradeResult::Success(t) => seq![(OutputZone::Main, t@)],
                            TradeResult::Failed(t) => seq![(OutputZone::Status, t@)],
                        }
                    &&& g1 == (GameWorld { npc_manager: g1.npc_manager, ..g0 })
                    &&& g1.npc_manager.wf()
                    &&& g1.npc_manager.people() == m.people().update(a, (m.people()[a].0, Person { items: p1, ..me })).update(
                        j,
                        (m.people()[j].0, Person { items: n1, ..npc }),
                    )
                    &&& g1.npc_manager.alias_list() == m.alias_list()
                    &&& g1.npc_manager.distance_list() == m.distance_list()
                },
            },
        }
    }
}

/// The controlled person buys (`is_buy`) `quantity` of what `item_name`
/// names from the person `npc_name` finds, or sells it to them, at the
/// listed price (see [`execute_trade_done`]); tells whether it went through.
pub fn execute_trade(game_world: &mut GameWorld, npc_name: &str, item_name: &str, quantity: u32, is_buy: bool) -> (r: (
    bool,
    Vec<(OutputZone, String)>,
))
    requires
        execute_trade_ready(*old(game_world), npc_name@, item_name@, quantity, is_buy),
    ensures
        execute_trade_done(*old(game_world), *final(game_world), npc_name@, item_name@, quantity, is_buy, r.0, r.1@),
{
    let ghost g = *game_world;
    let ghost m = g.npc_manager;
    let mut out: Vec<(OutputZone, String)> = Vec::new();
    if quantity == 0 {
        tell(&mut out, OutputZone::Status, String::from_str("數量必須大於 0"));
        return (false, out);
    }
    let j = match game_world.npc_manager.position_of(npc_name) {
        None => {
            tell(&mut out, OutputZone::Status, String::from_str("這裡沒有可以交易的對象"));
            return (false, out);
        },
        Some(j) => j,
    };
    let cid = game_world.current_controlled_id.clone();
    let a = match game_world.npc_manager.position_of(cid.as_str()) {
        None => {
            tell(&mut out, OutputZone::Status, String::from_str("找不到當前控制的角色"));
            return (false, out);
        },
        Some(a) => a,
    };
    if a == j {
        tell(&mut out, OutputZone::Status, String::from_str("這裡沒有可以交易的對象"));
        return (false, out);
    }
    let resolved = resolve_item_name(item_name);
    let price = if is_buy {
        TradeSystem::calculate_buy_price(resolved.as_str(), quantity)
    } else {
        TradeSystem::calculate_sell_price(resolved.as_str(), quantity)
    };
    let ghost me = m.people()[a as int].1;
    let mut player = Person::new(String::new(), String::new(), &game_world.person_descriptions);
    let ghost stand_in = player;
    match game_world.npc_manager.get_npc_mut(cid.as_str()) {
        Some(p) => {
            std::mem::swap(&mut p.items, &mut player.items);
        },
        None => {},
    }
    let ghost m1 = game_world.npc_manager;
    proof {
        crate::command_interact::lemma_found_after_change(m, m1, a as int, Person { items: stand_in.items, ..me }, npc_name@);
        crate::command_interact::lemma_found_after_change(m, m1, a as int, Person { items: stand_in.items, ..me }, cid@);
        assert(player.items == me.items);
    }
    let ghost p0 = player;
    let res = if is_buy {
        TradeSystem::buy_from_npc(game_world, &mut player, npc_name, resolved.as_str(), quantity, price)
    } else {
        TradeSystem::sell_to_npc(game_world, &mut player, npc_name, resolved.as_str(), quantity, price)
    };
    let ghost m2 = game_world.npc_manager;
    proof {
        let n1 = m2.people()[j as int].1;
        crate::command_interact::lemma_found_after_change(m1, m2, j as int, n1, cid@);
    }
    match game_world.npc_manager.get_npc_mut(cid.as_str()) {
        Some(p) => {
            std::mem::swap(&mut p.items, &mut player.items);
        },
        None => {},
    }
    proof {
        let p1 = game_world.npc_manager.people()[a as int].1.items;
        let n1 = game_world.npc_manager.people()[j as int].1.items;
        assert(trade_outcome(me.items, m.people()[j as int].1.items, p1, n1, m.people()[j as int].1.name@, resolved@, quantity, price, is_buy, res));
        assert(game_world.npc_manager.people() =~= m.people().update(a as int, (m.people()[a as int].0, Person { items: p1, ..me })).update(
            j as int,
            (m.people()[j as int].0, Person { items: n1, ..m.people()[j as int].1 }),
        ));
    }
    match res {
        TradeResult::Success(t) => {
            tell(&mut out, OutputZone::Main, t);
            (true, out)
        },
        TradeResult::Failed(t) => {
            tell(&mut out, OutputZone::Status, t);
            (false, out)
        },
    }
}

} // verus!
