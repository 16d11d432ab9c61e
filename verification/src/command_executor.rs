//! The commands that act on the player and the world directly: sleeping
//! and dreaming, taking control of someone, calling someone over,
//! renaming, listing and checking people, eating and giving, setting
//! attributes, opening a way, teleporting and walking. Each answers with
//! what it tells the player, line by line with the zone each line goes to;
//! keeping the changed people on disk is left to the caller.
use vstd::prelude::*;
use crate::command_interact::{flat, follows_me, one_used, person_changed, resolved_item, tell, told};
use crate::item_registry::{get_item_display_name, is_chinese_name, name_table, resolve_item_name};
use crate::npc_manager::{npc_added, npc_removed, distance_of, distances_noted, keys_of, notices, watched, NpcManager};
use crate::map::{without_first, GameMap, Point};
use crate::person::key_position;
use crate::command_interact::positions_small;
use crate::inventory::{added, taken, total_of, Inventory};
use crate::core_output::OutputZone;
use crate::person::{
    attribute_value, condition_met, newborn, effective_weight, hp_check, options_of, person_words, weight_prefix, weight_total,
    DialogueOption, Person, PersonDescriptions,
};
use crate::text::{
    chars_of, concat, words, decimal, lowercase, push_decimal, push_signed, signed_decimal, str_eq, string_of, strs_view, to_lowercase, trim,
    trim_text,
};
use crate::command_args::coordinates_of;
use crate::world::GameWorld;
use crate::event_executor::{event_ready, lemma_point_set_ready, world_point_set};
use crate::command_handler::{description_of, help_commands, help_order, parse_command, parses_to, CommandResult};
use crate::command_interact::{
    handle_disband, handle_disband_done, handle_disband_ready, handle_party, handle_party_done, handle_party_ready,
    handle_quest_abandon, handle_quest_abandon_done, handle_quest_abandon_ready, handle_quest_active,
    handle_quest_active_done, handle_quest_available, handle_quest_available_done, handle_quest_complete,
    handle_quest_complete_done, handle_quest_complete_ready, handle_quest_completed, handle_quest_completed_done,
    handle_quest_info, handle_quest_info_done, handle_quest_info_ready, handle_quest_start, handle_quest_start_done,
    handle_quest_start_ready, handle_set_dialogue, handle_set_dialogue_done, handle_set_dialogue_ready,
    handle_set_eagerness, handle_set_eagerness_done, handle_set_eagerness_ready, handle_set_relationship,
    handle_set_relationship_done, handle_set_relationship_ready, handle_talk, handle_talk_done, handle_talk_ready,
    handle_use_item_on, handle_use_item_on_done, handle_use_item_on_ready, handle_wait, handle_wait_done,
    handle_wait_ready,
};
use crate::combat::{
    handle_combat_skill, handle_combat_skill_done, handle_combat_skill_ready, handle_escape, handle_escape_done,
    handle_escape_ready,
};
use crate::npc_manager::{at_spot, npcs_where, opt_text, person_views};
use crate::world_panel::{panel_ready, render_world_map, render_world_minimap, world_panel_text};
use crate::command_interact::{
    execute_trade, execute_trade_done, execute_trade_ready, handle_quest_list, handle_quest_list_done, handle_trade,
    handle_trade_done, handle_trade_ready,
};
use crate::help::{help_groups, help_matches};

verus! {

/// The world with only the people changed.
pub open spec fn only_people_changed(before: GameWorld, after: GameWorld) -> bool {
    after == (GameWorld { npc_manager: after.npc_manager, ..before })
}

/// What `handle_sleep` leaves behind and answers.
pub open spec fn handle_sleep_done(old_world: GameWorld, new_world: GameWorld, current_id: Seq<char>, r: Seq<(OutputZone, String)>) -> bool {
    &&& new_world.npc_manager.wf()
    &&& only_people_changed(old_world, new_world)
    &&& match old_world.npc_manager.found(current_id) {
        None => told(r).len() == 0 && new_world.npc_manager == old_world.npc_manager,
        Some(i) => {
            let p = old_world.npc_manager.people()[i].1;
            &&& person_changed(old_world.npc_manager, new_world.npc_manager, i, Person { is_sleeping: true, ..p })
            &&& told(r) == seq![
                (OutputZone::Main, "你進入了睡眠狀態..."@),
                (OutputZone::Status, "使用 'wakeup' 或 'wake' 醒來，使用 'dream [內容]' 做夢"@),
            ]
        },
    }
}

/// When `handle_sleep` may be called.
pub open spec fn handle_sleep_ready(old_world: GameWorld, current_id: Seq<char>) -> bool {
    &&& old_world.npc_manager.wf()
}

/// The controlled person `current_id` falls asleep.
pub fn handle_sleep(game_world: &mut GameWorld, current_id: &str) -> (r: Vec<(OutputZone, String)>)
    requires
        old(game_world).npc_manager.wf(),
    ensures
        handle_sleep_done(*old(game_world), *final(game_world), current_id@, r@),
{
    let mut out: Vec<(OutputZone, String)> = Vec::new();
    match game_world.npc_manager.get_npc_mut(current_id) {
        Some(me) => {
            me.is_sleeping = true;
            tell(&mut out, OutputZone::Main, String::from_str("你進入了睡眠狀態..."));
            tell(&mut out, OutputZone::Status, String::from_str("使用 'wakeup' 或 'wake' 醒來，使用 'dream [內容]' 做夢"));
        },
        None => {},
    }
    proof {
        if told(out@).len() > 0 {
            assert(told(out@) =~= seq![
                (OutputZone::Main, "你進入了睡眠狀態..."@),
                (OutputZone::Status, "使用 'wakeup' 或 'wake' 醒來，使用 'dream [內容]' 做夢"@),
            ]);
        }
    }
    out
}

/// What `handle_dream` leaves behind and answers.
pub open spec fn handle_dream_done(old_world: GameWorld, current_id: Seq<char>, content: Option<String>, r: Seq<(OutputZone, String)>) -> bool {
    &&& told(r) == match old_world.npc_manager.found(current_id) {
        None => Seq::empty(),
        Some(i) => if old_world.npc_manager.people()[i].1.is_sleeping {
            seq![
                (OutputZone::Main, "💭 "@ + match content {
                    Some(c) => c@,
                    None => "一場美好的夢境..."@,
                }),
            ]
        } else {
            seq![(OutputZone::Status, "你需要先睡覺才能做夢！使用 sleep 指令進入睡眠"@)]
        },
    }
}

/// When `handle_dream` may be called.
pub open spec fn handle_dream_ready(old_world: GameWorld, current_id: Seq<char>, content: Option<String>) -> bool {
    &&& old_world.npc_manager.wf()
}

/// A sleeping controlled person dreams `content`, or a pleasant dream when
/// none is given; one awake is told to sleep first.
pub fn handle_dream(game_world: &GameWorld, current_id: &str, content: Option<String>) -> (r: Vec<(OutputZone, String)>)
    requires
        game_world.npc_manager.wf(),
    ensures
        handle_dream_done(*game_world, current_id@, content, r@),
{
    let mut out: Vec<(OutputZone, String)> = Vec::new();
    match game_world.npc_manager.get_npc(current_id) {
        Some(me) => {
            if me.is_sleeping {
                let text = match content {
                    Some(c) => c,
                    None => String::from_str("一場美好的夢境..."),
                };
                tell(&mut out, OutputZone::Main, concat("💭 ", text.as_str()));
            } else {
                tell(&mut out, OutputZone::Status, String::from_str("你需要先睡覺才能做夢！使用 sleep 指令進入睡眠"));
            }
        },
        None => {},
    }
    proof {
        if told(out@).len() > 0 {
            assert(told(out@) =~= seq![told(out@)[0]]);
        } else {
            assert(told(out@) =~= Seq::<(OutputZone, Seq<char>)>::empty());
        }
    }
    out
}

/// What `handle_wakeup` leaves behind and answers.
pub open spec fn handle_wakeup_done(old_world: GameWorld, new_world: GameWorld, current_id: Seq<char>, r: Seq<(OutputZone, String)>) -> bool {
    &&& new_world.npc_manager.wf()
    &&& only_people_changed(old_world, new_world)
    &&& match old_world.npc_manager.found(current_id) {
        None => told(r).len() == 0 && new_world.npc_manager == old_world.npc_manager,
        Some(i) => {
            let p = old_world.npc_manager.people()[i].1;
            &&& person_changed(old_world.npc_manager, new_world.npc_manager, i, Person { is_sleeping: false, ..p })
            &&& told(r) == if p.is_sleeping {
                seq![(OutputZone::Main, "你醒來了！"@)]
            } else {
                seq![(OutputZone::Status, "你還沒睡覺呢！"@)]
            }
        },
    }
}

/// When `handle_wakeup` may be called.
pub open spec fn handle_wakeup_ready(old_world: GameWorld, current_id: Seq<char>) -> bool {
    &&& old_world.npc_manager.wf()
}

/// A sleeping controlled person wakes up; one awake is told so.
pub fn handle_wakeup(game_world: &mut GameWorld, current_id: &str) -> (r: Vec<(OutputZone, String)>)
    requires
        old(game_world).npc_manager.wf(),
    ensures
        handle_wakeup_done(*old(game_world), *final(game_world), current_id@, r@),
{
    let mut out: Vec<(OutputZone, String)> = Vec::new();
    match game_world.npc_manager.get_npc_mut(current_id) {
        Some(me) => {
            if me.is_sleeping {
                me.is_sleeping = false;
                tell(&mut out, OutputZone::Main, String::from_str("你醒來了！"));
            } else {
                tell(&mut out, OutputZone::Status, String::from_str("你還沒睡覺呢！"));
            }
        },
        None => {},
    }
    proof {
        if told(out@).len() > 0 {
            assert(told(out@) =~= seq![told(out@)[0]]);
        } else {
            assert(told(out@) =~= Seq::<(OutputZone, Seq<char>)>::empty());
        }
    }
    out
}

/// What `handle_switch_control` leaves behind and answers.
pub open spec fn handle_switch_control_done(old_world: GameWorld, new_world: GameWorld, npc_name: Seq<char>, r: Seq<(OutputZone, String)>) -> bool {
    &&& match old_world.npc_manager.found(npc_name) {
        None => new_world == old_world && told(r) == seq![
            (OutputZone::Status, "找不到名為 "@ + npc_name + " 的 NPC"@),
        ],
        Some(_) => {
            &&& new_world == (GameWorld { current_controlled_id: new_world.current_controlled_id, ..old_world })
            &&& new_world.current_controlled_id@ == npc_name
            &&& told(r) == seq![(OutputZone::Main, "現在控制 "@ + npc_name)]
        },
    }
}

/// When `handle_switch_control` may be called.
pub open spec fn handle_switch_control_ready(old_world: GameWorld, npc_name: Seq<char>) -> bool {
    &&& old_world.npc_manager.wf()
}

/// The player takes control of `npc_name`, when someone goes by it.
pub fn handle_switch_control(game_world: &mut GameWorld, npc_name: &str) -> (r: Vec<(OutputZone, String)>)
    requires
        old(game_world).npc_manager.wf(),
    ensures
        handle_switch_control_done(*old(game_world), *final(game_world), npc_name@, r@),
{
    let mut out: Vec<(OutputZone, String)> = Vec::new();
    proof {
        crate::npc_manager::lemma_found_in_range(game_world.npc_manager, npc_name@);
    }
    if game_world.npc_manager.get_npc(npc_name).is_some() {
        game_world.current_controlled_id = String::from_str(npc_name);
        tell(&mut out, OutputZone::Main, concat("現在控制 ", npc_name));
        proof {
            assert(told(out@) =~= seq![(OutputZone::Main, "現在控制 "@ + npc_name@)]);
        }
    } else {
        let mut line = String::from_str("找不到名為 ");
        line.append(npc_name);
        line.append(" 的 NPC");
        tell(&mut out, OutputZone::Status, line);
        proof {
            assert(told(out@) =~= seq![(OutputZone::Status, "找不到名為 "@ + npc_name@ + " 的 NPC"@)]);
        }
    }
    out
}

/// What `handle_summon` leaves behind and answers.
pub open spec fn handle_summon_done(old_world: GameWorld, new_world: GameWorld, current_id: Seq<char>, npc_name: Seq<char>, r: Seq<(OutputZone, String)>) -> bool {
    &&& new_world.npc_manager.wf()
    &&& only_people_changed(old_world, new_world)
    &&& ({
        let m = old_world.npc_manager;
        match m.found(current_id) {
            None => told(r) == seq![(OutputZone::Status, "找不到當前控制的角色"@)] && new_world.npc_manager == m,
            Some(a) => match m.found(npc_name) {
                None => told(r) == seq![(OutputZone::Status, "找不到名為 "@ + npc_name + " 的 NPC"@)]
                    && new_world.npc_manager == m,
                Some(j) => {
                    let npc = m.people()[j].1;
                    &&& person_changed(m, new_world.npc_manager, j, Person { x: m.people()[a].1.x, y: m.people()[a].1.y, ..npc })
                    &&& told(r) == seq![(OutputZone::Main, npc.name@ + " 被召喚到了這裡"@)]
                },
            },
        }
    })
}

/// When `handle_summon` may be called.
pub open spec fn handle_summon_ready(old_world: GameWorld, current_id: Seq<char>, npc_name: Seq<char>) -> bool {
    &&& old_world.npc_manager.wf()
}

/// The controlled person `current_id` calls `npc_name` over to where they
/// stand.
pub fn handle_summon(game_world: &mut GameWorld, current_id: &str, npc_name: &str) -> (r: Vec<(OutputZone, String)>)
    requires
        old(game_world).npc_manager.wf(),
    ensures
        handle_summon_done(*old(game_world), *final(game_world), current_id@, npc_name@, r@),
{
    let mut out: Vec<(OutputZone, String)> = Vec::new();
    proof {
        crate::npc_manager::lemma_found_in_range(game_world.npc_manager, current_id@);
    }
    let (x, y) = match game_world.npc_manager.get_npc(current_id) {
        Some(me) => (me.x, me.y),
        None => {
            tell(&mut out, OutputZone::Status, String::from_str("找不到當前控制的角色"));
            proof {
                assert(told(out@) =~= seq![(OutputZone::Status, "找不到當前控制的角色"@)]);
            }
            return out;
        },
    };
    match game_world.npc_manager.get_npc_mut(npc_name) {
        Some(npc) => {
            npc.x = x;
            npc.y = y;
            let mut line = npc.name.clone();
            line.append(" 被召喚到了這裡");
            tell(&mut out, OutputZone::Main, line);
            proof {
                assert(told(out@) =~= seq![(OutputZone::Main, npc.name@ + " 被召喚到了這裡"@)]);
            }
        },
        None => {
            let mut line = String::from_str("找不到名為 ");
            line.append(npc_name);
            line.append(" 的 NPC");
            tell(&mut out, OutputZone::Status, line);
            proof {
                assert(told(out@) =~= seq![(OutputZone::Status, "找不到名為 "@ + npc_name@ + " 的 NPC"@)]);
            }
        },
    }
    out
}

/// What `handle_name` leaves behind and answers.
pub open spec fn handle_name_done(old_world: GameWorld, new_world: GameWorld, target: Seq<char>, name: Seq<char>, r: Seq<(OutputZone, String)>) -> bool {
    &&& new_world.npc_manager.wf()
    &&& only_people_changed(old_world, new_world)
    &&& ({
        let m = old_world.npc_manager;
        match m.found(target) {
            None => told(r) == seq![(OutputZone::Status, "找不到 "@ + target)] && new_world.npc_manager == m,
            Some(j) => {
                let npc = m.people()[j].1;
                &&& person_changed(m, new_world.npc_manager, j, Person { name: new_world.npc_manager.people()[j].1.name, ..npc })
                &&& new_world.npc_manager.people()[j].1.name@ == name
                &&& told(r) == seq![(OutputZone::Main, "你將 "@ + npc.name@ + " 重命名為 "@ + name)]
            },
        }
    })
}

/// When `handle_name` may be called.
pub open spec fn handle_name_ready(old_world: GameWorld, target: Seq<char>, name: Seq<char>) -> bool {
    &&& old_world.npc_manager.wf()
}

/// Renames the person `target` to `name`.
pub fn handle_name(game_world: &mut GameWorld, target: &str, name: &str) -> (r: Vec<(OutputZone, String)>)
    requires
        old(game_world).npc_manager.wf(),
    ensures
        handle_name_done(*old(game_world), *final(game_world), target@, name@, r@),
{
    let mut out: Vec<(OutputZone, String)> = Vec::new();
    match game_world.npc_manager.get_npc_mut(target) {
        Some(npc) => {
            let mut line = String::from_str("你將 ");
            line.append(npc.name.as_str());
            line.append(" 重命名為 ");
            line.append(name);
            npc.name = String::from_str(name);
            tell(&mut out, OutputZone::Main, line);
            proof {
                reveal_strlit("你將 ");
                assert(told(out@) =~= seq![(OutputZone::Main, "你將 "@ + old(game_world).npc_manager.people()[old(game_world).npc_manager.found(target@)->0].1.name@ + " 重命名為 "@ + name@)]);
            }
        },
        None => {
            tell(&mut out, OutputZone::Status, concat("找不到 ", target));
            proof {
                assert(told(out@) =~= seq![(OutputZone::Status, "找不到 "@ + target@)]);
            }
        },
    }
    out
}

/// A person's line in the list of everyone: name, place and health.
pub open spec fn npc_list_line(p: Person) -> Seq<char> {
    "  "@ + p.name@ + " 在 ("@ + decimal(p.x as nat) + ", "@ + decimal(p.y as nat) + ") - HP:"@ + signed_decimal(
        p.hp as int,
    ) + "/"@ + signed_decimal(p.max_hp as int)
}

/// What `handle_list_npcs` leaves behind and answers.
pub open spec fn handle_list_npcs_done(old_world: GameWorld, r: Seq<(OutputZone, String)>) -> bool {
    &&& told(r) == seq![(OutputZone::Main, "=== 所有 NPC ==="@)] + old_world.npc_manager.people().map_values(
        |e: (String, Person)| (OutputZone::Main, npc_list_line(e.1)),
    )
}

/// Everyone, one line each (see [`npc_list_line`]), after a heading.
pub fn handle_list_npcs(game_world: &GameWorld) -> (r: Vec<(OutputZone, String)>)
    ensures
        handle_list_npcs_done(*game_world, r@),
{
    let mut out: Vec<(OutputZone, String)> = Vec::new();
    tell(&mut out, OutputZone::Main, String::from_str("=== 所有 NPC ==="));
    let all = game_world.npc_manager.get_all_npcs();
    let ghost ps = game_world.npc_manager.people();
    let mut i: usize = 0;
    while i < all.len()
        invariant
            i <= all@.len(),
            all@.len() == ps.len(),
            ps == game_world.npc_manager.people(),
            forall|k: int| 0 <= k < all@.len() ==> *(#[trigger] all@[k]) == ps[k].1,
            told(out@) == seq![(OutputZone::Main, "=== 所有 NPC ==="@)] + ps.take(i as int).map_values(
                |e: (String, Person)| (OutputZone::Main, npc_list_line(e.1)),
            ),
        decreases all@.len() - i,
    {
        let p = all[i];
        let mut line = String::from_str("  ");
        line.append(p.name.as_str());
        line.append(" 在 (");
        push_decimal(&mut line, p.x as u64);
        line.append(", ");
        push_decimal(&mut line, p.y as u64);
        line.append(") - HP:");
        push_signed(&mut line, p.hp as i64);
        line.append("/");
        push_signed(&mut line, p.max_hp as i64);
        let ghost before = told(out@);
        tell(&mut out, OutputZone::Main, line);
        proof {
            reveal_strlit("  ");
            assert(ps.take(i + 1) =~= ps.take(i as int).push(ps[i as int]));
            assert(ps.take(i + 1).map_values(|e: (String, Person)| (OutputZone::Main, npc_list_line(e.1))) =~= ps.take(
                i as int,
            ).map_values(|e: (String, Person)| (OutputZone::Main, npc_list_line(e.1))).push(
                (OutputZone::Main, npc_list_line(ps[i as int].1)),
            ));
        }
        i = i + 1;
    }
    proof {
        assert(ps.take(i as int) =~= ps);
    }
    out
}

/// The lines of the things `listing` holds, each `  <name> x<count>`.
pub open spec fn item_lines(listing: Seq<(String, u32)>) -> Seq<(OutputZone, Seq<char>)> {
    listing.map_values(|e: (String, u32)| (OutputZone::Main, "  "@ + e.0@ + " x"@ + decimal(e.1 as nat)))
}

/// What `handle_check_npc` leaves behind and answers.
pub open spec fn handle_check_npc_done(old_world: GameWorld, npc_name: Seq<char>, r: Seq<(OutputZone, String)>) -> bool {
    &&& told(r) =~= match old_world.npc_manager.found(npc_name) {
        None => seq![(OutputZone::Status, "找不到名為 "@ + npc_name + " 的 NPC"@)],
        Some(j) => {
            let p = old_world.npc_manager.people()[j].1;
            seq![
                (OutputZone::Main, "=== "@ + p.name@ + " ==="@),
                (OutputZone::Main, "位置: ("@ + decimal(p.x as nat) + ", "@ + decimal(p.y as nat) + ")"@),
                (OutputZone::Main, "HP: "@ + signed_decimal(p.hp as int) + "/"@ + signed_decimal(p.max_hp as int)),
                (OutputZone::Main, "力量: "@ + signed_decimal(p.strength as int)),
                (OutputZone::Main, "知識: "@ + signed_decimal(p.knowledge as int)),
                (OutputZone::Main, "社交: "@ + signed_decimal(p.sociality as int)),
            ] + if p.items.listing().len() == 0 {
                Seq::empty()
            } else {
                seq![(OutputZone::Main, "\n物品:"@)] + item_lines(p.items.listing())
            }
        },
    }
}

/// When `handle_check_npc` may be called.
pub open spec fn handle_check_npc_ready(old_world: GameWorld, npc_name: Seq<char>) -> bool {
    &&& old_world.npc_manager.wf()
}

/// The details of the person `npc_name`: place, health, strength,
/// knowledge, sociality and, when they carry anything, their things.
pub fn handle_check_npc(game_world: &GameWorld, npc_name: &str) -> (r: Vec<(OutputZone, String)>)
    requires
        game_world.npc_manager.wf(),
    ensures
        handle_check_npc_done(*game_world, npc_name@, r@),
{
    let mut out: Vec<(OutputZone, String)> = Vec::new();
    let p = match game_world.npc_manager.get_npc(npc_name) {
        Some(p) => p,
        None => {
            let mut line = String::from_str("找不到名為 ");
            line.append(npc_name);
            line.append(" 的 NPC");
            tell(&mut out, OutputZone::Status, line);
            proof {
                assert(told(out@) =~= seq![(OutputZone::Status, "找不到名為 "@ + npc_name@ + " 的 NPC"@)]);
            }
            return out;
        },
    };
    let mut a = String::from_str("=== ");
    a.append(p.name.as_str());
    a.append(" ===");
    tell(&mut out, OutputZone::Main, a);
    let mut b = String::from_str("位置: (");
    push_decimal(&mut b, p.x as u64);
    b.append(", ");
    push_decimal(&mut b, p.y as u64);
    b.append(")");
    tell(&mut out, OutputZone::Main, b);
    let mut c = String::from_str("HP: ");
    push_signed(&mut c, p.hp as i64);
    c.append("/");
    push_signed(&mut c, p.max_hp as i64);
    tell(&mut out, OutputZone::Main, c);
    let mut d = String::from_str("力量: ");
    push_signed(&mut d, p.strength as i64);
    tell(&mut out, OutputZone::Main, d);
    let mut e = String::from_str("知識: ");
    push_signed(&mut e, p.knowledge as i64);
    tell(&mut out, OutputZone::Main, e);
    let mut f = String::from_str("社交: ");
    push_signed(&mut f, p.sociality as i64);
    tell(&mut out, OutputZone::Main, f);
    let ghost head = told(out@);
    proof {
        reveal_strlit("=== ");
        reveal_strlit("位置: (");
        reveal_strlit("HP: ");
        reveal_strlit("力量: ");
        reveal_strlit("知識: ");
        reveal_strlit("社交: ");
        assert(head =~= seq![
            (OutputZone::Main, "=== "@ + p.name@ + " ==="@),
            (OutputZone::Main, "位置: ("@ + decimal(p.x as nat) + ", "@ + decimal(p.y as nat) + ")"@),
            (OutputZone::Main, "HP: "@ + signed_decimal(p.hp as int) + "/"@ + signed_decimal(p.max_hp as int)),
            (OutputZone::Main, "力量: "@ + signed_decimal(p.strength as int)),
            (OutputZone::Main, "知識: "@ + signed_decimal(p.knowledge as int)),
            (OutputZone::Main, "社交: "@ + signed_decimal(p.sociality as int)),
        ]);
    }
    if !p.items.is_empty() {
        tell(&mut out, OutputZone::Main, String::from_str("\n物品:"));
        let ghost l = p.items.listing();
        let mut i: usize = 0;
        while i < p.items.len()
            invariant
                i <= l.len(),
                l == p.items.listing(),
                told(out@) == head + seq![(OutputZone::Main, "\n物品:"@)] + item_lines(l.take(i as int)),
            decreases l.len() - i,
        {
            let (name, count) = p.items.entry(i);
            let mut line = String::from_str("  ");
            line.append(name.as_str());
            line.append(" x");
            push_decimal(&mut line, count as u64);
            let ghost before = told(out@);
            tell(&mut out, OutputZone::Main, line);
            proof {
                reveal_strlit("  ");
                assert(l.take(i + 1) =~= l.take(i as int).push(l[i as int]));
                assert(item_lines(l.take(i + 1)) =~= item_lines(l.take(i as int)).push(
                    (OutputZone::Main, "  "@ + l[i as int].0@ + " x"@ + decimal(l[i as int].1 as nat)),
                ));
            }
            i = i + 1;
        }
        proof {
            assert(l.take(i as int) =~= l);
        }
    } else {
        proof {
            assert(head + Seq::<(OutputZone, Seq<char>)>::empty() =~= head);
        }
    }
    out
}

/// What `handle_show_world` leaves behind and answers.
pub open spec fn handle_show_world_done(old_world: GameWorld, r: Seq<(OutputZone, String)>) -> bool {
    &&& told(r) == seq![
        (OutputZone::Main, "=== "@ + old_world.metadata.name@ + " ==="@),
        (OutputZone::Main, old_world.metadata.description@),
        (OutputZone::Main, "\n時間: "@ + crate::time_updatable::clock_text(
            old_world.time.day,
            old_world.time.hour,
            old_world.time.minute,
            old_world.time.second,
        )),
        (OutputZone::Main, "地圖數量: "@ + decimal(old_world.maps@.len())),
        (OutputZone::Main, "NPC 數量: "@ + decimal(old_world.npc_manager.people().len())),
    ]
}

/// The world's name and description, the time, and how many maps and
/// people there are.
pub fn handle_show_world(game_world: &GameWorld) -> (r: Vec<(OutputZone, String)>)
    ensures
        handle_show_world_done(*game_world, r@),
{
    let mut out: Vec<(OutputZone, String)> = Vec::new();
    let mut a = String::from_str("=== ");
    a.append(game_world.metadata.name.as_str());
    a.append(" ===");
    tell(&mut out, OutputZone::Main, a);
    tell(&mut out, OutputZone::Main, game_world.metadata.description.clone());
    let t = game_world.format_time();
    tell(&mut out, OutputZone::Main, concat("\n時間: ", t.as_str()));
    let mut b = String::from_str("地圖數量: ");
    push_decimal(&mut b, game_world.maps.len() as u64);
    tell(&mut out, OutputZone::Main, b);
    let mut c = String::from_str("NPC 數量: ");
    push_decimal(&mut c, game_world.npc_manager.get_all_npcs().len() as u64);
    tell(&mut out, OutputZone::Main, c);
    proof {
        reveal_strlit("=== ");
        reveal_strlit("地圖數量: ");
        reveal_strlit("NPC 數量: ");
        assert(told(out@) =~= seq![
            (OutputZone::Main, "=== "@ + game_world.metadata.name@ + " ==="@),
            (OutputZone::Main, game_world.metadata.description@),
            (OutputZone::Main, "\n時間: "@ + crate::time_updatable::clock_text(
                game_world.time.day,
                game_world.time.hour,
                game_world.time.minute,
                game_world.time.second,
            )),
            (OutputZone::Main, "地圖數量: "@ + decimal(game_world.maps@.len())),
            (OutputZone::Main, "NPC 數量: "@ + decimal(game_world.npc_manager.people().len())),
        ]);
    }
    out
}

/// `after` is `me` having eaten or used one `item` that heals 50: one
/// fewer carried, health changed by 50 (see [`hp_check`]).
pub open spec fn consumed(me: Person, after: Person, item: Seq<char>, descs: PersonDescriptions) -> bool {
    let h = hp_check(me.hp, me.max_hp, 50);
    &&& one_used(me, Person { hp: me.hp, status: me.status, description: me.description, ..after }, item)
    &&& after.hp == h.0
    &&& after.status@ == h.1
    &&& after.description@ == person_words(descs, Person { hp: h.0 as i32, items: after.items, ..me })
}

/// What eating or using `item`, typed `typed`, does to the controlled
/// person `current_id`, told with `verb`: nothing without that person;
/// "you have none" for an item not carried; nothing for an item listed
/// with none left; otherwise one is consumed (see [`consumed`]).
pub open spec fn consumption(
    before: GameWorld,
    after: GameWorld,
    current_id: Seq<char>,
    typed: Seq<char>,
    verb: Seq<char>,
    t: Seq<(OutputZone, Seq<char>)>,
) -> bool {
    let m = before.npc_manager;
    let item = resolved_item(typed);
    &&& only_people_changed(before, after)
    &&& after.npc_manager.wf()
    &&& match m.found(current_id) {
        None => t == seq![(OutputZone::Status, "找不到當前控制的角色"@)] && after.npc_manager == m,
        Some(a) => {
            let me = m.people()[a].1;
            match me.items.amount(item) {
                None => t == seq![(OutputZone::Status, "你沒有 "@ + typed)] && after.npc_manager.people() == m.people()
                    && after.npc_manager.alias_list() == m.alias_list() && after.npc_manager.distance_list()
                    == m.distance_list(),
                Some(c) => if c == 0 {
                    t.len() == 0 && after.npc_manager.people() == m.people() && after.npc_manager.alias_list()
                        == m.alias_list() && after.npc_manager.distance_list() == m.distance_list()
                } else {
                    let p = after.npc_manager.people()[a].1;
                    &&& person_changed(m, after.npc_manager, a, p)
                    &&& consumed(me, p, item, before.person_descriptions)
                    &&& t == seq![
                        (OutputZone::Main, verb + item + "，回復了 50 HP"@),
                        (OutputZone::Status, "HP: "@ + signed_decimal(p.hp as int) + "/"@ + signed_decimal(p.max_hp as int)),
                    ]
                },
            }
        },
    }
}

/// The controlled person can eat or use something: they are well kept and
/// 50 more health fits.
pub open spec fn can_consume(m: NpcManager, current_id: Seq<char>) -> bool {
    m.found(current_id) matches Some(a) ==> m.people()[a].1.wf() && m.people()[a].1.hp + 50 <= i32::MAX
}

fn consume(game_world: &mut GameWorld, current_id: &str, typed: &str, verb: &str) -> (r: Vec<(OutputZone, String)>)
    requires
        old(game_world).npc_manager.wf(),
        can_consume(old(game_world).npc_manager, current_id@),
    ensures
        consumption(*old(game_world), *final(game_world), current_id@, typed@, verb@, told(r@)),
{
    let ghost m = game_world.npc_manager;
    let mut out: Vec<(OutputZone, String)> = Vec::new();
    let resolved = resolve_item_name(typed);
    proof {
        crate::npc_manager::lemma_found_in_range(m, current_id@);
    }
    let me = match game_world.npc_manager.get_npc_mut(current_id) {
        Some(p) => p,
        None => {
            tell(&mut out, OutputZone::Status, String::from_str("找不到當前控制的角色"));
            proof {
                assert(told(out@) =~= seq![(OutputZone::Status, "找不到當前控制的角色"@)]);
            }
            return out;
        },
    };
    let ghost me0 = *me;
    if !me.items.contains(resolved.as_str()) {
        tell(&mut out, OutputZone::Status, concat("你沒有 ", typed));
        proof {
            assert(told(out@) =~= seq![(OutputZone::Status, "你沒有 "@ + typed@)]);
        }
        proof {
            assert(game_world.npc_manager.people() =~= m.people());
        }
        return out;
    }
    let count = me.items.get_item_count(resolved.as_str());
    if count > 0 {
        me.remove_item(resolved.as_str(), 1);
        me.check_hp(50, &game_world.person_descriptions);
        let mut a = String::from_str(verb);
        a.append(resolved.as_str());
        a.append("，回復了 50 HP");
        tell(&mut out, OutputZone::Main, a);
        let mut b = String::from_str("HP: ");
        push_signed(&mut b, me.hp as i64);
        b.append("/");
        push_signed(&mut b, me.max_hp as i64);
        tell(&mut out, OutputZone::Status, b);
        proof {
            reveal_strlit("HP: ");
            assert(told(out@) =~= seq![
                (OutputZone::Main, verb@ + resolved@ + "，回復了 50 HP"@),
                (OutputZone::Status, "HP: "@ + signed_decimal(me.hp as int) + "/"@ + signed_decimal(me.max_hp as int)),
            ]);
        }
    } else {
        proof {
            assert(told(out@) =~= Seq::<(OutputZone, Seq<char>)>::empty());
        }
    }
    proof {
        if count == 0 {
            assert(game_world.npc_manager.people() =~= m.people());
        }
    }
    out
}

/// What `handle_eat` leaves behind and answers.
pub open spec fn handle_eat_done(old_world: GameWorld, new_world: GameWorld, current_id: Seq<char>, food_name: Seq<char>, r: Seq<(OutputZone, String)>) -> bool {
    &&& consumption(old_world, new_world, current_id, food_name, "你吃了 "@, told(r))
}

/// When `handle_eat` may be called.
pub open spec fn handle_eat_ready(old_world: GameWorld, current_id: Seq<char>, food_name: Seq<char>) -> bool {
    &&& old_world.npc_manager.wf()
    &&& can_consume(old_world.npc_manager, current_id)
}

/// The controlled person eats one `food_name` (see [`consumption`]).
pub fn handle_eat(game_world: &mut GameWorld, current_id: &str, food_name: &str) -> (r: Vec<(OutputZone, String)>)
    requires
        old(game_world).npc_manager.wf(),
        can_consume(old(game_world).npc_manager, current_id@),
    ensures
        handle_eat_done(*old(game_world), *final(game_world), current_id@, food_name@, r@),
{
    consume(game_world, current_id, food_name, "你吃了 ")
}

/// What `handle_use_item` leaves behind and answers.
pub open spec fn handle_use_item_done(old_world: GameWorld, new_world: GameWorld, current_id: Seq<char>, item_name: Seq<char>, r: Seq<(OutputZone, String)>) -> bool {
    &&& consumption(old_world, new_world, current_id, item_name, "你使用了 "@, told(r))
}

/// When `handle_use_item` may be called.
pub open spec fn handle_use_item_ready(old_world: GameWorld, current_id: Seq<char>, item_name: Seq<char>) -> bool {
    &&& old_world.npc_manager.wf()
    &&& can_consume(old_world.npc_manager, current_id)
}

/// The controlled person uses one `item_name` (see [`consumption`]).
pub fn handle_use_item(game_world: &mut GameWorld, current_id: &str, item_name: &str) -> (r: Vec<(OutputZone, String)>)
    requires
        old(game_world).npc_manager.wf(),
        can_consume(old(game_world).npc_manager, current_id@),
    ensures
        handle_use_item_done(*old(game_world), *final(game_world), current_id@, item_name@, r@),
{
    consume(game_world, current_id, item_name, "你使用了 ")
}

/// `after` is `before` with `g` of `item` given away.
pub open spec fn gave_up(before: Person, after: Person, item: Seq<char>, g: u32) -> bool {
    &&& after == (Person { items: after.items, ..before })
    &&& after.wf()
    &&& after.items.amount(item) == taken(before.items.amount(item), g)
    &&& forall|k: Seq<char>| k != item ==> #[trigger] after.items.amount(k) == before.items.amount(k)
}

/// `after` is `before` with `g` more of `item`.
pub open spec fn received(before: Person, after: Person, item: Seq<char>, g: u32) -> bool {
    &&& after == (Person { items: after.items, ..before })
    &&& after.wf()
    &&& after.items.amount(item) == added(before.items.amount(item), g)
    &&& forall|k: Seq<char>| k != item ==> #[trigger] after.items.amount(k) == before.items.amount(k)
}

/// The people `after` and the lines `t` of the gift of `g` of `item` from
/// the entry `a` of `m` to the one `npc_name` finds: the giver gives them
/// up (see [`gave_up`]); the one found receives them (see [`received`]),
/// or, with no one found, the player is told so.
pub open spec fn gift(
    m: NpcManager,
    after: Seq<(String, Person)>,
    a: int,
    item: Seq<char>,
    g: u32,
    npc_name: Seq<char>,
    t: Seq<(OutputZone, Seq<char>)>,
) -> bool {
    exists|spent: Person|
        #[trigger] gave_up(m.people()[a].1, spent, item, g) && {
            let m1 = m.people().update(a, (m.people()[a].0, spent));
            match m.found(npc_name) {
                None => after == m1 && t == seq![(OutputZone::Status, "找不到名為 "@ + npc_name + " 的 NPC"@)],
                Some(j) => {
                    let got = after[j].1;
                    &&& after == m1.update(j, (m1[j].0, got))
                    &&& received(m1[j].1, got, item, g)
                    &&& t == seq![(OutputZone::Main, "你給了 "@ + npc_name + " "@ + item + " x"@ + decimal(g as nat))]
                },
            }
        }
}

/// What `handle_give` leaves behind and answers.
pub open spec fn handle_give_done(old_world: GameWorld, new_world: GameWorld, current_id: Seq<char>, npc_name: Seq<char>, item: Seq<char>, quantity: u32, r: Seq<(OutputZone, String)>) -> bool {
    &&& new_world.npc_manager.wf()
    &&& only_people_changed(old_world, new_world)
    &&& new_world.npc_manager.alias_list() == old_world.npc_manager.alias_list()
    &&& new_world.npc_manager.distance_list() == old_world.npc_manager.distance_list()
    &&& ({
        let m = old_world.npc_manager;
        let it = resolved_item(item);
        match m.found(current_id) {
            None => told(r) == seq![(OutputZone::Status, "找不到當前控制的角色"@)] && new_world.npc_manager == m,
            Some(a) => {
                let me = m.people()[a].1;
                match me.items.amount(it) {
                    None => told(r) == seq![(OutputZone::Status, "你沒有 "@ + item)] && new_world.npc_manager.people()
                        == m.people(),
                    Some(c) => gift(
                        m,
                        new_world.npc_manager.people(),
                        a,
                        it,
                        if quantity < c {
                            quantity
                        } else {
                            c
                        },
                        npc_name,
                        told(r),
                    ),
                }
            },
        }
    })
}

/// When `handle_give` may be called.
pub open spec fn handle_give_ready(old_world: GameWorld, current_id: Seq<char>, npc_name: Seq<char>, item: Seq<char>, quantity: u32) -> bool {
    &&& old_world.npc_manager.wf()
    &&& old_world.npc_manager.found(current_id) matches Some(a) ==> old_world.npc_manager.people()[a].1.wf()
    &&& old_world.npc_manager.found(npc_name) matches Some(j) ==> old_world.npc_manager.people()[j].1.wf()
        && old_world.npc_manager.people()[j].1.items.count_of(resolved_item(item)) + quantity <= u32::MAX
}

/// The controlled person `current_id` gives `quantity` of `item` (at most
/// what they carry) to `npc_name`. Without anyone by that name the things
/// are given up all the same, and the player is told no one was found.
pub fn handle_give(game_world: &mut GameWorld, current_id: &str, npc_name: &str, item: &str, quantity: u32) -> (r: Vec<
    (OutputZone, String),
>)
    requires
        old(game_world).npc_manager.wf(),
        old(game_world).npc_manager.found(current_id@) matches Some(a) ==> old(game_world).npc_manager.people()[a].1.wf(),
        old(game_world).npc_manager.found(npc_name@) matches Some(j) ==> old(game_world).npc_manager.people()[j].1.wf()
            && old(game_world).npc_manager.people()[j].1.items.count_of(resolved_item(item@)) + quantity <= u32::MAX,
    ensures
        handle_give_done(*old(game_world), *final(game_world), current_id@, npc_name@, item@, quantity, r@),
{
    let ghost m = game_world.npc_manager;
    let mut out: Vec<(OutputZone, String)> = Vec::new();
    let resolved = resolve_item_name(item);
    proof {
        crate::npc_manager::lemma_found_in_range(m, current_id@);
        crate::npc_manager::lemma_found_in_range(m, npc_name@);
    }
    let ghost a = m.found(current_id@)->0;
    let me = match game_world.npc_manager.get_npc_mut(current_id) {
        Some(p) => p,
        None => {
            tell(&mut out, OutputZone::Status, String::from_str("找不到當前控制的角色"));
            proof {
                assert(told(out@) =~= seq![(OutputZone::Status, "找不到當前控制的角色"@)]);
            }
            return out;
        },
    };
    if !me.items.contains(resolved.as_str()) {
        tell(&mut out, OutputZone::Status, concat("你沒有 ", item));
        proof {
            assert(told(out@) =~= seq![(OutputZone::Status, "你沒有 "@ + item@)]);
            assert(game_world.npc_manager.people() =~= m.people());
        }
        return out;
    }
    let count = me.items.get_item_count(resolved.as_str());
    let give: u32 = if quantity < count {
        quantity
    } else {
        count
    };
    me.remove_item(resolved.as_str(), give);
    let ghost spent = *me;
    let ghost m1 = m.people().update(a, (m.people()[a].0, spent));
    proof {
        assert(gave_up(m.people()[a].1, spent, resolved@, give));
        assert(game_world.npc_manager.people() == m1);
        crate::command_interact::lemma_found_after_change(m, game_world.npc_manager, a, spent, npc_name@);
    }
    match game_world.npc_manager.get_npc_mut(npc_name) {
        Some(npc) => {
            proof {
                let j = m.found(npc_name@)->0;
                assert(*npc == m1[j].1);
                if j == a {
                    assert(npc.items.count_of(resolved@) <= m.people()[a].1.items.count_of(resolved@));
                }
            }
            npc.add_items(resolved.clone(), give);
            let mut line = String::from_str("你給了 ");
            line.append(npc_name);
            line.append(" ");
            line.append(resolved.as_str());
            line.append(" x");
            push_decimal(&mut line, give as u64);
            tell(&mut out, OutputZone::Main, line);
            proof {
                reveal_strlit("你給了 ");
                reveal_strlit(" ");
                reveal_strlit(" x");
                assert(told(out@) =~= seq![
                    (OutputZone::Main, "你給了 "@ + npc_name@ + " "@ + resolved@ + " x"@ + decimal(give as nat)),
                ]);
            }
        },
        None => {
            let mut line = String::from_str("找不到名為 ");
            line.append(npc_name);
            line.append(" 的 NPC");
            tell(&mut out, OutputZone::Status, line);
            proof {
                assert(told(out@) =~= seq![(OutputZone::Status, "找不到名為 "@ + npc_name@ + " 的 NPC"@)]);
            }
        },
    }
    proof {
        if let Some(j) = m.found(npc_name@) {
            let got = game_world.npc_manager.people()[j].1;
            assert(received(m1[j].1, got, resolved@, give));
            assert(game_world.npc_manager.people() == m1.update(j, (m1[j].0, got)));
        }
        assert(gave_up(m.people()[a].1, spent, resolved@, give));
        assert(m.people()[a].1.items.amount(resolved@) == Some(count));
        assert(gift(m, game_world.npc_manager.people(), a, resolved@, give, npc_name@, told(out@)));
    }
    out
}

/// `after` and the lines `t` follow from setting the attribute named
/// `attribute` (in any case) of `before` to `value`: health (the
/// description follows), will power, strength (the description follows),
/// knowledge, sociality, or gold coins (at least 0); any other name is
/// unknown and changes nothing.
pub open spec fn attribute_set(
    before: Person,
    after: Person,
    attribute: Seq<char>,
    value: i32,
    descs: PersonDescriptions,
    t: Seq<(OutputZone, Seq<char>)>,
) -> bool {
    let key = lowercase(attribute);
    let told_as = |what: Seq<char>, v: int| seq![(OutputZone::Main, before.name@ + what + signed_decimal(v))];
    if key == "hp"@ {
        &&& after == (Person { hp: value, description: after.description, ..before })
        &&& after.description@ == person_words(descs, Person { hp: value, ..before })
        &&& t == told_as(" 的 HP 設置為 "@, value as int)
    } else if key == "mp"@ {
        after == (Person { mp: value, ..before }) && t == told_as(" 的 MP 設置為 "@, value as int)
    } else if key == "strength"@ || key == "str"@ || key == "力量"@ {
        &&& after == (Person { strength: value, description: after.description, ..before })
        &&& after.description@ == person_words(descs, Person { strength: value, ..before })
        &&& t == told_as(" 的力量設置為 "@, value as int)
    } else if key == "knowledge"@ || key == "kno"@ || key == "知識"@ {
        after == (Person { knowledge: value, ..before }) && t == told_as(" 的知識設置為 "@, value as int)
    } else if key == "sociality"@ || key == "soc"@ || key == "交誼"@ {
        after == (Person { sociality: value, ..before }) && t == told_as(" 的交誼設置為 "@, value as int)
    } else if key == "gold"@ || key == "金幣"@ || key == "goldcoin"@ {
        let g: int = if value < 0 {
            0
        } else {
            value as int
        };
        &&& after == (Person { items: after.items, ..before })
        &&& after.wf()
        &&& after.items.amount("金幣"@) == Some(g as u32)
        &&& forall|k: Seq<char>| k != "金幣"@ ==> #[trigger] after.items.amount(k) == before.items.amount(k)
        &&& t == told_as(" 的金幣設置為 "@, g)
    } else {
        after == before && t == seq![(OutputZone::Status, "未知屬性: "@ + attribute)]
    }
}

/// Sets the attribute named `attribute` of `person` (see
/// [`attribute_set`]) and tells it.
pub fn set_person_attribute(person: &mut Person, attribute: &str, value: i32, descs: &PersonDescriptions) -> (r: Vec<
    (OutputZone, String),
>)
    requires
        old(person).wf(),
    ensures
        attribute_set(*old(person), *final(person), attribute@, value, *descs, told(r@)),
{
    let mut out: Vec<(OutputZone, String)> = Vec::new();
    let key = to_lowercase(attribute);
    let k = key.as_str();
    let mut line = person.name.clone();
    proof {
        reveal_strlit("hp");
        reveal_strlit("mp");
        reveal_strlit("strength");
        reveal_strlit("str");
        reveal_strlit("力量");
        reveal_strlit("knowledge");
        reveal_strlit("kno");
        reveal_strlit("知識");
        reveal_strlit("sociality");
        reveal_strlit("soc");
        reveal_strlit("交誼");
        reveal_strlit("gold");
        reveal_strlit("金幣");
        reveal_strlit("goldcoin");
    }
    if str_eq(k, "hp") {
        person.set_hp(value, descs);
        line.append(" 的 HP 設置為 ");
        push_signed(&mut line, value as i64);
    } else if str_eq(k, "mp") {
        person.mp = value;
        line.append(" 的 MP 設置為 ");
        push_signed(&mut line, value as i64);
    } else if str_eq(k, "strength") || str_eq(k, "str") || str_eq(k, "力量") {
        person.set_strength(value, descs);
        line.append(" 的力量設置為 ");
        push_signed(&mut line, value as i64);
    } else if str_eq(k, "knowledge") || str_eq(k, "kno") || str_eq(k, "知識") {
        person.knowledge = value;
        line.append(" 的知識設置為 ");
        push_signed(&mut line, value as i64);
    } else if str_eq(k, "sociality") || str_eq(k, "soc") || str_eq(k, "交誼") {
        person.sociality = value;
        line.append(" 的交誼設置為 ");
        push_signed(&mut line, value as i64);
    } else if str_eq(k, "gold") || str_eq(k, "金幣") || str_eq(k, "goldcoin") {
        let g: u32 = if value < 0 {
            0
        } else {
            value as u32
        };
        person.items.set_count("金幣", g);
        line.append(" 的金幣設置為 ");
        push_signed(&mut line, g as i64);
    } else {
        tell(&mut out, OutputZone::Status, concat("未知屬性: ", attribute));
        proof {
            assert(told(out@) =~= seq![(OutputZone::Status, "未知屬性: "@ + attribute@)]);
        }
        return out;
    }
    tell(&mut out, OutputZone::Main, line);
    proof {
        assert(told(out@) =~= seq![(OutputZone::Main, line@)]);
    }
    out
}

/// What `handle_set` leaves behind and answers.
pub open spec fn handle_set_done(old_world: GameWorld, new_world: GameWorld, current_id: Seq<char>, target: Seq<char>, attribute: Seq<char>, value: i32, r: Seq<(OutputZone, String)>) -> bool {
    &&& new_world.npc_manager.wf()
    &&& only_people_changed(old_world, new_world)
    &&& ({
        let m = old_world.npc_manager;
        let key = lowercase(target);
        if key == "item"@ {
            let price: int = if value < 0 {
                0
            } else {
                value as int
            };
            &&& new_world == old_world
            &&& told(r) == seq![(OutputZone::Main, "物品「"@ + attribute + "」的價格設置為 "@ + decimal(price as nat) + " 金幣"@)]
        } else {
            let who = if key == "me"@ || target == "我"@ {
                m.found(current_id)
            } else {
                m.found(target)
            };
            match who {
                None => new_world.npc_manager == m && told(r) == (if key == "me"@ || target == "我"@ {
                    Seq::empty()
                } else {
                    seq![(OutputZone::Status, "找不到 "@ + target)]
                }),
                Some(j) => {
                    let p = new_world.npc_manager.people()[j].1;
                    &&& person_changed(m, new_world.npc_manager, j, p)
                    &&& attribute_set(m.people()[j].1, p, attribute, value, old_world.person_descriptions, told(r))
                },
            }
        }
    })
}

/// When `handle_set` may be called.
pub open spec fn handle_set_ready(old_world: GameWorld, current_id: Seq<char>, target: Seq<char>, attribute: Seq<char>, value: i32) -> bool {
    &&& old_world.npc_manager.wf()
    &&& forall|i: int|
        0 <= i < old_world.npc_manager.people().len() ==> (#[trigger] old_world.npc_manager.people()[i]).1.wf()
}

/// Sets an attribute (see [`attribute_set`]) of the controlled person when
/// `target` is "me" (in any case) or 我, else of the person `target`
/// finds. A `target` of "item" (in any case) names an item's price
/// instead: the price, at least 0, is told and nothing else changes.
pub fn handle_set(game_world: &mut GameWorld, current_id: &str, target: &str, attribute: &str, value: i32) -> (r: Vec<
    (OutputZone, String),
>)
    requires
        old(game_world).npc_manager.wf(),
        forall|i: int|
            0 <= i < old(game_world).npc_manager.people().len() ==> (#[trigger] old(
                game_world,
            ).npc_manager.people()[i]).1.wf(),
    ensures
        handle_set_done(*old(game_world), *final(game_world), current_id@, target@, attribute@, value, r@),
{
    let ghost m = game_world.npc_manager;
    let key = to_lowercase(target);
    proof {
        reveal_strlit("item");
        reveal_strlit("me");
        reveal_strlit("我");
    }
    if str_eq(key.as_str(), "item") {
        let price: u32 = if value < 0 {
            0
        } else {
            value as u32
        };
        let mut out: Vec<(OutputZone, String)> = Vec::new();
        let mut line = String::from_str("物品「");
        line.append(attribute);
        line.append("」的價格設置為 ");
        push_decimal(&mut line, price as u64);
        line.append(" 金幣");
        tell(&mut out, OutputZone::Main, line);
        proof {
            reveal_strlit("物品「");
            assert(told(out@) =~= seq![(OutputZone::Main, "物品「"@ + attribute@ + "」的價格設置為 "@ + decimal(price as nat) + " 金幣"@)]);
        }
        return out;
    }
    let is_me = str_eq(key.as_str(), "me") || str_eq(target, "我");
    let who = if is_me {
        current_id
    } else {
        target
    };
    proof {
        crate::npc_manager::lemma_found_in_range(m, who@);
    }
    match game_world.npc_manager.get_npc_mut(who) {
        Some(p) => set_person_attribute(p, attribute, value, &game_world.person_descriptions),
        None => {
            let mut out: Vec<(OutputZone, String)> = Vec::new();
            if !is_me {
                tell(&mut out, OutputZone::Status, concat("找不到 ", target));
                proof {
                    assert(told(out@) =~= seq![(OutputZone::Status, "找不到 "@ + target@)]);
                }
            } else {
                proof {
                    assert(told(out@) =~= Seq::<(OutputZone, Seq<char>)>::empty());
                }
            }
            out
        },
    }
}

/// Every map of the world is well kept.
pub open spec fn maps_ok(g: GameWorld) -> bool {
    forall|i: int| 0 <= i < g.maps@.len() ==> (#[trigger] g.maps@[i]).1.wf()
}

/// The step that a direction word names: up, down, left or right.
pub open spec fn direction_step(d: Seq<char>) -> Option<(int, int)> {
    if d == "up"@ || d == "u"@ || d == "north"@ || d == "n"@ || d == "北"@ {
        Some((0, -1))
    } else if d == "down"@ || d == "d"@ || d == "south"@ || d == "s"@ || d == "南"@ {
        Some((0, 1))
    } else if d == "left"@ || d == "l"@ || d == "west"@ || d == "w"@ || d == "西"@ {
        Some((-1, 0))
    } else if d == "right"@ || d == "r"@ || d == "east"@ || d == "e"@ || d == "東"@ {
        Some((1, 0))
    } else {
        None
    }
}

fn step_of(d: &str) -> (r: Option<(i8, i8)>)
    ensures
        match direction_step(d@) {
            Some(st) => r matches Some(v) && v.0 == st.0 && v.1 == st.1,
            None => r is None,
        },
{
    proof {
        reveal_strlit("up");
        reveal_strlit("u");
        reveal_strlit("north");
        reveal_strlit("n");
        reveal_strlit("北");
        reveal_strlit("down");
        reveal_strlit("d");
        reveal_strlit("south");
        reveal_strlit("s");
        reveal_strlit("南");
        reveal_strlit("left");
        reveal_strlit("l");
        reveal_strlit("west");
        reveal_strlit("w");
        reveal_strlit("西");
        reveal_strlit("right");
        reveal_strlit("r");
        reveal_strlit("east");
        reveal_strlit("e");
        reveal_strlit("東");
    }
    if str_eq(d, "up") || str_eq(d, "u") || str_eq(d, "north") || str_eq(d, "n") || str_eq(d, "北") {
        Some((0, -1))
    } else if str_eq(d, "down") || str_eq(d, "d") || str_eq(d, "south") || str_eq(d, "s") || str_eq(d, "南") {
        Some((0, 1))
    } else if str_eq(d, "left") || str_eq(d, "l") || str_eq(d, "west") || str_eq(d, "w") || str_eq(d, "西") {
        Some((-1, 0))
    } else if str_eq(d, "right") || str_eq(d, "r") || str_eq(d, "east") || str_eq(d, "e") || str_eq(d, "東") {
        Some((1, 0))
    } else {
        None
    }
}

/// `after` is `map` with the point at (x, y) made walkable.
pub open spec fn opened_at(map: GameMap, after: GameMap, x: int, y: int) -> bool {
    &&& after.name == map.name
    &&& after.width == map.width
    &&& after.height == map.height
    &&& after.map_type == map.map_type
    &&& after.points@.len() == map.points@.len()
    &&& forall|j: int| 0 <= j < map.points@.len() && j != y ==> #[trigger] after.points@[j] == map.points@[j]
    &&& after.points@[y]@ == map.points@[y]@.update(x, Point { walkable: true, ..map.point_at(x, y) })
}

/// What `handle_conquer` leaves behind and answers.
pub open spec fn handle_conquer_done(old_world: GameWorld, new_world: GameWorld, current_id: Seq<char>, direction: Seq<char>, r: Seq<(OutputZone, String)>) -> bool {
    &&& new_world.wf()
    &&& maps_ok(new_world)
    &&& new_world == (GameWorld { maps: new_world.maps, ..old_world })
    &&& ({
        let g = old_world;
        let m = g.npc_manager;
        match m.found(current_id) {
            None => told(r) == seq![(OutputZone::Status, "找不到當前控制的角色"@)] && new_world == g,
            Some(a) => match direction_step(direction) {
                None => told(r) == seq![(OutputZone::Status, "無效的方向"@)] && new_world == g,
                Some(st) => {
                    let nx = m.people()[a].1.x + st.0;
                    let ny = m.people()[a].1.y + st.1;
                    match key_position(g.maps@, g.current_map_name@) {
                        None => told(r).len() == 0 && new_world.maps@ == g.maps@,
                        Some(i) => {
                            let map = g.maps@[i].1;
                            if 0 <= nx < map.width && 0 <= ny < map.height {
                                &&& new_world.maps@ == g.maps@.update(i, (g.maps@[i].0, new_world.maps@[i].1))
                                &&& opened_at(map, new_world.maps@[i].1, nx, ny)
                                &&& told(r) == seq![(OutputZone::Main, "你征服了 "@ + direction + " 方向，現在可以通行了"@)]
                            } else {
                                &&& new_world.maps@ == g.maps@
                                &&& told(r) == seq![(OutputZone::Status, "該位置超出地圖範圍"@)]
                            }
                        },
                    }
                },
            },
        }
    })
}

/// When `handle_conquer` may be called.
pub open spec fn handle_conquer_ready(old_world: GameWorld, current_id: Seq<char>, direction: Seq<char>) -> bool {
    &&& old_world.wf()
    &&& maps_ok(old_world)
    &&& positions_small(old_world.npc_manager)
}

/// The controlled person `current_id` opens the way one step in
/// `direction`: the point there, on the current map, becomes walkable.
pub fn handle_conquer(game_world: &mut GameWorld, current_id: &str, direction: &str) -> (r: Vec<(OutputZone, String)>)
    requires
        old(game_world).wf(),
        maps_ok(*old(game_world)),
        positions_small(old(game_world).npc_manager),
    ensures
        handle_conquer_done(*old(game_world), *final(game_world), current_id@, direction@, r@),
{
    let ghost g = *game_world;
    let mut out: Vec<(OutputZone, String)> = Vec::new();
    proof {
        crate::npc_manager::lemma_found_in_range(g.npc_manager, current_id@);
    }
    let (x, y) = match game_world.npc_manager.get_npc(current_id) {
        Some(me) => (me.x, me.y),
        None => {
            tell(&mut out, OutputZone::Status, String::from_str("找不到當前控制的角色"));
            proof {
                assert(told(out@) =~= seq![(OutputZone::Status, "找不到當前控制的角色"@)]);
            }
            return out;
        },
    };
    let (dx, dy) = match step_of(direction) {
        Some(st) => st,
        None => {
            tell(&mut out, OutputZone::Status, String::from_str("無效的方向"));
            proof {
                assert(told(out@) =~= seq![(OutputZone::Status, "無效的方向"@)]);
            }
            return out;
        },
    };
    let off_map = (dx < 0 && x == 0) || (dy < 0 && y == 0);
    let nx: usize = if dx < 0 {
        if x == 0 {
            0
        } else {
            x - 1
        }
    } else if dx > 0 {
        x + 1
    } else {
        x
    };
    let ny: usize = if dy < 0 {
        if y == 0 {
            0
        } else {
            y - 1
        }
    } else if dy > 0 {
        y + 1
    } else {
        y
    };
    proof {
        if let Some(i) = key_position(g.maps@, g.current_map_name@) {
            crate::person::lemma_key_position_range(g.maps@, g.current_map_name@);
        }
    }
    match game_world.get_current_map_mut() {
        None => {
            proof {
                assert(told(out@) =~= Seq::<(OutputZone, Seq<char>)>::empty());
            }
        },
        Some(map) => {
            if off_map {
                tell(&mut out, OutputZone::Status, String::from_str("該位置超出地圖範圍"));
                proof {
                    assert(told(out@) =~= seq![(OutputZone::Status, "該位置超出地圖範圍"@)]);
                }
            } else {
                match map.get_point_mut(nx, ny) {
                    Some(point) => {
                        point.walkable = true;
                        let mut line = String::from_str("你征服了 ");
                        line.append(direction);
                        line.append(" 方向，現在可以通行了");
                        tell(&mut out, OutputZone::Main, line);
                        proof {
                            reveal_strlit("你征服了 ");
                            assert(told(out@) =~= seq![(OutputZone::Main, "你征服了 "@ + direction@ + " 方向，現在可以通行了"@)]);
                        }
                    },
                    None => {
                        tell(&mut out, OutputZone::Status, String::from_str("該位置超出地圖範圍"));
                        proof {
                            assert(told(out@) =~= seq![(OutputZone::Status, "該位置超出地圖範圍"@)]);
                        }
                    },
                }
            }
        },
    }
    proof {
        if let Some(i) = key_position(g.maps@, g.current_map_name@) {
            let fm = game_world.maps@[i].1;
            assert(fm.wf()) by {
                assert forall|j: int| 0 <= j < fm.height implies #[trigger] fm.points@[j]@.len() == fm.width by {
                    let om = g.maps@[i].1;
                    assert(om.points@[j]@.len() == om.width);
                }
            }
            assert forall|k: int| 0 <= k < game_world.maps@.len() implies (#[trigger] game_world.maps@[k]).1.wf() by {
                if k != i {
                    assert(game_world.maps@[k] == g.maps@[k]);
                }
            }
            if !(0 <= x + dx < g.maps@[i].1.width && 0 <= y + dy < g.maps@[i].1.height) {
                assert(game_world.maps@ =~= g.maps@);
            }
        } else {
            assert(game_world.maps@ =~= g.maps@);
        }
        assert(crate::npc_manager::keys_distinct(game_world.maps@)) by {
            assert forall|a: int, b: int|
                0 <= a < game_world.maps@.len() && 0 <= b < game_world.maps@.len() && game_world.maps@[a].0@
                    == game_world.maps@[b].0@ implies a == b by {
                assert(game_world.maps@[a].0 == g.maps@[a].0);
                assert(game_world.maps@[b].0 == g.maps@[b].0);
            }
        }
    }
    out
}

/// What `npc` says on meeting `me`, as lines: one of their fitting lines
/// for 見面 drawn at random (see [`Person::get_weighted_dialogue`]), or
/// nothing when none fits.
pub open spec fn greeting(npc: Person, me: Person, g: Seq<(OutputZone, Seq<char>)>) -> bool {
    let opts = options_of(npc.dialogues@, "見面"@);
    if weight_total(opts, me) > 0 {
        exists|i: int|
            0 <= i < opts.len() && effective_weight(opts[i], me) > 0 && g == seq![
                (OutputZone::Main, npc.name@ + " 說：「"@ + (#[trigger] opts[i]).text@ + "」"@),
            ]
    } else {
        g.len() == 0
    }
}

/// `parts` tell the notices `ns` one by one: each notice's message, then,
/// when it asks for a greeting and the person it is about is found in
/// `m`, what they say on meeting `me` (see [`greeting`]).
pub open spec fn notices_told(
    m: NpcManager,
    me: Person,
    ns: Seq<(Seq<char>, Seq<char>, bool)>,
    parts: Seq<Seq<(OutputZone, Seq<char>)>>,
) -> bool {
    &&& parts.len() == ns.len()
    &&& forall|k: int|
        0 <= k < ns.len() ==> {
            let p = #[trigger] parts[k];
            &&& p.len() >= 1
            &&& p[0] == (OutputZone::Main, ns[k].1)
            &&& match m.found(ns[k].0) {
                Some(j) if ns[k].2 => greeting(m.people()[j].1, me, p.drop_first()),
                _ => p.len() == 1,
            }
        }
}

/// Everyone's belongings are well kept and the lines for meeting fit any
/// count.
pub open spec fn greetings_ok(m: NpcManager) -> bool {
    &&& crate::command_interact::people_ok(m)
    &&& forall|i: int, j: int|
        0 <= i < m.people().len() && 0 <= j < m.people().len() ==> weight_total(
            options_of((#[trigger] m.people()[i]).1.dialogues@, "見面"@),
            (#[trigger] m.people()[j]).1,
        ) <= usize::MAX
}

/// `after`, the answer `said` and the lines `t` follow from `before` by
/// reporting who comes and goes (see [`report_proximity`]).
pub open spec fn proximity_reported(
    before: GameWorld,
    after: GameWorld,
    moved: bool,
    said: bool,
    t: Seq<(OutputZone, Seq<char>)>,
) -> bool {
    let m = before.npc_manager;
    let cid = before.current_controlled_id@;
    &&& after.npc_manager.wf()
    &&& only_people_changed(before, after)
    &&& match m.found(cid) {
        None => !said && t.len() == 0 && after.npc_manager == m,
        Some(a) => {
            let me = m.people()[a].1;
            let ns = notices(m.people(), m.distance_list(), cid, me.x, me.y, me.map@, moved);
            &&& after.npc_manager.people() == m.people()
            &&& after.npc_manager.alias_list() == m.alias_list()
            &&& distances_noted(m, after.npc_manager.distance_list(), cid, me.x, me.y, me.map@)
            &&& said == (ns.len() > 0)
            &&& exists|parts: Seq<Seq<(OutputZone, Seq<char>)>>| #[trigger] notices_told(m, me, ns, parts) && t == flat(parts)
        },
    }
}

/// Notes how far everyone on the controlled person's map now is from them
/// (see [`NpcManager::update_proximity`]) and tells who comes or goes,
/// with the greetings of those who come (see [`notices_told`]). The
/// answer says whether there was anything to tell.
pub fn report_proximity(game_world: &mut GameWorld, player_just_moved: bool) -> (r: (bool, Vec<(OutputZone, String)>))
    requires
        old(game_world).npc_manager.wf(),
        positions_small(old(game_world).npc_manager),
        greetings_ok(old(game_world).npc_manager),
    ensures
        proximity_reported(*old(game_world), *final(game_world), player_just_moved, r.0, told(r.1@)),
{
    let ghost m = game_world.npc_manager;
    let mut out: Vec<(OutputZone, String)> = Vec::new();
    let cid = game_world.current_controlled_id.clone();
    proof {
        crate::npc_manager::lemma_found_in_range(m, cid@);
    }
    let (x, y, map) = match game_world.npc_manager.get_npc(cid.as_str()) {
        Some(c) => (c.x, c.y, c.map.clone()),
        None => {
            return (false, out);
        },
    };
    let ghost a = m.found(cid@)->0;
    let ghost me = m.people()[a].1;
    proof {
        assert(me.wf() && total_of(me.items.listing()) <= u32::MAX) by {
            assert(m.people()[a] == m.people()[a]);
        }
    }
    proof {
        assert forall|i: int|
            0 <= i < m.people().len() && watched(#[trigger] m.people()[i], cid@, map@) implies m.people()[i].1.x <= i32::MAX
                && m.people()[i].1.y <= i32::MAX && distance_of(m.people()[i], x, y) <= i32::MAX by {}
    }
    let notes = game_world.npc_manager.update_proximity(cid.as_str(), x, y, map.as_str(), player_just_moved);
    let ghost ns = notices(m.people(), m.distance_list(), cid@, x, y, map@, player_just_moved);
    proof {
        assert(notes@.len() == ns.len()) by {
            assert(notes@.map_values(|n: (String, String, bool)| (n.0@, n.1@, n.2)).len() == notes@.len());
        }
    }
    if notes.len() == 0 {
        proof {
            assert(notices_told(m, me, ns, Seq::empty()));
            assert(told(out@) =~= flat(Seq::<Seq<(OutputZone, Seq<char>)>>::empty()));
        }
        return (false, out);
    }
    let me_now = match game_world.npc_manager.get_npc(cid.as_str()) {
        Some(p) => p,
        None => {
            return (false, out);
        },
    };
    let ghost mut parts: Seq<Seq<(OutputZone, Seq<char>)>> = Seq::empty();
    let mut k: usize = 0;
    while k < notes.len()
        invariant
            k <= notes@.len(),
            notes@.len() == ns.len(),
            notes@.map_values(|n: (String, String, bool)| (n.0@, n.1@, n.2)) == ns,
            game_world.npc_manager.people() == m.people(),
            game_world.npc_manager.alias_list() == m.alias_list(),
            game_world.npc_manager.wf(),
            *me_now == me,
            0 <= a < m.people().len(),
            me == m.people()[a].1,
            me.wf(),
            total_of(me.items.listing()) <= u32::MAX,
            greetings_ok(m),
            parts.len() == k,
            forall|q: int|
                0 <= q < k ==> {
                    let p = #[trigger] parts[q];
                    &&& p.len() >= 1
                    &&& p[0] == (OutputZone::Main, ns[q].1)
                    &&& match m.found(ns[q].0) {
                        Some(j) if ns[q].2 => greeting(m.people()[j].1, me, p.drop_first()),
                        _ => p.len() == 1,
                    }
                },
            told(out@) == flat(parts),
        decreases notes@.len() - k,
    {
        let ghost before = told(out@);
        proof {
            assert(ns[k as int] == (notes@[k as int].0@, notes@[k as int].1@, notes@[k as int].2));
        }
        tell(&mut out, OutputZone::Main, notes[k].1.clone());
        let ghost mut part: Seq<(OutputZone, Seq<char>)> = seq![(OutputZone::Main, ns[k as int].1)];
        if notes[k].2 {
            proof {
                crate::npc_manager::lemma_found_in_range(m, ns[k as int].0);
            }
            match game_world.npc_manager.get_npc(notes[k].0.as_str()) {
                Some(npc) => {
                    proof {
                        let j = m.found(ns[k as int].0)->0;
                        assert(0 <= j < m.people().len());
                        assert(m.people()[j] == m.people()[j] && m.people()[a] == m.people()[a]);
                        assert(weight_total(options_of(m.people()[j].1.dialogues@, "見面"@), m.people()[a].1) <= usize::MAX);
                    }
                    match npc.get_weighted_dialogue("見面", me_now) {
                        Some(g) => {
                            let mut line = npc.name.clone();
                            line.append(" 說：「");
                            line.append(g.as_str());
                            line.append("」");
                            tell(&mut out, OutputZone::Main, line);
                            proof {
                                reveal_strlit(" 說：「");
                                reveal_strlit("」");
                                part = part.push((OutputZone::Main, line@));
                                assert(part.drop_first() =~= seq![(OutputZone::Main, line@)]);
                            }
                        },
                        None => {
                            proof {
                                assert(part.drop_first() =~= Seq::<(OutputZone, Seq<char>)>::empty());
                            }
                        },
                    }
                },
                None => {},
            }
        }
        proof {
            let old_parts = parts;
            parts = parts.push(part);
            assert(parts.drop_last() =~= old_parts);
            assert(told(out@) =~= before + part);
        }
        k = k + 1;
    }
    proof {
        assert(notices_told(m, me, ns, parts));
    }
    (true, out)
}

/// The person follows the player and is on `map`.
pub open spec fn follows_on(p: Person, map: Seq<char>) -> bool {
    follows_me(p) && p.map@ == map
}

/// The entries, in order and with repeats, that the first `n` ids of `m`
/// lead to and that follow the player on `map`.
pub open spec fn follower_hits(m: NpcManager, map: Seq<char>, n: int) -> Seq<int>
    decreases n,
{
    if n <= 0 {
        Seq::empty()
    } else {
        let prev = follower_hits(m, map, n - 1);
        match m.found(m.people()[n - 1].0@) {
            Some(j) => if follows_on(m.people()[j].1, map) {
                prev.push(j)
            } else {
                prev
            },
            None => prev,
        }
    }
}

/// The people of `m` with those at `hits` moved to (x, y).
pub open spec fn moved_to(m: NpcManager, hits: Seq<int>, x: usize, y: usize) -> Seq<(String, Person)> {
    Seq::new(
        m.people().len(),
        |j: int|
            if hits.contains(j) {
                (m.people()[j].0, Person { x, y, ..m.people()[j].1 })
            } else {
                m.people()[j]
            },
    )
}

/// The lines that say who followed.
pub open spec fn follow_lines(m: NpcManager, hits: Seq<int>) -> Seq<(OutputZone, Seq<char>)> {
    hits.map_values(|j: int| (OutputZone::Main, m.people()[j].1.name@ + " 跟隨你移動"@))
}

proof fn lemma_hits_in_range(m: NpcManager, map: Seq<char>, n: int)
    requires
        0 <= n <= m.people().len(),
    ensures
        forall|q: int| 0 <= q < follower_hits(m, map, n).len() ==> 0 <= #[trigger] follower_hits(m, map, n)[q] < m.people().len()
            && follows_on(m.people()[follower_hits(m, map, n)[q]].1, map),
    decreases n,
{
    if n > 0 {
        lemma_hits_in_range(m, map, n - 1);
        crate::npc_manager::lemma_found_in_range(m, m.people()[n - 1].0@);
        let prev = follower_hits(m, map, n - 1);
        let cur = follower_hits(m, map, n);
        assert forall|q: int| 0 <= q < cur.len() implies 0 <= #[trigger] cur[q] < m.people().len() && follows_on(
            m.people()[cur[q]].1,
            map,
        ) by {
            if q < prev.len() {
                assert(cur[q] == prev[q]);
            }
        }
    }
}

/// `after` and the lines `t` follow from `before` by the player's party
/// following them to (x, y) (see [`move_party_npcs`]).
pub open spec fn party_moved(before: GameWorld, after: GameWorld, x: usize, y: usize, t: Seq<(OutputZone, Seq<char>)>) -> bool {
    let m = before.npc_manager;
    let hits = follower_hits(m, before.current_map_name@, m.people().len() as int);
    &&& after.npc_manager.wf()
    &&& only_people_changed(before, after)
    &&& after.npc_manager.people() == moved_to(m, hits, x, y)
    &&& after.npc_manager.alias_list() == m.alias_list()
    &&& after.npc_manager.distance_list() == m.distance_list()
    &&& t == follow_lines(m, hits)
}

/// Everyone who follows the player on the current map goes to (x, y)
/// along with them (each id of the world looked up in turn), and is told
/// to have followed.
pub fn move_party_npcs(game_world: &mut GameWorld, player_x: usize, player_y: usize) -> (r: Vec<(OutputZone, String)>)
    requires
        old(game_world).npc_manager.wf(),
    ensures
        party_moved(*old(game_world), *final(game_world), player_x, player_y, told(r@)),
{
    let ghost m = game_world.npc_manager;
    let ghost map = game_world.current_map_name@;
    let ids = game_world.npc_manager.get_all_npc_ids();
    let mut out: Vec<(OutputZone, String)> = Vec::new();
    let mut k: usize = 0;
    proof {
        assert(ids@.len() == m.people().len()) by {
            assert(ids@.map_values(|s: String| s@).len() == keys_of(m.people()).len());
        }
        assert(moved_to(m, Seq::empty(), player_x, player_y) =~= m.people());
        assert(follow_lines(m, Seq::empty()) =~= Seq::<(OutputZone, Seq<char>)>::empty());
        reveal_strlit("me");
    }
    while k < ids.len()
        invariant
            k <= ids@.len(),
            ids@.len() == m.people().len(),
            ids@.map_values(|s: String| s@) == keys_of(m.people()),
            m.wf(),
            map == old(game_world).current_map_name@,
            game_world.npc_manager.wf(),
            *game_world == (GameWorld { npc_manager: game_world.npc_manager, ..*old(game_world) }),
            m == old(game_world).npc_manager,
            game_world.npc_manager.people() == moved_to(m, follower_hits(m, map, k as int), player_x, player_y),
            game_world.npc_manager.alias_list() == m.alias_list(),
            game_world.npc_manager.distance_list() == m.distance_list(),
            told(out@) == follow_lines(m, follower_hits(m, map, k as int)),
        decreases ids@.len() - k,
    {
        let ghost hits = follower_hits(m, map, k as int);
        let ghost cur = game_world.npc_manager;
        proof {
            assert(ids@[k as int]@ == m.people()[k as int].0@) by {
                assert(ids@.map_values(|s: String| s@)[k as int] == keys_of(m.people())[k as int]);
            }
            crate::command_interact::lemma_found_stable(m, cur, ids@[k as int]@);
            crate::npc_manager::lemma_found_in_range(m, m.people()[k as int].0@);
            lemma_hits_in_range(m, map, k as int);
        }
        let map_name = &game_world.current_map_name;
        match game_world.npc_manager.get_npc_mut(ids[k].as_str()) {
            Some(npc) => {
                let follows = match &npc.party_leader {
                    Some(l) => str_eq(l.as_str(), "me"),
                    None => false,
                };
                if follows && str_eq(npc.map.as_str(), map_name.as_str()) {
                    npc.x = player_x;
                    npc.y = player_y;
                    let mut line = npc.name.clone();
                    line.append(" 跟隨你移動");
                    let ghost before_out = told(out@);
                    tell(&mut out, OutputZone::Main, line);
                    proof {
                        let j = m.found(m.people()[k as int].0@)->0;
                        assert(follows_on(m.people()[j].1, map));
                        assert(follower_hits(m, map, k + 1) == hits.push(j));
                        assert forall|x: int| #[trigger] hits.push(j).contains(x) <==> (hits.contains(x) || x == j) by {
                            if hits.push(j).contains(x) {
                                let y = choose|y: int| 0 <= y < hits.push(j).len() && hits.push(j)[y] == x;
                                if y < hits.len() {
                                    assert(hits[y] == x);
                                }
                            }
                            if hits.contains(x) {
                                let y = choose|y: int| 0 <= y < hits.len() && hits[y] == x;
                                assert(hits.push(j)[y] == x);
                            }
                            if x == j {
                                assert(hits.push(j)[hits.len() as int] == x);
                            }
                        }
                        assert(game_world.npc_manager.people() =~= moved_to(m, hits.push(j), player_x, player_y));
                        assert(told(out@) =~= follow_lines(m, hits.push(j)));
                    }
                } else {
                    proof {
                        let j = m.found(m.people()[k as int].0@)->0;
                        assert(!follows_on(m.people()[j].1, map));
                        assert(follower_hits(m, map, k + 1) == hits);
                        assert(game_world.npc_manager.people() =~= cur.people());
                    }
                }
            },
            None => {
                proof {
                    assert(follower_hits(m, map, k + 1) == hits);
                }
            },
        }
        k = k + 1;
    }
    out
}

/// Every map of the world is at most 2^30 points wide and high.
pub open spec fn maps_small(g: GameWorld) -> bool {
    forall|i: int| 0 <= i < g.maps@.len() ==> (#[trigger] g.maps@[i]).1.width <= 0x4000_0000 && g.maps@[i].1.height <= 0x4000_0000
}

/// `b` holds the people of `a`, some of them moved elsewhere.
pub open spec fn placed_only(a: Seq<(String, Person)>, b: Seq<(String, Person)>) -> bool {
    &&& b.len() == a.len()
    &&& forall|j: int| 0 <= j < a.len() ==> #[trigger] b[j] == (a[j].0, Person { x: b[j].1.x, y: b[j].1.y, ..a[j].1 })
}

proof fn lemma_weights_ignore_place(opts: Seq<DialogueOption>, p: Person, q: Person, n: int)
    requires
        q == (Person { x: q.x, y: q.y, ..p }),
    ensures
        weight_prefix(opts, p, n) == weight_prefix(opts, q, n),
    decreases n,
{
    if n > 0 {
        lemma_weights_ignore_place(opts, p, q, n - 1);
        let o = opts[n - 1];
        assert forall|i: int| 0 <= i < o.conditions@.len() implies condition_met(#[trigger] o.conditions@[i], p)
            == condition_met(o.conditions@[i], q) by {
            assert(attribute_value(p, o.conditions@[i].attribute@) == attribute_value(q, o.conditions@[i].attribute@));
        }
        assert(effective_weight(o, p) == effective_weight(o, q));
    }
}

proof fn lemma_greetings_kept(m: NpcManager, m2: NpcManager)
    requires
        greetings_ok(m),
        placed_only(m.people(), m2.people()),
    ensures
        greetings_ok(m2),
{
    let s = m.people();
    let t = m2.people();
    assert forall|i: int| 0 <= i < t.len() implies (#[trigger] t[i]).1.wf() && total_of(t[i].1.items.listing()) <= u32::MAX by {
        assert(s[i] == s[i]);
    }
    assert forall|i: int, j: int| 0 <= i < t.len() && 0 <= j < t.len() implies weight_total(
        options_of((#[trigger] t[i]).1.dialogues@, "見面"@),
        (#[trigger] t[j]).1,
    ) <= usize::MAX by {
        assert(s[i] == s[i] && s[j] == s[j]);
        let opts = options_of(s[i].1.dialogues@, "見面"@);
        lemma_weights_ignore_place(opts, s[j].1, t[j].1, opts.len() as int);
    }
}

/// The word for a step: 北, 南, 東 or 西, and 未知方向 for any other.
pub open spec fn direction_word(dx: i32, dy: i32) -> Seq<char> {
    if dx == 0 && dy == -1 {
        "北"@
    } else if dx == 0 && dy == 1 {
        "南"@
    } else if dx == 1 && dy == 0 {
        "東"@
    } else if dx == -1 && dy == 0 {
        "西"@
    } else {
        "未知方向"@
    }
}

fn direction_name(dx: i32, dy: i32) -> (r: &'static str)
    ensures
        r@ == direction_word(dx, dy),
{
    if dx == 0 && dy == -1 {
        "北"
    } else if dx == 0 && dy == 1 {
        "南"
    } else if dx == 1 && dy == 0 {
        "東"
    } else if dx == -1 && dy == 0 {
        "西"
    } else {
        "未知方向"
    }
}

/// The stages of a step to (nx, ny) by the controlled person at `a`:
/// they stand there (`g1`), their party follows (`g2`, `t1`), and who
/// comes and goes is told (`after`, `said`, `t2`).
pub open spec fn walk_steps(
    g: GameWorld,
    g1: GameWorld,
    g2: GameWorld,
    after: GameWorld,
    a: int,
    nx: usize,
    ny: usize,
    t1: Seq<(OutputZone, Seq<char>)>,
    said: bool,
    t2: Seq<(OutputZone, Seq<char>)>,
) -> bool {
    let m = g.npc_manager;
    &&& only_people_changed(g, g1)
    &&& person_changed(m, g1.npc_manager, a, Person { x: nx, y: ny, ..m.people()[a].1 })
    &&& party_moved(g1, g2, nx, ny, t1)
    &&& proximity_reported(g2, after, true, said, t2)
}

/// What `handle_move` leaves behind and answers.
pub open spec fn handle_move_done(old_world: GameWorld, new_world: GameWorld, current_id: Seq<char>, dx: i32, dy: i32, r: Seq<(OutputZone, String)>) -> bool {
    &&& new_world.npc_manager.wf()
    &&& ({
        let g = old_world;
        let m = g.npc_manager;
        if g.combat_state is InCombat {
            new_world == g && told(r) == seq![(OutputZone::Main, "戰鬥中無法移動！"@)]
        } else {
            match m.found(current_id) {
                None => new_world == g && told(r) == seq![(OutputZone::Status, "找不到當前控制的角色"@)],
                Some(a) => {
                    let me = m.people()[a].1;
                    let nx = me.x + dx;
                    let ny = me.y + dy;
                    if (dx < 0 && me.x == 0) || (dy < 0 && me.y == 0) {
                        new_world == g && told(r) == seq![(OutputZone::Status, "超出地圖範圍"@)]
                    } else {
                        match g.map_named(g.current_map_name@) {
                            None => new_world == g && told(r) == seq![(OutputZone::Status, "當前沒有地圖"@)],
                            Some(map) => if !(0 <= nx < map.width && 0 <= ny < map.height) {
                                new_world == g && told(r) == seq![(OutputZone::Status, "超出地圖範圍"@)]
                            } else if !map.point_at(nx, ny).walkable {
                                new_world == g && told(r) == seq![(OutputZone::Status, "前方是牆壁，無法通過"@)]
                            } else {
                                exists|
                                    g1: GameWorld,
                                    g2: GameWorld,
                                    t1: Seq<(OutputZone, Seq<char>)>,
                                    said: bool,
                                    t2: Seq<(OutputZone, Seq<char>)>,
                                |
                                    #[trigger] walk_steps(g, g1, g2, new_world, a, nx as usize, ny as usize, t1, said, t2)
                                        && told(r) == seq![
                                        (OutputZone::Main, "你向"@ + direction_word(dx, dy) + "移動到 ("@ + decimal(nx as nat) + ", "@
                                            + decimal(ny as nat) + ")"@),
                                    ] + t1 + t2
                            },
                        }
                    }
                },
            }
        }
    })
}

/// When `handle_move` may be called.
pub open spec fn handle_move_ready(old_world: GameWorld, current_id: Seq<char>, dx: i32, dy: i32) -> bool {
    &&& old_world.wf()
    &&& maps_ok(old_world)
    &&& maps_small(old_world)
    &&& positions_small(old_world.npc_manager)
    &&& greetings_ok(old_world.npc_manager)
    &&& old_world.npc_manager.found(current_id) matches Some(a) ==> {
        let me = old_world.npc_manager.people()[a].1;
        i32::MIN <= me.x + dx <= i32::MAX && i32::MIN <= me.y + dy <= i32::MAX
    }
}

/// The controlled person `current_id` takes the step (dx, dy) on the
/// current map: not in a fight, not off the map, not into a wall. Their
/// party follows, and who comes and goes is told (see [`walk_steps`]).
pub fn handle_move(game_world: &mut GameWorld, current_id: &str, dx: i32, dy: i32) -> (r: Vec<(OutputZone, String)>)
    requires
        old(game_world).wf(),
        maps_ok(*old(game_world)),
        maps_small(*old(game_world)),
        positions_small(old(game_world).npc_manager),
        greetings_ok(old(game_world).npc_manager),
        old(game_world).npc_manager.found(current_id@) matches Some(a) ==> {
            let me = old(game_world).npc_manager.people()[a].1;
            i32::MIN <= me.x + dx <= i32::MAX && i32::MIN <= me.y + dy <= i32::MAX
        },
    ensures
        handle_move_done(*old(game_world), *final(game_world), current_id@, dx, dy, r@),
{
    let ghost g = *game_world;
    let ghost m = g.npc_manager;
    let mut out: Vec<(OutputZone, String)> = Vec::new();
    if !game_world.combat_state.is_not_in_combat() {
        tell(&mut out, OutputZone::Main, String::from_str("戰鬥中無法移動！"));
        proof {
            assert(told(out@) =~= seq![(OutputZone::Main, "戰鬥中無法移動！"@)]);
        }
        return out;
    }
    proof {
        crate::npc_manager::lemma_found_in_range(m, current_id@);
    }
    let (x, y) = match game_world.npc_manager.get_npc(current_id) {
        Some(me) => (me.x, me.y),
        None => {
            tell(&mut out, OutputZone::Status, String::from_str("找不到當前控制的角色"));
            proof {
                assert(told(out@) =~= seq![(OutputZone::Status, "找不到當前控制的角色"@)]);
            }
            return out;
        },
    };
    if (dx < 0 && x == 0) || (dy < 0 && y == 0) {
        tell(&mut out, OutputZone::Status, String::from_str("超出地圖範圍"));
        proof {
            assert(told(out@) =~= seq![(OutputZone::Status, "超出地圖範圍"@)]);
        }
        return out;
    }
    let sx: i64 = x as i64 + dx as i64;
    let sy: i64 = y as i64 + dy as i64;
    let (width, height, walkable) = match game_world.get_current_map() {
        None => {
            tell(&mut out, OutputZone::Status, String::from_str("當前沒有地圖"));
            proof {
                assert(told(out@) =~= seq![(OutputZone::Status, "當前沒有地圖"@)]);
            }
            return out;
        },
        Some(map) => {
            proof {
                crate::person::lemma_key_position_range(g.maps@, g.current_map_name@);
                let i = key_position(g.maps@, g.current_map_name@)->0;
                assert(g.maps@[i].1.wf());
            }
            if sx < 0 || sy < 0 || sx as u64 >= map.width as u64 || sy as u64 >= map.height as u64 {
                (map.width, map.height, false)
            } else {
                let w = match map.get_point(sx as usize, sy as usize) {
                    Some(p) => p.walkable,
                    None => false,
                };
                (map.width, map.height, w)
            }
        },
    };
    if sx < 0 || sy < 0 || sx as u64 >= width as u64 || sy as u64 >= height as u64 {
        tell(&mut out, OutputZone::Status, String::from_str("超出地圖範圍"));
        proof {
            assert(told(out@) =~= seq![(OutputZone::Status, "超出地圖範圍"@)]);
        }
        return out;
    }
    if !walkable {
        tell(&mut out, OutputZone::Status, String::from_str("前方是牆壁，無法通過"));
        proof {
            assert(told(out@) =~= seq![(OutputZone::Status, "前方是牆壁，無法通過"@)]);
        }
        return out;
    }
    let nx = sx as usize;
    let ny = sy as usize;
    let ghost a = m.found(current_id@)->0;
    match game_world.npc_manager.get_npc_mut(current_id) {
        Some(me) => {
            me.x = nx;
            me.y = ny;
        },
        None => {},
    }
    let ghost g1 = *game_world;
    let mut line = String::from_str("你向");
    line.append(direction_name(dx, dy));
    line.append("移動到 (");
    push_decimal(&mut line, nx as u64);
    line.append(", ");
    push_decimal(&mut line, ny as u64);
    line.append(")");
    tell(&mut out, OutputZone::Main, line);
    let ghost head = told(out@);
    proof {
        reveal_strlit("你向");
        reveal_strlit("移動到 (");
        reveal_strlit(", ");
        reveal_strlit(")");
        assert(head =~= seq![
            (OutputZone::Main, "你向"@ + direction_word(dx, dy) + "移動到 ("@ + decimal(nx as nat) + ", "@ + decimal(ny as nat) + ")"@),
        ]);
        let i = key_position(g.maps@, g.current_map_name@)->0;
        assert(g.maps@[i].1.width <= 0x4000_0000 && g.maps@[i].1.height <= 0x4000_0000);
        assert(placed_only(m.people(), g1.npc_manager.people()));
        lemma_greetings_kept(m, g1.npc_manager);
    }
    let mut t1 = move_party_npcs(game_world, nx, ny);
    let ghost g2 = *game_world;
    let ghost v1 = told(t1@);
    proof {
        let m1 = g1.npc_manager;
        let hits = follower_hits(m1, g1.current_map_name@, m1.people().len() as int);
        assert(placed_only(m1.people(), g2.npc_manager.people()));
        lemma_greetings_kept(m1, g2.npc_manager);
        assert(positions_small(g2.npc_manager)) by {
            assert forall|j: int| 0 <= j < g2.npc_manager.people().len() implies (#[trigger] g2.npc_manager.people()[j]).1.x
                < 0x4000_0000 && g2.npc_manager.people()[j].1.y < 0x4000_0000 by {
                assert(m.people()[j] == m.people()[j]);
            }
        }
    }
    let (said, mut t2) = report_proximity(game_world, true);
    let ghost v2 = told(t2@);
    let ghost o1 = out@;
    out.append(&mut t1);
    let ghost o2 = out@;
    out.append(&mut t2);
    proof {
        assert(told(o2) =~= told(o1) + v1);
        assert(told(out@) =~= told(o2) + v2);
        assert(walk_steps(g, g1, g2, *game_world, a, nx, ny, v1, said, v2));
    }
    out
}

/// A round bracket.
pub open spec fn is_paren(c: char) -> bool {
    c == '(' || c == ')'
}

/// `s` without its leading round brackets.
pub open spec fn strip_start_parens(s: Seq<char>) -> Seq<char>
    decreases s.len(),
{
    if s.len() > 0 && is_paren(s[0]) {
        strip_start_parens(s.drop_first())
    } else {
        s
    }
}

/// `s` without its trailing round brackets.
pub open spec fn strip_end_parens(s: Seq<char>) -> Seq<char>
    decreases s.len(),
{
    if s.len() > 0 && is_paren(s.last()) {
        strip_end_parens(s.drop_last())
    } else {
        s
    }
}

/// The place that a teleport target names: `x,y` or `(x,y)`, with any
/// whitespace around it and around each number (see
/// [`crate::command_args::coordinates_of`]).
pub open spec fn flyto_coordinates(s: Seq<char>) -> Option<(usize, usize)> {
    coordinates_of(strip_end_parens(strip_start_parens(trim(s))))
}

proof fn lemma_strip_start_skip(s: Seq<char>, k: int)
    requires
        0 <= k <= s.len(),
        forall|j: int| 0 <= j < k ==> is_paren(#[trigger] s[j]),
        k == s.len() || !is_paren(s[k]),
    ensures
        strip_start_parens(s) == s.skip(k),
    decreases k,
{
    if k == 0 {
        assert(s.skip(0) =~= s);
    } else {
        let t = s.drop_first();
        assert forall|j: int| 0 <= j < k - 1 implies is_paren(#[trigger] t[j]) by {
            assert(t[j] == s[j + 1]);
        }
        if k < s.len() {
            assert(t[k - 1] == s[k]);
        }
        lemma_strip_start_skip(t, k - 1);
        assert(t.skip(k - 1) =~= s.skip(k));
    }
}

proof fn lemma_strip_end_take(s: Seq<char>, k: int)
    requires
        0 <= k <= s.len(),
        forall|j: int| k <= j < s.len() ==> is_paren(#[trigger] s[j]),
        k == 0 || !is_paren(s[k - 1]),
    ensures
        strip_end_parens(s) == s.take(k),
    decreases s.len() - k,
{
    if k == s.len() {
        assert(s.take(k) =~= s);
    } else {
        let t = s.drop_last();
        assert forall|j: int| k <= j < t.len() implies is_paren(#[trigger] t[j]) by {
            assert(t[j] == s[j]);
        }
        if k > 0 {
            assert(t[k - 1] == s[k - 1]);
        }
        lemma_strip_end_take(t, k);
        assert(t.take(k) =~= s.take(k));
    }
}

/// `s` without the round brackets at its ends.
fn strip_parens(s: &str) -> (r: String)
    ensures
        r@ == strip_end_parens(strip_start_parens(s@)),
{
    let c = chars_of(s);
    let n = c.len();
    let mut a: usize = 0;
    while a < n && (c[a] == '(' || c[a] == ')')
        invariant
            c@ == s@,
            n == c@.len(),
            a <= n,
            forall|j: int| 0 <= j < a ==> is_paren(#[trigger] c@[j]),
        decreases n - a,
    {
        a = a + 1;
    }
    proof {
        lemma_strip_start_skip(c@, a as int);
    }
    let mut b: usize = n;
    while b > a && (c[b - 1] == '(' || c[b - 1] == ')')
        invariant
            c@ == s@,
            n == c@.len(),
            a <= b <= n,
            forall|j: int| b <= j < n ==> is_paren(#[trigger] c@[j]),
        decreases b - a,
    {
        b = b - 1;
    }
    proof {
        let t = c@.skip(a as int);
        let k = b - a;
        assert forall|j: int| k <= j < t.len() implies is_paren(#[trigger] t[j]) by {
            assert(t[j] == c@[a + j]);
        }
        if k > 0 {
            assert(t[k - 1] == c@[b - 1]);
        }
        lemma_strip_end_take(t, k as int);
        assert(t.take(k as int) =~= c@.subrange(a as int, b as int));
    }
    string_of(&c, a, b)
}

/// The place that `s` names, written `x,y` or `(x,y)` (see
/// [`flyto_coordinates`]).
fn parse_coordinates(s: &str) -> (r: Option<(usize, usize)>)
    ensures
        r == flyto_coordinates(s@),
{
    let t = trim_text(s);
    let u = strip_parens(t.as_str());
    crate::command_args::parse_coordinates(u.as_str())
}

/// What `handle_flyto` leaves behind and answers.
pub open spec fn handle_flyto_done(old_world: GameWorld, new_world: GameWorld, current_id: Seq<char>, target: Seq<char>, r: Seq<(OutputZone, String)>) -> bool {
    &&& new_world.npc_manager.wf()
    &&& ({
        let g = old_world;
        let m = g.npc_manager;
        match flyto_coordinates(target) {
            Some((x, y)) => match m.found(current_id) {
                None => new_world == g && told(r).len() == 0,
                Some(a) => {
                    &&& only_people_changed(g, new_world)
                    &&& person_changed(m, new_world.npc_manager, a, Person { x, y, ..m.people()[a].1 })
                    &&& told(r) == seq![(OutputZone::Main, "你傳送到了 ("@ + decimal(x as nat) + ", "@ + decimal(y as nat) + ")"@)]
                },
            },
            None => if g.map_named(target) is Some {
                &&& new_world == (GameWorld { current_map_name: new_world.current_map_name, ..g })
                &&& new_world.current_map_name@ == target
                &&& told(r) == seq![(OutputZone::Main, "你傳送到了地圖 "@ + target)]
            } else {
                new_world == g && told(r) == seq![(OutputZone::Status, "無法傳送到 "@ + target)]
            },
        }
    })
}

/// When `handle_flyto` may be called.
pub open spec fn handle_flyto_ready(old_world: GameWorld, current_id: Seq<char>, target: Seq<char>) -> bool {
    &&& old_world.npc_manager.wf()
}

/// Teleports: to the place `target` names on the current map (see
/// [`flyto_coordinates`]), else to the map named `target`.
pub fn handle_flyto(game_world: &mut GameWorld, current_id: &str, target: &str) -> (r: Vec<(OutputZone, String)>)
    requires
        old(game_world).npc_manager.wf(),
    ensures
        handle_flyto_done(*old(game_world), *final(game_world), current_id@, target@, r@),
{
    let mut out: Vec<(OutputZone, String)> = Vec::new();
    match parse_coordinates(target) {
        Some((x, y)) => {
            match game_world.npc_manager.get_npc_mut(current_id) {
                Some(me) => {
                    me.x = x;
                    me.y = y;
                    let mut line = String::from_str("你傳送到了 (");
                    push_decimal(&mut line, x as u64);
                    line.append(", ");
                    push_decimal(&mut line, y as u64);
                    line.append(")");
                    tell(&mut out, OutputZone::Main, line);
                    proof {
                        reveal_strlit("你傳送到了 (");
                        reveal_strlit(", ");
                        reveal_strlit(")");
                        assert(told(out@) =~= seq![
                            (OutputZone::Main, "你傳送到了 ("@ + decimal(x as nat) + ", "@ + decimal(y as nat) + ")"@),
                        ]);
                    }
                },
                None => {
                    proof {
                        assert(told(out@) =~= Seq::<(OutputZone, Seq<char>)>::empty());
                    }
                },
            }
            out
        },
        None => {
            if game_world.change_map(target) {
                tell(&mut out, OutputZone::Main, concat("你傳送到了地圖 ", target));
                proof {
                    assert(told(out@) =~= seq![(OutputZone::Main, "你傳送到了地圖 "@ + target@)]);
                }
            } else {
                tell(&mut out, OutputZone::Status, concat("無法傳送到 ", target));
                proof {
                    assert(told(out@) =~= seq![(OutputZone::Status, "無法傳送到 "@ + target@)]);
                }
            }
            out
        },
    }
}

/// The lines of one group of the help screen: its category, then each
/// entry as `  <syntax> - <description>`.
pub open spec fn help_group_lines(g: (&'static str, Vec<(&'static str, &'static str)>)) -> Seq<(OutputZone, Seq<char>)> {
    seq![(OutputZone::Main, "\n"@ + g.0@)] + g.1@.map_values(
        |e: (&'static str, &'static str)| (OutputZone::Main, "  "@ + e.0@ + " - "@ + e.1@),
    )
}

/// The lines of the help groups `info`, one group after the other.
pub open spec fn help_body(info: Seq<(&'static str, Vec<(&'static str, &'static str)>)>) -> Seq<(OutputZone, Seq<char>)>
    decreases info.len(),
{
    if info.len() == 0 {
        Seq::empty()
    } else {
        help_body(info.drop_last()) + help_group_lines(info.last())
    }
}

/// The groups of the help screen (see
/// [`crate::command_handler::CommandResult::get_help_info`]).
pub open spec fn help_screen_groups() -> Seq<(Seq<char>, Seq<(Seq<char>, Seq<char>)>)> {
    help_groups(help_commands().map_values(|c: CommandResult| description_of(c)), help_order())
}

/// What `handle_help` leaves behind and answers.
pub open spec fn handle_help_done(r: Seq<(OutputZone, String)>) -> bool {
    &&& exists|info: Seq<(&'static str, Vec<(&'static str, &'static str)>)>|
        #[trigger] help_matches(info, help_screen_groups()) && told(r) == seq![(OutputZone::Main, "=== RataMUD 指令說明 ==="@)] + help_body(info)
}

/// The help screen: a heading, then each group of commands (see
/// [`crate::command_handler::CommandResult::get_help_info`]).
pub fn handle_help() -> (r: Vec<(OutputZone, String)>)
    ensures
        handle_help_done(r@),
{
    let info = CommandResult::get_help_info();
    let mut out: Vec<(OutputZone, String)> = Vec::new();
    tell(&mut out, OutputZone::Main, String::from_str("=== RataMUD 指令說明 ==="));
    let ghost head = told(out@);
    proof {
        assert(head =~= seq![(OutputZone::Main, "=== RataMUD 指令說明 ==="@)]);
        assert(help_body(info@.take(0)) =~= Seq::<(OutputZone, Seq<char>)>::empty());
        assert(told(out@) =~= head + help_body(info@.take(0)));
    }
    let mut i: usize = 0;
    while i < info.len()
        invariant
            i <= info@.len(),
            told(out@) == head + help_body(info@.take(i as int)),
        decreases info@.len() - i,
    {
        let ghost before = told(out@);
        tell(&mut out, OutputZone::Main, concat("\n", info[i].0));
        let cmds = &info[i].1;
        let ghost mid = told(out@);
        let mut j: usize = 0;
        while j < cmds.len()
            invariant
                j <= cmds@.len(),
                *cmds == info@[i as int].1,
                told(out@) == mid + cmds@.take(j as int).map_values(
                    |e: (&'static str, &'static str)| (OutputZone::Main, "  "@ + e.0@ + " - "@ + e.1@),
                ),
            decreases cmds@.len() - j,
        {
            let ghost b2 = told(out@);
            let mut line = String::from_str("  ");
            line.append(cmds[j].0);
            line.append(" - ");
            line.append(cmds[j].1);
            tell(&mut out, OutputZone::Main, line);
            proof {
                reveal_strlit("  ");
                assert(cmds@.take(j + 1) =~= cmds@.take(j as int).push(cmds@[j as int]));
                assert(told(out@) =~= mid + cmds@.take(j + 1).map_values(
                    |e: (&'static str, &'static str)| (OutputZone::Main, "  "@ + e.0@ + " - "@ + e.1@),
                ));
            }
            j = j + 1;
        }
        proof {
            assert(cmds@.take(j as int) =~= cmds@);
            let t = info@.take(i + 1);
            assert(t.drop_last() =~= info@.take(i as int));
            assert(t.last() == info@[i as int]);
            assert(told(out@) =~= head + help_body(t));
        }
        i = i + 1;
    }
    proof {
        assert(info@.take(i as int) =~= info@);
        assert(help_matches(info@, help_screen_groups()));
    }
    out
}

/// How many of the things `objs` are called `k`: a place holds a thing as
/// many times as it lies there.
pub open spec fn count_named(objs: Seq<Seq<char>>, k: Seq<char>) -> nat
    decreases objs.len(),
{
    if objs.len() == 0 {
        0
    } else {
        count_named(objs.drop_last(), k) + if objs.last() == k {
            1nat
        } else {
            0nat
        }
    }
}

proof fn lemma_count_remove(s: Seq<Seq<char>>, i: int, q: Seq<char>)
    requires
        0 <= i < s.len(),
    ensures
        count_named(s.remove(i), q) + (if s[i] == q {
            1nat
        } else {
            0nat
        }) == count_named(s, q),
    decreases s.len(),
{
    if i == s.len() - 1 {
        assert(s.remove(i) =~= s.drop_last());
    } else {
        lemma_count_remove(s.drop_last(), i, q);
        assert(s.remove(i).drop_last() =~= s.drop_last().remove(i));
        assert(s.remove(i).last() == s.last());
    }
}

proof fn lemma_count_contains(s: Seq<Seq<char>>, q: Seq<char>)
    ensures
        count_named(s, q) > 0 <==> s.contains(q),
    decreases s.len(),
{
    if s.len() > 0 {
        lemma_count_contains(s.drop_last(), q);
        if s.drop_last().contains(q) {
            let j = choose|j: int| 0 <= j < s.drop_last().len() && s.drop_last()[j] == q;
            assert(s[j] == q);
        }
        if s.contains(q) {
            let j = choose|j: int| 0 <= j < s.len() && s[j] == q;
            if j < s.len() - 1 {
                assert(s.drop_last()[j] == q);
            }
        }
    }
}

proof fn lemma_count_without_first(s: Seq<Seq<char>>, k: Seq<char>, q: Seq<char>)
    requires
        s.contains(k),
    ensures
        count_named(without_first(s, k), q) + (if q == k {
            1nat
        } else {
            0nat
        }) == count_named(s, q),
{
    s.index_of_first_ensures(k);
    let i = s.index_of_first(k)->0;
    lemma_count_remove(s, i, q);
}

proof fn lemma_count_push(s: Seq<Seq<char>>, k: Seq<char>, q: Seq<char>)
    ensures
        count_named(s.push(k), q) == count_named(s, q) + if k == q {
            1nat
        } else {
            0nat
        },
{
    assert(s.push(k).drop_last() =~= s);
}

/// Takes up to `n` things called `name` off the point, the first ones
/// first; the answer is how many it took.
fn take_objects(pt: &mut Point, name: &str, n: u32) -> (taken: u32)
    ensures
        taken as nat == (if n < count_named(strs_view(old(pt).objects@), name@) {
            n as nat
        } else {
            count_named(strs_view(old(pt).objects@), name@)
        }),
        forall|q: Seq<char>|
            #[trigger] count_named(strs_view(final(pt).objects@), q) == count_named(strs_view(old(pt).objects@), q) - (if q
                == name@ {
                taken as nat
            } else {
                0nat
            }),
        *final(pt) == (Point { objects: final(pt).objects, ..*old(pt) }),
{
    let mut taken: u32 = 0;
    while taken < n
        invariant
            taken <= n,
            taken as nat <= count_named(strs_view(old(pt).objects@), name@),
            forall|q: Seq<char>|
                #[trigger] count_named(strs_view(pt.objects@), q) == count_named(strs_view(old(pt).objects@), q) - (if q
                    == name@ {
                    taken as nat
                } else {
                    0nat
                }),
            *pt == (Point { objects: pt.objects, ..*old(pt) }),
        decreases n - taken,
    {
        let ghost before = strs_view(pt.objects@);
        if !pt.remove_object(name) {
            proof {
                lemma_count_contains(before, name@);
            }
            return taken;
        }
        proof {
            lemma_count_contains(before, name@);
            assert(count_named(before, name@) > 0);
            assert forall|q: Seq<char>| #[trigger] count_named(strs_view(pt.objects@), q) == count_named(
                strs_view(old(pt).objects@),
                q,
            ) - (if q == name@ {
                (taken + 1) as nat
            } else {
                0nat
            }) by {
                lemma_count_without_first(before, name@, q);
            }
        }
        taken = taken + 1;
    }
    taken
}

/// Puts `n` things called `name` on the point.
fn put_objects(pt: &mut Point, name: &str, n: u32)
    ensures
        forall|q: Seq<char>|
            #[trigger] count_named(strs_view(final(pt).objects@), q) == count_named(strs_view(old(pt).objects@), q) + (if q
                == name@ {
                n as nat
            } else {
                0nat
            }),
        final(pt).x == old(pt).x,
        final(pt).y == old(pt).y,
        final(pt).walkable == old(pt).walkable,
        final(pt).description == old(pt).description,
        final(pt).name == old(pt).name,
{
    let mut i: u32 = 0;
    while i < n
        invariant
            i <= n,
            forall|q: Seq<char>|
                #[trigger] count_named(strs_view(pt.objects@), q) == count_named(strs_view(old(pt).objects@), q) + (if q
                    == name@ {
                    i as nat
                } else {
                    0nat
                }),
            pt.x == old(pt).x,
            pt.y == old(pt).y,
            pt.walkable == old(pt).walkable,
            pt.name == old(pt).name,
            pt.description == old(pt).description,
        decreases n - i,
    {
        let ghost before = strs_view(pt.objects@);
        pt.add_object(String::from_str(name));
        proof {
            assert forall|q: Seq<char>| #[trigger] count_named(strs_view(pt.objects@), q) == count_named(
                strs_view(old(pt).objects@),
                q,
            ) + (if q == name@ {
                (i + 1) as nat
            } else {
                0nat
            }) by {
                lemma_count_push(before, name@, q);
            }
        }
        i = i + 1;
    }
}

/// How many things called `name` lie on the point.
fn count_objects(pt: &Point, name: &str) -> (r: usize)
    ensures
        r as nat == count_named(strs_view(pt.objects@), name@),
{
    let ghost v = strs_view(pt.objects@);
    let mut c: usize = 0;
    let mut i: usize = 0;
    while i < pt.objects.len()
        invariant
            i <= pt.objects@.len(),
            v == strs_view(pt.objects@),
            c as nat == count_named(v.take(i as int), name@),
            c <= i,
        decreases pt.objects@.len() - i,
    {
        proof {
            assert(v.take(i + 1).drop_last() =~= v.take(i as int));
            assert(v.take(i + 1).last() == pt.objects@[i as int]@);
        }
        if str_eq(pt.objects[i].as_str(), name) {
            c = c + 1;
        }
        i = i + 1;
    }
    proof {
        assert(v.take(i as int) =~= v);
    }
    c
}

/// `after` is `before` with `k` more of `item` carried.
pub open spec fn carries_more(before: Person, after: Person, item: Seq<char>, k: nat) -> bool {
    &&& after == (Person { items: after.items, ..before })
    &&& after.wf()
    &&& after.items.amount(item) == Some((before.items.count_of(item) + k) as u32)
    &&& forall|q: Seq<char>| q != item ==> #[trigger] after.items.amount(q) == before.items.amount(q)
}

/// The point on the current map (the `i`-th map) where the person at `a`
/// stands, if it is on the map.
pub open spec fn spot_here(g: GameWorld, a: int) -> Option<(int, Point)> {
    match key_position(g.maps@, g.current_map_name@) {
        None => None,
        Some(i) => {
            let me = g.npc_manager.people()[a].1;
            let map = g.maps@[i].1;
            if me.x < map.width && me.y < map.height {
                Some((i, map.point_at(me.x as int, me.y as int)))
            } else {
                None
            }
        },
    }
}

/// `np` is `pt` with the things it holds changed by `delta(q)` of each `q`
/// (taken when `taking`, else put).
pub open spec fn things_moved(pt: Point, np: Point, item: Seq<char>, k: nat, taking: bool) -> bool {
    &&& np == (Point { objects: np.objects, ..pt })
    &&& forall|q: Seq<char>|
        #[trigger] count_named(strs_view(np.objects@), q) == if q != item {
            count_named(strs_view(pt.objects@), q)
        } else if taking {
            (count_named(strs_view(pt.objects@), q) - k) as nat
        } else {
            count_named(strs_view(pt.objects@), q) + k
        }
}

/// There is room to pick up `quantity` of what `item_name` names where
/// the person `current_id` stands.
pub open spec fn room_to_get(g: GameWorld, current_id: Seq<char>, item_name: Seq<char>, quantity: u32) -> bool {
    g.npc_manager.found(current_id) matches Some(a) ==> {
        let me = g.npc_manager.people()[a].1;
        let it = resolved_item(item_name);
        &&& me.wf()
        &&& spot_here(g, a) matches Some((i, pt)) ==> me.items.count_of(it) + (if quantity < count_named(
            strs_view(pt.objects@),
            it,
        ) {
            quantity as nat
        } else {
            count_named(strs_view(pt.objects@), it)
        }) <= u32::MAX
    }
}

/// What `handle_get_item` leaves behind and answers.
pub open spec fn handle_get_item_done(old_world: GameWorld, new_world: GameWorld, current_id: Seq<char>, item_name: Seq<char>, quantity: u32, r: Seq<(OutputZone, String)>) -> bool {
    &&& event_ready(new_world)
    &&& ({
        let g = old_world;
        let m = g.npc_manager;
        let it = resolved_item(item_name);
        match m.found(current_id) {
            None => new_world == g && told(r) == seq![(OutputZone::Status, "找不到當前控制的角色"@)],
            Some(a) => match spot_here(g, a) {
                None => new_world == g && told(r).len() == 0,
                Some((i, pt)) => {
                    let c = count_named(strs_view(pt.objects@), it);
                    let me = m.people()[a].1;
                    if c == 0 {
                        new_world == g && told(r) == seq![(OutputZone::Status, "這裡沒有 "@ + item_name)]
                    } else {
                        let k: nat = if quantity < c {
                            quantity as nat
                        } else {
                            c
                        };
                        let after = new_world;
                        let np = after.maps@[i].1.point_at(me.x as int, me.y as int);
                        &&& world_point_set(
                            g,
                            GameWorld { npc_manager: g.npc_manager, ..after },
                            i,
                            me.x as int,
                            me.y as int,
                            np,
                        )
                        &&& things_moved(pt, np, it, k, true)
                        &&& person_changed(m, after.npc_manager, a, after.npc_manager.people()[a].1)
                        &&& carries_more(me, after.npc_manager.people()[a].1, it, k)
                        &&& told(r) == seq![(OutputZone::Main, "你撿起了 "@ + it + " x"@ + decimal(k))]
                    }
                },
            },
        }
    })
}

/// When `handle_get_item` may be called.
pub open spec fn handle_get_item_ready(old_world: GameWorld, current_id: Seq<char>, item_name: Seq<char>, quantity: u32) -> bool {
    &&& event_ready(old_world)
    &&& room_to_get(old_world, current_id, item_name, quantity)
}

/// The controlled person `current_id` picks up `quantity` (at most what
/// lies there) of what `item_name` names, where they stand on the current
/// map; nothing happens off the map.
pub fn handle_get_item(game_world: &mut GameWorld, current_id: &str, item_name: &str, quantity: u32) -> (r: Vec<
    (OutputZone, String),
>)
    requires
        event_ready(*old(game_world)),
        room_to_get(*old(game_world), current_id@, item_name@, quantity),
    ensures
        handle_get_item_done(*old(game_world), *final(game_world), current_id@, item_name@, quantity, r@),
{
    let ghost g = *game_world;
    let ghost m = g.npc_manager;
    let mut out: Vec<(OutputZone, String)> = Vec::new();
    proof {
        crate::npc_manager::lemma_found_in_range(m, current_id@);
        crate::person::lemma_key_position_range(g.maps@, g.current_map_name@);
    }
    let (x, y) = match game_world.npc_manager.get_npc(current_id) {
        Some(me) => (me.x, me.y),
        None => {
            tell(&mut out, OutputZone::Status, String::from_str("找不到當前控制的角色"));
            proof {
                assert(told(out@) =~= seq![(OutputZone::Status, "找不到當前控制的角色"@)]);
            }
            return out;
        },
    };
    let ghost a = m.found(current_id@)->0;
    let resolved = resolve_item_name(item_name);
    let count = match game_world.get_current_map() {
        None => {
            proof {
                assert(told(out@) =~= Seq::<(OutputZone, Seq<char>)>::empty());
            }
            return out;
        },
        Some(map) => {
            proof {
                let i = key_position(g.maps@, g.current_map_name@)->0;
                assert(g.maps@[i].1.wf());
            }
            match map.get_point(x, y) {
                None => {
                    proof {
                        assert(told(out@) =~= Seq::<(OutputZone, Seq<char>)>::empty());
                    }
                    return out;
                },
                Some(pt) => count_objects(pt, resolved.as_str()),
            }
        },
    };
    if count == 0 {
        tell(&mut out, OutputZone::Status, concat("這裡沒有 ", item_name));
        proof {
            assert(told(out@) =~= seq![(OutputZone::Status, "這裡沒有 "@ + item_name@)]);
        }
        return out;
    }
    let k: u32 = if (quantity as usize) < count {
        quantity
    } else {
        count as u32
    };
    let ghost i = key_position(g.maps@, g.current_map_name@)->0;
    match game_world.get_current_map_mut() {
        Some(map) => match map.get_point_mut(x, y) {
            Some(pt) => {
                take_objects(pt, resolved.as_str(), k);
            },
            None => {},
        },
        None => {},
    }
    let ghost g1 = *game_world;
    proof {
        let np = g1.maps@[i].1.point_at(x as int, y as int);
        assert(world_point_set(g, g1, i, x as int, y as int, np));
        lemma_point_set_ready(g, g1, i, x as int, y as int, np);
    }
    match game_world.npc_manager.get_npc_mut(current_id) {
        Some(me) => {
            me.add_items(resolved.clone(), k);
        },
        None => {},
    }
    let mut line = String::from_str("你撿起了 ");
    line.append(resolved.as_str());
    line.append(" x");
    push_decimal(&mut line, k as u64);
    tell(&mut out, OutputZone::Main, line);
    proof {
        reveal_strlit("你撿起了 ");
        reveal_strlit(" x");
        assert(told(out@) =~= seq![(OutputZone::Main, "你撿起了 "@ + resolved@ + " x"@ + decimal(k as nat))]);
        assert(GameWorld { npc_manager: g.npc_manager, ..*game_world } == g1);
        let moved = game_world.npc_manager.people()[a].1;
        assert(game_world.npc_manager.found(game_world.current_controlled_id@) == g.npc_manager.found(
            g.current_controlled_id@,
        )) by {
            crate::command_interact::lemma_found_after_change(m, game_world.npc_manager, a, moved, g.current_controlled_id@);
        }
    }
    out
}

/// What `handle_drop` leaves behind and answers.
pub open spec fn handle_drop_done(old_world: GameWorld, new_world: GameWorld, current_id: Seq<char>, item_name: Seq<char>, quantity: u32, r: Seq<(OutputZone, String)>) -> bool {
    &&& event_ready(new_world)
    &&& ({
        let g = old_world;
        let m = g.npc_manager;
        let it = resolved_item(item_name);
        match m.found(current_id) {
            None => new_world == g && told(r) == seq![(OutputZone::Status, "找不到當前控制的角色"@)],
            Some(a) => {
                let me = m.people()[a].1;
                match me.items.amount(it) {
                    None => told(r) == seq![(OutputZone::Status, "你沒有 "@ + item_name)] && new_world.maps
                        == g.maps && only_people_changed(g, new_world)
                        && new_world.npc_manager.people() == m.people()
                        && new_world.npc_manager.alias_list() == m.alias_list()
                        && new_world.npc_manager.distance_list() == m.distance_list(),
                    Some(c) => {
                        let d: u32 = if quantity < c {
                            quantity
                        } else {
                            c
                        };
                        let after = new_world;
                        &&& gave_up(me, after.npc_manager.people()[a].1, it, d)
                        &&& person_changed(m, after.npc_manager, a, after.npc_manager.people()[a].1)
                        &&& match spot_here(g, a) {
                            None => after.maps@ == g.maps@ && after == (GameWorld {
                                npc_manager: after.npc_manager,
                                maps: after.maps,
                                ..g
                            }),
                            Some((i, pt)) => {
                                let np = after.maps@[i].1.point_at(me.x as int, me.y as int);
                                &&& world_point_set(
                                    GameWorld { npc_manager: after.npc_manager, ..g },
                                    after,
                                    i,
                                    me.x as int,
                                    me.y as int,
                                    np,
                                )
                                &&& things_moved(pt, np, it, d as nat, false)
                            },
                        }
                        &&& told(r) == seq![(OutputZone::Main, "你放下了 "@ + it + " x"@ + decimal(d as nat))]
                    },
                }
            },
        }
    })
}

/// When `handle_drop` may be called.
pub open spec fn handle_drop_ready(old_world: GameWorld, current_id: Seq<char>, item_name: Seq<char>, quantity: u32) -> bool {
    &&& event_ready(old_world)
    &&& old_world.npc_manager.found(current_id) matches Some(a) ==> old_world.npc_manager.people()[a].1.wf()
}

/// The controlled person `current_id` puts down `quantity` (at most what
/// they carry) of what `item_name` names, where they stand; off the map
/// the things are put down all the same, onto nothing.
pub fn handle_drop(game_world: &mut GameWorld, current_id: &str, item_name: &str, quantity: u32) -> (r: Vec<
    (OutputZone, String),
>)
    requires
        event_ready(*old(game_world)),
        old(game_world).npc_manager.found(current_id@) matches Some(a) ==> old(game_world).npc_manager.people()[a].1.wf(),
    ensures
        handle_drop_done(*old(game_world), *final(game_world), current_id@, item_name@, quantity, r@),
{
    let ghost g = *game_world;
    let ghost m = g.npc_manager;
    let mut out: Vec<(OutputZone, String)> = Vec::new();
    let resolved = resolve_item_name(item_name);
    proof {
        crate::npc_manager::lemma_found_in_range(m, current_id@);
        crate::person::lemma_key_position_range(g.maps@, g.current_map_name@);
    }
    let ghost a = m.found(current_id@)->0;
    let (x, y, d) = match game_world.npc_manager.get_npc_mut(current_id) {
        None => {
            tell(&mut out, OutputZone::Status, String::from_str("找不到當前控制的角色"));
            proof {
                assert(told(out@) =~= seq![(OutputZone::Status, "找不到當前控制的角色"@)]);
            }
            return out;
        },
        Some(me) => {
            if !me.items.contains(resolved.as_str()) {
                tell(&mut out, OutputZone::Status, concat("你沒有 ", item_name));
                proof {
                    assert(told(out@) =~= seq![(OutputZone::Status, "你沒有 "@ + item_name@)]);
                }
                proof {
                    assert(game_world.npc_manager.people() =~= m.people());
                }
                return out;
            }
            let c = me.items.get_item_count(resolved.as_str());
            let d: u32 = if quantity < c {
                quantity
            } else {
                c
            };
            me.remove_item(resolved.as_str(), d);
            (me.x, me.y, d)
        },
    };
    let ghost g1 = *game_world;
    proof {
        let spent = g1.npc_manager.people()[a].1;
        assert(gave_up(m.people()[a].1, spent, resolved@, d));
        crate::command_interact::lemma_found_after_change(m, g1.npc_manager, a, spent, g.current_controlled_id@);
        assert(event_ready(g1));
    }
    match game_world.get_current_map_mut() {
        Some(map) => {
            proof {
                let i = key_position(g.maps@, g.current_map_name@)->0;
                assert(g.maps@[i].1.wf());
            }
            match map.get_point_mut(x, y) {
                Some(pt) => {
                    put_objects(pt, resolved.as_str(), d);
                },
                None => {},
            }
        },
        None => {},
    }
    proof {
        if let Some(i) = key_position(g.maps@, g.current_map_name@) {
            let map = g.maps@[i].1;
            if x < map.width && y < map.height {
                let np = game_world.maps@[i].1.point_at(x as int, y as int);
                assert(world_point_set(g1, *game_world, i, x as int, y as int, np));
                lemma_point_set_ready(g1, *game_world, i, x as int, y as int, np);
            } else {
                assert(game_world.maps@ =~= g.maps@);
            }
        }
    }
    let mut line = String::from_str("你放下了 ");
    line.append(resolved.as_str());
    line.append(" x");
    push_decimal(&mut line, d as u64);
    tell(&mut out, OutputZone::Main, line);
    proof {
        reveal_strlit("你放下了 ");
        reveal_strlit(" x");
        assert(told(out@) =~= seq![(OutputZone::Main, "你放下了 "@ + resolved@ + " x"@ + decimal(d as nat))]);
    }
    out
}

/// What `handle_destroy` leaves behind and answers: a person that `target`
/// finds is taken out; else one of what `target` names is taken off the
/// place where the controlled person `current_id` stands.
pub open spec fn handle_destroy_done(
    old_world: GameWorld,
    new_world: GameWorld,
    current_id: Seq<char>,
    target: Seq<char>,
    r: Seq<(OutputZone, String)>,
) -> bool {
    let g = old_world;
    let m = g.npc_manager;
    let missing = new_world == g && told(r) =~= seq![(OutputZone::Status, "找不到 "@ + target)];
    match m.found(target) {
        Some(_) => {
            &&& npc_removed(m, new_world.npc_manager, target)
            &&& only_people_changed(g, new_world)
            &&& told(r) =~= seq![(OutputZone::Main, "你刪除了 NPC "@ + target)]
        },
        None => match m.found(current_id) {
            None => new_world == g && told(r) =~= seq![(OutputZone::Status, "找不到當前控制的角色"@)],
            Some(a) => {
                let it = resolved_item(target);
                let me = m.people()[a].1;
                match spot_here(g, a) {
                    None => missing,
                    Some((i, pt)) => if strs_view(pt.objects@).contains(it) {
                        let np = new_world.maps@[i].1.point_at(me.x as int, me.y as int);
                        &&& world_point_set(g, new_world, i, me.x as int, me.y as int, np)
                        &&& np == (Point { objects: np.objects, ..pt })
                        &&& strs_view(np.objects@) == without_first(strs_view(pt.objects@), it)
                        &&& told(r) =~= seq![(OutputZone::Main, "你刪除了物品 "@ + target)]
                    } else {
                        missing
                    },
                }
            },
        },
    }
}

/// Takes out the person `target` finds; else takes one of what `target`
/// names off the place where the controlled person `current_id` stands.
pub fn handle_destroy(game_world: &mut GameWorld, current_id: &str, target: &str) -> (r: Vec<(OutputZone, String)>)
    requires
        event_ready(*old(game_world)),
    ensures
        handle_destroy_done(*old(game_world), *final(game_world), current_id@, target@, r@),
{
    let ghost g = *game_world;
    let ghost m = g.npc_manager;
    let mut out: Vec<(OutputZone, String)> = Vec::new();
    proof {
        crate::npc_manager::lemma_found_in_range(m, current_id@);
        crate::person::lemma_key_position_range(g.maps@, g.current_map_name@);
    }
    if game_world.npc_manager.get_npc(target).is_some() {
        game_world.npc_manager.remove_npc(target);
        tell(&mut out, OutputZone::Main, concat("你刪除了 NPC ", target));
        return out;
    }
    let (x, y) = match game_world.npc_manager.get_npc(current_id) {
        None => {
            tell(&mut out, OutputZone::Status, String::from_str("找不到當前控制的角色"));
            return out;
        },
        Some(me) => (me.x, me.y),
    };
    let resolved = resolve_item_name(target);
    let count = match game_world.get_current_map() {
        None => 0,
        Some(map) => {
            proof {
                let i = key_position(g.maps@, g.current_map_name@)->0;
                assert(g.maps@[i].1.wf());
            }
            match map.get_point(x, y) {
                None => 0,
                Some(pt) => count_objects(pt, resolved.as_str()),
            }
        },
    };
    proof {
        if let Some(i) = key_position(g.maps@, g.current_map_name@) {
            let map = g.maps@[i].1;
            if x < map.width && y < map.height {
                lemma_count_contains(strs_view(map.point_at(x as int, y as int).objects@), resolved@);
            }
        }
    }
    if count == 0 {
        tell(&mut out, OutputZone::Status, concat("找不到 ", target));
        return out;
    }
    match game_world.get_current_map_mut() {
        Some(map) => {
            proof {
                let i = key_position(g.maps@, g.current_map_name@)->0;
                assert(g.maps@[i].1.wf());
            }
            match map.get_point_mut(x, y) {
                Some(pt) => {
                    pt.remove_object(resolved.as_str());
                },
                None => {},
            }
        },
        None => {},
    }
    tell(&mut out, OutputZone::Main, concat("你刪除了物品 ", target));
    proof {
        let i = key_position(g.maps@, g.current_map_name@)->0;
        let np = game_world.maps@[i].1.point_at(x as int, y as int);
        assert(world_point_set(g, *game_world, i, x as int, y as int, np));
    }
    out
}

/// `after` is `m` with a person just made (see [`newborn`]) called `name`,
/// described from `descs`, standing at (x, y), added under `name` (see
/// [`crate::npc_manager::npc_added`]).
pub open spec fn npc_made(m: NpcManager, after: NpcManager, name: Seq<char>, descs: PersonDescriptions, x: usize, y: usize) -> bool {
    exists|p: Person|
        #[trigger] newborn(p, name, descs) && npc_added(m, after, name, Person { x: x, y: y, ..p }, Seq::empty())
}

/// What `handle_create` leaves behind and answers: for `obj_type` "npc", a
/// new person (see [`newborn`]) called `name`, or else `item_type`, at the
/// place of the controlled person `current_id`, given 10000 gold (see
/// [`crate::npc_manager::npc_added`]); for "item", one of what `item_type`
/// names put there; any other kind is refused.
pub open spec fn handle_create_done(
    old_world: GameWorld,
    new_world: GameWorld,
    current_id: Seq<char>,
    obj_type: Seq<char>,
    item_type: Seq<char>,
    name: Option<String>,
    r: Seq<(OutputZone, String)>,
) -> bool {
    let g = old_world;
    let m = g.npc_manager;
    match m.found(current_id) {
        None => new_world == g && told(r) =~= seq![(OutputZone::Status, "找不到當前控制的角色"@)],
        Some(a) => {
            let me = m.people()[a].1;
            if obj_type == "npc"@ {
                let npc_name = match name {
                    Some(n) => n@,
                    None => item_type,
                };
                &&& npc_made(m, new_world.npc_manager, npc_name, g.person_descriptions, me.x, me.y)
                &&& only_people_changed(g, new_world)
                &&& told(r) =~= seq![(OutputZone::Main, "你創建了 NPC「"@ + npc_name + "」"@)]
            } else if obj_type == "item"@ {
                let it = resolved_item(item_type);
                match spot_here(g, a) {
                    None => new_world == g && told(r).len() == 0,
                    Some((i, pt)) => {
                        let np = new_world.maps@[i].1.point_at(me.x as int, me.y as int);
                        &&& world_point_set(g, new_world, i, me.x as int, me.y as int, np)
                        &&& np == (Point { objects: np.objects, ..pt })
                        &&& strs_view(np.objects@) == strs_view(pt.objects@).push(it)
                        &&& told(r) =~= seq![(OutputZone::Main, "你創建了物品「"@ + it + "」"@)]
                    },
                }
            } else {
                new_world == g && told(r) =~= seq![
                    (OutputZone::Status, "未知類型: "@ + obj_type + "，請使用 item 或 npc"@),
                ]
            }
        },
    }
}

/// Makes a person (`obj_type` "npc") or an item (`obj_type` "item") where
/// the controlled person `current_id` stands.
pub fn handle_create(
    game_world: &mut GameWorld,
    current_id: &str,
    obj_type: &str,
    item_type: &str,
    name: Option<String>,
) -> (r: Vec<(OutputZone, String)>)
    requires
        event_ready(*old(game_world)),
    ensures
        handle_create_done(*old(game_world), *final(game_world), current_id@, obj_type@, item_type@, name, r@),
{
    let ghost g = *game_world;
    let ghost m = g.npc_manager;
    let mut out: Vec<(OutputZone, String)> = Vec::new();
    proof {
        crate::npc_manager::lemma_found_in_range(m, current_id@);
        crate::person::lemma_key_position_range(g.maps@, g.current_map_name@);
        reveal_strlit("npc");
        reveal_strlit("item");
    }
    let (x, y) = match game_world.npc_manager.get_npc(current_id) {
        None => {
            tell(&mut out, OutputZone::Status, String::from_str("找不到當前控制的角色"));
            return out;
        },
        Some(me) => (me.x, me.y),
    };
    if str_eq(obj_type, "npc") {
        let npc_name = match name {
            Some(n) => n,
            None => String::from_str(item_type),
        };
        let ghost nv = npc_name@;
        let mut npc = Person::new(npc_name.clone(), String::new(), &game_world.person_descriptions);
        let ghost born = npc;
        npc.x = x;
        npc.y = y;
        let ghost placed = npc;
        let mut line = String::from_str("你創建了 NPC「");
        line.append(npc_name.as_str());
        line.append("」");
        let aliases: Vec<String> = Vec::new();
        proof {
            assert(strs_view(aliases@) =~= Seq::<Seq<char>>::empty());
        }
        game_world.npc_manager.add_npc(npc_name, npc, aliases);
        tell(&mut out, OutputZone::Main, line);
        proof {
            reveal_strlit("你創建了 NPC「");
            reveal_strlit("」");
            assert(newborn(born, nv, g.person_descriptions));
            assert(npc_added(m, game_world.npc_manager, nv, placed, Seq::empty()));
            assert(npc_made(m, game_world.npc_manager, nv, g.person_descriptions, x, y));
            assert(told(out@) =~= seq![(OutputZone::Main, "你創建了 NPC「"@ + nv + "」"@)]);
        }
        out
    } else if str_eq(obj_type, "item") {
        let resolved = resolve_item_name(item_type);
        let here = match game_world.get_current_map() {
            None => false,
            Some(map) => x < map.width && y < map.height,
        };
        if !here {
            proof {
                assert(told(out@) =~= Seq::<(OutputZone, Seq<char>)>::empty());
            }
            return out;
        }
        match game_world.get_current_map_mut() {
            Some(map) => {
                proof {
                    let i = key_position(g.maps@, g.current_map_name@)->0;
                    assert(g.maps@[i].1.wf());
                }
                match map.get_point_mut(x, y) {
                    Some(pt) => {
                        pt.add_object(resolve_item_name(item_type));
                    },
                    None => {},
                }
            },
            None => {},
        }
        let mut line = String::from_str("你創建了物品「");
        line.append(resolved.as_str());
        line.append("」");
        tell(&mut out, OutputZone::Main, line);
        proof {
            reveal_strlit("你創建了物品「");
            reveal_strlit("」");
            let i = key_position(g.maps@, g.current_map_name@)->0;
            let np = game_world.maps@[i].1.point_at(x as int, y as int);
            let pt = g.maps@[i].1.point_at(x as int, y as int);
            assert(world_point_set(g, *game_world, i, x as int, y as int, np));
            assert(np == (Point { objects: np.objects, ..pt }));
            assert(strs_view(np.objects@) == strs_view(pt.objects@).push(resolved@));
            assert(told(out@) =~= seq![(OutputZone::Main, "你創建了物品「"@ + resolved@ + "」"@)]);
            let a = m.found(current_id@)->0;
            assert(spot_here(g, a) == Some((i, pt)));
        }
        out
    } else {
        let mut line = String::from_str("未知類型: ");
        line.append(obj_type);
        line.append("，請使用 item 或 npc");
        tell(&mut out, OutputZone::Status, line);
        proof {
            reveal_strlit("未知類型: ");
            reveal_strlit("，請使用 item 或 npc");
            assert(told(out@) =~= seq![(OutputZone::Status, "未知類型: "@ + obj_type@ + "，請使用 item 或 npc"@)]);
        }
        out
    }
}

/// `shown` is how the item `name` may be shown (see
/// [`crate::item_registry::get_item_display_name`]): a Chinese name with one
/// of its English names in brackets, any other name as it is.
pub open spec fn shown_as(name: Seq<char>, shown: Seq<char>) -> bool {
    &&& is_chinese_name(name) ==> exists|k: int|
        0 <= k < name_table().len() && name_table()[k].1 == name && shown == name + " ("@ + name_table()[k].0 + ")"@
    &&& !is_chinese_name(name) ==> shown == name
}

/// `line` tells of the thing `e` carried: `  • <shown name> x<count>`.
pub open spec fn line_shows(e: (String, u32), line: (OutputZone, Seq<char>)) -> bool {
    exists|shown: Seq<char>|
        #[trigger] shown_as(e.0@, shown) && line == (OutputZone::Main, "  • "@ + shown + " x"@ + decimal(e.1 as nat))
}

/// `lines` list what `listing` holds, one line each (see [`line_shows`]).
pub open spec fn carried_lines(listing: Seq<(String, u32)>, lines: Seq<(OutputZone, Seq<char>)>) -> bool {
    &&& lines.len() == listing.len()
    &&& forall|i: int| 0 <= i < lines.len() ==> line_shows(listing[i], #[trigger] lines[i])
}

/// The opening lines about the person `p`: name, a rule, description,
/// place, state, then their abilities when they have any.
pub open spec fn look_head(p: Person) -> Seq<(OutputZone, Seq<char>)> {
    seq![
        (OutputZone::Main, "👤 "@ + p.name@),
        (OutputZone::Main, "════════════════════"@),
        (OutputZone::Main, "📝 "@ + p.description@),
        (OutputZone::Main, "📍 位置: ("@ + decimal(p.x as nat) + ", "@ + decimal(p.y as nat) + ")"@),
        (OutputZone::Main, "💫 狀態: "@ + p.status@),
    ] + if p.abilities@.len() == 0 {
        Seq::empty()
    } else {
        seq![(OutputZone::Main, "✨ 能力:"@)] + p.abilities@.map_values(|a: String| (OutputZone::Main, "  • "@ + a@))
    }
}

/// What `handle_look_npc` answers: the person `npc_name` finds described
/// (see [`look_head`]), then what they carry (see [`carried_lines`]).
pub open spec fn handle_look_npc_done(old_world: GameWorld, npc_name: Seq<char>, r: Seq<(OutputZone, String)>) -> bool {
    match old_world.npc_manager.found(npc_name) {
        None => told(r) =~= seq![(OutputZone::Status, "找不到 NPC: "@ + npc_name)],
        Some(j) => {
            let p = old_world.npc_manager.people()[j].1;
            let head = look_head(p);
            let t = told(r);
            &&& t.take(head.len() as int) == head
            &&& if p.items.listing().len() == 0 {
                t.len() == head.len()
            } else {
                &&& t.len() > head.len()
                &&& t[head.len() as int] == (OutputZone::Main, "🎒 攜帶物品:"@)
                &&& carried_lines(p.items.listing(), t.skip(head.len() + 1int))
            }
        },
    }
}

/// Looks at the person `npc_name` finds: who they are, where, in what
/// state, what they can do and what they carry.
pub fn handle_look_npc(game_world: &GameWorld, npc_name: &str) -> (r: Vec<(OutputZone, String)>)
    requires
        game_world.npc_manager.wf(),
    ensures
        handle_look_npc_done(*game_world, npc_name@, r@),
{
    let mut out: Vec<(OutputZone, String)> = Vec::new();
    let p = match game_world.npc_manager.get_npc(npc_name) {
        Some(p) => p,
        None => {
            tell(&mut out, OutputZone::Status, concat("找不到 NPC: ", npc_name));
            return out;
        },
    };
    tell(&mut out, OutputZone::Main, concat("👤 ", p.name.as_str()));
    tell(&mut out, OutputZone::Main, String::from_str("════════════════════"));
    tell(&mut out, OutputZone::Main, concat("📝 ", p.description.as_str()));
    let mut at = String::from_str("📍 位置: (");
    push_decimal(&mut at, p.x as u64);
    at.append(", ");
    push_decimal(&mut at, p.y as u64);
    at.append(")");
    tell(&mut out, OutputZone::Main, at);
    tell(&mut out, OutputZone::Main, concat("💫 狀態: ", p.status.as_str()));
    let ghost first = told(out@);
    proof {
        reveal_strlit("📍 位置: (");
        reveal_strlit(", ");
        reveal_strlit(")");
        assert(first =~= seq![
            (OutputZone::Main, "👤 "@ + p.name@),
            (OutputZone::Main, "════════════════════"@),
            (OutputZone::Main, "📝 "@ + p.description@),
            (OutputZone::Main, "📍 位置: ("@ + decimal(p.x as nat) + ", "@ + decimal(p.y as nat) + ")"@),
            (OutputZone::Main, "💫 狀態: "@ + p.status@),
        ]);
    }
    if p.abilities.len() > 0 {
        tell(&mut out, OutputZone::Main, String::from_str("✨ 能力:"));
        let ghost ab = p.abilities@;
        let ghost start = told(out@);
        let mut i: usize = 0;
        while i < p.abilities.len()
            invariant
                i <= ab.len(),
                ab == p.abilities@,
                told(out@) =~= start + ab.take(i as int).map_values(|a: String| (OutputZone::Main, "  • "@ + a@)),
            decreases ab.len() - i,
        {
            tell(&mut out, OutputZone::Main, concat("  • ", p.abilities[i].as_str()));
            proof {
                assert(ab.take(i + 1) =~= ab.take(i as int).push(ab[i as int]));
                assert(ab.take(i + 1).map_values(|a: String| (OutputZone::Main, "  • "@ + a@)) =~= ab.take(i as int).map_values(
                    |a: String| (OutputZone::Main, "  • "@ + a@),
                ).push((OutputZone::Main, "  • "@ + ab[i as int]@)));
            }
            i = i + 1;
        }
        proof {
            assert(ab.take(i as int) =~= ab);
        }
    }
    let ghost head = told(out@);
    proof {
        assert(head =~= look_head(*p));
    }
    if !p.items.is_empty() {
        tell(&mut out, OutputZone::Main, String::from_str("🎒 攜帶物品:"));
        let ghost base = told(out@);
        let ghost l = p.items.listing();
        let mut i: usize = 0;
        while i < p.items.len()
            invariant
                i <= l.len(),
                l == p.items.listing(),
                base.len() == head.len() + 1,
                told(out@).len() == base.len() + i,
                told(out@).take(base.len() as int) == base,
                carried_lines(l.take(i as int), told(out@).skip(base.len() as int)),
            decreases l.len() - i,
        {
            let (name, count) = p.items.entry(i);
            let dn = get_item_display_name(name.as_str());
            let ghost dnv = dn@;
            let mut line = String::from_str("  • ");
            line.append(dn.as_str());
            line.append(" x");
            push_decimal(&mut line, count as u64);
            let ghost before = told(out@);
            tell(&mut out, OutputZone::Main, line);
            proof {
                reveal_strlit("  • ");
                reveal_strlit(" x");
                let t = told(out@);
                assert(t =~= before.push(t.last()));
                assert(t.take(base.len() as int) =~= before.take(base.len() as int));
                assert(t.skip(base.len() as int) =~= before.skip(base.len() as int).push(t.last()));
                assert(l.take(i + 1) =~= l.take(i as int).push(l[i as int]));
                assert forall|m: int| 0 <= m < t.skip(base.len() as int).len() implies line_shows(
                    l.take(i + 1)[m],
                    #[trigger] t.skip(base.len() as int)[m],
                ) by {
                    if m < i {
                        assert(l.take(i + 1)[m] == l.take(i as int)[m]);
                        assert(t.skip(base.len() as int)[m] == before.skip(base.len() as int)[m]);
                        assert(line_shows(l.take(i as int)[m], before.skip(base.len() as int)[m]));
                    } else {
                        assert(l.take(i + 1)[m] == l[i as int]);
                        assert(shown_as(l[i as int].0@, dnv));
                        assert(t.skip(base.len() as int)[m] == (
                            OutputZone::Main,
                            "  • "@ + dnv + " x"@ + decimal(l[i as int].1 as nat),
                        ));
                    }
                }
                assert(t.skip(base.len() as int).len() == i + 1);
                assert(l.take(i + 1).len() == i + 1);
                assert(carried_lines(l.take(i + 1), t.skip(base.len() as int)));
            }
            i = i + 1;
        }
        proof {
            assert(l.take(i as int) =~= l);
            let t = told(out@);
            assert(t.take(head.len() as int) =~= base.take(head.len() as int));
            assert(base =~= head.push((OutputZone::Main, "🎒 攜帶物品:"@)));
            assert(t.take(head.len() as int) =~= head);
            assert(t[head.len() as int] == base[head.len() as int]);
            assert(t.skip(head.len() + 1int) =~= t.skip(base.len() as int));
        }
    } else {
        proof {
            assert(told(out@).take(head.len() as int) =~= head);
        }
    }
    out
}

/// What `handle_namehere` leaves behind and answers: the place where the
/// controlled person `current_id` stands is given the name `name`; off the
/// map nothing happens.
pub open spec fn handle_namehere_done(
    old_world: GameWorld,
    new_world: GameWorld,
    current_id: Seq<char>,
    name: Seq<char>,
    r: Seq<(OutputZone, String)>,
) -> bool {
    let g = old_world;
    let m = g.npc_manager;
    match m.found(current_id) {
        None => new_world == g && told(r) =~= seq![(OutputZone::Status, "找不到當前控制的角色"@)],
        Some(a) => {
            let me = m.people()[a].1;
            match spot_here(g, a) {
                None => new_world == g && told(r).len() == 0,
                Some((i, pt)) => {
                    let np = new_world.maps@[i].1.point_at(me.x as int, me.y as int);
                    &&& world_point_set(g, new_world, i, me.x as int, me.y as int, np)
                    &&& np == (Point { name: np.name, ..pt })
                    &&& np.name@ == name
                    &&& told(r) =~= seq![(OutputZone::Main, "你將這裡命名為「"@ + name + "」"@)]
                },
            }
        },
    }
}

/// Names the place where the controlled person `current_id` stands.
pub fn handle_namehere(game_world: &mut GameWorld, current_id: &str, name: &str) -> (r: Vec<(OutputZone, String)>)
    requires
        event_ready(*old(game_world)),
    ensures
        handle_namehere_done(*old(game_world), *final(game_world), current_id@, name@, r@),
{
    let ghost g = *game_world;
    let ghost m = g.npc_manager;
    let mut out: Vec<(OutputZone, String)> = Vec::new();
    proof {
        crate::npc_manager::lemma_found_in_range(m, current_id@);
        crate::person::lemma_key_position_range(g.maps@, g.current_map_name@);
    }
    let (x, y) = match game_world.npc_manager.get_npc(current_id) {
        None => {
            tell(&mut out, OutputZone::Status, String::from_str("找不到當前控制的角色"));
            return out;
        },
        Some(me) => (me.x, me.y),
    };
    let here = match game_world.get_current_map() {
        None => false,
        Some(map) => x < map.width && y < map.height,
    };
    if !here {
        proof {
            assert(told(out@) =~= Seq::<(OutputZone, Seq<char>)>::empty());
        }
        return out;
    }
    match game_world.get_current_map_mut() {
        Some(map) => {
            proof {
                let i = key_position(g.maps@, g.current_map_name@)->0;
                assert(g.maps@[i].1.wf());
            }
            match map.get_point_mut(x, y) {
                Some(pt) => {
                    pt.name = String::from_str(name);
                },
                None => {},
            }
        },
        None => {},
    }
    let mut line = String::from_str("你將這裡命名為「");
    line.append(name);
    line.append("」");
    tell(&mut out, OutputZone::Main, line);
    proof {
        reveal_strlit("你將這裡命名為「");
        reveal_strlit("」");
        let i = key_position(g.maps@, g.current_map_name@)->0;
        let np = game_world.maps@[i].1.point_at(x as int, y as int);
        assert(world_point_set(g, *game_world, i, x as int, y as int, np));
        assert(told(out@) =~= seq![(OutputZone::Main, "你將這裡命名為「"@ + name@ + "」"@)]);
    }
    out
}

proof fn lemma_count_prefix(s: Seq<Seq<char>>, i: int, q: Seq<char>)
    requires
        0 <= i <= s.len(),
    ensures
        count_named(s.take(i), q) <= count_named(s, q),
    decreases s.len(),
{
    if i < s.len() {
        assert(s.drop_last().take(i) =~= s.take(i));
        lemma_count_prefix(s.drop_last(), i, q);
    } else {
        assert(s.take(i) =~= s);
    }
}

/// `inv1` is `inv0` with one more of each of `objs` (counted as often as
/// it occurs there).
pub open spec fn picked_up(inv0: Inventory, inv1: Inventory, objs: Seq<Seq<char>>) -> bool {
    &&& inv1.wf()
    &&& forall|k: Seq<char>|
        #[trigger] inv1.amount(k) == if count_named(objs, k) == 0 {
            inv0.amount(k)
        } else {
            Some((inv0.count_of(k) + count_named(objs, k)) as u32)
        }
}

/// Each count of `inv` has room for the things `objs` add to it.
pub open spec fn room_to_pick(inv: Inventory, objs: Seq<Seq<char>>) -> bool {
    forall|k: Seq<char>| #[trigger] inv.count_of(k) + count_named(objs, k) <= u32::MAX
}

/// The lines that tell of picking up `objs`, one each.
pub open spec fn picked_lines(objs: Seq<Seq<char>>) -> Seq<(OutputZone, Seq<char>)> {
    objs.map_values(|o: Seq<char>| (OutputZone::Main, "你撿起了 "@ + o + " x1"@))
}

/// When `handle_get_all` may be called: the world is fit and the controlled
/// person's counts have room for what lies where they stand.
pub open spec fn handle_get_all_ready(old_world: GameWorld, current_id: Seq<char>) -> bool {
    &&& event_ready(old_world)
    &&& old_world.npc_manager.found(current_id) matches Some(a) ==> {
        let me = old_world.npc_manager.people()[a].1;
        &&& me.wf()
        &&& spot_here(old_world, a) matches Some((i, pt)) ==> room_to_pick(me.items, strs_view(pt.objects@))
    }
}

/// What `handle_get_all` leaves behind and answers: everything lying where
/// the controlled person `current_id` stands goes into their things, one
/// line each; with nothing there (or off the map) they are told so.
pub open spec fn handle_get_all_done(old_world: GameWorld, new_world: GameWorld, current_id: Seq<char>, r: Seq<(OutputZone, String)>) -> bool {
    let g = old_world;
    let m = g.npc_manager;
    let nothing = new_world == g && told(r) =~= seq![(OutputZone::Main, "這裡沒有物品"@)];
    match m.found(current_id) {
        None => new_world == g && told(r) =~= seq![(OutputZone::Status, "找不到當前控制的角色"@)],
        Some(a) => {
            let me = m.people()[a].1;
            match spot_here(g, a) {
                None => nothing,
                Some((i, pt)) => {
                    let objs = strs_view(pt.objects@);
                    if objs.len() == 0 {
                        nothing
                    } else {
                        let np = new_world.maps@[i].1.point_at(me.x as int, me.y as int);
                        let p1 = new_world.npc_manager.people()[a].1;
                        &&& world_point_set(
                            GameWorld { npc_manager: new_world.npc_manager, ..g },
                            new_world,
                            i,
                            me.x as int,
                            me.y as int,
                            np,
                        )
                        &&& np == (Point { objects: np.objects, ..pt })
                        &&& np.objects@.len() == 0
                        &&& person_changed(m, new_world.npc_manager, a, Person { items: p1.items, ..me })
                        &&& picked_up(me.items, p1.items, objs)
                        &&& told(r) =~= picked_lines(objs)
                    }
                },
            }
        },
    }
}

/// The controlled person `current_id` picks up everything lying where they
/// stand.
pub fn handle_get_all(game_world: &mut GameWorld, current_id: &str) -> (r: Vec<(OutputZone, String)>)
    requires
        handle_get_all_ready(*old(game_world), current_id@),
    ensures
        handle_get_all_done(*old(game_world), *final(game_world), current_id@, r@),
{
    let ghost g = *game_world;
    let ghost m = g.npc_manager;
    let mut out: Vec<(OutputZone, String)> = Vec::new();
    proof {
        crate::npc_manager::lemma_found_in_range(m, current_id@);
        crate::person::lemma_key_position_range(g.maps@, g.current_map_name@);
    }
    let (x, y) = match game_world.npc_manager.get_npc(current_id) {
        None => {
            tell(&mut out, OutputZone::Status, String::from_str("找不到當前控制的角色"));
            return out;
        },
        Some(me) => (me.x, me.y),
    };
    let ghost a = m.found(current_id@)->0;
    let ghost me = m.people()[a].1;
    let count = match game_world.get_current_map() {
        None => 0,
        Some(map) => {
            proof {
                let i = key_position(g.maps@, g.current_map_name@)->0;
                assert(g.maps@[i].1.wf());
            }
            match map.get_point(x, y) {
                None => 0,
                Some(pt) => pt.objects.len(),
            }
        },
    };
    if count == 0 {
        tell(&mut out, OutputZone::Main, String::from_str("這裡沒有物品"));
        return out;
    }
    let ghost i_map = key_position(g.maps@, g.current_map_name@)->0;
    let ghost pt0 = g.maps@[i_map].1.point_at(x as int, y as int);
    let mut objs: Vec<String> = Vec::new();
    match game_world.get_current_map_mut() {
        Some(map) => {
            proof {
                assert(g.maps@[i_map].1.wf());
            }
            match map.get_point_mut(x, y) {
                Some(pt) => {
                    std::mem::swap(&mut pt.objects, &mut objs);
                },
                None => {},
            }
        },
        None => {},
    }
    let ghost g1 = *game_world;
    let ghost ov = strs_view(objs@);
    proof {
        let np = g1.maps@[i_map].1.point_at(x as int, y as int);
        assert(world_point_set(g, g1, i_map, x as int, y as int, np));
        assert(objs@ == pt0.objects@);
        assert(np == (Point { objects: np.objects, ..pt0 }));
        assert(m.people().update(a, (m.people()[a].0, Person { items: me.items, ..me })) =~= m.people());
        assert(told(out@) =~= picked_lines(ov.take(0)));
    }
    let mut k: usize = 0;
    while k < objs.len()
        invariant
            k <= objs@.len(),
            ov == strs_view(objs@),
            0 <= a < m.people().len(),
            me == m.people()[a].1,
            m == g.npc_manager,
            m.found(current_id@) == Some(a),
            me.wf(),
            room_to_pick(me.items, ov),
            *game_world == (GameWorld { npc_manager: game_world.npc_manager, ..g1 }),
            game_world.npc_manager.wf(),
            game_world.npc_manager.people() == m.people().update(
                a,
                (m.people()[a].0, Person { items: game_world.npc_manager.people()[a].1.items, ..me }),
            ),
            game_world.npc_manager.alias_list() == m.alias_list(),
            game_world.npc_manager.distance_list() == m.distance_list(),
            picked_up(me.items, game_world.npc_manager.people()[a].1.items, ov.take(k as int)),
            told(out@) =~= picked_lines(ov.take(k as int)),
        decreases objs@.len() - k,
    {
        let ghost cur = game_world.npc_manager;
        let ghost inv = cur.people()[a].1.items;
        proof {
            crate::command_interact::lemma_found_after_change(
                m,
                cur,
                a,
                Person { items: inv, ..me },
                current_id@,
            );
            assert(ov[k as int] == objs@[k as int]@);
            let o = ov[k as int];
            assert(ov.take(k + 1) =~= ov.take(k as int).push(o));
            lemma_count_push(ov.take(k as int), o, o);
            lemma_count_prefix(ov, k + 1, o);
            assert(inv.count_of(o) == me.items.count_of(o) + count_named(ov.take(k as int), o));
        }
        match game_world.npc_manager.get_npc_mut(current_id) {
            Some(p) => {
                p.items.add_items(objs[k].as_str(), 1);
            },
            None => {},
        }
        let mut line = String::from_str("你撿起了 ");
        line.append(objs[k].as_str());
        line.append(" x1");
        tell(&mut out, OutputZone::Main, line);
        proof {
            reveal_strlit("你撿起了 ");
            reveal_strlit(" x1");
            let o = ov[k as int];
            let inv1 = game_world.npc_manager.people()[a].1.items;
            assert forall|q: Seq<char>| #[trigger] inv1.amount(q) == (if count_named(ov.take(k + 1), q) == 0 {
                me.items.amount(q)
            } else {
                Some((me.items.count_of(q) + count_named(ov.take(k + 1), q)) as u32)
            }) by {
                lemma_count_push(ov.take(k as int), o, q);
            }
            assert(ov.take(k + 1).map_values(|o: Seq<char>| (OutputZone::Main, "你撿起了 "@ + o + " x1"@)) =~= ov.take(
                k as int,
            ).map_values(|o: Seq<char>| (OutputZone::Main, "你撿起了 "@ + o + " x1"@)).push(
                (OutputZone::Main, "你撿起了 "@ + o + " x1"@),
            ));
        }
        k = k + 1;
    }
    proof {
        assert(ov.take(k as int) =~= ov);
        let np = game_world.maps@[i_map].1.point_at(x as int, y as int);
        assert(world_point_set(
            GameWorld { npc_manager: game_world.npc_manager, ..g },
            *game_world,
            i_map,
            x as int,
            y as int,
            np,
        ));
    }
    out
}

/// `line` shows a thing lying here: `  • <shown name> x1` (see
/// [`shown_as`]).
pub open spec fn object_line(o: Seq<char>, line: (OutputZone, Seq<char>)) -> bool {
    exists|shown: Seq<char>| #[trigger] shown_as(o, shown) && line == (OutputZone::Main, "  • "@ + shown + " x1"@)
}

/// `lines` show the things `objs`, one line each (see [`object_line`]).
pub open spec fn object_lines(objs: Seq<Seq<char>>, lines: Seq<(OutputZone, Seq<char>)>) -> bool {
    &&& lines.len() == objs.len()
    &&& forall|i: int| 0 <= i < lines.len() ==> object_line(objs[i], #[trigger] lines[i])
}

/// `g` may be what `npc` says on meeting `me` (see [`Person::try_talk`]):
/// nothing from someone unwilling to talk, a line whenever one fits from
/// someone eager, and only ever a line that fits.
pub open spec fn greeting_ok(npc: Person, me: Person, g: Option<Seq<char>>) -> bool {
    let opts = options_of(npc.dialogues@, "見面"@);
    &&& npc.talk_eagerness == 0 ==> g is None
    &&& npc.talk_eagerness >= 100 ==> (g is Some <==> weight_total(opts, me) > 0)
    &&& g is Some ==> weight_total(opts, me) > 0
    &&& g matches Some(t) ==> exists|i: int|
        0 <= i < opts.len() && effective_weight(opts[i], me) > 0 && t == #[trigger] opts[i].text@
}

/// Each of `greets` may be what the matching one of `npcs` says on meeting
/// `me` (see [`greeting_ok`]).
pub open spec fn greets_ok(npcs: Seq<Person>, me: Person, greets: Seq<Option<Seq<char>>>) -> bool {
    &&& greets.len() == npcs.len()
    &&& forall|i: int| 0 <= i < npcs.len() ==> greeting_ok(npcs[i], me, #[trigger] greets[i])
}

/// The people that `v` refers to.
pub open spec fn persons_of(v: Seq<&Person>) -> Seq<Person> {
    v.map_values(|p: &Person| *p)
}

/// The entry of a person met here: name, description and whom they follow.
pub open spec fn npc_entry(npc: Person) -> Seq<char> {
    "  • "@ + npc.name@ + " - "@ + npc.description@ + match npc.party_leader {
        Some(l) => " (已與\""@ + l@ + "\"組隊)"@,
        None => Seq::empty(),
    }
}

/// The lines for the people `npcs` met here, each with what they say
/// (`greets`), if anything.
pub open spec fn people_lines(npcs: Seq<Person>, greets: Seq<Option<Seq<char>>>) -> Seq<(OutputZone, Seq<char>)>
    decreases npcs.len(),
{
    if npcs.len() == 0 || greets.len() != npcs.len() {
        Seq::empty()
    } else {
        people_lines(npcs.drop_last(), greets.drop_last()) + seq![(OutputZone::Main, npc_entry(npcs.last()))]
            + match greets.last() {
            Some(t) => seq![(OutputZone::Main, "💬 "@ + npcs.last().name@ + " 說：「"@ + t + "」"@)],
            None => Seq::empty(),
        }
    }
}

/// What lies at (x, y) of `map`; nothing off the map.
pub open spec fn objects_at(map: GameMap, x: usize, y: usize) -> Seq<Seq<char>> {
    if x < map.width && y < map.height {
        strs_view(map.point_at(x as int, y as int).objects@)
    } else {
        Seq::empty()
    }
}

/// The lines about the place (x, y) of `map`: the map's name, then the
/// point's place, description and name and what lies there (`objl`), or
/// only the place when it is off the map.
pub open spec fn place_lines(map: GameMap, x: usize, y: usize, objl: Seq<(OutputZone, Seq<char>)>) -> Seq<(OutputZone, Seq<char>)> {
    seq![(OutputZone::Main, "📍 "@ + map.name@)] + if x < map.width && y < map.height {
        let pt = map.point_at(x as int, y as int);
        seq![
            (OutputZone::Main, "【當前位置: ("@ + decimal(x as nat) + ", "@ + decimal(y as nat) + ")】"@),
            (OutputZone::Main, "【"@ + pt.description@ + "】"@),
        ] + (if pt.name@.len() == 0 {
            Seq::empty()
        } else {
            seq![(OutputZone::Main, "此處是【"@ + pt.name@ + "】"@)]
        }) + (if pt.objects@.len() == 0 {
            Seq::empty()
        } else {
            seq![(OutputZone::Main, "🎁 此處物品:"@)] + objl
        })
    } else {
        seq![(OutputZone::Main, "你在 ("@ + decimal(x as nat) + ", "@ + decimal(y as nat) + ")"@)]
    }
}

/// The people other than `cid` on the map `map_name` at (x, y), in order.
pub open spec fn people_here(m: NpcManager, map_name: Seq<char>, x: usize, y: usize, cid: Seq<char>) -> Seq<Person> {
    person_views(npcs_where(m.people(), |e: (String, Person)| at_spot(e, Some(map_name), x, y, Some(cid))))
}

/// The whole look: the place (see [`place_lines`]), then the people here
/// with what they say (see [`people_lines`]), each thing shown as
/// `objl` says and each greeting as `greets` says.
pub open spec fn look_lines(
    map: GameMap,
    me: Person,
    npcs: Seq<Person>,
    objl: Seq<(OutputZone, Seq<char>)>,
    greets: Seq<Option<Seq<char>>>,
) -> Seq<(OutputZone, Seq<char>)> {
    place_lines(map, me.x, me.y, objl) + if npcs.len() == 0 {
        Seq::empty()
    } else {
        seq![(OutputZone::Main, "👥 此處的人物:"@)] + people_lines(npcs, greets)
    }
}

/// `objl` and `greets` are ways of showing the things at the place of `me`
/// and the greetings of `npcs` (see [`object_lines`], [`greeting_ok`]).
pub open spec fn look_choices(
    map: GameMap,
    me: Person,
    npcs: Seq<Person>,
    objl: Seq<(OutputZone, Seq<char>)>,
    greets: Seq<Option<Seq<char>>>,
) -> bool {
    &&& object_lines(objects_at(map, me.x, me.y), objl)
    &&& greets_ok(npcs, me, greets)
}

/// When `handle_look_here` may be called: the world is fit, and the
/// controlled person's things and the lines of the people here are few
/// enough to weigh.
pub open spec fn handle_look_here_ready(g: GameWorld, current_id: Seq<char>) -> bool {
    &&& event_ready(g)
    &&& g.npc_manager.found(current_id) matches Some(a) ==> {
        let me = g.npc_manager.people()[a].1;
        let npcs = people_here(g.npc_manager, g.current_map_name@, me.x, me.y, current_id);
        &&& me.wf()
        &&& total_of(me.items.listing()) <= u32::MAX
        &&& forall|i: int| 0 <= i < npcs.len() ==> weight_total(options_of((#[trigger] npcs[i]).dialogues@, "見面"@), me) <= usize::MAX
    }
}

/// What `handle_look_here` answers: the place where the controlled person
/// `current_id` stands and the people there (see [`look_lines`]).
pub open spec fn handle_look_here_done(old_world: GameWorld, current_id: Seq<char>, r: Seq<(OutputZone, String)>) -> bool {
    let m = old_world.npc_manager;
    match m.found(current_id) {
        None => told(r) =~= seq![(OutputZone::Status, "找不到當前控制的角色"@)],
        Some(a) => {
            let me = m.people()[a].1;
            match old_world.map_named(old_world.current_map_name@) {
                None => told(r).len() == 0,
                Some(map) => {
                    let npcs = people_here(m, old_world.current_map_name@, me.x, me.y, current_id);
                    exists|objl: Seq<(OutputZone, Seq<char>)>, greets: Seq<Option<Seq<char>>>|
                        #[trigger] look_choices(map, me, npcs, objl, greets) && told(r) =~= look_lines(
                            map,
                            me,
                            npcs,
                            objl,
                            greets,
                        )
                },
            }
        },
    }
}

/// The lines about the place (x, y) of `map` (see [`place_lines`]), each
/// thing there shown by one of its names.
fn look_place(map: &GameMap, x: usize, y: usize) -> (r: Vec<(OutputZone, String)>)
    requires
        map.wf(),
    ensures
        exists|objl: Seq<(OutputZone, Seq<char>)>|
            #[trigger] object_lines(objects_at(*map, x, y), objl) && told(r@) =~= place_lines(*map, x, y, objl),
{
    let mut out: Vec<(OutputZone, String)> = Vec::new();
    proof {
        reveal_strlit("📍 ");
        reveal_strlit("【當前位置: (");
        reveal_strlit(", ");
        reveal_strlit(")】");
        reveal_strlit("【");
        reveal_strlit("】");
        reveal_strlit("此處是【");
        reveal_strlit("你在 (");
        reveal_strlit(")");
        reveal_strlit("");
        reveal_strlit("🎁 此處物品:");
    }
    tell(&mut out, OutputZone::Main, concat("📍 ", map.name.as_str()));
    let ghost first = told(out@);
    let ghost mut objl: Seq<(OutputZone, Seq<char>)> = Seq::empty();
    match map.get_point(x, y) {
        Some(pt) => {
            let mut a = String::from_str("【當前位置: (");
            push_decimal(&mut a, x as u64);
            a.append(", ");
            push_decimal(&mut a, y as u64);
            a.append(")】");
            tell(&mut out, OutputZone::Main, a);
            let mut b = String::from_str("【");
            b.append(pt.description.as_str());
            b.append("】");
            tell(&mut out, OutputZone::Main, b);
            proof {
                assert(told(out@) =~= first + seq![
                    (OutputZone::Main, "【當前位置: ("@ + decimal(x as nat) + ", "@ + decimal(y as nat) + ")】"@),
                    (OutputZone::Main, "【"@ + pt.description@ + "】"@),
                ]);
            }
            let ghost second = told(out@);
            if !str_eq(pt.name.as_str(), "") {
                let mut c = String::from_str("此處是【");
                c.append(pt.name.as_str());
                c.append("】");
                tell(&mut out, OutputZone::Main, c);
            }
            let ghost third = told(out@);
            proof {
                assert(""@.len() == 0);
                assert(pt.name@.len() == 0 ==> pt.name@ =~= ""@);
                if pt.name@.len() != 0 {
                    assert(third =~= second.push((OutputZone::Main, "此處是【"@ + pt.name@ + "】"@)));
                } else {
                    assert(third =~= second);
                }
                assert(third =~= second + (if pt.name@.len() == 0 {
                    Seq::empty()
                } else {
                    seq![(OutputZone::Main, "此處是【"@ + pt.name@ + "】"@)]
                }));
            }
            if pt.objects.len() > 0 {
                tell(&mut out, OutputZone::Main, String::from_str("🎁 此處物品:"));
                let ghost base = told(out@);
                let ghost ov = strs_view(pt.objects@);
                let mut i: usize = 0;
                while i < pt.objects.len()
                    invariant
                        i <= ov.len(),
                        ov == strs_view(pt.objects@),
                        objl.len() == i,
                        told(out@) =~= base + objl,
                        forall|k: int| 0 <= k < i ==> object_line(ov[k], #[trigger] objl[k]),
                    decreases ov.len() - i,
                {
                    let dn = get_item_display_name(pt.objects[i].as_str());
                    let ghost dnv = dn@;
                    let mut line = String::from_str("  • ");
                    line.append(dn.as_str());
                    line.append(" x1");
                    let ghost lv = line@;
                    tell(&mut out, OutputZone::Main, line);
                    proof {
                        reveal_strlit("  • ");
                        reveal_strlit(" x1");
                        assert(ov[i as int] == pt.objects@[i as int]@);
                        assert(shown_as(ov[i as int], dnv));
                        let old_objl = objl;
                        objl = objl.push((OutputZone::Main, lv));
                        assert(object_line(ov[i as int], objl[i as int]));
                        assert forall|k: int| 0 <= k < i + 1 implies object_line(ov[k], #[trigger] objl[k]) by {
                            if k < i {
                                assert(objl[k] == old_objl[k]);
                            }
                        }
                    }
                    i = i + 1;
                }
            }
            proof {
                assert(*pt == map.point_at(x as int, y as int));
                assert(told(out@) =~= place_lines(*map, x, y, objl));
            }
        },
        None => {
            let mut a = String::from_str("你在 (");
            push_decimal(&mut a, x as u64);
            a.append(", ");
            push_decimal(&mut a, y as u64);
            a.append(")");
            tell(&mut out, OutputZone::Main, a);
            proof {
                assert(told(out@) =~= place_lines(*map, x, y, objl));
            }
        },
    }
    proof {
        assert(object_lines(objects_at(*map, x, y), objl));
    }
    out
}

/// The lines for the people `npcs` met by `me` (see [`people_lines`]), each
/// greeting as they will (see [`greeting_ok`]).
fn look_people(npcs: &Vec<&Person>, me: &Person) -> (r: Vec<(OutputZone, String)>)
    requires
        me.wf(),
        total_of(me.items.listing()) <= u32::MAX,
        forall|k: int|
            0 <= k < npcs@.len() ==> weight_total(options_of((#[trigger] npcs@[k]).dialogues@, "見面"@), *me) <= usize::MAX,
    ensures
        exists|greets: Seq<Option<Seq<char>>>|
            #[trigger] greets_ok(persons_of(npcs@), *me, greets) && told(r@) =~= people_lines(persons_of(npcs@), greets),
{
    let mut out: Vec<(OutputZone, String)> = Vec::new();
    let ghost nv = npcs@.map_values(|p: &Person| *p);
    let ghost mut greets: Seq<Option<Seq<char>>> = Seq::empty();
    let ghost base = told(out@);
    proof {
        assert forall|k: int| 0 <= k < nv.len() implies weight_total(
            options_of((#[trigger] nv[k]).dialogues@, "見面"@),
            *me,
        ) <= usize::MAX by {
            assert(nv[k] == *npcs@[k]);
        }
        assert(base =~= Seq::<(OutputZone, Seq<char>)>::empty());
        assert(nv.take(0) =~= Seq::<Person>::empty());
        assert(told(out@) =~= base + people_lines(nv.take(0), greets));
    }
    let mut i: usize = 0;
    while i < npcs.len()
        invariant
            i <= nv.len(),
            nv == npcs@.map_values(|p: &Person| *p),
            me.wf(),
            total_of(me.items.listing()) <= u32::MAX,
            forall|k: int| 0 <= k < nv.len() ==> weight_total(options_of((#[trigger] nv[k]).dialogues@, "見面"@), *me) <= usize::MAX,
            greets.len() == i,
            forall|k: int| 0 <= k < i ==> greeting_ok(nv[k], *me, #[trigger] greets[k]),
            told(out@) =~= base + people_lines(nv.take(i as int), greets),
        decreases nv.len() - i,
    {
        let npc = npcs[i];
        proof {
            assert(*npc == nv[i as int]);
        }
        let mut line = String::from_str("  • ");
        line.append(npc.name.as_str());
        line.append(" - ");
        line.append(npc.description.as_str());
        match &npc.party_leader {
            Some(l) => {
                line.append(" (已與\"");
                line.append(l.as_str());
                line.append("\"組隊)");
            },
            None => {},
        }
        let ghost entry = line@;
        tell(&mut out, OutputZone::Main, line);
        let said = npc.try_talk("見面", me);
        let ghost gv: Option<Seq<char>> = match &said {
            Some(t) => Some(t@),
            None => None,
        };
        match said {
            Some(t) => {
                let mut s = String::from_str("💬 ");
                s.append(npc.name.as_str());
                s.append(" 說：「");
                s.append(t.as_str());
                s.append("」");
                tell(&mut out, OutputZone::Main, s);
            },
            None => {},
        }
        proof {
            reveal_strlit("  • ");
            reveal_strlit(" - ");
            reveal_strlit(" (已與\"");
            reveal_strlit("\"組隊)");
            reveal_strlit("💬 ");
            reveal_strlit(" 說：「");
            reveal_strlit("」");
            reveal_strlit("見面");
            assert(entry == npc_entry(nv[i as int]));
            let old_greets = greets;
            greets = greets.push(gv);
            assert(greeting_ok(nv[i as int], *me, gv));
            assert forall|k: int| 0 <= k < i + 1 implies greeting_ok(nv[k], *me, #[trigger] greets[k]) by {
                if k < i {
                    assert(greets[k] == old_greets[k]);
                }
            }
            assert(nv.take(i + 1).drop_last() =~= nv.take(i as int));
            assert(greets.drop_last() =~= old_greets);
            assert(nv.take(i + 1).last() == nv[i as int]);
        }
        i = i + 1;
    }
    proof {
        assert(nv.take(i as int) =~= nv);
        assert(greets_ok(nv, *me, greets));
        assert(persons_of(npcs@) == nv);
        assert(told(out@) =~= people_lines(nv, greets));
    }
    out
}

/// Looks around where the controlled person `current_id` stands: the
/// map, the place and what lies there, and the people there, who greet
/// them if they will.
pub fn handle_look_here(game_world: &GameWorld, current_id: &str) -> (r: Vec<(OutputZone, String)>)
    requires
        handle_look_here_ready(*game_world, current_id@),
    ensures
        handle_look_here_done(*game_world, current_id@, r@),
{
    let ghost g = *game_world;
    let mut out: Vec<(OutputZone, String)> = Vec::new();
    proof {
        crate::npc_manager::lemma_found_in_range(g.npc_manager, current_id@);
        crate::person::lemma_key_position_range(g.maps@, g.current_map_name@);
    }
    let me = match game_world.npc_manager.get_npc(current_id) {
        None => {
            tell(&mut out, OutputZone::Status, String::from_str("找不到當前控制的角色"));
            return out;
        },
        Some(p) => p,
    };
    let map = match game_world.get_current_map() {
        None => {
            proof {
                assert(told(out@) =~= Seq::<(OutputZone, Seq<char>)>::empty());
            }
            return out;
        },
        Some(m) => m,
    };
    proof {
        let i = key_position(g.maps@, g.current_map_name@)->0;
        assert(g.maps@[i].1.wf());
    }
    let x = me.x;
    let y = me.y;
    let mut out = look_place(map, x, y);
    let ghost place = told(out@);
    let ghost objl = choose|objl: Seq<(OutputZone, Seq<char>)>|
        #[trigger] object_lines(objects_at(*map, x, y), objl) && place =~= place_lines(*map, x, y, objl);
    let npcs = game_world.npc_manager.get_npcs_at_in_map_excluding(game_world.current_map_name.as_str(), x, y, current_id);
    let ghost nv = npcs@.map_values(|p: &Person| *p);
    proof {
        assert(nv == people_here(g.npc_manager, g.current_map_name@, x, y, current_id@));
        assert forall|k: int| 0 <= k < npcs@.len() implies weight_total(
            options_of((#[trigger] npcs@[k]).dialogues@, "見面"@),
            *me,
        ) <= usize::MAX by {
            assert(nv[k] == *npcs@[k]);
        }
    }
    if npcs.len() == 0 {
        proof {
            let greets: Seq<Option<Seq<char>>> = Seq::empty();
            assert(greets_ok(nv, *me, greets));
            assert(look_choices(*map, *me, nv, objl, greets));
            assert(told(out@) =~= look_lines(*map, *me, nv, objl, greets));
        }
        return out;
    }
    tell(&mut out, OutputZone::Main, String::from_str("👥 此處的人物:"));
    let ghost mid = told(out@);
    let mut people = look_people(&npcs, me);
    let ghost pl = told(people@);
    proof {
        assert(persons_of(npcs@) == nv);
    }
    let ghost greets = choose|greets: Seq<Option<Seq<char>>>|
        #[trigger] greets_ok(nv, *me, greets) && pl =~= people_lines(nv, greets);
    out.append(&mut people);
    proof {
        assert(told(out@) =~= mid + pl);
        assert(look_choices(*map, *me, nv, objl, greets));
        assert(told(out@) =~= look_lines(*map, *me, nv, objl, greets));
    }
    out
}

/// When `cmd` may be carried out in `g`: what the command's handler asks
/// for (see each `*_ready`), the controlled person acting.
pub open spec fn command_ready(g: GameWorld, cmd: CommandResult) -> bool {
    let me = g.current_controlled_id@;
    match cmd {
        CommandResult::Move(dx, dy) => handle_move_ready(g, me, dx, dy),
        CommandResult::Get(Some(n), q) => handle_get_item_ready(g, me, n@, q),
        CommandResult::Drop(n, q) => handle_drop_ready(g, me, n@, q),
        CommandResult::Destroy(_) => event_ready(g),
        CommandResult::Look(Some(_)) => g.npc_manager.wf(),
        CommandResult::Look(None) => handle_look_here_ready(g, me),
        CommandResult::Get(None, _) => handle_get_all_ready(g, me),
        CommandResult::NameHere(_) => event_ready(g),
        CommandResult::Trade(_) => handle_trade_ready(g),
        CommandResult::ShowMap => panel_ready(g),
        CommandResult::ShowMinimap => panel_ready(g),
        CommandResult::Buy(n, i, q) => execute_trade_ready(g, n@, i@, q, true),
        CommandResult::Sell(n, i, q) => execute_trade_ready(g, n@, i@, q, false),
        CommandResult::Create(..) => event_ready(g),
        CommandResult::Eat(f) => handle_eat_ready(g, me, f@),
        CommandResult::UseItem(i) => handle_use_item_ready(g, me, i@),
        CommandResult::UseItemOn(i, n) => handle_use_item_on_ready(g, me, i@, n@),
        CommandResult::Sleep => handle_sleep_ready(g, me),
        CommandResult::Dream(c) => handle_dream_ready(g, me, c),
        CommandResult::WakeUp => handle_wakeup_ready(g, me),
        CommandResult::Summon(n) => handle_summon_ready(g, me, n@),
        CommandResult::Conquer(d) => handle_conquer_ready(g, me, d@),
        CommandResult::FlyTo(t) => handle_flyto_ready(g, me, t@),
        CommandResult::Name(t, n) => handle_name_ready(g, t@, n@),
        CommandResult::SetAttribute(t, a, v) => handle_set_ready(g, me, t@, a@, v),
        CommandResult::SwitchControl(n) => handle_switch_control_ready(g, n@),
        CommandResult::Give(n, i, q) => handle_give_ready(g, me, n@, i@, q),
        CommandResult::SetDialogue(n, t, x) => handle_set_dialogue_ready(g, n@, t@, x@, None),
        CommandResult::SetDialogueWithConditions(n, t, x, _) => handle_set_dialogue_ready(g, n@, t@, x@, None),
        CommandResult::SetEagerness(n, e) => handle_set_eagerness_ready(g, n@, e),
        CommandResult::SetRelationship(n, v) => handle_set_relationship_ready(g, n@, v, false),
        CommandResult::ChangeRelationship(n, v) => handle_set_relationship_ready(g, n@, v, true),
        CommandResult::Talk(n, t) => handle_talk_ready(g, me, n@, t@),
        CommandResult::Wait(n) => handle_wait_ready(g, me, n@),
        CommandResult::Party(n) => handle_party_ready(g, me, n@),
        CommandResult::Disband => handle_disband_ready(g),
        CommandResult::Punch(t) => handle_combat_skill_ready(g, "punch"@, t),
        CommandResult::Kick(t) => handle_combat_skill_ready(g, "kick"@, t),
        CommandResult::Escape => handle_escape_ready(g),
        CommandResult::CheckNpc(n) => handle_check_npc_ready(g, n@),
        CommandResult::QuestInfo(q) => handle_quest_info_ready(g, q@),
        CommandResult::QuestStart(q) => handle_quest_start_ready(g, q@),
        CommandResult::QuestComplete(q) => handle_quest_complete_ready(g, q@),
        CommandResult::QuestAbandon(q) => handle_quest_abandon_ready(g, q@),
        _ => true,
    }
}

/// Carrying out `cmd` in `g0` left `g1`, answered `r` and told whether the
/// game goes on (`go_on`, false only on exit): each command does what its
/// handler does (see each `*_done`), the controlled person acting; exit
/// says goodbye, clear clears, a message or an error is shown, the
/// terminal-only commands say so; the map panels go to the side.
pub open spec fn command_done(g0: GameWorld, g1: GameWorld, cmd: CommandResult, go_on: bool, r: Seq<(OutputZone, String)>) -> bool {
    let me = g0.current_controlled_id@;
    &&& go_on == !(cmd is Exit)
    &&& match cmd {
        CommandResult::Exit => g1 == g0 && told(r) =~= seq![(OutputZone::Main, "再見！"@)],
        CommandResult::Help => g1 == g0 && handle_help_done(r),
        CommandResult::Clear => g1 == g0 && told(r) =~= seq![(OutputZone::Main, "\n\n\n清除輸出\n\n\n"@)],
        CommandResult::Output(m) => g1 == g0 && told(r) =~= seq![(OutputZone::Main, m@)],
        CommandResult::Error(e) => g1 == g0 && told(r) =~= seq![(OutputZone::Status, "錯誤: "@ + e@)],
        CommandResult::AddToSide(m) => g1 == g0 && told(r) =~= seq![(OutputZone::Side, m@)],
        CommandResult::HideMinimap | CommandResult::ShowLog | CommandResult::HideLog | CommandResult::ToggleTypewriter
        | CommandResult::ShowHistory(_) => g1 == g0 && told(r) =~= seq![(OutputZone::Log, "此命令僅在終端 UI 模式可用"@)],
        CommandResult::Move(dx, dy) => handle_move_done(g0, g1, me, dx, dy, r),
        CommandResult::Get(Some(n), q) => handle_get_item_done(g0, g1, me, n@, q, r),
        CommandResult::Drop(n, q) => handle_drop_done(g0, g1, me, n@, q, r),
        CommandResult::Destroy(t) => handle_destroy_done(g0, g1, me, t@, r),
        CommandResult::Look(Some(t)) => g1 == g0 && handle_look_npc_done(g0, t@, r),
        CommandResult::Look(None) => g1 == g0 && handle_look_here_done(g0, me, r),
        CommandResult::Get(None, _) => handle_get_all_done(g0, g1, me, r),
        CommandResult::NameHere(n) => handle_namehere_done(g0, g1, me, n@, r),
        CommandResult::Trade(n) => handle_trade_done(g0, g1, n@, r),
        CommandResult::QuestList => g1 == g0 && handle_quest_list_done(g0, r),
        CommandResult::ShowMap => g1 == g0 && told(r) =~= seq![(OutputZone::Side, world_panel_text(g0, "▣ 地圖"@, 41, 21))],
        CommandResult::ShowMinimap => g1 == g0 && told(r) =~= seq![
            (OutputZone::Side, world_panel_text(g0, "⊕ 小地圖"@, 21, 11)),
        ],
        CommandResult::Buy(n, i, q) => exists|ok: bool| #[trigger] execute_trade_done(g0, g1, n@, i@, q, true, ok, r),
        CommandResult::Sell(n, i, q) => exists|ok: bool| #[trigger] execute_trade_done(g0, g1, n@, i@, q, false, ok, r),
        CommandResult::Create(o, t, n) => handle_create_done(g0, g1, me, o@, t@, n, r),
        CommandResult::Eat(f) => handle_eat_done(g0, g1, me, f@, r),
        CommandResult::UseItem(i) => handle_use_item_done(g0, g1, me, i@, r),
        CommandResult::UseItemOn(i, n) => handle_use_item_on_done(g0, g1, me, i@, n@, r),
        CommandResult::Sleep => handle_sleep_done(g0, g1, me, r),
        CommandResult::Dream(c) => g1 == g0 && handle_dream_done(g0, me, c, r),
        CommandResult::WakeUp => handle_wakeup_done(g0, g1, me, r),
        CommandResult::Summon(n) => handle_summon_done(g0, g1, me, n@, r),
        CommandResult::Conquer(d) => handle_conquer_done(g0, g1, me, d@, r),
        CommandResult::FlyTo(t) => handle_flyto_done(g0, g1, me, t@, r),
        CommandResult::Name(t, n) => handle_name_done(g0, g1, t@, n@, r),
        CommandResult::SetAttribute(t, a, v) => handle_set_done(g0, g1, me, t@, a@, v, r),
        CommandResult::SwitchControl(n) => handle_switch_control_done(g0, g1, n@, r),
        CommandResult::Give(n, i, q) => handle_give_done(g0, g1, me, n@, i@, q, r),
        CommandResult::SetDialogue(n, t, x) => handle_set_dialogue_done(g0, g1, n@, t@, x@, None, r),
        CommandResult::SetDialogueWithConditions(n, t, x, k) => exists|o: Option<&str>|
            #[trigger] opt_text(o) == Some(k@) && handle_set_dialogue_done(g0, g1, n@, t@, x@, o, r),
        CommandResult::SetEagerness(n, e) => handle_set_eagerness_done(g0, g1, n@, e, r),
        CommandResult::SetRelationship(n, v) => handle_set_relationship_done(g0, g1, n@, v, false, r),
        CommandResult::ChangeRelationship(n, v) => handle_set_relationship_done(g0, g1, n@, v, true, r),
        CommandResult::Talk(n, t) => handle_talk_done(g0, g1, me, n@, t@, r),
        CommandResult::Wait(n) => handle_wait_done(g0, g1, me, n@, r),
        CommandResult::Party(n) => handle_party_done(g0, g1, me, n@, r),
        CommandResult::Disband => handle_disband_done(g0, g1, r),
        CommandResult::Punch(t) => handle_combat_skill_done(g0, g1, "punch"@, t, r),
        CommandResult::Kick(t) => handle_combat_skill_done(g0, g1, "kick"@, t, r),
        CommandResult::Escape => handle_escape_done(g0, g1, r),
        CommandResult::ListNpcs => g1 == g0 && handle_list_npcs_done(g0, r),
        CommandResult::CheckNpc(n) => g1 == g0 && handle_check_npc_done(g0, n@, r),
        CommandResult::ShowWorld => g1 == g0 && handle_show_world_done(g0, r),
        CommandResult::QuestActive => g1 == g0 && handle_quest_active_done(g0, r),
        CommandResult::QuestAvailable => g1 == g0 && handle_quest_available_done(g0, r),
        CommandResult::QuestCompleted => g1 == g0 && handle_quest_completed_done(g0, r),
        CommandResult::QuestInfo(q) => g1 == g0 && handle_quest_info_done(g0, q@, r),
        CommandResult::QuestStart(q) => handle_quest_start_done(g0, g1, q@, r),
        CommandResult::QuestComplete(q) => handle_quest_complete_done(g0, g1, q@, r),
        CommandResult::QuestAbandon(q) => handle_quest_abandon_done(g0, g1, q@, r),
    }
}

/// Answers with one line in `zone`.
fn one_line(zone: OutputZone, text: String) -> (r: Vec<(OutputZone, String)>)
    ensures
        told(r@) =~= seq![(zone, text@)],
{
    let mut out: Vec<(OutputZone, String)> = Vec::new();
    tell(&mut out, zone, text);
    out
}

/// Carries out `cmd` for the controlled person (see [`command_done`]) and
/// tells whether the game goes on.
pub fn run_command(game_world: &mut GameWorld, cmd: CommandResult) -> (r: (bool, Vec<(OutputZone, String)>))
    requires
        command_ready(*old(game_world), cmd),
    ensures
        command_done(*old(game_world), *final(game_world), cmd, r.0, r.1@),
{
    let current_id = game_world.current_controlled_id.clone();
    let me = current_id.as_str();
    match cmd {
        CommandResult::Exit => (false, one_line(OutputZone::Main, String::from_str("再見！"))),
        CommandResult::Help => (true, handle_help()),
        CommandResult::Clear => (true, one_line(OutputZone::Main, String::from_str("\n\n\n清除輸出\n\n\n"))),
        CommandResult::Output(msg) => (true, one_line(OutputZone::Main, msg)),
        CommandResult::Error(err) => (true, one_line(OutputZone::Status, concat("錯誤: ", err.as_str()))),
        CommandResult::AddToSide(msg) => (true, one_line(OutputZone::Side, msg)),
        CommandResult::HideMinimap | CommandResult::ShowLog | CommandResult::HideLog | CommandResult::ToggleTypewriter
        | CommandResult::ShowHistory(_) => (true, one_line(OutputZone::Log, String::from_str("此命令僅在終端 UI 模式可用"))),
        CommandResult::Move(dx, dy) => (true, handle_move(game_world, me, dx, dy)),
        CommandResult::Get(Some(n), q) => (true, handle_get_item(game_world, me, n.as_str(), q)),
        CommandResult::Drop(n, q) => (true, handle_drop(game_world, me, n.as_str(), q)),
        CommandResult::Destroy(t) => (true, handle_destroy(game_world, me, t.as_str())),
        CommandResult::Look(Some(t)) => (true, handle_look_npc(game_world, t.as_str())),
        CommandResult::Look(None) => (true, handle_look_here(game_world, me)),
        CommandResult::Get(None, _) => (true, handle_get_all(game_world, me)),
        CommandResult::NameHere(n) => (true, handle_namehere(game_world, me, n.as_str())),
        CommandResult::Trade(n) => (true, handle_trade(game_world, n.as_str())),
        CommandResult::QuestList => (true, handle_quest_list(game_world)),
        CommandResult::ShowMap => (true, one_line(OutputZone::Side, render_world_map(game_world))),
        CommandResult::ShowMinimap => (true, one_line(OutputZone::Side, render_world_minimap(game_world))),
        CommandResult::Buy(n, i, q) => {
            let (_, out) = execute_trade(game_world, n.as_str(), i.as_str(), q, true);
            (true, out)
        },
        CommandResult::Sell(n, i, q) => {
            let (_, out) = execute_trade(game_world, n.as_str(), i.as_str(), q, false);
            (true, out)
        },
        CommandResult::Create(o, t, n) => (true, handle_create(game_world, me, o.as_str(), t.as_str(), n)),
        CommandResult::Eat(f) => (true, handle_eat(game_world, me, f.as_str())),
        CommandResult::UseItem(i) => (true, handle_use_item(game_world, me, i.as_str())),
        CommandResult::UseItemOn(i, n) => (true, handle_use_item_on(game_world, me, i.as_str(), n.as_str())),
        CommandResult::Sleep => (true, handle_sleep(game_world, me)),
        CommandResult::Dream(c) => (true, handle_dream(game_world, me, c)),
        CommandResult::WakeUp => (true, handle_wakeup(game_world, me)),
        CommandResult::Summon(n) => (true, handle_summon(game_world, me, n.as_str())),
        CommandResult::Conquer(d) => (true, handle_conquer(game_world, me, d.as_str())),
        CommandResult::FlyTo(t) => (true, handle_flyto(game_world, me, t.as_str())),
        CommandResult::Name(t, n) => (true, handle_name(game_world, t.as_str(), n.as_str())),
        CommandResult::SetAttribute(t, a, v) => (true, handle_set(game_world, me, t.as_str(), a.as_str(), v)),
        CommandResult::SwitchControl(n) => (true, handle_switch_control(game_world, n.as_str())),
        CommandResult::Give(n, i, q) => (true, handle_give(game_world, me, n.as_str(), i.as_str(), q)),
        CommandResult::SetDialogue(n, t, x) => (true, handle_set_dialogue(game_world, n.as_str(), t.as_str(), x.as_str(), None)),
        CommandResult::SetDialogueWithConditions(n, t, x, k) => {
            let o: Option<&str> = Some(k.as_str());
            let out = handle_set_dialogue(game_world, n.as_str(), t.as_str(), x.as_str(), o);
            assert(opt_text(o) == Some(k@));
            (true, out)
        },
        CommandResult::SetEagerness(n, e) => (true, handle_set_eagerness(game_world, n.as_str(), e)),
        CommandResult::SetRelationship(n, v) => (true, handle_set_relationship(game_world, n.as_str(), v, false)),
        CommandResult::ChangeRelationship(n, v) => (true, handle_set_relationship(game_world, n.as_str(), v, true)),
        CommandResult::Talk(n, t) => (true, handle_talk(game_world, me, n.as_str(), t.as_str())),
        CommandResult::Wait(n) => (true, handle_wait(game_world, me, n.as_str())),
        CommandResult::Party(n) => (true, handle_party(game_world, me, n.as_str())),
        CommandResult::Disband => (true, handle_disband(game_world)),
        CommandResult::Punch(t) => (true, handle_combat_skill(game_world, "punch", t)),
        CommandResult::Kick(t) => (true, handle_combat_skill(game_world, "kick", t)),
        CommandResult::Escape => (true, handle_escape(game_world)),
        CommandResult::ListNpcs => (true, handle_list_npcs(game_world)),
        CommandResult::CheckNpc(n) => (true, handle_check_npc(game_world, n.as_str())),
        CommandResult::ShowWorld => (true, handle_show_world(game_world)),
        CommandResult::QuestActive => (true, handle_quest_active(game_world)),
        CommandResult::QuestAvailable => (true, handle_quest_available(game_world)),
        CommandResult::QuestCompleted => (true, handle_quest_completed(game_world)),
        CommandResult::QuestInfo(q) => (true, handle_quest_info(game_world, q.as_str())),
        CommandResult::QuestStart(q) => (true, handle_quest_start(game_world, q.as_str())),
        CommandResult::QuestComplete(q) => (true, handle_quest_complete(game_world, q.as_str())),
        CommandResult::QuestAbandon(q) => (true, handle_quest_abandon(game_world, q.as_str())),
    }
}

/// Parses the command line `command` (see
/// [`crate::command_handler::parse_command`]) and carries the command out
/// for the controlled person (see [`command_done`]); false only on exit.
pub fn execute_command(game_world: &mut GameWorld, command: &str) -> (r: (bool, Vec<(OutputZone, String)>))
    requires
        forall|c: CommandResult| #[trigger] parses_to(words(command@), c) ==> command_ready(*old(game_world), c),
    ensures
        exists|c: CommandResult|
            #[trigger] parses_to(words(command@), c) && command_done(*old(game_world), *final(game_world), c, r.0, r.1@),
{
    let cmd = parse_command(command);
    run_command(game_world, cmd)
}

} // verus!
