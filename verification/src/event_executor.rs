//! Where the text of carried-out events goes.
use vstd::prelude::*;
use crate::core_output::CoreOutputManager;
use crate::output::{OutputManager, OutputState};
use crate::text::{concat, decimal, push_decimal, strs_view};
use crate::event::{EventAction, GameEvent, Position};
use crate::map::{without_first, GameMap, Point};
use crate::person::{hp_check, key_position, person_words, Person};
use crate::world::GameWorld;
use crate::command_interact::person_changed;

verus! {

/// Something that event messages can be printed to, with or without a
/// terminal screen.
pub trait EventOutput {
    /// Prints `message`.
    fn print(&mut self, message: String);
}

impl EventOutput for OutputManager {
    /// Appends the message to the main output and scrolls to the end.
    fn print(&mut self, message: String)
        ensures
            final(self).state() == (OutputState {
                messages: old(self).state().messages.push(message@),
                scroll: usize::MAX as nat,
                ..old(self).state()
            }),
    {
        OutputManager::print(self, message);
    }
}

impl EventOutput for CoreOutputManager {
    /// Appends the message to the main output.
    fn print(&mut self, message: String)
        ensures
            strs_view(final(self).messages_view()) == strs_view(old(self).messages_view()).push(message@),
            final(self).logs_view() == old(self).logs_view(),
            final(self).status_view() == old(self).status_view(),
            final(self).side_view() == old(self).side_view(),
    {
        self.add_message(message);
    }
}

/// Carries out the actions of triggered events.
pub struct EventExecutor;

/// `r` is what resolving `pos` on `map` may give (see
/// [`Position::resolve`]): the fixed coordinates, or a walkable point of
/// the map drawn at random, or nothing when no point is walkable.
pub open spec fn resolves_to(pos: Position, map: GameMap, r: Option<[usize; 2]>) -> bool {
    match pos {
        Position::Fixed(p) => r == Some(p),
        Position::Random(_) => match r {
            Some(p) => p[0] < map.width && p[1] < map.height && map.point_at(p[0] as int, p[1] as int).walkable,
            None => forall|x: int, y: int| 0 <= x < map.width && 0 <= y < map.height ==> !#[trigger] map.point_at(x, y).walkable,
        },
    }
}

/// `after` is `map` with the point at (x, y) replaced by `p`.
pub open spec fn point_set(map: GameMap, after: GameMap, x: int, y: int, p: Point) -> bool {
    &&& after.name == map.name
    &&& after.width == map.width
    &&& after.height == map.height
    &&& after.map_type == map.map_type
    &&& after.points@.len() == map.points@.len()
    &&& forall|j: int| 0 <= j < map.points@.len() && j != y ==> #[trigger] after.points@[j] == map.points@[j]
    &&& after.points@[y]@ == map.points@[y]@.update(x, p)
}

/// `after` is `g` with the point at (x, y) of the current map (the `i`-th)
/// replaced by `p`.
pub open spec fn world_point_set(g: GameWorld, after: GameWorld, i: int, x: int, y: int, p: Point) -> bool {
    &&& after == (GameWorld { maps: after.maps, ..g })
    &&& after.maps@ == g.maps@.update(i, (g.maps@[i].0, after.maps@[i].1))
    &&& point_set(g.maps@[i].1, after.maps@[i].1, x, y, p)
}

/// The line for coordinates: `(x, y)`.
pub open spec fn at_text(p: [usize; 2]) -> Seq<char> {
    "("@ + decimal(p[0] as nat) + ", "@ + decimal(p[1] as nat) + ")"@
}

/// `after`, the outcome `res` and the messages `msgs` follow from `g` by the
/// action `a`:
/// - an NPC appearing or leaving, a message or a line of dialogue is only
///   told;
/// - an item added to, or taken off, a place of the current map;
/// - the player teleported to a place of another map, where the step
///   tires them (see [`Person::move_to`]).
/// A place that does not resolve, or lies off the map, is an error.
pub open spec fn action_done(
    g: GameWorld,
    after: GameWorld,
    a: EventAction,
    res: Result<(), Seq<char>>,
    msgs: Seq<Seq<char>>,
) -> bool {
    let cur = key_position(g.maps@, g.current_map_name@);
    match a {
        EventAction::SpawnNpc { npc_id, position, dialogue } => after == g && match cur {
            None => res == Err::<(), Seq<char>>("無法獲取當前地圖"@) && msgs.len() == 0,
            Some(i) => exists|r: Option<[usize; 2]>|
                #[trigger] resolves_to(position, g.maps@[i].1, r) && match r {
                    None => res == Err::<(), Seq<char>>("無法解析位置"@) && msgs.len() == 0,
                    Some(p) => res is Ok && msgs == seq!["👤 NPC "@ + npc_id@ + " 出現在 "@ + at_text(p)] + match dialogue {
                        Some(d) => seq!["💬 "@ + npc_id@ + ": \""@ + d@ + "\""@],
                        None => Seq::empty(),
                    },
                },
        },
        EventAction::RemoveNpc { npc_id } => after == g && res is Ok && msgs == seq!["👤 NPC "@ + npc_id@ + " 離開了"@],
        EventAction::Message { text } => after == g && res is Ok && msgs == seq!["📢 "@ + text@],
        EventAction::Dialogue { npc_id, text } => after == g && res is Ok && msgs == seq![
            "💬 "@ + npc_id@ + ": \""@ + text@ + "\""@,
        ],
        EventAction::AddItem { item, position } => match cur {
            None => after == g && res == Err::<(), Seq<char>>("無法獲取當前地圖"@) && msgs.len() == 0,
            Some(i) => exists|r: Option<[usize; 2]>|
                #[trigger] resolves_to(position, g.maps@[i].1, r) && match r {
                    None => after == g && res == Err::<(), Seq<char>>("無法解析位置"@) && msgs.len() == 0,
                    Some(p) => {
                        let map = g.maps@[i].1;
                        if p[0] < map.width && p[1] < map.height {
                            let pt = map.point_at(p[0] as int, p[1] as int);
                            let np = after.maps@[i].1.point_at(p[0] as int, p[1] as int);
                            &&& world_point_set(g, after, i, p[0] as int, p[1] as int, np)
                            &&& np == (Point { objects: np.objects, ..pt })
                            &&& strs_view(np.objects@) == strs_view(pt.objects@).push(item@)
                            &&& res is Ok
                            &&& msgs == seq!["🎁 "@ + item@ + " 出現在 "@ + at_text(p)]
                        } else {
                            &&& after.maps@ == g.maps@
                            &&& after == (GameWorld { maps: after.maps, ..g })
                            &&& res == Err::<(), Seq<char>>("無法在位置 "@ + at_text(p) + " 添加物品"@)
                            &&& msgs.len() == 0
                        }
                    },
                },
        },
        EventAction::RemoveItem { item, position } => match cur {
            None => after == g && res == Err::<(), Seq<char>>("無法獲取當前地圖"@) && msgs.len() == 0,
            Some(i) => exists|r: Option<[usize; 2]>|
                #[trigger] resolves_to(position, g.maps@[i].1, r) && match r {
                    None => after == g && res == Err::<(), Seq<char>>("無法解析位置"@) && msgs.len() == 0,
                    Some(p) => {
                        let map = g.maps@[i].1;
                        if p[0] < map.width && p[1] < map.height && strs_view(
                            map.point_at(p[0] as int, p[1] as int).objects@,
                        ).contains(item@) {
                            let pt = map.point_at(p[0] as int, p[1] as int);
                            let np = after.maps@[i].1.point_at(p[0] as int, p[1] as int);
                            &&& world_point_set(g, after, i, p[0] as int, p[1] as int, np)
                            &&& np == (Point { objects: np.objects, ..pt })
                            &&& strs_view(np.objects@) == without_first(strs_view(pt.objects@), item@)
                            &&& res is Ok
                            &&& msgs == seq!["🗑️  "@ + item@ + " 從 "@ + at_text(p) + " 消失了"@]
                        } else {
                            &&& if p[0] < map.width && p[1] < map.height {
                                world_point_set(g, after, i, p[0] as int, p[1] as int, map.point_at(p[0] as int, p[1] as int))
                            } else {
                                after.maps@ == g.maps@ && after == (GameWorld { maps: after.maps, ..g })
                            }
                            &&& res == Err::<(), Seq<char>>("無法在位置 "@ + at_text(p) + " 移除物品 "@ + item@)
                            &&& msgs.len() == 0
                        }
                    },
                },
        },
        EventAction::Teleport { map, position } => match key_position(g.maps@, map@) {
            None => after == g && res == Err::<(), Seq<char>>("地圖 "@ + map@ + " 不存在"@) && msgs.len() == 0,
            Some(i) => {
                let g1 = GameWorld { current_map_name: after.current_map_name, ..g };
                &&& after.current_map_name@ == map@
                &&& exists|r: Option<[usize; 2]>|
                    #[trigger] resolves_to(position, g.maps@[i].1, r) && match r {
                        None => after == g1 && res == Err::<(), Seq<char>>("無法解析目標位置"@) && msgs.len() == 0,
                        Some(p) => match g.npc_manager.found(g.current_controlled_id@) {
                            None => after == g1 && res == Err::<(), Seq<char>>("無法獲取當前角色"@) && msgs.len() == 0,
                            Some(a) => {
                                let me = g.npc_manager.people()[a].1;
                                let moved = after.npc_manager.people()[a].1;
                                let h = hp_check(me.hp, me.max_hp, -1i32);
                                &&& after == (GameWorld { npc_manager: after.npc_manager, ..g1 })
                                &&& person_changed(g.npc_manager, after.npc_manager, a, moved)
                                &&& moved == (Person {
                                    x: p[0],
                                    y: p[1],
                                    hp: h.0 as i32,
                                    status: moved.status,
                                    description: moved.description,
                                    ..me
                                })
                                &&& moved.status@ == h.1
                                &&& moved.description@ == person_words(g.person_descriptions, Person { hp: h.0 as i32, ..me })
                                &&& res is Ok
                                &&& msgs == seq!["✨ 你被傳送到 "@ + map@ + " "@ + at_text(p)]
                            },
                        },
                    }
            },
        },
    }
}

/// The world is fit for events: its maps are well kept, and the controlled
/// person's health and most health leave room for a step.
pub open spec fn event_ready(g: GameWorld) -> bool {
    &&& g.wf()
    &&& forall|i: int| 0 <= i < g.maps@.len() ==> (#[trigger] g.maps@[i]).1.wf()
    &&& (g.npc_manager.found(g.current_controlled_id@) matches Some(a) ==> g.npc_manager.people()[a].1.hp > i32::MIN
        && g.npc_manager.people()[a].1.max_hp > i32::MIN)
}

/// The outcome as text: nothing, or the error's words.
pub open spec fn outcome(r: Result<(), String>) -> Result<(), Seq<char>> {
    match r {
        Ok(()) => Ok(()),
        Err(e) => Err(e@),
    }
}

pub proof fn lemma_point_set_ready(g: GameWorld, after: GameWorld, i: int, x: int, y: int, p: Point)
    requires
        event_ready(g),
        0 <= i < g.maps@.len(),
        0 <= x < g.maps@[i].1.width,
        0 <= y < g.maps@[i].1.height,
        world_point_set(g, after, i, x, y, p),
    ensures
        event_ready(after),
{
    let om = g.maps@[i].1;
    let fm = after.maps@[i].1;
    assert(om.wf());
    assert forall|j: int| 0 <= j < fm.height implies #[trigger] fm.points@[j]@.len() == fm.width by {
        assert(om.points@[j]@.len() == om.width);
    }
    assert forall|k: int| 0 <= k < after.maps@.len() implies (#[trigger] after.maps@[k]).1.wf() by {
        if k != i {
            assert(after.maps@[k] == g.maps@[k]);
        }
    }
    assert(crate::npc_manager::keys_distinct(after.maps@)) by {
        assert forall|a: int, b: int|
            0 <= a < after.maps@.len() && 0 <= b < after.maps@.len() && after.maps@[a].0@ == after.maps@[b].0@ implies a
                == b by {
            assert(after.maps@[a].0 == g.maps@[a].0);
            assert(after.maps@[b].0 == g.maps@[b].0);
        }
    }
}

/// The position of `pos` on the current map, or the error when there is
/// no current map or the position does not resolve.
fn resolve_here(game_world: &GameWorld, pos: &Position) -> (r: Result<[usize; 2], String>)
    requires
        event_ready(*game_world),
    ensures
        match key_position(game_world.maps@, game_world.current_map_name@) {
            None => r matches Err(e) && e@ == "無法獲取當前地圖"@,
            Some(i) => exists|q: Option<[usize; 2]>|
                #[trigger] resolves_to(*pos, game_world.maps@[i].1, q) && match q {
                    None => r matches Err(e) && e@ == "無法解析位置"@,
                    Some(p) => r == Ok::<[usize; 2], String>(p),
                },
        },
{
    proof {
        crate::person::lemma_key_position_range(game_world.maps@, game_world.current_map_name@);
    }
    match game_world.get_current_map() {
        None => Err(String::from_str("無法獲取當前地圖")),
        Some(map) => {
            proof {
                let i = key_position(game_world.maps@, game_world.current_map_name@)->0;
                assert(game_world.maps@[i].1.wf());
            }
            let q = pos.resolve(map);
            proof {
                let i = key_position(game_world.maps@, game_world.current_map_name@)->0;
                assert(resolves_to(*pos, game_world.maps@[i].1, q));
            }
            match q {
                Some(p) => Ok(p),
                None => Err(String::from_str("無法解析位置")),
            }
        },
    }
}

/// Adds `item` at (x, y) of the current map, or tells that the place is
/// off it.
fn add_item_at(game_world: &mut GameWorld, item: &String, p: [usize; 2]) -> (r: (Result<(), String>, Vec<String>))
    requires
        event_ready(*old(game_world)),
        key_position(old(game_world).maps@, old(game_world).current_map_name@) is Some,
    ensures
        event_ready(*final(game_world)),
        ({
            let g = *old(game_world);
            let after = *final(game_world);
            let i = key_position(g.maps@, g.current_map_name@)->0;
            let map = g.maps@[i].1;
            let msgs = strs_view(r.1@);
            let res = outcome(r.0);
            if p[0] < map.width && p[1] < map.height {
                let pt = map.point_at(p[0] as int, p[1] as int);
                let np = after.maps@[i].1.point_at(p[0] as int, p[1] as int);
                &&& world_point_set(g, after, i, p[0] as int, p[1] as int, np)
                &&& np == (Point { objects: np.objects, ..pt })
                &&& strs_view(np.objects@) == strs_view(pt.objects@).push(item@)
                &&& res is Ok
                &&& msgs == seq!["🎁 "@ + item@ + " 出現在 "@ + at_text(p)]
            } else {
                &&& after.maps@ == g.maps@
                &&& after == (GameWorld { maps: after.maps, ..g })
                &&& res == Err::<(), Seq<char>>("無法在位置 "@ + at_text(p) + " 添加物品"@)
                &&& msgs.len() == 0
            }
        }),
{
    let ghost g = *game_world;
    let ghost i = key_position(g.maps@, g.current_map_name@)->0;
    proof {
        crate::person::lemma_key_position_range(g.maps@, g.current_map_name@);
        assert(g.maps@[i].1.wf());
    }
    let mut msgs: Vec<String> = Vec::new();
    let mut place = String::from_str("(");
    push_decimal(&mut place, p[0] as u64);
    place.append(", ");
    push_decimal(&mut place, p[1] as u64);
    place.append(")");
    proof {
        reveal_strlit("(");
        reveal_strlit(", ");
        reveal_strlit(")");
        assert(place@ =~= at_text(p));
    }
    let done = match game_world.get_current_map_mut() {
        Some(map) => match map.get_point_mut(p[0], p[1]) {
            Some(pt) => {
                pt.add_object(item.clone());
                true
            },
            None => false,
        },
        None => false,
    };
    if done {
        let mut line = String::from_str("🎁 ");
        line.append(item.as_str());
        line.append(" 出現在 ");
        line.append(place.as_str());
        msgs.push(line);
        proof {
            reveal_strlit("🎁 ");
            assert(strs_view(msgs@) =~= seq!["🎁 "@ + item@ + " 出現在 "@ + at_text(p)]);
            let np = game_world.maps@[i].1.point_at(p[0] as int, p[1] as int);
            assert(world_point_set(g, *game_world, i, p[0] as int, p[1] as int, np));
            lemma_point_set_ready(g, *game_world, i, p[0] as int, p[1] as int, np);
        }
        (Ok(()), msgs)
    } else {
        proof {
            assert(game_world.maps@ =~= g.maps@);
            assert(strs_view(msgs@) =~= Seq::<Seq<char>>::empty());
        }
        let mut e = String::from_str("無法在位置 ");
        e.append(place.as_str());
        e.append(" 添加物品");
        (Err(e), msgs)
    }
}

/// Takes `item` off (x, y) of the current map, or tells that it is not
/// there.
fn remove_item_at(game_world: &mut GameWorld, item: &String, p: [usize; 2]) -> (r: (Result<(), String>, Vec<String>))
    requires
        event_ready(*old(game_world)),
        key_position(old(game_world).maps@, old(game_world).current_map_name@) is Some,
    ensures
        event_ready(*final(game_world)),
        ({
            let g = *old(game_world);
            let after = *final(game_world);
            let i = key_position(g.maps@, g.current_map_name@)->0;
            let map = g.maps@[i].1;
            let msgs = strs_view(r.1@);
            let res = outcome(r.0);
            if p[0] < map.width && p[1] < map.height && strs_view(map.point_at(p[0] as int, p[1] as int).objects@).contains(
                item@,
            ) {
                let pt = map.point_at(p[0] as int, p[1] as int);
                let np = after.maps@[i].1.point_at(p[0] as int, p[1] as int);
                &&& world_point_set(g, after, i, p[0] as int, p[1] as int, np)
                &&& np == (Point { objects: np.objects, ..pt })
                &&& strs_view(np.objects@) == without_first(strs_view(pt.objects@), item@)
                &&& res is Ok
                &&& msgs == seq!["🗑️  "@ + item@ + " 從 "@ + at_text(p) + " 消失了"@]
            } else {
                &&& if p[0] < map.width && p[1] < map.height {
                    world_point_set(g, after, i, p[0] as int, p[1] as int, map.point_at(p[0] as int, p[1] as int))
                } else {
                    after.maps@ == g.maps@ && after == (GameWorld { maps: after.maps, ..g })
                }
                &&& res == Err::<(), Seq<char>>("無法在位置 "@ + at_text(p) + " 移除物品 "@ + item@)
                &&& msgs.len() == 0
            }
        }),
{
    let ghost g = *game_world;
    let ghost i = key_position(g.maps@, g.current_map_name@)->0;
    proof {
        crate::person::lemma_key_position_range(g.maps@, g.current_map_name@);
        assert(g.maps@[i].1.wf());
    }
    let mut msgs: Vec<String> = Vec::new();
    let mut place = String::from_str("(");
    push_decimal(&mut place, p[0] as u64);
    place.append(", ");
    push_decimal(&mut place, p[1] as u64);
    place.append(")");
    proof {
        reveal_strlit("(");
        reveal_strlit(", ");
        reveal_strlit(")");
        assert(place@ =~= at_text(p));
    }
    let done = match game_world.get_current_map_mut() {
        Some(map) => match map.get_point_mut(p[0], p[1]) {
            Some(pt) => pt.remove_object(item.as_str()),
            None => false,
        },
        None => false,
    };
    if done {
        let mut line = String::from_str("🗑️  ");
        line.append(item.as_str());
        line.append(" 從 ");
        line.append(place.as_str());
        line.append(" 消失了");
        msgs.push(line);
        proof {
            reveal_strlit("🗑️  ");
            reveal_strlit(" 從 ");
            assert(strs_view(msgs@) =~= seq!["🗑️  "@ + item@ + " 從 "@ + at_text(p) + " 消失了"@]);
            let np = game_world.maps@[i].1.point_at(p[0] as int, p[1] as int);
            assert(world_point_set(g, *game_world, i, p[0] as int, p[1] as int, np));
            lemma_point_set_ready(g, *game_world, i, p[0] as int, p[1] as int, np);
        }
        (Ok(()), msgs)
    } else {
        proof {
            if p[0] < g.maps@[i].1.width && p[1] < g.maps@[i].1.height {
                let pt = g.maps@[i].1.point_at(p[0] as int, p[1] as int);
                assert(game_world.maps@[i].1.points@[p[1] as int]@ =~= g.maps@[i].1.points@[p[1] as int]@.update(
                    p[0] as int,
                    pt,
                ));
                lemma_point_set_ready(g, *game_world, i, p[0] as int, p[1] as int, pt);
            } else {
                assert(game_world.maps@ =~= g.maps@);
            }
            assert(strs_view(msgs@) =~= Seq::<Seq<char>>::empty());
        }
        let mut e = String::from_str("無法在位置 ");
        e.append(place.as_str());
        e.append(" 移除物品 ");
        e.append(item.as_str());
        (Err(e), msgs)
    }
}

/// `msgs` as one message list.
pub open spec fn flat_msgs(parts: Seq<Seq<Seq<char>>>) -> Seq<Seq<char>>
    decreases parts.len(),
{
    if parts.len() == 0 {
        Seq::empty()
    } else {
        flat_msgs(parts.drop_last()) + parts.last()
    }
}

impl EventExecutor {
    /// Carries out one action (see [`action_done`]).
    pub fn execute_action(action: &EventAction, game_world: &mut GameWorld) -> (r: (Result<(), String>, Vec<String>))
        requires
            event_ready(*old(game_world)),
        ensures
            event_ready(*final(game_world)),
            action_done(*old(game_world), *final(game_world), *action, outcome(r.0), strs_view(r.1@)),
    {
        let ghost g = *game_world;
        let mut msgs: Vec<String> = Vec::new();
        proof {
            crate::person::lemma_key_position_range(g.maps@, g.current_map_name@);
        }
        match action {
            EventAction::SpawnNpc { npc_id, position, dialogue } => {
                let p = match resolve_here(game_world, position) {
                    Ok(p) => p,
                    Err(e) => {
                        proof {
                            assert(strs_view(msgs@) =~= Seq::<Seq<char>>::empty());
                        }
                        return (Err(e), msgs);
                    },
                };
                let mut place = String::from_str("(");
                push_decimal(&mut place, p[0] as u64);
                place.append(", ");
                push_decimal(&mut place, p[1] as u64);
                place.append(")");
                let mut line = String::from_str("👤 NPC ");
                line.append(npc_id.as_str());
                line.append(" 出現在 ");
                line.append(place.as_str());
                msgs.push(line);
                match dialogue {
                    Some(d) => {
                        let mut l2 = String::from_str("💬 ");
                        l2.append(npc_id.as_str());
                        l2.append(": \"");
                        l2.append(d.as_str());
                        l2.append("\"");
                        msgs.push(l2);
                    },
                    None => {},
                }
                proof {
                    reveal_strlit("(");
                    reveal_strlit(", ");
                    reveal_strlit(")");
                    reveal_strlit("👤 NPC ");
                    reveal_strlit("💬 ");
                    assert(place@ =~= at_text(p));
                    assert(strs_view(msgs@) =~= seq!["👤 NPC "@ + npc_id@ + " 出現在 "@ + at_text(p)] + match *dialogue {
                        Some(d) => seq!["💬 "@ + npc_id@ + ": \""@ + d@ + "\""@],
                        None => Seq::empty(),
                    });
                }
                (Ok(()), msgs)
            },
            EventAction::RemoveNpc { npc_id } => {
                let mut line = String::from_str("👤 NPC ");
                line.append(npc_id.as_str());
                line.append(" 離開了");
                msgs.push(line);
                proof {
                    reveal_strlit("👤 NPC ");
                    assert(strs_view(msgs@) =~= seq!["👤 NPC "@ + npc_id@ + " 離開了"@]);
                }
                (Ok(()), msgs)
            },
            EventAction::Message { text } => {
                msgs.push(concat("📢 ", text.as_str()));
                proof {
                    assert(strs_view(msgs@) =~= seq!["📢 "@ + text@]);
                }
                (Ok(()), msgs)
            },
            EventAction::Dialogue { npc_id, text } => {
                let mut line = String::from_str("💬 ");
                line.append(npc_id.as_str());
                line.append(": \"");
                line.append(text.as_str());
                line.append("\"");
                msgs.push(line);
                proof {
                    reveal_strlit("💬 ");
                    assert(strs_view(msgs@) =~= seq!["💬 "@ + npc_id@ + ": \""@ + text@ + "\""@]);
                }
                (Ok(()), msgs)
            },
            EventAction::AddItem { item, position } => {
                let p = match resolve_here(game_world, position) {
                    Ok(p) => p,
                    Err(e) => {
                        proof {
                            assert(strs_view(msgs@) =~= Seq::<Seq<char>>::empty());
                        }
                        return (Err(e), msgs);
                    },
                };
                add_item_at(game_world, item, p)
            },
            EventAction::RemoveItem { item, position } => {
                let p = match resolve_here(game_world, position) {
                    Ok(p) => p,
                    Err(e) => {
                        proof {
                            assert(strs_view(msgs@) =~= Seq::<Seq<char>>::empty());
                        }
                        return (Err(e), msgs);
                    },
                };
                remove_item_at(game_world, item, p)
            },
            EventAction::Teleport { map, position } => Self::teleport_player(map, position, game_world),
        }
    }

    /// Teleports the controlled person to `position` of the map `map`.
    fn teleport_player(map: &String, position: &Position, game_world: &mut GameWorld) -> (r: (Result<(), String>, Vec<String>))
        requires
            event_ready(*old(game_world)),
        ensures
            event_ready(*final(game_world)),
            action_done(
                *old(game_world),
                *final(game_world),
                EventAction::Teleport { map: *map, position: *position },
                outcome(r.0),
                strs_view(r.1@),
            ),
    {
        let ghost g = *game_world;
        let mut msgs: Vec<String> = Vec::new();
        proof {
            crate::person::lemma_key_position_range(g.maps@, map@);
        }
        if !game_world.change_map(map.as_str()) {
            let mut e = String::from_str("地圖 ");
            e.append(map.as_str());
            e.append(" 不存在");
            proof {
                assert(strs_view(msgs@) =~= Seq::<Seq<char>>::empty());
            }
            return (Err(e), msgs);
        }
        let ghost g1 = *game_world;
        let ghost i = key_position(g.maps@, map@)->0;
        proof {
            assert(g.maps@[i].1.wf());
            assert(key_position(g1.maps@, g1.current_map_name@) == Some(i));
        }
        let p = match game_world.get_current_map() {
            Some(m) => {
                let q = position.resolve(m);
                proof {
                    assert(resolves_to(*position, g.maps@[i].1, q));
                }
                match q {
                    Some(p) => p,
                    None => {
                        proof {
                            assert(strs_view(msgs@) =~= Seq::<Seq<char>>::empty());
                        }
                        return (Err(String::from_str("無法解析目標位置")), msgs);
                    },
                }
            },
            None => {
                return (Err(String::from_str("無法獲取目標地圖")), msgs);
            },
        };
        proof {
            crate::npc_manager::lemma_found_in_range(g.npc_manager, g.current_controlled_id@);
        }
        match game_world.npc_manager.get_npc_mut(game_world.current_controlled_id.as_str()) {
            Some(me) => {
                me.move_to(p[0], p[1], &game_world.person_descriptions);
                let mut place = String::from_str("(");
                push_decimal(&mut place, p[0] as u64);
                place.append(", ");
                push_decimal(&mut place, p[1] as u64);
                place.append(")");
                let mut line = String::from_str("✨ 你被傳送到 ");
                line.append(map.as_str());
                line.append(" ");
                line.append(place.as_str());
                msgs.push(line);
                proof {
                    reveal_strlit("(");
                    reveal_strlit(", ");
                    reveal_strlit(")");
                    reveal_strlit(" ");
                    assert(place@ =~= at_text(p));
                    assert(strs_view(msgs@) =~= seq!["✨ 你被傳送到 "@ + map@ + " "@ + at_text(p)]);
                }
            },
            None => {
                proof {
                    assert(strs_view(msgs@) =~= Seq::<Seq<char>>::empty());
                }
                return (Err(String::from_str("無法獲取當前角色")), msgs);
            },
        }
        proof {
            let a = g.npc_manager.found(g.current_controlled_id@)->0;
            let me = g.npc_manager.people()[a].1;
            let moved = game_world.npc_manager.people()[a].1;
            assert(moved.hp > i32::MIN);
            assert(game_world.npc_manager.found(game_world.current_controlled_id@) == Some(a)) by {
                crate::command_interact::lemma_found_after_change(g.npc_manager, game_world.npc_manager, a, moved, g.current_controlled_id@);
            }
        }
        (Ok(()), msgs)
    }

    /// Carries out the event: tells that it fired, then carries out its
    /// actions in order (see [`action_done`]), stopping at the first that
    /// fails, whose error is answered.
    pub fn execute_event(event: &GameEvent, game_world: &mut GameWorld) -> (r: (Result<(), String>, Vec<String>))
        requires
            event_ready(*old(game_world)),
        ensures
            event_ready(*final(game_world)),
            event_ran(*old(game_world), *final(game_world), *event, outcome(r.0), strs_view(r.1@)),
    {
        let ghost g0 = *game_world;
        let mut msgs: Vec<String> = Vec::new();
        msgs.push(concat("🎭 事件觸發: ", event.name.as_str()));
        let ghost head = strs_view(msgs@);
        let ghost mut states: Seq<GameWorld> = seq![g0];
        let ghost mut outs: Seq<Result<(), Seq<char>>> = Seq::empty();
        let ghost mut parts: Seq<Seq<Seq<char>>> = Seq::empty();
        proof {
            assert(head =~= seq!["🎭 事件觸發: "@ + event.name@]);
            assert(flat_msgs(parts) =~= Seq::<Seq<char>>::empty());
            assert(strs_view(msgs@) =~= head + flat_msgs(parts));
        }
        let mut k: usize = 0;
        while k < event.actions.len()
            invariant
                k <= event.actions@.len(),
                event_ready(*game_world),
                head == seq!["🎭 事件觸發: "@ + event.name@],
                g0 == *old(game_world),
                actions_prefix(g0, event.actions@, states, outs, parts, k as int),
                forall|q: int| 0 <= q < outs.len() ==> #[trigger] outs[q] is Ok,
                states[k as int] == *game_world,
                strs_view(msgs@) == head + flat_msgs(parts),
            decreases event.actions@.len() - k,
        {
            let ghost gk = *game_world;
            let (res, mut part) = Self::execute_action(&event.actions[k], game_world);
            let ghost pv = strs_view(part@);
            let ghost before = strs_view(msgs@);
            msgs.append(&mut part);
            proof {
                let old_parts = parts;
                let old_outs = outs;
                let old_states = states;
                states = states.push(*game_world);
                outs = outs.push(outcome(res));
                parts = parts.push(pv);
                assert(parts.drop_last() =~= old_parts);
                assert(strs_view(msgs@) =~= before + pv);
                assert(strs_view(msgs@) =~= head + flat_msgs(parts));
                assert forall|q: int| 0 <= q < k + 1 implies #[trigger] action_done(
                    states[q],
                    states[q + 1],
                    event.actions@[q],
                    outs[q],
                    parts[q],
                ) by {
                    if q < k {
                        assert(states[q] == old_states[q] && states[q + 1] == old_states[q + 1]);
                        assert(outs[q] == old_outs[q] && parts[q] == old_parts[q]);
                    }
                }
                assert forall|q: int| 0 <= q < k implies #[trigger] outs[q] is Ok by {
                    assert(outs[q] == old_outs[q]);
                }
            }
            match res {
                Err(e) => {
                    proof {
                        assert(actions_ran(g0, event.actions@, states, outs, parts, k + 1));
                        assert(outs[k as int] == Err::<(), Seq<char>>(e@));
                        assert(states[k + 1] == *game_world);
                    }
                    let err = concat("執行動作失敗: ", e.as_str());
                    proof {
                        let n = k + 1;
                        assert(outcome(Err::<(), String>(err)) == (if n > 0 && outs[n - 1] is Err {
                            Err::<(), Seq<char>>("執行動作失敗: "@ + outs[n - 1]->Err_0)
                        } else {
                            Ok(())
                        }));
                        assert(strs_view(msgs@) == seq!["🎭 事件觸發: "@ + event.name@] + flat_msgs(parts));
                        assert(*game_world == states[n]);
                        assert(event_ran(g0, *game_world, *event, outcome(Err::<(), String>(err)), strs_view(msgs@)));
                        assert(g0 == *old(game_world));
                    }
                    return (Err(err), msgs);
                },
                Ok(()) => {},
            }
            k = k + 1;
        }
        proof {
            assert(actions_ran(g0, event.actions@, states, outs, parts, k as int));
            assert(event_ran(g0, *game_world, *event, Ok(()), strs_view(msgs@)));
        }
        (Ok(()), msgs)
    }
}

/// `after`, the outcome `res` and the messages `msgs` follow from `g0` by
/// the event `e`: it is told to have fired, then its actions run in order
/// (see [`actions_ran`]); a failing action stops the run, and its error is
/// answered.
pub open spec fn event_ran(g0: GameWorld, after: GameWorld, e: GameEvent, res: Result<(), Seq<char>>, msgs: Seq<Seq<char>>) -> bool {
    exists|states: Seq<GameWorld>, outs: Seq<Result<(), Seq<char>>>, parts: Seq<Seq<Seq<char>>>, n: int|
        #[trigger] actions_ran(g0, e.actions@, states, outs, parts, n) && after == states[n] && msgs == seq![
            "🎭 事件觸發: "@ + e.name@,
        ] + flat_msgs(parts) && res == (if n > 0 && outs[n - 1] is Err {
            Err::<(), Seq<char>>("執行動作失敗: "@ + outs[n - 1]->Err_0)
        } else {
            Ok(())
        })
}

/// `states`, `outs` and `parts` show the first `n` of `acts` carried out
/// one after the other from `g0` (see [`action_done`]), each but the last
/// having gone through, and the run stopped at `n` either with the last
/// failing or with every action done.
pub open spec fn actions_ran(
    g0: GameWorld,
    acts: Seq<EventAction>,
    states: Seq<GameWorld>,
    outs: Seq<Result<(), Seq<char>>>,
    parts: Seq<Seq<Seq<char>>>,
    n: int,
) -> bool {
    &&& actions_prefix(g0, acts, states, outs, parts, n)
    &&& forall|q: int| 0 <= q < n - 1 ==> #[trigger] outs[q] is Ok
    &&& (n < acts.len() ==> n > 0 && outs[n - 1] is Err)
}

/// `states`, `outs` and `parts` show the first `n` of `acts` carried out
/// one after the other from `g0` (see [`action_done`]).
pub open spec fn actions_prefix(
    g0: GameWorld,
    acts: Seq<EventAction>,
    states: Seq<GameWorld>,
    outs: Seq<Result<(), Seq<char>>>,
    parts: Seq<Seq<Seq<char>>>,
    n: int,
) -> bool {
    &&& 0 <= n <= acts.len()
    &&& states.len() == n + 1
    &&& outs.len() == n
    &&& parts.len() == n
    &&& states[0] == g0
    &&& forall|q: int| 0 <= q < n ==> #[trigger] action_done(states[q], states[q + 1], acts[q], outs[q], parts[q])
}

} // verus!
