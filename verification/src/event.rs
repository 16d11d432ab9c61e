//! Scripted events: the conditions under which they fire (who, where,
//! what), what they do, and the bookkeeping of how often they fired.
use vstd::prelude::*;
use crate::clock::unix_secs;
use crate::map::GameMap;
use crate::random::random_below;
use crate::npc_manager::{keys_distinct, keys_of, put, put_spec};
use crate::person::{find_key, is_first_key, key_position, lemma_first_key, value_at_key};

verus! {

/// Conditions on who is around.
#[derive(Debug, Clone, Default)]
pub struct WhoCondition {
    pub player_present: Option<bool>,
    pub npcs: Option<Vec<String>>,
    pub player_level: Option<LevelRange>,
}

/// A range of levels; either end may be open.
#[derive(Debug, Clone)]
pub struct LevelRange {
    pub min: Option<u32>,
    pub max: Option<u32>,
}

/// A place on the current map: fixed coordinates, or a walkable point drawn
/// at random.
#[derive(Debug, Clone)]
pub enum Position {
    Fixed([usize; 2]),
    Random(String),
}

impl Position {
    /// The coordinates of the place on `map`: the fixed ones, or a walkable
    /// point drawn at random; nothing when a random place is asked for and
    /// no point is walkable.
    pub fn resolve(&self, map: &GameMap) -> (r: Option<[usize; 2]>)
        requires
            map.wf(),
        ensures
            match *self {
                Position::Fixed(p) => r == Some(p),
                Position::Random(_) => match r {
                    Some(p) => p[0] < map.width && p[1] < map.height && map.point_at(
                        p[0] as int,
                        p[1] as int,
                    ).walkable,
                    None => forall|x: int, y: int|
                        0 <= x < map.width && 0 <= y < map.height ==> !#[trigger] map.point_at(x, y).walkable,
                },
            },
    {
        match self {
            Position::Fixed(pos) => Some(*pos),
            Position::Random(_) => {
                let walkable_points = map.get_walkable_points();
                if walkable_points.len() == 0 {
                    proof {
                        assert forall|x: int, y: int|
                            0 <= x < map.width && 0 <= y < map.height implies !#[trigger] map.point_at(x, y).walkable by {
                            if map.point_at(x, y).walkable {
                                let ux = x as usize;
                                let uy = y as usize;
                                assert(map.point_at(ux as int, uy as int).walkable);
                                assert(walkable_points@.contains((ux, uy)));
                            }
                        }
                    }
                    None
                } else {
                    let idx = random_below(walkable_points.len());
                    let (x, y) = walkable_points[idx];
                    Some([x, y])
                }
            },
        }
    }
}

/// Conditions on where the player is.
#[derive(Debug, Clone, Default)]
pub struct WhereCondition {
    pub map: Option<String>,
    pub positions: Option<Vec<[usize; 2]>>,
    pub area: Option<AreaRange>,
}

/// A rectangle of the map, each side given as [min, max].
#[derive(Debug, Clone)]
pub struct AreaRange {
    pub x: [usize; 2],
    pub y: [usize; 2],
}

/// Conditions on items.
#[derive(Debug, Clone, Default)]
pub struct WhatCondition {
    pub required_items: Option<Vec<String>>,
    pub map_objects: Option<Vec<String>>,
}

/// Something an event does.
#[derive(Debug, Clone)]
pub enum EventAction {
    SpawnNpc { npc_id: String, position: Position, dialogue: Option<String> },
    RemoveNpc { npc_id: String },
    Message { text: String },
    Dialogue { npc_id: String, text: String },
    AddItem { item: String, position: Position },
    RemoveItem { item: String, position: Position },
    Teleport { map: String, position: Position },
}

/// How often an event may fire: whether it repeats, the seconds between
/// two firings, the most firings (-1 for no limit) and the events that must
/// have fired first.
#[derive(Debug, Clone)]
pub struct EventState {
    pub repeatable: bool,
    pub cooldown: u64,
    pub max_triggers: i32,
    pub prerequisites: Vec<String>,
}

impl Default for EventState {
    fn default() -> (r: Self)
        ensures
            r.repeatable,
            r.cooldown == 0,
            r.max_triggers == -1,
            r.prerequisites@.len() == 0,
    {
        EventState { repeatable: true, cooldown: 0, max_triggers: -1, prerequisites: Vec::new() }
    }
}

/// How often an event has fired, and when it last did (Unix seconds).
#[derive(Debug, Clone)]
pub struct EventRuntimeState {
    pub trigger_count: u32,
    pub last_trigger_time: Option<u64>,
    pub completed_prerequisites: Vec<String>,
}

/// An event with settings `st` that fired as `rt` may fire at Unix time
/// `now`: its cooldown has passed, it has fired fewer times than its limit,
/// and it has not fired yet unless it repeats.
pub open spec fn may_fire(st: EventState, rt: EventRuntimeState, now: u64) -> bool {
    &&& (rt.last_trigger_time matches Some(last) ==> now - last >= st.cooldown)
    &&& (st.max_triggers >= 0 ==> rt.trigger_count < st.max_triggers)
    &&& (!st.repeatable ==> rt.trigger_count == 0)
}

impl EventState {
    /// Whether an event with these settings, having fired as `runtime_state`
    /// records, may fire at Unix time `now`.
    pub fn can_trigger_at(&self, runtime_state: &EventRuntimeState, now: u64) -> (r: bool)
        requires
            runtime_state.last_trigger_time matches Some(last) ==> last <= now,
        ensures
            r == may_fire(*self, *runtime_state, now),
    {
        match runtime_state.last_trigger_time {
            Some(last) => {
                if now - last < self.cooldown {
                    return false;
                }
            },
            None => {},
        }
        if self.max_triggers >= 0 && runtime_state.trigger_count >= self.max_triggers as u32 {
            return false;
        }
        if !self.repeatable && runtime_state.trigger_count > 0 {
            return false;
        }
        true
    }
}

impl EventRuntimeState {
    /// An event that has not fired.
    pub fn new() -> (r: Self)
        ensures
            r.trigger_count == 0,
            r.last_trigger_time is None,
            r.completed_prerequisites@.len() == 0,
    {
        EventRuntimeState { trigger_count: 0, last_trigger_time: None, completed_prerequisites: Vec::new() }
    }

    /// Records a firing at Unix time `now`.
    pub fn record_trigger_at(&mut self, now: u64)
        requires
            old(self).trigger_count < u32::MAX,
        ensures
            final(self).trigger_count == old(self).trigger_count + 1,
            final(self).last_trigger_time == Some(now),
            final(self).completed_prerequisites == old(self).completed_prerequisites,
    {
        self.trigger_count = self.trigger_count + 1;
        self.last_trigger_time = Some(now);
    }

    /// Records a firing now.
    pub fn record_trigger(&mut self)
        requires
            old(self).trigger_count < u32::MAX,
        ensures
            final(self).trigger_count == old(self).trigger_count + 1,
            final(self).last_trigger_time is Some,
            final(self).completed_prerequisites == old(self).completed_prerequisites,
    {
        let now = unix_secs();
        self.record_trigger_at(now);
    }
}

impl Default for EventRuntimeState {
    fn default() -> (r: Self)
        ensures
            r.trigger_count == 0,
            r.last_trigger_time is None,
            r.completed_prerequisites@.len() == 0,
    {
        EventRuntimeState::new()
    }
}


/// Once an event has fired at `now`, it cannot fire again before its
/// cooldown has passed, nor ever again when it does not repeat.
pub proof fn law_fired_event_waits(st: EventState, before: EventRuntimeState, after: EventRuntimeState, now: u64, later: u64)
    requires
        after.trigger_count == before.trigger_count + 1,
        after.last_trigger_time == Some(now),
        now <= later,
    ensures
        later - now < st.cooldown ==> !may_fire(st, after, later),
        !st.repeatable ==> !may_fire(st, after, later),
        st.max_triggers >= 0 && after.trigger_count >= st.max_triggers ==> !may_fire(st, after, later),
{
}

/// What sets an event off. A chance is given in millionths (1000000 for
/// always).
#[derive(Debug, Clone)]
pub enum TriggerType {
    /// A schedule in crontab form, with an optional chance, range of days
    /// and range of clock readings (`HH:MM:SS`).
    Time {
        schedule: String,
        random_chance: Option<u32>,
        day_range: Option<[u32; 2]>,
        time_range: Option<[String; 2]>,
    },
    /// A chance checked every `interval_seconds`.
    Random { interval_seconds: u64, chance: u32 },
    /// Standing on one of the positions.
    Location { positions: Vec<[usize; 2]> },
    /// Conditions written as expressions.
    Condition { conditions: Vec<String> },
    /// Only when set off by hand.
    Manual,
}

/// A scripted event: what sets it off, the conditions on who, where and
/// what, what it does, and how often it may fire.
#[derive(Debug, Clone)]
pub struct GameEvent {
    pub id: String,
    pub name: String,
    pub description: String,
    pub trigger: TriggerType,
    pub who: WhoCondition,
    pub where_condition: WhereCondition,
    pub what: WhatCondition,
    pub actions: Vec<EventAction>,
    pub state: EventState,
}

impl GameEvent {
    /// Whether the event, having fired as `runtime_state` records, may fire
    /// at Unix time `now` (see [`may_fire`]).
    pub fn can_trigger_at(&self, runtime_state: &EventRuntimeState, now: u64) -> (r: bool)
        requires
            runtime_state.last_trigger_time matches Some(last) ==> last <= now,
        ensures
            r == may_fire(self.state, *runtime_state, now),
    {
        self.state.can_trigger_at(runtime_state, now)
    }
}

/// The events by id, each with how often it has fired.
pub struct EventManager {
    events: Vec<(String, GameEvent)>,
    runtime_states: Vec<(String, EventRuntimeState)>,
}

impl EventManager {
    /// The events in the order they were first added, under their ids.
    pub closed spec fn event_list(&self) -> Seq<(String, GameEvent)> {
        self.events@
    }

    /// How often each event has fired, under its id.
    pub closed spec fn runtime_list(&self) -> Seq<(String, EventRuntimeState)> {
        self.runtime_states@
    }

    /// No id occurs twice, and each event is kept under its own id.
    pub closed spec fn wf(&self) -> bool {
        &&& keys_distinct(self.events@)
        &&& keys_distinct(self.runtime_states@)
        &&& forall|i: int| 0 <= i < self.events@.len() ==> (#[trigger] self.events@[i]).0@ == self.events@[i].1.id@
    }

    /// The event with id `id`.
    pub open spec fn event(&self, id: Seq<char>) -> Option<GameEvent> {
        value_at_key(self.event_list(), id)
    }

    /// How often the event `id` has fired.
    pub open spec fn runtime(&self, id: Seq<char>) -> Option<EventRuntimeState> {
        value_at_key(self.runtime_list(), id)
    }

    /// No events.
    pub fn new() -> (r: Self)
        ensures
            r.wf(),
            r.event_list().len() == 0,
            r.runtime_list().len() == 0,
    {
        EventManager { events: Vec::new(), runtime_states: Vec::new() }
    }

    /// Adds (or replaces) the event under its id; an event not seen before
    /// starts with no firings, one seen before keeps its count.
    pub fn add_event(&mut self, event: GameEvent)
        requires
            old(self).wf(),
        ensures
            final(self).wf(),
            put_spec(old(self).event_list(), final(self).event_list(), event.id@, event),
            match old(self).runtime(event.id@) {
                Some(_) => final(self).runtime_list() == old(self).runtime_list(),
                None => put_spec(
                    old(self).runtime_list(),
                    final(self).runtime_list(),
                    event.id@,
                    EventRuntimeState { trigger_count: 0, last_trigger_time: None, ..final(self).runtime(event.id@)->0 },
                ) && final(self).runtime(event.id@)->0.completed_prerequisites@.len() == 0,
            },
    {
        let id = event.id.clone();
        let id2 = event.id.clone();
        let ghost s0 = self.events@;
        let ghost ev = event;
        put(&mut self.events, id, event);
        proof {
            let t = self.events@;
            assert forall|i: int| 0 <= i < t.len() implies (#[trigger] t[i]).0@ == t[i].1.id@ by {
                crate::npc_manager::lemma_distinct_first(t, i);
                let k = t[i].0@;
                if k == ev.id@ {
                    assert(value_at_key(t, k) == Some(t[i].1));
                } else {
                    assert(value_at_key(t, k) == Some(t[i].1));
                    assert(value_at_key(t, k) == value_at_key(s0, k));
                    let j = key_position(s0, k)->0;
                    crate::person::lemma_key_position_range(s0, k);
                    assert(s0[j].0@ == s0[j].1.id@);
                }
            }
        }
        match find_key(&self.runtime_states, id2.as_str()) {
            Some(_) => {},
            None => {
                put(&mut self.runtime_states, id2, EventRuntimeState::new());
            },
        }
    }

    /// The event with id `id`.
    pub fn get_event(&self, id: &str) -> (r: Option<&GameEvent>)
        ensures
            match self.event(id@) {
                Some(e) => r matches Some(x) && *x == e,
                None => r is None,
            },
    {
        match find_key(&self.events, id) {
            Some(i) => Some(&self.events[i].1),
            None => None,
        }
    }

    /// How often the event `id` has fired.
    pub fn get_runtime_state(&self, id: &str) -> (r: Option<&EventRuntimeState>)
        ensures
            match self.runtime(id@) {
                Some(e) => r matches Some(x) && *x == e,
                None => r is None,
            },
    {
        match find_key(&self.runtime_states, id) {
            Some(i) => Some(&self.runtime_states[i].1),
            None => None,
        }
    }

    /// Every event, in the order they were first added.
    pub fn list_events(&self) -> (r: Vec<&GameEvent>)
        ensures
            r@.len() == self.event_list().len(),
            forall|i: int| 0 <= i < r@.len() ==> *(#[trigger] r@[i]) == self.event_list()[i].1,
    {
        let mut r: Vec<&GameEvent> = Vec::new();
        let mut i: usize = 0;
        while i < self.events.len()
            invariant
                i <= self.events@.len(),
                r@.len() == i,
                forall|k: int| 0 <= k < i ==> *(#[trigger] r@[k]) == self.events@[k].1,
            decreases self.events@.len() - i,
        {
            r.push(&self.events[i].1);
            i = i + 1;
        }
        r
    }

    /// Records a firing of the event `id` at Unix time `now`; `false` when
    /// no such event is known.
    pub fn trigger_event_at(&mut self, event_id: &str, now: u64) -> (r: bool)
        requires
            old(self).wf(),
            old(self).runtime(event_id@) matches Some(rt) ==> rt.trigger_count < u32::MAX,
        ensures
            final(self).wf(),
            final(self).event_list() == old(self).event_list(),
            r == (old(self).runtime(event_id@) is Some),
            fired_at(*old(self), *final(self), event_id@, now),
    {
        match find_key(&self.runtime_states, event_id) {
            Some(i) => {
                let ghost before = self.runtime_states@;
                let (k, mut st) = self.runtime_states.remove(i);
                st.record_trigger_at(now);
                self.runtime_states.insert(i, (k, st));
                proof {
                    let t = self.runtime_states@;
                    assert(t =~= before.update(i as int, t[i as int]));
                    assert forall|x: int, y: int| 0 <= x < t.len() && 0 <= y < t.len() && t[x].0@ == t[y].0@ implies x == y by {
                        assert(t[x].0 == before[x].0 && t[y].0 == before[y].0);
                    }
                    assert(keys_of(t) =~= keys_of(before));
                    assert(is_first_key(t, event_id@, i as int));
                    lemma_first_key(t, event_id@, i as int);
                    assert forall|q: Seq<char>| q != event_id@ implies #[trigger] value_at_key(t, q) == value_at_key(before, q) by {
                        if exists|j: int| is_first_key(before, q, j) {
                            let j = choose|j: int| is_first_key(before, q, j);
                            assert(j != i);
                            assert(is_first_key(t, q, j));
                            lemma_first_key(t, q, j);
                        } else {
                            if exists|j: int| is_first_key(t, q, j) {
                                let j = choose|j: int| is_first_key(t, q, j);
                                assert(j != i);
                                assert(is_first_key(before, q, j));
                            }
                        }
                    }
                }
                true
            },
            None => false,
        }
    }

    /// Records a firing of the event `id` now; `false` when no such event
    /// is known.
    pub fn trigger_event(&mut self, event_id: &str) -> (r: bool)
        requires
            old(self).wf(),
            old(self).runtime(event_id@) matches Some(rt) ==> rt.trigger_count < u32::MAX,
        ensures
            final(self).wf(),
            final(self).event_list() == old(self).event_list(),
            r == (old(self).runtime(event_id@) is Some),
            exists|now: u64| #[trigger] fired_at(*old(self), *final(self), event_id@, now),
    {
        let now = unix_secs();
        let r = self.trigger_event_at(event_id, now);
        proof {
            assert(fired_at(*old(self), *self, event_id@, now));
        }
        r
    }
}

/// `rt` after a firing at `now`: one firing more, the last at `now`.
pub open spec fn recorded(rt: EventRuntimeState, now: u64) -> EventRuntimeState {
    EventRuntimeState { trigger_count: (rt.trigger_count + 1) as u32, last_trigger_time: Some(now), ..rt }
}

/// `after` is `before` with a firing of the event `id` recorded at `now`
/// (nothing changes for an unknown id).
pub open spec fn fired_at(before: EventManager, after: EventManager, id: Seq<char>, now: u64) -> bool {
    &&& after.event_list() == before.event_list()
    &&& keys_of(after.runtime_list()) == keys_of(before.runtime_list())
    &&& after.runtime(id) == (match before.runtime(id) {
        Some(rt) => Some(recorded(rt, now)),
        None => None,
    })
    &&& forall|q: Seq<char>| q != id ==> #[trigger] after.runtime(q) == before.runtime(q)
}

/// The ids of a well-kept manager's events, and of their firing counts,
/// do not repeat.
pub proof fn lemma_ids_distinct(m: EventManager)
    requires
        m.wf(),
    ensures
        keys_distinct(m.event_list()),
        keys_distinct(m.runtime_list()),
        forall|i: int| 0 <= i < m.event_list().len() ==> (#[trigger] m.event_list()[i]).0@ == m.event_list()[i].1.id@,
{
}

} // verus!
