//! Time schedules for events, written in the crontab style
//! "minute hour day month weekday".
use vstd::prelude::*;
use crate::event::{
    may_fire, recorded, AreaRange, EventManager, GameEvent, TriggerType, WhatCondition, WhereCondition,
};
use crate::npc_manager::{keys_distinct, keys_of};
use crate::person::{key_position, Person};
use crate::world::{GameWorld, WorldTime};
use crate::random::random_below;
use crate::help::{lex_lt, str_lt};
use crate::inventory::Inventory;
use crate::text::{
    chars_of, pad2, parse_u32, parse_u32_spec, push_pad2, split_words, str_eq, string_of, strs_view, words,
};

verus! {

/// Matches crontab schedules against the game clock.
pub struct CronParser;

/// The two sides of `p` around its only `-`, when `p` holds exactly one
/// (what `split('-')` gives when it gives two pieces).
pub open spec fn split_dash(p: Seq<char>) -> Option<(Seq<char>, Seq<char>)> {
    if exists|k: int|
        0 <= k < p.len() && p[k] == '-' && forall|j: int| 0 <= j < p.len() && j != k ==> p[j] != '-' {
        let k = choose|k: int|
            0 <= k < p.len() && p[k] == '-' && forall|j: int| 0 <= j < p.len() && j != k ==> p[j] != '-';
        Some((p.take(k), p.skip(k + 1)))
    } else {
        None
    }
}

/// `value.is_multiple_of(n)`.
pub open spec fn is_multiple_of(value: u32, n: u32) -> bool {
    if n == 0 {
        value == 0
    } else {
        value % n == 0
    }
}

/// `value` lies in the range whose ends are the two sides of `d`.
pub open spec fn range_matches(d: Option<(Seq<char>, Seq<char>)>, value: u32) -> bool {
    match d {
        Some((a, b)) => match (parse_u32_spec(a), parse_u32_spec(b)) {
            (Some(lo), Some(hi)) => lo <= value && value <= hi,
            _ => false,
        },
        None => false,
    }
}

/// Whether one field of a schedule accepts `value`: `*` accepts every
/// value, `*/N` the multiples of N, `A-B` the values from A to B, and a
/// number that number.
pub open spec fn field_matches(p: Seq<char>, value: u32) -> bool {
    if p == "*"@ {
        true
    } else if p.len() >= 2 && p[0] == '*' && p[1] == '/' && parse_u32_spec(p.skip(2)) is Some {
        is_multiple_of(value, parse_u32_spec(p.skip(2))->0)
    } else if split_dash(p) matches Some((a, b)) && parse_u32_spec(a) is Some && parse_u32_spec(b) is Some {
        range_matches(split_dash(p), value)
    } else if parse_u32_spec(p) is Some {
        value == parse_u32_spec(p)->0
    } else {
        false
    }
}

/// Whether `schedule` accepts the time of day `hour:minute`; only its
/// minute and hour fields are read.
pub open spec fn schedule_matches(schedule: Seq<char>, minute: u8, hour: u8) -> bool {
    let w = words(schedule);
    w.len() >= 2 && field_matches(w[0], minute as u32) && field_matches(w[1], hour as u32)
}

/// Two schedules whose minute and hour fields agree match the same times,
/// whatever their other fields (see [`CronParser::matches`]).
pub proof fn law_schedule_reads_two_fields(a: Seq<char>, b: Seq<char>, minute: u8, hour: u8)
    requires
        words(a).len() >= 2,
        words(b).len() >= 2,
        words(a)[0] == words(b)[0],
        words(a)[1] == words(b)[1],
    ensures
        schedule_matches(a, minute, hour) == schedule_matches(b, minute, hour),
{
}

/// A schedule with fewer than two fields matches no time.
pub proof fn law_short_schedule_matches_nothing(a: Seq<char>, minute: u8, hour: u8)
    requires
        words(a).len() < 2,
    ensures
        !schedule_matches(a, minute, hour),
{
}

fn split_dash_exec(p: &str) -> (r: Option<(String, String)>)
    ensures
        match r {
            Some((a, b)) => split_dash(p@) == Some((a@, b@)),
            None => split_dash(p@) is None,
        },
{
    let c = chars_of(p);
    let mut count: usize = 0;
    let mut at: usize = 0;
    let mut i: usize = 0;
    while i < c.len()
        invariant
            c@ == p@,
            i <= c@.len(),
            count <= i,
            count == 0 ==> forall|j: int| 0 <= j < i ==> c@[j] != '-',
            count == 1 ==> at < i && c@[at as int] == '-' && forall|j: int|
                0 <= j < i && j != at ==> c@[j] != '-',
            count >= 2 ==> exists|a: int, b: int| 0 <= a < b < i && c@[a] == '-' && c@[b] == '-',
        decreases c@.len() - i,
    {
        if c[i] == '-' {
            if count == 1 {
                assert(c@[at as int] == '-' && c@[i as int] == '-');
            }
            if count == 0 {
                at = i;
            }
            if count < 2 {
                count = count + 1;
            }
        }
        i = i + 1;
    }
    if count == 1 {
        proof {
            let k = choose|k: int|
                0 <= k < p@.len() && p@[k] == '-' && forall|j: int| 0 <= j < p@.len() && j != k ==> p@[j] != '-';
            assert(k == at);
        }
        Some((string_of(&c, 0, at), string_of(&c, at + 1, c.len())))
    } else {
        proof {
            if count >= 2 {
                let (a, b) = choose|a: int, b: int| 0 <= a < b < c@.len() && c@[a] == '-' && c@[b] == '-';
                assert forall|k: int| !(0 <= k < p@.len() && p@[k] == '-' && forall|j: int|
                    0 <= j < p@.len() && j != k ==> p@[j] != '-') by {
                    if 0 <= k < p@.len() && p@[k] == '-' {
                        if k != a {
                            assert(p@[a] == '-');
                        } else {
                            assert(p@[b] == '-');
                        }
                    }
                }
            }
        }
        None
    }
}

impl CronParser {
    /// Whether one field accepts `value`.
    fn matches_field(pattern: &str, value: u32) -> (r: bool)
        ensures
            r == field_matches(pattern@, value),
    {
        if str_eq(pattern, "*") {
            return true;
        }
        let c = chars_of(pattern);
        if c.len() >= 2 && c[0] == '*' && c[1] == '/' {
            let rest = string_of(&c, 2, c.len());
            proof {
                assert(rest@ =~= pattern@.skip(2));
            }
            match parse_u32(rest.as_str()) {
                Some(interval) => {
                    return if interval == 0 {
                        value == 0
                    } else {
                        value % interval == 0
                    };
                },
                None => {},
            }
        }
        match split_dash_exec(pattern) {
            Some((a, b)) => {
                match (parse_u32(a.as_str()), parse_u32(b.as_str())) {
                    (Some(start), Some(end)) => {
                        return value >= start && value <= end;
                    },
                    _ => {},
                }
            },
            None => {},
        }
        match parse_u32(pattern) {
            Some(target) => value == target,
            None => false,
        }
    }

    /// Whether `schedule` accepts the game time `hour:minute`; the day and
    /// the remaining fields are not consulted.
    pub fn matches(schedule: &str, minute: u8, hour: u8, _day: u32) -> (r: bool)
        ensures
            r == schedule_matches(schedule@, minute, hour),
    {
        let parts = split_words(schedule);
        if parts.len() < 2 {
            return false;
        }
        let minute_match = Self::matches_field(parts[0].as_str(), minute as u32);
        let hour_match = Self::matches_field(parts[1].as_str(), hour as u32);
        minute_match && hour_match
    }
}

/// Remembers the last game minute at which events were checked, as
/// (day, hour, minute).
pub struct EventScheduler {
    pub last_check_time: (u32, u8, u8),
}

impl EventScheduler {
    pub fn new() -> (r: Self)
        ensures
            r.last_check_time == (0u32, 0u8, 0u8),
    {
        EventScheduler { last_check_time: (0, 0, 0) }
    }
}

/// The clock reading `HH:MM:SS`.
pub open spec fn hms_text(hour: u8, minute: u8, second: u8) -> Seq<char> {
    pad2(hour as nat) + ":"@ + pad2(minute as nat) + ":"@ + pad2(second as nat)
}

/// A time trigger is open at day `day`, `hour:minute:second`: its
/// schedule matches, the day is within the day range if there is one, and
/// the clock reading is within the time range (compared as text) if there
/// is one.
pub open spec fn time_window_open(
    schedule: Seq<char>,
    day_range: Option<[u32; 2]>,
    time_range: Option<(Seq<char>, Seq<char>)>,
    day: u32,
    hour: u8,
    minute: u8,
    second: u8,
) -> bool {
    &&& schedule_matches(schedule, minute, hour)
    &&& (day_range matches Some(r) ==> r[0] <= day <= r[1])
    &&& (time_range matches Some((start, end)) ==> !lex_lt(hms_text(hour, minute, second), start)
        && !lex_lt(end, hms_text(hour, minute, second)))
}

/// The event's where- and what-conditions hold for a player at (x, y) on
/// the map `map` carrying `items`.
pub open spec fn conditions_hold(w: WhereCondition, what: WhatCondition, map: Seq<char>, x: usize, y: usize, items: Inventory) -> bool {
    &&& (w.map matches Some(m) ==> m@ == map)
    &&& (w.positions matches Some(ps) ==> exists|i: int| 0 <= i < ps@.len() && ps@[i][0] == x && ps@[i][1] == y)
    &&& (w.area matches Some(a) ==> a.x[0] <= x <= a.x[1] && a.y[0] <= y <= a.y[1])
    &&& (what.required_items matches Some(req) ==> forall|i: int|
        0 <= i < req@.len() ==> items.count_of((#[trigger] req@[i])@) > 0)
}

impl EventScheduler {
    /// Whether a time trigger with `schedule`, `day_range` and
    /// `time_range` is open at the game time (see [`time_window_open`]);
    /// the trigger's chance, if any, is drawn apart.
    pub fn time_trigger_open(
        &self,
        schedule: &str,
        day_range: Option<[u32; 2]>,
        time_range: &Option<[String; 2]>,
        day: u32,
        hour: u8,
        minute: u8,
        second: u8,
    ) -> (r: bool)
        ensures
            r == time_window_open(
                schedule@,
                day_range,
                match time_range {
                    Some(t) => Some((t[0]@, t[1]@)),
                    None => None,
                },
                day,
                hour,
                minute,
                second,
            ),
    {
        if !CronParser::matches(schedule, minute, hour, day) {
            return false;
        }
        match day_range {
            Some(r) => {
                if day < r[0] || day > r[1] {
                    return false;
                }
            },
            None => {},
        }
        match time_range {
            Some(t) => {
                let mut current = String::new();
                push_pad2(&mut current, hour as u64);
                current.append(":");
                push_pad2(&mut current, minute as u64);
                current.append(":");
                push_pad2(&mut current, second as u64);
                proof {
                    assert(current@ =~= hms_text(hour, minute, second));
                }
                if str_lt(current.as_str(), t[0].as_str()) || str_lt(t[1].as_str(), current.as_str()) {
                    return false;
                }
            },
            None => {},
        }
        true
    }

    /// Whether the where- and what-conditions of an event hold for a
    /// player at (`x`, `y`) on the map `current_map` carrying `items`.
    pub fn check_conditions(
        &self,
        where_condition: &WhereCondition,
        what_condition: &WhatCondition,
        current_map: &str,
        x: usize,
        y: usize,
        items: &Inventory,
    ) -> (r: bool)
        requires
            items.wf(),
        ensures
            r == conditions_hold(*where_condition, *what_condition, current_map@, x, y, *items),
    {
        match &where_condition.map {
            Some(m) => {
                if !str_eq(current_map, m.as_str()) {
                    return false;
                }
            },
            None => {},
        }
        match &where_condition.positions {
            Some(ps) => {
                let mut found = false;
                let mut i: usize = 0;
                while i < ps.len()
                    invariant
                        i <= ps@.len(),
                        found == exists|j: int| 0 <= j < i && ps@[j][0] == x && ps@[j][1] == y,
                    decreases ps@.len() - i,
                {
                    if ps[i][0] == x && ps[i][1] == y {
                        found = true;
                    }
                    i = i + 1;
                }
                if !found {
                    return false;
                }
            },
            None => {},
        }
        match &where_condition.area {
            Some(a) => {
                if !(x >= a.x[0] && x <= a.x[1]) || !(y >= a.y[0] && y <= a.y[1]) {
                    return false;
                }
            },
            None => {},
        }
        match &what_condition.required_items {
            Some(req) => {
                let mut i: usize = 0;
                while i < req.len()
                    invariant
                        items.wf(),
                        what_condition.required_items == Some(*req),
                        i <= req@.len(),
                        forall|j: int| 0 <= j < i ==> items.count_of((#[trigger] req@[j])@) > 0,
                    decreases req@.len() - i,
                {
                    if items.get_item_count(req[i].as_str()) == 0 {
                        proof {
                            assert(items.count_of((req@[i as int])@) == 0);
                            let rq = what_condition.required_items->0;
                            assert(rq@[i as int] == req@[i as int]);
                            assert(!(forall|j: int| 0 <= j < rq@.len() ==> items.count_of((#[trigger] rq@[j])@) > 0));
                            assert(!conditions_hold(*where_condition, *what_condition, current_map@, x, y, *items));
                        }
                        return false;
                    }
                    i = i + 1;
                }
            },
            None => {},
        }
        true
    }
}

/// A drawn chance lands: `roll`, a draw in millionths, is at most the
/// chance.
pub open spec fn chance_lands(chance: u32, roll: u32) -> bool {
    roll <= chance
}

/// The trigger `t` sets its event off at the game time `time`, the chance
/// draw being `roll` (in millionths): a time trigger when its window is
/// open (see [`time_window_open`]) and its chance, if any, lands; a random
/// trigger when its chance lands; a location trigger only when it lists no
/// position (standing on a position is checked as the player moves);
/// never a condition or manual trigger.
pub open spec fn trigger_fires(t: TriggerType, time: WorldTime, roll: u32) -> bool {
    match t {
        TriggerType::Time { schedule, random_chance, day_range, time_range } => {
            &&& time_window_open(
                schedule@,
                day_range,
                match time_range {
                    Some(r) => Some((r[0]@, r[1]@)),
                    None => None,
                },
                time.day,
                time.hour,
                time.minute,
                time.second,
            )
            &&& (random_chance matches Some(c) ==> chance_lands(c, roll))
        },
        TriggerType::Random { chance, .. } => chance_lands(chance, roll),
        TriggerType::Location { positions } => positions@.len() == 0,
        TriggerType::Condition { .. } => false,
        TriggerType::Manual => false,
    }
}

/// The event `e`, known to `m` as having fired as recorded there (if at
/// all), fires at Unix time `now` with the chance draw `roll`, for a
/// `player` in `world`: it may fire again (see [`may_fire`]), its trigger
/// sets it off (see [`trigger_fires`]) and its where- and what-conditions
/// hold (see [`conditions_hold`]).
pub open spec fn event_fires(m: EventManager, e: GameEvent, world: GameWorld, player: Person, now: u64, roll: u32) -> bool {
    &&& (m.runtime(e.id@) matches Some(rt) ==> may_fire(e.state, rt, now))
    &&& trigger_fires(e.trigger, world.time, roll)
    &&& conditions_hold(e.where_condition, e.what, world.current_map_name@, player.x, player.y, player.items)
}

/// The ids, in order, of the first `n` events of `es` that fire (see
/// [`event_fires`]), each with its own draw of `rolls`.
pub open spec fn fired_ids(
    m: EventManager,
    es: Seq<(String, GameEvent)>,
    world: GameWorld,
    player: Person,
    now: u64,
    rolls: Seq<u32>,
    n: int,
) -> Seq<Seq<char>>
    decreases n,
{
    if n <= 0 {
        Seq::empty()
    } else {
        let prev = fired_ids(m, es, world, player, now, rolls, n - 1);
        if event_fires(m, es[n - 1].1, world, player, now, rolls[n - 1]) {
            prev.push(es[n - 1].1.id@)
        } else {
            prev
        }
    }
}

/// `after` is `before` with a firing at `now` recorded for each of the
/// events `ids` that it knows.
pub open spec fn all_fired(before: EventManager, after: EventManager, ids: Seq<Seq<char>>, now: u64) -> bool {
    &&& after.wf()
    &&& after.event_list() == before.event_list()
    &&& keys_of(after.runtime_list()) == keys_of(before.runtime_list())
    &&& forall|q: Seq<char>| #[trigger] after.runtime(q) == (if ids.contains(q) {
        match before.runtime(q) {
            Some(rt) => Some(recorded(rt, now)),
            None => None,
        }
    } else {
        before.runtime(q)
    })
}

/// Every recorded firing count leaves room for one more.
pub open spec fn counts_small(m: EventManager) -> bool {
    forall|i: int| 0 <= i < m.runtime_list().len() ==> (#[trigger] m.runtime_list()[i]).1.trigger_count < u32::MAX
}

/// Every recorded firing happened no later than `now`.
pub open spec fn fired_before(m: EventManager, now: u64) -> bool {
    forall|i: int|
        0 <= i < m.runtime_list().len() ==> ((#[trigger] m.runtime_list()[i]).1.last_trigger_time matches Some(t)
            ==> t <= now)
}

impl EventScheduler {
    /// Whether the trigger of `event` sets it off at the world's game time,
    /// the chance draw being `roll` in millionths (see [`trigger_fires`]).
    pub fn check_trigger(&self, event: &GameEvent, game_world: &GameWorld, roll: u32) -> (r: bool)
        ensures
            r == trigger_fires(event.trigger, game_world.time, roll),
    {
        let t = &game_world.time;
        match &event.trigger {
            TriggerType::Time { schedule, random_chance, day_range, time_range } => {
                if !self.time_trigger_open(schedule.as_str(), *day_range, time_range, t.day, t.hour, t.minute, t.second) {
                    return false;
                }
                match random_chance {
                    Some(c) => roll <= *c,
                    None => true,
                }
            },
            TriggerType::Random { chance, .. } => roll <= *chance,
            TriggerType::Location { positions } => positions.len() == 0,
            TriggerType::Condition { .. } => false,
            TriggerType::Manual => false,
        }
    }

    /// Once a new game minute has come (else nothing happens), checks every
    /// event in turn, the `k`-th with the chance draw `rolls[k]` (in
    /// millionths), at Unix time `now`, for `player`: those that fire (see
    /// [`event_fires`]) have the firing recorded and are answered, by id.
    pub fn check_and_trigger(
        &mut self,
        event_manager: &mut EventManager,
        game_world: &GameWorld,
        player: &Person,
        now: u64,
        rolls: &Vec<u32>,
    ) -> (r: Vec<String>)
        requires
            old(event_manager).wf(),
            player.wf(),
            counts_small(*old(event_manager)),
            fired_before(*old(event_manager), now),
            rolls@.len() == old(event_manager).event_list().len(),
        ensures
            ({
                let key = (game_world.time.day, game_world.time.hour, game_world.time.minute);
                if key == old(self).last_check_time {
                    &&& r@.len() == 0
                    &&& final(self).last_check_time == old(self).last_check_time
                    &&& final(event_manager).event_list() == old(event_manager).event_list()
                    &&& final(event_manager).runtime_list() == old(event_manager).runtime_list()
                } else {
                    let ids = fired_ids(
                        *old(event_manager),
                        old(event_manager).event_list(),
                        *game_world,
                        *player,
                        now,
                        rolls@,
                        rolls@.len() as int,
                    );
                    &&& final(self).last_check_time == key
                    &&& strs_view(r@) == ids
                    &&& all_fired(*old(event_manager), *final(event_manager), ids, now)
                }
            }),
            final(event_manager).wf(),
    {
        let ghost m0 = *event_manager;
        let key = (game_world.time.day, game_world.time.hour, game_world.time.minute);
        let mut out: Vec<String> = Vec::new();
        if key.0 == self.last_check_time.0 && key.1 == self.last_check_time.1 && key.2 == self.last_check_time.2 {
            return out;
        }
        self.last_check_time = key;
        let ghost es = m0.event_list();
        proof {
            crate::event::lemma_ids_distinct(m0);
        }
        let events = event_manager.list_events();
        let mut ids: Vec<String> = Vec::new();
        let mut fire: Vec<bool> = Vec::new();
        let mut i: usize = 0;
        while i < events.len()
            invariant
                i <= events@.len(),
                *event_manager == m0,
                es == m0.event_list(),
                m0.wf(),
                counts_small(m0),
                fired_before(m0, now),
                player.wf(),
                rolls@.len() == es.len(),
                events@.len() == es.len(),
                forall|k: int| 0 <= k < events@.len() ==> *(#[trigger] events@[k]) == es[k].1,
                ids@.len() == i,
                fire@.len() == i,
                forall|k: int| 0 <= k < i ==> (#[trigger] ids@[k])@ == es[k].1.id@,
                forall|k: int|
                    0 <= k < i ==> #[trigger] fire@[k] == event_fires(m0, es[k].1, *game_world, *player, now, rolls@[k]),
            decreases events@.len() - i,
        {
            let e = events[i];
            let may = match event_manager.get_runtime_state(e.id.as_str()) {
                Some(rt) => {
                    proof {
                        let j = key_position(m0.runtime_list(), e.id@)->0;
                        crate::person::lemma_key_position_range(m0.runtime_list(), e.id@);
                        assert(m0.runtime_list()[j] == m0.runtime_list()[j]);
                    }
                    e.can_trigger_at(rt, now)
                },
                None => true,
            };
            let fires = may && self.check_trigger(e, game_world, rolls[i]) && self.check_conditions(
                &e.where_condition,
                &e.what,
                game_world.current_map_name.as_str(),
                player.x,
                player.y,
                &player.items,
            );
            ids.push(e.id.clone());
            fire.push(fires);
            i = i + 1;
        }
        let mut k: usize = 0;
        while k < ids.len()
            invariant
                k <= ids@.len(),
                ids@.len() == es.len(),
                fire@.len() == es.len(),
                rolls@.len() == es.len(),
                es == m0.event_list(),
                keys_distinct(es),
                forall|q: int| 0 <= q < es.len() ==> (#[trigger] es[q]).0@ == es[q].1.id@,
                m0.wf(),
                counts_small(m0),
                forall|q: int| 0 <= q < ids@.len() ==> (#[trigger] ids@[q])@ == es[q].1.id@,
                forall|q: int|
                    0 <= q < fire@.len() ==> #[trigger] fire@[q] == event_fires(m0, es[q].1, *game_world, *player, now, rolls@[q]),
                strs_view(out@) == fired_ids(m0, es, *game_world, *player, now, rolls@, k as int),
                all_fired(m0, *event_manager, fired_ids(m0, es, *game_world, *player, now, rolls@, k as int), now),
            decreases ids@.len() - k,
        {
            let ghost done = fired_ids(m0, es, *game_world, *player, now, rolls@, k as int);
            let ghost id = ids@[k as int]@;
            if fire[k] {
                proof {
                    lemma_fired_earlier(m0, es, *game_world, *player, now, rolls@, k as int, id);
                    if let Some(rt) = m0.runtime(id) {
                        let j = key_position(m0.runtime_list(), id)->0;
                        crate::person::lemma_key_position_range(m0.runtime_list(), id);
                        assert(m0.runtime_list()[j] == m0.runtime_list()[j]);
                    }
                }
                event_manager.trigger_event_at(ids[k].as_str(), now);
                let ghost vbefore = strs_view(out@);
                out.push(ids[k].clone());
                proof {
                    let nd = fired_ids(m0, es, *game_world, *player, now, rolls@, k + 1);
                    assert(nd == done.push(id));
                    assert(strs_view(out@) =~= vbefore.push(id));
                    assert forall|q: Seq<char>| #[trigger] nd.contains(q) <==> (done.contains(q) || q == id) by {
                        if nd.contains(q) {
                            let y = choose|y: int| 0 <= y < nd.len() && nd[y] == q;
                            if y < done.len() {
                                assert(done[y] == q);
                            }
                        }
                        if done.contains(q) {
                            let y = choose|y: int| 0 <= y < done.len() && done[y] == q;
                            assert(nd[y] == q);
                        }
                        if q == id {
                            assert(nd[done.len() as int] == q);
                        }
                    }
                }
            } else {
                proof {
                    assert(fired_ids(m0, es, *game_world, *player, now, rolls@, k + 1) == done);
                }
            }
            k = k + 1;
        }
        out
    }

    /// The events with a location trigger that lists (x, y), each once for
    /// each time it lists it, that are known to the manager and may fire at
    /// Unix time `now` (see [`may_fire`]), in order.
    pub fn check_location_trigger(&self, event_manager: &EventManager, player_x: usize, player_y: usize, now: u64) -> (r: Vec<
        String,
    >)
        requires
            event_manager.wf(),
            fired_before(*event_manager, now),
        ensures
            strs_view(r@) == location_hits(*event_manager, event_manager.event_list(), player_x, player_y, now),
    {
        let events = event_manager.list_events();
        let ghost es = event_manager.event_list();
        let mut out: Vec<String> = Vec::new();
        let mut i: usize = 0;
        while i < events.len()
            invariant
                i <= events@.len(),
                events@.len() == es.len(),
                es == event_manager.event_list(),
                event_manager.wf(),
                fired_before(*event_manager, now),
                forall|k: int| 0 <= k < events@.len() ==> *(#[trigger] events@[k]) == es[k].1,
                strs_view(out@) == location_hits(*event_manager, es.take(i as int), player_x, player_y, now),
            decreases events@.len() - i,
        {
            let e = events[i];
            let ghost before = strs_view(out@);
            let ghost ok = match event_manager.runtime(e.id@) {
                Some(rt) => may_fire(e.state, rt, now),
                None => false,
            };
            match &e.trigger {
                TriggerType::Location { positions } => {
                    let mut j: usize = 0;
                    while j < positions.len()
                        invariant
                            j <= positions@.len(),
                            e.trigger == (TriggerType::Location { positions: *positions }),
                            event_manager.wf(),
                            fired_before(*event_manager, now),
                            ok == match event_manager.runtime(e.id@) {
                                Some(rt) => may_fire(e.state, rt, now),
                                None => false,
                            },
                            strs_view(out@) == before + position_hits(positions@.take(j as int), player_x, player_y, e.id@, ok),
                        decreases positions@.len() - j,
                    {
                        let ghost b2 = strs_view(out@);
                        if positions[j][0] == player_x && positions[j][1] == player_y {
                            match event_manager.get_runtime_state(e.id.as_str()) {
                                Some(rt) => {
                                    proof {
                                        let q = key_position(event_manager.runtime_list(), e.id@)->0;
                                        crate::person::lemma_key_position_range(event_manager.runtime_list(), e.id@);
                                        assert(event_manager.runtime_list()[q] == event_manager.runtime_list()[q]);
                                    }
                                    if e.can_trigger_at(rt, now) {
                                        out.push(e.id.clone());
                                        proof {
                                            assert(strs_view(out@) =~= b2.push(e.id@));
                                        }
                                    }
                                },
                                None => {},
                            }
                        }
                        proof {
                            let ps = positions@;
                            assert(ps.take(j + 1).drop_last() =~= ps.take(j as int));
                            assert(ps.take(j + 1).last() == ps[j as int]);
                            assert(strs_view(out@) =~= before + position_hits(ps.take(j + 1), player_x, player_y, e.id@, ok));
                        }
                        j = j + 1;
                    }
                    proof {
                        assert(positions@.take(positions@.len() as int) =~= positions@);
                    }
                },
                _ => {},
            }
            proof {
                assert(es.take(i + 1).drop_last() =~= es.take(i as int));
                assert(es.take(i + 1).last() == es[i as int]);
                assert(strs_view(out@) =~= location_hits(*event_manager, es.take(i + 1), player_x, player_y, now));
            }
            i = i + 1;
        }
        proof {
            assert(es.take(i as int) =~= es);
        }
        out
    }
}

/// `n` chance draws in millionths, each drawn at random below 1000000.
pub fn draw_rolls(n: usize) -> (r: Vec<u32>)
    ensures
        r@.len() == n,
        forall|i: int| 0 <= i < n ==> #[trigger] r@[i] < 1_000_000,
{
    let mut r: Vec<u32> = Vec::new();
    let mut i: usize = 0;
    while i < n
        invariant
            i <= n,
            r@.len() == i,
            forall|k: int| 0 <= k < i ==> #[trigger] r@[k] < 1_000_000,
        decreases n - i,
    {
        let d = random_below(1_000_000);
        r.push(d as u32);
        i = i + 1;
    }
    r
}

/// For each of `ps` that is (x, y), the id `id` once when `ok`.
pub open spec fn position_hits(ps: Seq<[usize; 2]>, x: usize, y: usize, id: Seq<char>, ok: bool) -> Seq<Seq<char>>
    decreases ps.len(),
{
    if ps.len() == 0 {
        Seq::empty()
    } else {
        position_hits(ps.drop_last(), x, y, id, ok) + if ps.last()[0] == x && ps.last()[1] == y && ok {
            seq![id]
        } else {
            Seq::empty()
        }
    }
}

/// The ids, in order, of the events of `es` with a location trigger, once
/// for each time it lists (x, y), when `m` knows them and they may fire at
/// `now`.
pub open spec fn location_hits(m: EventManager, es: Seq<(String, GameEvent)>, x: usize, y: usize, now: u64) -> Seq<Seq<char>>
    decreases es.len(),
{
    if es.len() == 0 {
        Seq::empty()
    } else {
        let e = es.last().1;
        location_hits(m, es.drop_last(), x, y, now) + match e.trigger {
            TriggerType::Location { positions } => position_hits(
                positions@,
                x,
                y,
                e.id@,
                match m.runtime(e.id@) {
                    Some(rt) => may_fire(e.state, rt, now),
                    None => false,
                },
            ),
            _ => Seq::empty(),
        }
    }
}

/// An event fired among the first `n` checked has an id among theirs; the
/// `n`-th event's id, the ids being distinct, is not among them.
proof fn lemma_fired_earlier(
    m: EventManager,
    es: Seq<(String, GameEvent)>,
    world: GameWorld,
    player: Person,
    now: u64,
    rolls: Seq<u32>,
    n: int,
    id: Seq<char>,
)
    requires
        0 <= n < es.len(),
        keys_distinct(es),
        forall|q: int| 0 <= q < es.len() ==> (#[trigger] es[q]).0@ == es[q].1.id@,
        id == es[n].1.id@,
    ensures
        !fired_ids(m, es, world, player, now, rolls, n).contains(id),
    decreases n,
{
    if n > 0 {
        lemma_fired_earlier_below(m, es, world, player, now, rolls, n, n);
    }
}

proof fn lemma_fired_earlier_below(
    m: EventManager,
    es: Seq<(String, GameEvent)>,
    world: GameWorld,
    player: Person,
    now: u64,
    rolls: Seq<u32>,
    n: int,
    bound: int,
)
    requires
        0 <= n <= bound < es.len(),
        keys_distinct(es),
        forall|q: int| 0 <= q < es.len() ==> (#[trigger] es[q]).0@ == es[q].1.id@,
    ensures
        !fired_ids(m, es, world, player, now, rolls, n).contains(es[bound].1.id@),
    decreases n,
{
    if n > 0 {
        lemma_fired_earlier_below(m, es, world, player, now, rolls, n - 1, bound);
        let prev = fired_ids(m, es, world, player, now, rolls, n - 1);
        let cur = fired_ids(m, es, world, player, now, rolls, n);
        assert(es[n - 1].0@ != es[bound].0@);
        if cur.contains(es[bound].1.id@) {
            let y = choose|y: int| 0 <= y < cur.len() && cur[y] == es[bound].1.id@;
            if y < prev.len() {
                assert(prev[y] == cur[y]);
            }
        }
    }
}

/// A player stands in an event's area only inside its rectangle: the area's
/// x range, [min, max] with both ends included, bounds the player's x, and
/// its y range bounds the player's y. So an event whose only condition is an
/// area (see [`EventScheduler::check_conditions`]) holds exactly at the
/// positions of that rectangle.
pub proof fn law_area_bounds_position(
    w: WhereCondition,
    what: WhatCondition,
    map: Seq<char>,
    x: usize,
    y: usize,
    items: Inventory,
    a: AreaRange,
)
    requires
        w.area == Some(a),
    ensures
        conditions_hold(w, what, map, x, y, items) ==> a.x[0] <= x <= a.x[1] && a.y[0] <= y <= a.y[1],
        (w.map is None && w.positions is None && what.required_items is None) ==> (conditions_hold(
            w,
            what,
            map,
            x,
            y,
            items,
        ) <==> (a.x[0] <= x <= a.x[1] && a.y[0] <= y <= a.y[1])),
{
}

/// An event tied to a map holds only on that map, and one tied to a list of
/// positions only at one of those positions, the first number of each being
/// the x and the second the y (see [`EventScheduler::check_conditions`]).
pub proof fn law_map_and_positions_bound_player(
    w: WhereCondition,
    what: WhatCondition,
    map: Seq<char>,
    x: usize,
    y: usize,
    items: Inventory,
)
    ensures
        conditions_hold(w, what, map, x, y, items) ==> (w.map matches Some(m) ==> m@ == map),
        conditions_hold(w, what, map, x, y, items) ==> (w.positions matches Some(ps) ==> exists|i: int|
            0 <= i < ps@.len() && ps@[i][0] == x && ps@[i][1] == y),
        w.positions matches Some(ps) ==> ((w.map is None && w.area is None && what.required_items is None)
            ==> (conditions_hold(w, what, map, x, y, items) <==> exists|i: int|
            0 <= i < ps@.len() && ps@[i] == [x, y])),
{
    if w.map is None && w.area is None && what.required_items is None && w.positions is Some {
        let ps = w.positions->0;
        if exists|i: int| 0 <= i < ps@.len() && ps@[i] == [x, y] {
            let i = choose|i: int| 0 <= i < ps@.len() && ps@[i] == [x, y];
            assert(ps@[i][0] == x && ps@[i][1] == y);
        }
        if exists|i: int| 0 <= i < ps@.len() && ps@[i][0] == x && ps@[i][1] == y {
            let i = choose|i: int| 0 <= i < ps@.len() && ps@[i][0] == x && ps@[i][1] == y;
            assert(ps@[i] =~= [x, y]);
        }
    }
}

} // verus!
