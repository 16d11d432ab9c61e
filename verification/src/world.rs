//! The world's clock, its metadata, and the states of interaction and
//! combat.
use vstd::prelude::*;
use crate::clock::unix_millis;
use crate::text::str_eq;
use crate::event_scheduler::EventScheduler;
use crate::map::GameMap;
use crate::npc_manager::NpcManager;
use crate::person::{find_key, key_position, ticked, value_at_key, Person, PersonDescriptions};
use crate::quest::QuestManager;
use crate::text::strs_view;
use crate::time_updatable::{clock_text, format_clock, TimeInfo};

verus! {

/// Which kind of exchange with an NPC is under way.
#[derive(Debug, Clone, PartialEq)]
pub enum InteractionState {
    NotInteracting,
    Trading { npc_name: String },
    Buying { npc_name: String },
    Selling { npc_name: String },
}

/// Whether a fight is under way, with its participants ("me" and NPC ids)
/// and its round.
#[derive(Debug, Clone, PartialEq)]
pub enum CombatState {
    NotInCombat,
    InCombat { participants: Vec<String>, round: i32 },
}

impl CombatState {
    /// No fight is under way.
    pub fn is_not_in_combat(&self) -> (r: bool)
        ensures
            r == (*self is NotInCombat),
    {
        match self {
            CombatState::NotInCombat => true,
            CombatState::InCombat { .. } => false,
        }
    }
}

/// The world clock: the time of day, the day, and the real time in
/// milliseconds at which it was last advanced.
#[derive(Debug, Clone)]
pub struct WorldTime {
    pub hour: u8,
    pub minute: u8,
    pub second: u8,
    pub day: u32,
    pub last_update: u64,
}

/// The clock reads a valid time of day.
pub open spec fn time_ok(t: WorldTime) -> bool {
    t.hour < 24 && t.minute < 60 && t.second < 60
}

/// The number of game seconds from the start of day 0 to the reading `t`.
pub open spec fn total_seconds(t: WorldTime) -> int {
    t.day * 86400 + t.hour * 3600 + t.minute * 60 + t.second
}

/// The day that advancing the reading `t` by `e` seconds reaches.
pub open spec fn day_after(t: WorldTime, e: u32) -> int {
    t.day + (t.hour + (t.minute + (t.second + e) / 60) / 60) / 24
}

impl WorldTime {
    /// Day 1, 09:00:00, last advanced now.
    pub fn new() -> (r: Self)
        ensures
            r.hour == 9,
            r.minute == 0,
            r.second == 0,
            r.day == 1,
    {
        WorldTime { hour: 9, minute: 0, second: 0, day: 1, last_update: unix_millis() }
    }

    /// The real milliseconds since the clock was last advanced.
    pub fn elapsed_real_ms(&self, now_ms: u64) -> (r: u64)
        requires
            self.last_update <= now_ms,
        ensures
            r == now_ms - self.last_update,
    {
        now_ms - self.last_update
    }

    /// Advances the clock by `elapsed_game_secs` game seconds, carrying
    /// seconds into minutes, minutes into hours and hours into days, and
    /// notes `now_ms` as the time of this advance.
    pub fn advance_by(&mut self, elapsed_game_secs: u32, now_ms: u64)
        requires
            old(self).second + elapsed_game_secs <= u32::MAX,
            day_after(*old(self), elapsed_game_secs) <= u32::MAX,
        ensures
            final(self).second == (old(self).second + elapsed_game_secs) % 60,
            final(self).minute == (old(self).minute + (old(self).second + elapsed_game_secs) / 60) % 60,
            final(self).hour == (old(self).hour + (old(self).minute + (old(self).second
                + elapsed_game_secs) / 60) / 60) % 24,
            final(self).day == day_after(*old(self), elapsed_game_secs),
            final(self).last_update == now_ms,
    {
        let total_secs: u32 = self.second as u32 + elapsed_game_secs;
        let mins = total_secs / 60;
        self.second = (total_secs % 60) as u8;
        let total_mins: u32 = self.minute as u32 + mins;
        let hours = total_mins / 60;
        self.minute = (total_mins % 60) as u8;
        let total_hours: u32 = self.hour as u32 + hours;
        self.hour = (total_hours % 24) as u8;
        self.day = self.day + total_hours / 24;
        self.last_update = now_ms;
    }

    /// `Day D HH:MM:SS`.
    pub fn format_time(&self) -> (r: String)
        ensures
            r@ == clock_text(self.day, self.hour, self.minute, self.second),
    {
        format_clock(self.day, self.hour, self.minute, self.second)
    }
}

impl Default for WorldTime {
    fn default() -> (r: Self)
        ensures
            r.hour == 9,
            r.minute == 0,
            r.second == 0,
            r.day == 1,
    {
        WorldTime::new()
    }
}

/// Advancing a valid clock by `e` seconds keeps it valid and moves it
/// exactly `e` seconds forward.
pub proof fn law_advance_adds_seconds(before: WorldTime, e: u32, after: WorldTime)
    requires
        time_ok(before),
        after.second == (before.second + e) % 60,
        after.minute == (before.minute + (before.second + e) / 60) % 60,
        after.hour == (before.hour + (before.minute + (before.second + e) / 60) / 60) % 24,
        after.day == day_after(before, e),
    ensures
        time_ok(after),
        total_seconds(after) == total_seconds(before) + e,
{
    let s = before.second + e;
    let m = before.minute + s / 60;
    let h = before.hour + m / 60;
    assert(s == (s / 60) * 60 + s % 60) by (nonlinear_arith);
    assert(m == (m / 60) * 60 + m % 60) by (nonlinear_arith);
    assert(h == (h / 24) * 24 + h % 24) by (nonlinear_arith);
    assert(after.day * 86400 == before.day * 86400 + (h / 24) * 86400) by (nonlinear_arith)
        requires
            after.day == before.day + h / 24,
    ;
    assert((h / 24) * 86400 + (h % 24) * 3600 == h * 3600) by (nonlinear_arith)
        requires
            h == (h / 24) * 24 + h % 24,
    ;
    assert((m / 60) * 3600 + (m % 60) * 60 == m * 60) by (nonlinear_arith)
        requires
            m == (m / 60) * 60 + m % 60,
    ;
    assert((s / 60) * 60 + s % 60 == s);
}

/// What the world is called, what it holds, and where the player is.
#[derive(Debug, Clone)]
pub struct WorldMetadata {
    pub name: String,
    pub description: String,
    /// The names of the world's maps, each once.
    pub maps: Vec<String>,
    pub current_map: String,
}

/// No name occurs twice in `s`.
pub open spec fn names_unique(s: Seq<String>) -> bool {
    forall|i: int, j: int| 0 <= i < j < s.len() ==> s[i]@ != s[j]@
}

impl WorldMetadata {
    /// A world with no maps yet.
    pub fn new(name: String, description: String) -> (r: Self)
        ensures
            r.name == name,
            r.description == description,
            r.maps@.len() == 0,
            r.current_map@.len() == 0,
    {
        WorldMetadata { name, description, maps: Vec::new(), current_map: String::new() }
    }

    /// Lists the map `map_name` unless it is listed already.
    pub fn add_map(&mut self, map_name: String)
        ensures
            (exists|i: int| 0 <= i < old(self).maps@.len() && old(self).maps@[i]@ == map_name@)
                ==> final(self).maps@ == old(self).maps@,
            !(exists|i: int| 0 <= i < old(self).maps@.len() && old(self).maps@[i]@ == map_name@)
                ==> final(self).maps@ == old(self).maps@.push(map_name),
            names_unique(old(self).maps@) ==> names_unique(final(self).maps@),
            final(self).name == old(self).name,
            final(self).description == old(self).description,
            final(self).current_map == old(self).current_map,
    {
        let mut i: usize = 0;
        while i < self.maps.len()
            invariant
                i <= self.maps@.len(),
                forall|j: int| 0 <= j < i ==> self.maps@[j]@ != map_name@,
            decreases self.maps@.len() - i,
        {
            if str_eq(self.maps[i].as_str(), map_name.as_str()) {
                return;
            }
            i = i + 1;
        }
        self.maps.push(map_name);
    }
}


/// The whole state of a game world: its maps, clock, people, quests, and
/// what the player is doing.
pub struct GameWorld {
    /// The maps, by name.
    pub maps: Vec<(String, GameMap)>,
    pub current_map_name: String,
    pub metadata: WorldMetadata,
    /// The folder the world is kept in.
    pub world_dir: String,
    pub time: WorldTime,
    pub event_scheduler: EventScheduler,
    pub npc_manager: NpcManager,
    pub quest_manager: QuestManager,
    /// The id of the person the player controls ("me" at first).
    pub current_controlled_id: String,
    /// The player's own person, kept while another is controlled.
    pub original_player: Option<Person>,
    pub interaction_state: InteractionState,
    pub combat_state: CombatState,
    /// The words that describe people, read with the world's data.
    pub person_descriptions: PersonDescriptions,
}

impl GameWorld {
    /// The world's parts are well kept.
    pub open spec fn wf(&self) -> bool {
        &&& self.npc_manager.wf()
        &&& self.quest_manager.wf()
        &&& crate::npc_manager::keys_distinct(self.maps@)
    }

    /// The map named `name`.
    pub open spec fn map_named(&self, name: Seq<char>) -> Option<GameMap> {
        value_at_key(self.maps@, name)
    }

    /// The world beginWorld (kept in worlds/beginWorld) with no maps, people
    /// or quests yet, on the map beginMap, the player controlling "me", at
    /// day 1, 09:00:00.
    pub fn new(person_descriptions: PersonDescriptions) -> (r: Self)
        ensures
            r.wf(),
            r.maps@.len() == 0,
            r.current_map_name@ == "beginMap"@,
            r.metadata.name@ == "beginWorld"@,
            r.metadata.description@ == world_description(),
            r.metadata.maps@.len() == 0,
            r.metadata.current_map@.len() == 0,
            r.world_dir@ == "worlds/beginWorld"@,
            r.time.hour == 9 && r.time.minute == 0 && r.time.second == 0 && r.time.day == 1,
            r.npc_manager.people().len() == 0,
            r.npc_manager.alias_list().len() == 0,
            r.quest_manager.quest_seq().len() == 0,
            r.quest_manager.completed_quests@.len() == 0,
            r.current_controlled_id@ == "me"@,
            r.original_player is None,
            r.interaction_state == InteractionState::NotInteracting,
            r.combat_state == CombatState::NotInCombat,
            r.person_descriptions == person_descriptions,
    {
        let metadata = WorldMetadata::new(
            String::from_str("beginWorld"),
            String::from_str(
                "這是一個充滿奇異生物、神秘遺跡和隱藏寶藏的魔幻世界。世界中有多個不同的區域，包括 forest、洞窟、城鎮和古老的廢墟。在這個世界中，你將探索未知的領域，與各種NPC互動，收集物品和知識。",
            ),
        );
        proof {
            reveal_strlit(
                "這是一個充滿奇異生物、神秘遺跡和隱藏寶藏的魔幻世界。世界中有多個不同的區域，包括 forest、洞窟、城鎮和古老的廢墟。在這個世界中，你將探索未知的領域，與各種NPC互動，收集物品和知識。",
            );
        }
        GameWorld {
            maps: Vec::new(),
            current_map_name: String::from_str("beginMap"),
            metadata,
            world_dir: String::from_str("worlds/beginWorld"),
            time: WorldTime::new(),
            event_scheduler: EventScheduler::new(),
            npc_manager: NpcManager::new(),
            quest_manager: QuestManager::new(),
            current_controlled_id: String::from_str("me"),
            original_player: None,
            interaction_state: InteractionState::NotInteracting,
            combat_state: CombatState::NotInCombat,
            person_descriptions,
        }
    }

    /// Adds (or replaces) a map under its name, and lists the name in the
    /// metadata.
    pub fn add_map(&mut self, map: GameMap)
        requires
            old(self).wf(),
        ensures
            final(self).wf(),
            final(self).map_named(map.name@) == Some(map),
            forall|n: Seq<char>| n != map.name@ ==> #[trigger] final(self).map_named(n) == old(self).map_named(n),
            (exists|i: int| 0 <= i < old(self).metadata.maps@.len() && old(self).metadata.maps@[i]@ == map.name@)
                ==> final(self).metadata.maps@ == old(self).metadata.maps@,
            !(exists|i: int| 0 <= i < old(self).metadata.maps@.len() && old(self).metadata.maps@[i]@ == map.name@)
                ==> strs_view(final(self).metadata.maps@) == strs_view(old(self).metadata.maps@).push(map.name@),
            final(self).metadata.name == old(self).metadata.name,
            final(self).metadata.description == old(self).metadata.description,
            final(self).metadata.current_map == old(self).metadata.current_map,
            final(self).current_map_name == old(self).current_map_name,
            final(self).npc_manager == old(self).npc_manager,
            final(self).quest_manager == old(self).quest_manager,
            final(self).combat_state == old(self).combat_state,
            final(self).current_controlled_id == old(self).current_controlled_id,
    {
        let name = map.name.clone();
        let key = map.name.clone();
        crate::npc_manager::put(&mut self.maps, key, map);
        let ghost before = self.metadata.maps@;
        self.metadata.add_map(name);
        proof {
            if !(exists|i: int| 0 <= i < before.len() && before[i]@ == map.name@) {
                assert(strs_view(self.metadata.maps@) =~= strs_view(before).push(map.name@));
            }
        }
    }

    /// Goes to the map `map_name` when the world has it; the answer says
    /// whether it did.
    pub fn change_map(&mut self, map_name: &str) -> (r: bool)
        ensures
            r == (old(self).map_named(map_name@) is Some),
            r ==> final(self).current_map_name@ == map_name@,
            *final(self) == (GameWorld { current_map_name: final(self).current_map_name, ..*old(self) }),
            !r ==> final(self).current_map_name == old(self).current_map_name,
    {
        match find_key(&self.maps, map_name) {
            Some(_) => {
                self.current_map_name = String::from_str(map_name);
                true
            },
            None => false,
        }
    }

    /// The map the player is on.
    pub fn get_current_map(&self) -> (r: Option<&GameMap>)
        ensures
            match self.map_named(self.current_map_name@) {
                Some(m) => r matches Some(p) && *p == m,
                None => r is None,
            },
    {
        match find_key(&self.maps, self.current_map_name.as_str()) {
            Some(i) => Some(&self.maps[i].1),
            None => None,
        }
    }

    /// The map the player is on, to change in place.
    pub fn get_current_map_mut(&mut self) -> (r: Option<&mut GameMap>)
        requires
            old(self).wf(),
        ensures
            match key_position(old(self).maps@, old(self).current_map_name@) {
                Some(i) => {
                    &&& r is Some
                    &&& *r->0 == old(self).maps@[i].1
                    &&& final(self).maps@ == old(self).maps@.update(i, (old(self).maps@[i].0, *final(r->0)))
                },
                None => r is None && final(self).maps@ == old(self).maps@,
            },
            *final(self) == (GameWorld { maps: final(self).maps, ..*old(self) }),
            final(self).wf(),
    {
        match find_key(&self.maps, self.current_map_name.as_str()) {
            Some(i) => Some(&mut self.maps[i].1),
            None => None,
        }
    }

    /// The folder the maps are kept in: `<world_dir>/maps`.
    pub fn get_maps_dir(&self) -> (r: String)
        ensures
            r@ == self.world_dir@ + "/maps"@,
    {
        crate::text::concat(self.world_dir.as_str(), "/maps")
    }

    /// The clock's reading.
    pub fn get_time_info(&self) -> (r: TimeInfo)
        ensures
            r.hour == self.time.hour && r.minute == self.time.minute && r.second == self.time.second
                && r.day == self.time.day,
    {
        TimeInfo::new_with_seconds(self.time.hour, self.time.minute, self.time.second, self.time.day)
    }

    /// `Day D HH:MM:SS`.
    pub fn format_time(&self) -> (r: String)
        ensures
            r@ == clock_text(self.time.day, self.time.hour, self.time.minute, self.time.second),
    {
        self.time.format_time()
    }

    /// Takes the clock's new reading `time` and lets everyone live one tick
    /// of it (see [`NpcManager::update_all_time`]).
    pub fn update_time(&mut self, time: WorldTime)
        requires
            old(self).wf(),
            forall|i: int|
                0 <= i < old(self).npc_manager.people().len() ==> (#[trigger] old(self).npc_manager.people()[i]).1.age
                    < u64::MAX && old(self).npc_manager.people()[i].1.hp - 100 >= i32::MIN
                    && old(self).npc_manager.people()[i].1.mp < i32::MAX,
        ensures
            final(self).wf(),
            final(self).time == time,
            final(self).npc_manager.people().len() == old(self).npc_manager.people().len(),
            forall|i: int|
                0 <= i < old(self).npc_manager.people().len() ==> (#[trigger] final(self).npc_manager.people()[i]).0
                    == old(self).npc_manager.people()[i].0 && ticked(
                    old(self).npc_manager.people()[i].1,
                    final(self).npc_manager.people()[i].1,
                    TimeInfo { hour: time.hour, minute: time.minute, second: time.second, day: time.day },
                    old(self).person_descriptions,
                ),
            final(self).npc_manager.alias_list() == old(self).npc_manager.alias_list(),
            final(self).npc_manager.distance_list() == old(self).npc_manager.distance_list(),
            *final(self) == (GameWorld { time: final(self).time, npc_manager: final(self).npc_manager, ..*old(self) }),
    {
        self.time = time;
        let info = self.get_time_info();
        self.npc_manager.update_all_time(&info, &self.person_descriptions);
    }
}

/// How the first world is described.
pub open spec fn world_description() -> Seq<char> {
    "這是一個充滿奇異生物、神秘遺跡和隱藏寶藏的魔幻世界。世界中有多個不同的區域，包括 forest、洞窟、城鎮和古老的廢墟。在這個世界中，你將探索未知的領域，與各種NPC互動，收集物品和知識。"@
}

} // verus!
