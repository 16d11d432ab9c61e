//! What an NPC sees of the world: the one input of its decisions.
use vstd::prelude::*;

verus! {

/// A place on a map.
#[derive(Clone, Debug)]
pub struct Position {
    pub x: usize,
    pub y: usize,
}

/// A reading of the game clock.
#[derive(Clone, Debug)]
pub struct GameTime {
    pub hour: u8,
    pub minute: u8,
    pub second: u8,
    pub day: u32,
}

/// The kind of a thing on the map.
#[derive(Clone, Debug, PartialEq, Eq, Structural)]
pub enum EntityType {
    Player,
    Npc,
    Item,
}

/// A player or NPC near the viewer.
#[derive(Clone, Debug)]
pub struct EntityInfo {
    pub entity_type: EntityType,
    pub id: String,
    pub pos: Position,
    pub name: String,
}

/// An item the viewer can see.
#[derive(Clone, Debug)]
pub struct ItemInfo {
    pub item_name: String,
    pub count: u32,
    pub pos: Position,
}

/// The ground under the viewer.
#[derive(Clone, Debug)]
pub struct TerrainInfo {
    pub walkable: bool,
    pub description: String,
}

/// A snapshot of the world as one NPC sees it.
#[derive(Clone, Debug)]
pub struct NpcView {
    pub self_id: String,
    pub self_pos: Position,
    pub self_hp: i32,
    pub self_max_hp: i32,
    pub self_mp: i32,
    /// The NPC's belongings: (item name, count).
    pub self_items: Vec<(String, u32)>,
    pub current_map: String,
    pub time: GameTime,
    pub nearby_entities: Vec<EntityInfo>,
    pub visible_items: Vec<ItemInfo>,
    pub terrain: TerrainInfo,
    pub is_interacting: bool,
    pub in_party: bool,
    /// Whether the NPC is fighting.
    pub in_combat: bool,
}

impl NpcView {
    /// The view of an NPC with full health at (0, 0) on day 1, 00:00:00,
    /// with nothing around it.
    pub fn empty(npc_id: String) -> (r: Self)
        ensures
            r.self_id == npc_id,
            r.self_pos.x == 0 && r.self_pos.y == 0,
            r.self_hp == 100 && r.self_max_hp == 100 && r.self_mp == 100,
            r.self_items@.len() == 0,
            r.current_map@.len() == 0,
            r.time.hour == 0 && r.time.minute == 0 && r.time.second == 0 && r.time.day == 1,
            r.nearby_entities@.len() == 0,
            r.visible_items@.len() == 0,
            r.terrain.walkable,
            r.terrain.description@ == "未知區域"@,
            !r.is_interacting && !r.in_party && !r.in_combat,
    {
        NpcView {
            self_id: npc_id,
            self_pos: Position { x: 0, y: 0 },
            self_hp: 100,
            self_max_hp: 100,
            self_mp: 100,
            self_items: Vec::new(),
            current_map: String::new(),
            time: GameTime { hour: 0, minute: 0, second: 0, day: 1 },
            nearby_entities: Vec::new(),
            visible_items: Vec::new(),
            terrain: TerrainInfo { walkable: true, description: String::from_str("未知區域") },
            is_interacting: false,
            in_party: false,
            in_combat: false,
        }
    }
}

} // verus!
