//! The map panels of the world: the window around the controlled person,
//! with the other people on the current map marked.
use vstd::prelude::*;
use crate::npc_manager::NpcManager;
use crate::npc_rules::display_letter;
use crate::panel::{legend_text, panel_heading, panel_rows, render_map_view, render_minimap, view_window};
use crate::map::GameMap;
use crate::person::Person;
use crate::text::str_eq;
use crate::world::GameWorld;

verus! {

/// The marks of the people of `people` other than the one with id `cid`
/// who are on the map `map_name`: each one's place and letter (see
/// [`display_letter`]), in order.
pub open spec fn npc_spots_of(people: Seq<(String, Person)>, cid: Seq<char>, map_name: Seq<char>) -> Seq<(usize, usize, char)>
    decreases people.len(),
{
    if people.len() == 0 {
        Seq::empty()
    } else {
        let rest = npc_spots_of(people.drop_last(), cid, map_name);
        let e = people.last();
        if e.0@ != cid && e.1.map@ == map_name {
            rest.push((e.1.x, e.1.y, display_letter(e.1.name@)))
        } else {
            rest
        }
    }
}

/// The marks of the other people on the current map (see
/// [`npc_spots_of`]).
pub fn npc_spots(world: &GameWorld) -> (r: Vec<(usize, usize, char)>)
    ensures
        r@ == npc_spots_of(world.npc_manager.people(), world.current_controlled_id@, world.current_map_name@),
{
    let ids = world.npc_manager.get_all_npc_ids();
    let all = world.npc_manager.get_all_npcs();
    let ghost ps = world.npc_manager.people();
    let ghost cid = world.current_controlled_id@;
    let ghost mn = world.current_map_name@;
    proof {
        assert(ids@.len() == ps.len()) by {
            assert(ids@.map_values(|s: String| s@).len() == crate::npc_manager::keys_of(ps).len());
        }
    }
    let mut out: Vec<(usize, usize, char)> = Vec::new();
    let mut i: usize = 0;
    while i < all.len()
        invariant
            i <= all@.len(),
            all@.len() == ps.len(),
            ids@.len() == ps.len(),
            ps == world.npc_manager.people(),
            cid == world.current_controlled_id@,
            mn == world.current_map_name@,
            ids@.map_values(|s: String| s@) == crate::npc_manager::keys_of(ps),
            forall|k: int| 0 <= k < all@.len() ==> *(#[trigger] all@[k]) == ps[k].1,
            out@ == npc_spots_of(ps.take(i as int), cid, mn),
        decreases all@.len() - i,
    {
        let p = all[i];
        proof {
            assert(ps.take(i + 1).drop_last() =~= ps.take(i as int));
            assert(ps.take(i + 1).last() == ps[i as int]);
            assert(ids@.map_values(|s: String| s@)[i as int] == ids@[i as int]@);
            assert(crate::npc_manager::keys_of(ps)[i as int] == ps[i as int].0@);
        }
        if !str_eq(ids[i].as_str(), world.current_controlled_id.as_str()) && str_eq(
            p.map.as_str(),
            world.current_map_name.as_str(),
        ) {
            out.push((p.x, p.y, NpcManager::get_display_char(p.name.as_str())));
        }
        i = i + 1;
    }
    proof {
        assert(ps.take(i as int) =~= ps);
    }
    out
}

/// The current map can be drawn: it is well kept and not empty.
pub open spec fn panel_ready(g: GameWorld) -> bool {
    &&& g.npc_manager.wf()
    &&& g.map_named(g.current_map_name@) matches Some(map) ==> map.wf() && map.width >= 1 && map.height >= 1
}

/// The text of a panel titled `title`: a window of `w` by `h` cells of
/// `map` around (px, py), the people marked as `spots` says.
pub open spec fn window_text(map: GameMap, spots: Seq<(usize, usize, char)>, title: Seq<char>, px: int, py: int, w: int, h: int) -> Seq<char> {
    let (sx, sy, vw, vh) = view_window(map.width as int, map.height as int, px, py, w, h);
    panel_heading(title, map, px, py) + panel_rows(map, spots, px, py, sx, sy, vw, vh as nat) + legend_text()
}

/// The panel titled `title`, `w` by `h` cells, of the world `g`: a note when
/// the controlled person or the current map is missing.
pub open spec fn world_panel_text(g: GameWorld, title: Seq<char>, w: int, h: int) -> Seq<char> {
    match g.npc_manager.found(g.current_controlled_id@) {
        None => "（找不到玩家角色）"@,
        Some(a) => match g.map_named(g.current_map_name@) {
            None => "（當前沒有地圖）"@,
            Some(map) => {
                let me = g.npc_manager.people()[a].1;
                window_text(
                    map,
                    npc_spots_of(g.npc_manager.people(), g.current_controlled_id@, g.current_map_name@),
                    title,
                    me.x as int,
                    me.y as int,
                    w,
                    h,
                )
            },
        },
    }
}

/// The map panel of the world: 41 by 21 cells around the controlled
/// person.
pub fn render_world_map(world: &GameWorld) -> (r: String)
    requires
        panel_ready(*world),
    ensures
        r@ == world_panel_text(*world, "▣ 地圖"@, 41, 21),
{
    proof {
        reveal_strlit("（找不到玩家角色）");
        reveal_strlit("（當前沒有地圖）");
    }
    let me = match world.npc_manager.get_npc(world.current_controlled_id.as_str()) {
        None => {
            return String::from_str("（找不到玩家角色）");
        },
        Some(p) => p,
    };
    let map = match world.get_current_map() {
        None => {
            return String::from_str("（當前沒有地圖）");
        },
        Some(m) => m,
    };
    let spots = npc_spots(world);
    render_map_view(map, &spots, me.x, me.y, 0, 0)
}

/// The minimap panel of the world: 21 by 11 cells around the controlled
/// person.
pub fn render_world_minimap(world: &GameWorld) -> (r: String)
    requires
        panel_ready(*world),
    ensures
        r@ == world_panel_text(*world, "⊕ 小地圖"@, 21, 11),
{
    proof {
        reveal_strlit("（找不到玩家角色）");
        reveal_strlit("（當前沒有地圖）");
    }
    let me = match world.npc_manager.get_npc(world.current_controlled_id.as_str()) {
        None => {
            return String::from_str("（找不到玩家角色）");
        },
        Some(p) => p,
    };
    let map = match world.get_current_map() {
        None => {
            return String::from_str("（當前沒有地圖）");
        },
        Some(m) => m,
    };
    let spots = npc_spots(world);
    render_minimap(map, &spots, me.x, me.y)
}

} // verus!
