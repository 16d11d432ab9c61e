//! The minimap: what lies next to the player in the four directions, and a
//! grid of the cells around the player.
use vstd::prelude::*;
use crate::map::{GameMap, Point};
use crate::text::{
    contains_text, decimal, lowercase, occurs_in, push_char, push_decimal, to_lowercase,
};

verus! {

/// Where an NPC stands on the current map, and whether it is a merchant.
#[derive(Clone, Copy, Debug)]
pub struct NpcSpot {
    pub x: usize,
    pub y: usize,
    pub merchant: bool,
}

/// A name that marks a merchant: it holds 商人, or `merchant` in any case.
pub open spec fn merchant_name(name: Seq<char>) -> bool {
    occurs_in(name, "商人"@) || occurs_in(lowercase(name), "merchant"@)
}

/// Whether `name` marks a merchant.
pub fn is_merchant_name(name: &str) -> (r: bool)
    ensures
        r == merchant_name(name@),
{
    if contains_text(name, "商人") {
        return true;
    }
    let lower = to_lowercase(name);
    contains_text(lower.as_str(), "merchant")
}

/// Some NPC of `npcs` (a merchant, when `merchant_only`) stands at (x, y).
pub open spec fn npc_at(npcs: Seq<NpcSpot>, x: int, y: int, merchant_only: bool) -> bool {
    exists|i: int|
        0 <= i < npcs.len() && npcs[i].x == x && npcs[i].y == y && (!merchant_only || npcs[i].merchant)
}

/// The mark of the cell (cx, cy) for a player at (px, py): blank off the
/// map, then by priority the player, a merchant, another NPC, an item,
/// open ground or a wall.
pub open spec fn grid_mark(m: GameMap, px: int, py: int, cx: int, cy: int, npcs: Seq<NpcSpot>) -> char {
    if cx < 0 || cy < 0 || cx >= m.width || cy >= m.height {
        ' '
    } else if cx == px && cy == py {
        'P'
    } else if npc_at(npcs, cx, cy, true) {
        'M'
    } else if npc_at(npcs, cx, cy, false) {
        'N'
    } else if m.point_at(cx, cy).objects@.len() > 0 {
        'I'
    } else if m.point_at(cx, cy).walkable {
        '·'
    } else {
        '▓'
    }
}

/// Row `dy` of the 40 by 10 grid around a player at (px, py).
pub open spec fn grid_row(m: GameMap, px: int, py: int, dy: int, npcs: Seq<NpcSpot>) -> Seq<char> {
    Seq::new(40, |dx: int| grid_mark(m, px, py, px - 20 + dx, py - 5 + dy, npcs))
}

/// The line for the neighbour `p` in the direction `arrow`: its
/// description and whether it can be walked on.
pub open spec fn neighbour_line(arrow: Seq<char>, p: Point) -> Seq<char> {
    arrow + " "@ + p.description@ + " "@ + seq![
        if p.walkable {
            '✓'
        } else {
            '✘'
        },
    ]
}

/// The lines for the neighbours of (x, y): above, below, left, right; a
/// direction at the map's edge says so, and a neighbour off the map gets no
/// line.
pub open spec fn neighbour_lines(m: GameMap, x: int, y: int) -> Seq<Seq<char>> {
    (if y > 0 {
        if x < m.width && y - 1 < m.height {
            seq![neighbour_line("↑"@, m.point_at(x, y - 1))]
        } else {
            Seq::empty()
        }
    } else {
        seq!["↑ (邊界)"@]
    }) + (if y + 1 < m.height {
        if x < m.width {
            seq![neighbour_line("↓"@, m.point_at(x, y + 1))]
        } else {
            Seq::empty()
        }
    } else {
        seq!["↓ (邊界)"@]
    }) + (if x > 0 {
        if x - 1 < m.width && y < m.height {
            seq![neighbour_line("←"@, m.point_at(x - 1, y))]
        } else {
            Seq::empty()
        }
    } else {
        seq!["← (邊界)"@]
    }) + (if x + 1 < m.width {
        if y < m.height {
            seq![neighbour_line("→"@, m.point_at(x + 1, y))]
        } else {
            Seq::empty()
        }
    } else {
        seq!["→ (邊界)"@]
    })
}

/// The separator between the neighbour lines and the grid.
pub open spec fn separator() -> Seq<char> {
    "────────────────────────────────────────"@
}

/// The minimap of a player at (x, y): the position, the neighbours, the
/// separator and the ten rows of the grid.
pub open spec fn minimap_view(m: GameMap, x: int, y: int, npcs: Seq<NpcSpot>) -> Seq<Seq<char>> {
    seq!["【位置: ("@ + decimal(x as nat) + ", "@ + decimal(y as nat) + ")】"@] + neighbour_lines(m, x, y)
        + seq![separator()] + Seq::new(10, |dy: int| grid_row(m, x, y, dy, npcs))
}

fn any_npc_at(npcs: &Vec<NpcSpot>, x: usize, y: usize, merchant_only: bool) -> (r: bool)
    ensures
        r == npc_at(npcs@, x as int, y as int, merchant_only),
{
    let mut i: usize = 0;
    while i < npcs.len()
        invariant
            i <= npcs@.len(),
            forall|k: int|
                0 <= k < i ==> !(npcs@[k].x == x && npcs@[k].y == y && (!merchant_only
                    || npcs@[k].merchant)),
        decreases npcs@.len() - i,
    {
        let s = npcs[i];
        if s.x == x && s.y == y && (!merchant_only || s.merchant) {
            return true;
        }
        i = i + 1;
    }
    false
}

fn mark_of(map: &GameMap, px: usize, py: usize, cx: i64, cy: i64, npcs: &Vec<NpcSpot>) -> (r: char)
    requires
        map.wf(),
        map.width <= i64::MAX,
        map.height <= i64::MAX,
    ensures
        r == grid_mark(*map, px as int, py as int, cx as int, cy as int, npcs@),
{
    if cx < 0 || cy < 0 || cx >= map.width as i64 || cy >= map.height as i64 {
        return ' ';
    }
    let x = cx as usize;
    let y = cy as usize;
    if x == px && y == py {
        'P'
    } else if any_npc_at(npcs, x, y, true) {
        'M'
    } else if any_npc_at(npcs, x, y, false) {
        'N'
    } else {
        match map.get_point(x, y) {
            Some(p) => if p.objects.len() > 0 {
                'I'
            } else if p.walkable {
                '·'
            } else {
                '▓'
            },
            None => '?',
        }
    }
}

fn push_neighbour(lines: &mut Vec<String>, arrow: &str, p: &Point)
    ensures
        final(lines)@.len() == old(lines)@.len() + 1,
        forall|i: int| 0 <= i < old(lines)@.len() ==> #[trigger] final(lines)@[i] == old(lines)@[i],
        final(lines)@[old(lines)@.len() as int]@ == neighbour_line(arrow@, *p),
{
    let mut s = String::from_str(arrow);
    s.append(" ");
    s.append(p.description.as_str());
    s.append(" ");
    push_char(&mut s, if p.walkable {
        '✓'
    } else {
        '✘'
    });
    lines.push(s);
}

/// The lines of the minimap of a player at (`x`, `y`) on `map`, with the
/// NPCs of the map at `npcs`.
pub fn minimap_lines(map: &GameMap, x: usize, y: usize, npcs: &Vec<NpcSpot>) -> (r: Vec<String>)
    requires
        map.wf(),
        map.width <= i64::MAX,
        map.height <= i64::MAX,
        x + 19 <= i32::MAX,
        y + 4 <= i32::MAX,
    ensures
        r@.map_values(|s: String| s@) == minimap_view(*map, x as int, y as int, npcs@),
{
    let mut lines: Vec<String> = Vec::new();
    let mut head = String::from_str("【位置: (");
    push_decimal(&mut head, x as u64);
    head.append(", ");
    push_decimal(&mut head, y as u64);
    head.append(")】");
    lines.push(head);
    let ghost before_up = lines@;
    if y > 0 {
        match map.get_point(x, y - 1) {
            Some(p) => push_neighbour(&mut lines, "↑", p),
            None => {},
        }
    } else {
        lines.push(String::from_str("↑ (邊界)"));
    }
    let ghost after_up = lines@;
    if y + 1 < map.height {
        match map.get_point(x, y + 1) {
            Some(p) => push_neighbour(&mut lines, "↓", p),
            None => {},
        }
    } else {
        lines.push(String::from_str("↓ (邊界)"));
    }
    let ghost after_down = lines@;
    if x > 0 {
        match map.get_point(x - 1, y) {
            Some(p) => push_neighbour(&mut lines, "←", p),
            None => {},
        }
    } else {
        lines.push(String::from_str("← (邊界)"));
    }
    let ghost after_left = lines@;
    if x + 1 < map.width {
        match map.get_point(x + 1, y) {
            Some(p) => push_neighbour(&mut lines, "→", p),
            None => {},
        }
    } else {
        lines.push(String::from_str("→ (邊界)"));
    }
    let ghost after_right = lines@;
    lines.push(String::from_str("────────────────────────────────────────"));
    let ghost top = lines@;
    proof {
        let f = |s: String| s@;
        assert(before_up.map_values(f) =~= seq!["【位置: ("@ + decimal(x as nat) + ", "@ + decimal(y as nat) + ")】"@]);
        assert(top.map_values(f) =~= seq!["【位置: ("@ + decimal(x as nat) + ", "@ + decimal(y as nat) + ")】"@]
            + neighbour_lines(*map, x as int, y as int) + seq![separator()]);
    }
    let mut dy: usize = 0;
    while dy < 10
        invariant
            map.wf(),
            map.width <= i64::MAX,
            map.height <= i64::MAX,
            x + 19 <= i32::MAX,
            y + 4 <= i32::MAX,
            dy <= 10,
            lines@.len() == top.len() + dy,
            forall|i: int| 0 <= i < top.len() ==> #[trigger] lines@[i] == top[i],
            forall|k: int|
                0 <= k < dy ==> #[trigger] lines@[top.len() + k]@ == grid_row(
                    *map,
                    x as int,
                    y as int,
                    k,
                    npcs@,
                ),
        decreases 10 - dy,
    {
        let mut row = String::new();
        let mut dx: usize = 0;
        while dx < 40
            invariant
                map.wf(),
                map.width <= i64::MAX,
                map.height <= i64::MAX,
                x + 19 <= i32::MAX,
                y + 4 <= i32::MAX,
                dy < 10,
                dx <= 40,
                row@ == grid_row(*map, x as int, y as int, dy as int, npcs@).take(dx as int),
            decreases 40 - dx,
        {
            let cx: i64 = x as i64 - 20 + dx as i64;
            let cy: i64 = y as i64 - 5 + dy as i64;
            let c = mark_of(map, x, y, cx, cy, npcs);
            push_char(&mut row, c);
            proof {
                assert(grid_row(*map, x as int, y as int, dy as int, npcs@).take(dx + 1) =~= grid_row(
                    *map,
                    x as int,
                    y as int,
                    dy as int,
                    npcs@,
                ).take(dx as int).push(c));
            }
            dx = dx + 1;
        }
        proof {
            assert(grid_row(*map, x as int, y as int, dy as int, npcs@).take(40) =~= grid_row(
                *map,
                x as int,
                y as int,
                dy as int,
                npcs@,
            ));
        }
        lines.push(row);
        dy = dy + 1;
    }
    proof {
        let f = |s: String| s@;
        let prefix = seq!["【位置: ("@ + decimal(x as nat) + ", "@ + decimal(y as nat) + ")】"@]
            + neighbour_lines(*map, x as int, y as int) + seq![separator()];
        let grid = Seq::new(10, |dy: int| grid_row(*map, x as int, y as int, dy, npcs@));
        assert(top.map_values(f) == prefix);
        assert forall|i: int| 0 <= i < lines@.len() implies #[trigger] lines@.map_values(f)[i] == (prefix
            + grid)[i] by {
            if i < top.len() {
                assert(lines@[i] == top[i]);
                assert(top.map_values(f)[i] == prefix[i]);
            } else {
                let k = i - top.len();
                assert(lines@[top.len() + k]@ == grid_row(*map, x as int, y as int, k, npcs@));
            }
        }
        assert(lines@.map_values(f) =~= prefix + grid);
    }
    lines
}


/// The player's own cell is the middle of the grid's middle row, and it is
/// marked P whenever the player stands on the map.
pub proof fn law_player_in_the_middle(m: GameMap, px: int, py: int, npcs: Seq<NpcSpot>)
    requires
        0 <= px < m.width,
        0 <= py < m.height,
    ensures
        grid_row(m, px, py, 5, npcs)[20] == 'P',
{
}

} // verus!
