//! Plain-text panels for hosts without a terminal screen: map windows
//! around the player and the inventory.
use vstd::prelude::*;
use crate::inventory::{goods_of, Inventory};
use crate::item_registry::{display_name_of, get_item_display_name};
use crate::text::push_signed;
use crate::text::signed_decimal;
use crate::map::GameMap;
use crate::text::{decimal, push_char, push_decimal};

verus! {

/// The letter that the NPCs `npcs` (cell and letter, in order) leave on
/// the cell (x, y): the first one's letter, or M when any merchant stands
/// there.
pub open spec fn npc_mark(npcs: Seq<(usize, usize, char)>, x: int, y: int) -> Option<char>
    decreases npcs.len(),
{
    if npcs.len() == 0 {
        None
    } else {
        let rest = npc_mark(npcs.drop_last(), x, y);
        let last = npcs.last();
        if last.0 == x && last.1 == y {
            match rest {
                None => Some(last.2),
                Some(c) => if last.2 == 'M' {
                    Some('M')
                } else {
                    Some(c)
                },
            }
        } else {
            rest
        }
    }
}

/// The character of the cell (x, y) for a player at (px, py): by priority
/// the player (@), an NPC's letter, an item (i), open ground (.), a wall
/// (#); off the map, ?.
pub open spec fn panel_cell(m: GameMap, npcs: Seq<(usize, usize, char)>, x: int, y: int, px: int, py: int) -> char {
    if x == px && y == py {
        '@'
    } else if npc_mark(npcs, x, y) is Some {
        npc_mark(npcs, x, y)->0
    } else if 0 <= x < m.width && 0 <= y < m.height {
        if m.point_at(x, y).objects@.len() > 0 {
            'i'
        } else if m.point_at(x, y).walkable {
            '.'
        } else {
            '#'
        }
    } else {
        '?'
    }
}

/// Row `y` of a window `vw` cells wide starting at column `sx`.
pub open spec fn panel_row(m: GameMap, npcs: Seq<(usize, usize, char)>, px: int, py: int, sx: int, y: int, vw: int) -> Seq<char> {
    Seq::new(vw as nat, |i: int| panel_cell(m, npcs, sx + i, y, px, py))
}

/// Rows `sy..sy + n` of a window, each ended by a line break.
pub open spec fn panel_rows(m: GameMap, npcs: Seq<(usize, usize, char)>, px: int, py: int, sx: int, sy: int, vw: int, n: nat) -> Seq<char>
    decreases n,
{
    if n == 0 {
        Seq::empty()
    } else {
        panel_rows(m, npcs, px, py, sx, sy, vw, (n - 1) as nat) + panel_row(m, npcs, px, py, sx, sy + n - 1, vw)
            + seq!['\n']
    }
}

/// The legend under every map panel.
pub open spec fn legend_text() -> Seq<char> {
    "圖例: @你 M商人 N居民 i物品 .可走 #牆 ?界外"@
}

/// The heading of a map panel.
pub open spec fn panel_heading(title: Seq<char>, m: GameMap, px: int, py: int) -> Seq<char> {
    title + " — "@ + m.name@ + " ["@ + decimal(m.width as nat) + "x"@ + decimal(m.height as nat) + "] 你在 ("@
        + decimal(px as nat) + ", "@ + decimal(py as nat) + ")\n"@
}

/// The window of a map panel: as large as asked but no larger than the
/// map and at least one cell, centred on the player and kept on the map;
/// (start x, start y, width, height).
pub open spec fn view_window(map_w: int, map_h: int, px: int, py: int, width: int, height: int) -> (int, int, int, int) {
    let vw = if width < map_w { width } else { map_w };
    let vw = if vw < 1 { 1 } else { vw };
    let vh = if height < map_h { height } else { map_h };
    let vh = if vh < 1 { 1 } else { vh };
    let sx0 = if px > vw / 2 { px - vw / 2 } else { 0 };
    let sy0 = if py > vh / 2 { py - vh / 2 } else { 0 };
    let sx = if sx0 < map_w - vw { sx0 } else { map_w - vw };
    let sy = if sy0 < map_h - vh { sy0 } else { map_h - vh };
    (sx, sy, vw, vh)
}

fn npc_mark_exec(npcs: &Vec<(usize, usize, char)>, x: usize, y: usize) -> (r: Option<char>)
    ensures
        r == npc_mark(npcs@, x as int, y as int),
{
    let mut r: Option<char> = None;
    let mut i: usize = 0;
    proof {
        assert(npcs@.take(0) =~= Seq::<(usize, usize, char)>::empty());
    }
    while i < npcs.len()
        invariant
            i <= npcs@.len(),
            r == npc_mark(npcs@.take(i as int), x as int, y as int),
        decreases npcs@.len() - i,
    {
        let n = npcs[i];
        proof {
            assert(npcs@.take(i + 1).drop_last() =~= npcs@.take(i as int));
        }
        if n.0 == x && n.1 == y {
            r = match r {
                None => Some(n.2),
                Some(c) => if n.2 == 'M' {
                    Some('M')
                } else {
                    Some(c)
                },
            };
        }
        i = i + 1;
    }
    proof {
        assert(npcs@.take(npcs@.len() as int) =~= npcs@);
    }
    r
}

fn cell_char(map: &GameMap, npcs: &Vec<(usize, usize, char)>, x: usize, y: usize, px: usize, py: usize) -> (r: char)
    requires
        map.wf(),
    ensures
        r == panel_cell(*map, npcs@, x as int, y as int, px as int, py as int),
{
    if x == px && y == py {
        return '@';
    }
    match npc_mark_exec(npcs, x, y) {
        Some(c) => c,
        None => match map.get_point(x, y) {
            Some(p) => if p.objects.len() > 0 {
                'i'
            } else if p.walkable {
                '.'
            } else {
                '#'
            },
            None => '?',
        },
    }
}

fn push_rows(
    out: &mut String,
    map: &GameMap,
    npcs: &Vec<(usize, usize, char)>,
    px: usize,
    py: usize,
    sx: usize,
    sy: usize,
    vw: usize,
    vh: usize,
)
    requires
        map.wf(),
        sx + vw <= usize::MAX,
        sy + vh <= usize::MAX,
    ensures
        final(out)@ == old(out)@ + panel_rows(*map, npcs@, px as int, py as int, sx as int, sy as int, vw as int, vh as nat),
{
    let ghost start = out@;
    let mut k: usize = 0;
    while k < vh
        invariant
            map.wf(),
            sx + vw <= usize::MAX,
            sy + vh <= usize::MAX,
            k <= vh,
            out@ == start + panel_rows(*map, npcs@, px as int, py as int, sx as int, sy as int, vw as int, k as nat),
        decreases vh - k,
    {
        let y = sy + k;
        let ghost before_row = out@;
        let mut i: usize = 0;
        while i < vw
            invariant
                map.wf(),
                sx + vw <= usize::MAX,
                i <= vw,
                y == sy + k,
                out@ == before_row + panel_row(*map, npcs@, px as int, py as int, sx as int, y as int, vw as int).take(
                    i as int,
                ),
            decreases vw - i,
        {
            let c = cell_char(map, npcs, sx + i, y, px, py);
            push_char(out, c);
            proof {
                assert(panel_row(*map, npcs@, px as int, py as int, sx as int, y as int, vw as int).take(i + 1)
                    =~= panel_row(*map, npcs@, px as int, py as int, sx as int, y as int, vw as int).take(
                    i as int,
                ).push(c));
            }
            i = i + 1;
        }
        push_char(out, '\n');
        proof {
            assert(panel_row(*map, npcs@, px as int, py as int, sx as int, y as int, vw as int).take(vw as int)
                =~= panel_row(*map, npcs@, px as int, py as int, sx as int, y as int, vw as int));
            assert(out@ =~= start + panel_rows(
                *map,
                npcs@,
                px as int,
                py as int,
                sx as int,
                sy as int,
                vw as int,
                (k + 1) as nat,
            ));
        }
        k = k + 1;
    }
}

fn push_heading(out: &mut String, title: &str, map: &GameMap, px: usize, py: usize)
    ensures
        final(out)@ == old(out)@ + panel_heading(title@, *map, px as int, py as int),
{
    out.append(title);
    out.append(" — ");
    out.append(map.name.as_str());
    out.append(" [");
    push_decimal(out, map.width as u64);
    out.append("x");
    push_decimal(out, map.height as u64);
    out.append("] 你在 (");
    push_decimal(out, px as u64);
    out.append(", ");
    push_decimal(out, py as u64);
    out.append(")\n");
}

/// A window of `map` around the player at (`px`, `py`), `width` by
/// `height` cells as far as the map allows (see [`view_window`]), headed
/// by `title` and followed by the legend. `npcs` holds each NPC's cell and
/// letter.
pub fn render_centered(
    map: &GameMap,
    npcs: &Vec<(usize, usize, char)>,
    title: &str,
    px: usize,
    py: usize,
    width: usize,
    height: usize,
) -> (r: String)
    requires
        map.wf(),
        map.width >= 1,
        map.height >= 1,
    ensures
        ({
            let (sx, sy, vw, vh) = view_window(
                map.width as int,
                map.height as int,
                px as int,
                py as int,
                width as int,
                height as int,
            );
            r@ == panel_heading(title@, *map, px as int, py as int) + panel_rows(
                *map,
                npcs@,
                px as int,
                py as int,
                sx,
                sy,
                vw,
                vh as nat,
            ) + legend_text()
        }),
{
    let vw0 = if width < map.width {
        width
    } else {
        map.width
    };
    let vw = if vw0 < 1 {
        1
    } else {
        vw0
    };
    let vh0 = if height < map.height {
        height
    } else {
        map.height
    };
    let vh = if vh0 < 1 {
        1
    } else {
        vh0
    };
    let sx0 = px.saturating_sub(vw / 2);
    let sy0 = py.saturating_sub(vh / 2);
    let sx = if sx0 < map.width - vw {
        sx0
    } else {
        map.width - vw
    };
    let sy = if sy0 < map.height - vh {
        sy0
    } else {
        map.height - vh
    };
    let mut out = String::new();
    push_heading(&mut out, title, map, px, py);
    push_rows(&mut out, map, npcs, px, py, sx, sy, vw, vh);
    out.append("圖例: @你 M商人 N居民 i物品 .可走 #牆 ?界外");
    proof {
        assert(out@ =~= panel_heading(title@, *map, px as int, py as int) + panel_rows(
            *map,
            npcs@,
            px as int,
            py as int,
            sx as int,
            sy as int,
            vw as int,
            vh as nat,
        ) + legend_text());
    }
    out
}

/// The minimap panel: a window of 21 by 11 cells.
pub fn render_minimap(map: &GameMap, npcs: &Vec<(usize, usize, char)>, px: usize, py: usize) -> (r: String)
    requires
        map.wf(),
        map.width >= 1,
        map.height >= 1,
    ensures
        ({
            let (sx, sy, vw, vh) = view_window(map.width as int, map.height as int, px as int, py as int, 21, 11);
            r@ == panel_heading("⊕ 小地圖"@, *map, px as int, py as int) + panel_rows(
                *map,
                npcs@,
                px as int,
                py as int,
                sx,
                sy,
                vw,
                vh as nat,
            ) + legend_text()
        }),
{
    render_centered(map, npcs, "⊕ 小地圖", px, py, 21, 11)
}

/// The map panel: a window of `width` by `height` cells, 41 by 21 for a
/// side given as 0.
pub fn render_map_view(map: &GameMap, npcs: &Vec<(usize, usize, char)>, px: usize, py: usize, width: usize, height: usize) -> (r: String)
    requires
        map.wf(),
        map.width >= 1,
        map.height >= 1,
    ensures
        ({
            let w: int = if width == 0 {
                41
            } else {
                width as int
            };
            let h: int = if height == 0 {
                21
            } else {
                height as int
            };
            let (sx, sy, vw, vh) = view_window(map.width as int, map.height as int, px as int, py as int, w, h);
            r@ == panel_heading("▣ 地圖"@, *map, px as int, py as int) + panel_rows(
                *map,
                npcs@,
                px as int,
                py as int,
                sx,
                sy,
                vw,
                vh as nat,
            ) + legend_text()
        }),
{
    let w = if width == 0 {
        41
    } else {
        width
    };
    let h = if height == 0 {
        21
    } else {
        height
    };
    render_centered(map, npcs, "▣ 地圖", px, py, w, h)
}

/// The whole map as a panel.
pub fn render_map_full(map: &GameMap, npcs: &Vec<(usize, usize, char)>, px: usize, py: usize) -> (r: String)
    requires
        map.wf(),
    ensures
        r@ == panel_heading("▣ 地圖"@, *map, px as int, py as int) + panel_rows(
            *map,
            npcs@,
            px as int,
            py as int,
            0,
            0,
            map.width as int,
            map.height as nat,
        ) + legend_text(),
{
    let mut out = String::new();
    push_heading(&mut out, "▣ 地圖", map, px, py);
    push_rows(&mut out, map, npcs, px, py, 0, 0, map.width, map.height);
    out.append("圖例: @你 M商人 N居民 i物品 .可走 #牆 ?界外");
    out
}

/// The item lines of the inventory panel for the goods `g` shown under the
/// names `names`.
pub open spec fn item_lines(g: Seq<(String, u32, u32)>, names: Seq<Seq<char>>) -> Seq<char>
    decreases g.len(),
{
    if g.len() == 0 || names.len() != g.len() {
        Seq::empty()
    } else {
        item_lines(g.drop_last(), names.drop_last()) + "  • "@ + names.last() + " x"@ + decimal(g.last().1 as nat)
            + "\n"@
    }
}

/// The inventory panel: the coins, health and will power, then the items
/// other than coins in the order of their names (or a line saying there
/// are none).
pub open spec fn inventory_text(gold: nat, hp: i32, max_hp: i32, mp: i32, max_mp: i32, g: Seq<(String, u32, u32)>, names: Seq<Seq<char>>) -> Seq<char> {
    "🎒 背包\n"@ + "─────────────────────────\n"@ + "金幣: "@ + decimal(gold) + "\n"@ + "HP: "@ + signed_decimal(
        hp as int,
    ) + "/"@ + signed_decimal(max_hp as int) + "   MP: "@ + signed_decimal(mp as int) + "/"@ + signed_decimal(
        max_mp as int,
    ) + "\n"@ + "─────────────────────────\n"@ + if g.len() == 0 {
        "（沒有任何物品）\n"@
    } else {
        item_lines(g, names)
    }
}

/// The inventory panel of a player carrying `items` with the given health
/// and will power (see [`inventory_text`]); each item is shown by one of
/// its display names.
pub fn render_inventory(items: &Inventory, hp: i32, max_hp: i32, mp: i32, max_mp: i32) -> (r: String)
    requires
        items.wf(),
    ensures
        exists|g: Seq<(String, u32, u32)>, names: Seq<Seq<char>>|
            goods_of(*items, g) && names.len() == g.len() && (forall|i: int|
                0 <= i < g.len() ==> display_name_of(g[i].0@, #[trigger] names[i])) && r@ == inventory_text(
                items.count_of("金幣"@),
                hp,
                max_hp,
                mp,
                max_mp,
                g,
                names,
            ),
{
    let mut out = String::from_str("🎒 背包\n");
    out.append("─────────────────────────\n");
    let gold = items.get_item_count("金幣");
    out.append("金幣: ");
    push_decimal(&mut out, gold as u64);
    out.append("\n");
    out.append("HP: ");
    push_signed(&mut out, hp as i64);
    out.append("/");
    push_signed(&mut out, max_hp as i64);
    out.append("   MP: ");
    push_signed(&mut out, mp as i64);
    out.append("/");
    push_signed(&mut out, max_mp as i64);
    out.append("\n");
    out.append("─────────────────────────\n");
    let ghost head = out@;
    let g = items.goods();
    let ghost mut names: Seq<Seq<char>> = Seq::empty();
    if g.len() == 0 {
        out.append("（沒有任何物品）\n");
    } else {
        let mut i: usize = 0;
        while i < g.len()
            invariant
                i <= g@.len(),
                g@.len() > 0,
                names.len() == i,
                forall|j: int| 0 <= j < i ==> display_name_of(g@[j].0@, #[trigger] names[j]),
                out@ == head + item_lines(g@.take(i as int), names),
            decreases g@.len() - i,
        {
            let display = get_item_display_name(g[i].0.as_str());
            out.append("  • ");
            out.append(display.as_str());
            out.append(" x");
            push_decimal(&mut out, g[i].1 as u64);
            out.append("\n");
            proof {
                let old_names = names;
                names = names.push(display@);
                assert(g@.take(i + 1).drop_last() =~= g@.take(i as int));
                assert(names.drop_last() =~= old_names);
                assert(display_name_of(g@[i as int].0@, names[i as int]));
                assert(out@ =~= head + item_lines(g@.take(i + 1), names));
            }
            i = i + 1;
        }
        proof {
            assert(g@.take(g@.len() as int) =~= g@);
        }
    }
    proof {
        assert(out@ =~= inventory_text(items.count_of("金幣"@), hp, max_hp, mp, max_mp, g@, names));
    }
    out
}

} // verus!
