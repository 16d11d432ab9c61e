//! The trade view: whom the player trades with where they stand, and the
//! panel listing what can be bought and sold.
use vstd::prelude::*;
use crate::inventory::{goods_of, Inventory};
use crate::item_registry::{display_name_of, get_item_display_name};
use crate::npc_manager::{at_spot, id_views, npcs_where};
use crate::person::Person;
use crate::text::{decimal, push_decimal, str_eq};
use crate::trade::{sellables_of, TradeSystem};
use crate::world::GameWorld;

verus! {

/// The person of `e` is called 商人 (a merchant).
pub open spec fn is_merchant(e: (Seq<char>, Person)) -> bool {
    e.1.name@ == "商人"@
}

/// The first of `s` called 商人 (a merchant), if any.
pub open spec fn first_merchant(s: Seq<(Seq<char>, Person)>) -> Option<int>
    decreases s.len(),
{
    if s.len() == 0 {
        None
    } else {
        match first_merchant(s.drop_last()) {
            Some(k) => Some(k),
            None => if is_merchant(s.last()) {
                Some(s.len() - 1)
            } else {
                None
            },
        }
    }
}

/// The people standing with the controlled person (at their place on their
/// map), with their ids, in order; nobody when there is no controlled
/// person.
pub open spec fn others_here(g: GameWorld) -> Seq<(Seq<char>, Person)> {
    let m = g.npc_manager;
    match m.found(g.current_controlled_id@) {
        None => Seq::empty(),
        Some(a) => {
            let me = m.people()[a].1;
            id_views(
                npcs_where(
                    m.people(),
                    |e: (String, Person)| at_spot(e, Some(me.map@), me.x, me.y, Some(g.current_controlled_id@)),
                ),
            )
        },
    }
}

/// The id of whom trading with `npc_id` deals with: the person the name
/// leads to; with no name, the first merchant standing with the controlled
/// person, else the first person there.
pub open spec fn trade_partner(g: GameWorld, npc_id: Seq<char>) -> Option<Seq<char>> {
    let m = g.npc_manager;
    if npc_id.len() > 0 {
        match m.found(npc_id) {
            Some(i) => Some(m.people()[i].0@),
            None => None,
        }
    } else {
        let here = others_here(g);
        match first_merchant(here) {
            Some(k) => Some(here[k].0),
            None => if here.len() > 0 {
                Some(here[0].0)
            } else {
                None
            },
        }
    }
}

proof fn lemma_first_merchant(s: Seq<(Seq<char>, Person)>)
    ensures
        match first_merchant(s) {
            Some(k) => 0 <= k < s.len() && is_merchant(s[k]) && forall|j: int| 0 <= j < k ==> !is_merchant(#[trigger] s[j]),
            None => forall|j: int| 0 <= j < s.len() ==> !is_merchant(#[trigger] s[j]),
        },
    decreases s.len(),
{
    if s.len() > 0 {
        lemma_first_merchant(s.drop_last());
        assert forall|j: int| 0 <= j < s.len() - 1 implies s.drop_last()[j] == #[trigger] s[j] by {}
    }
}

/// Whom trading with `npc_id` deals with, by id (see [`trade_partner`]).
pub fn resolve_trade_npc(world: &GameWorld, npc_id: &str) -> (r: Option<String>)
    requires
        world.npc_manager.wf(),
    ensures
        match r {
            Some(id) => trade_partner(*world, npc_id@) == Some(id@),
            None => trade_partner(*world, npc_id@) is None,
        },
{
    proof {
        reveal_strlit("");
        reveal_strlit("商人");
        crate::npc_manager::lemma_found_in_range(world.npc_manager, world.current_controlled_id@);
    }
    if !str_eq(npc_id, "") {
        proof {
            assert(npc_id@.len() > 0) by {
                if npc_id@.len() == 0 {
                    assert(npc_id@ =~= ""@);
                }
            }
        }
        return world.npc_manager.resolve_id(npc_id);
    }
    let player = match world.npc_manager.get_npc(world.current_controlled_id.as_str()) {
        None => {
            return None;
        },
        Some(p) => p,
    };
    let here = world.npc_manager.get_npcs_with_ids_at_in_map_excluding(
        player.map.as_str(),
        player.x,
        player.y,
        world.current_controlled_id.as_str(),
    );
    let ghost hv = here@.map_values(|e: (String, &Person)| (e.0@, *e.1));
    proof {
        assert(hv == others_here(*world));
        assert(npc_id@.len() == 0) by {
            assert(npc_id@ == ""@);
        }
        lemma_first_merchant(hv);
    }
    let mut i: usize = 0;
    while i < here.len()
        invariant
            i <= here@.len(),
            hv == here@.map_values(|e: (String, &Person)| (e.0@, *e.1)),
            hv == others_here(*world),
            npc_id@.len() == 0,
            forall|j: int| 0 <= j < i ==> !is_merchant(#[trigger] hv[j]),
        decreases here@.len() - i,
    {
        proof {
            assert(hv[i as int] == (here@[i as int].0@, *here@[i as int].1));
        }
        if str_eq(here[i].1.name.as_str(), "商人") {
            proof {
                reveal_strlit("商人");
                lemma_first_merchant(hv);
                assert(is_merchant(hv[i as int]));
                assert(first_merchant(hv) == Some(i as int));
            }
            return Some(String::from_str(here[i].0.as_str()));
        }
        i = i + 1;
    }
    proof {
        lemma_first_merchant(hv);
        assert(first_merchant(hv) is None);
    }
    if here.len() > 0 {
        proof {
            assert(hv[0] == (here@[0].0@, *here@[0].1));
        }
        Some(String::from_str(here[0].0.as_str()))
    } else {
        None
    }
}

/// The lines of a trade list for the goods `g` shown under the names
/// `names`: `  • <name>  x<count>  <price>金/個`.
pub open spec fn trade_lines(g: Seq<(String, u32, u32)>, names: Seq<Seq<char>>) -> Seq<char>
    decreases g.len(),
{
    if g.len() == 0 || names.len() != g.len() {
        Seq::empty()
    } else {
        trade_lines(g.drop_last(), names.drop_last()) + "  • "@ + names.last() + "  x"@ + decimal(g.last().1 as nat)
            + "  "@ + decimal(g.last().2 as nat) + "金/個\n"@
    }
}

/// The trade panel with `npc_name`, the player holding `gold` coins: what
/// can be bought (`goods`) and what can be sold (`sell`), each shown under
/// the given names.
pub open spec fn trade_text(
    npc_name: Seq<char>,
    gold: nat,
    goods: Seq<(String, u32, u32)>,
    gnames: Seq<Seq<char>>,
    sell: Seq<(String, u32, u32)>,
    snames: Seq<Seq<char>>,
) -> Seq<char> {
    "🤝 與 "@ + npc_name + " 交易    你的金幣: "@ + decimal(gold) + "\n"@ + "═════════════════════════\n"@
        + "【可購買】(名稱 / 庫存 / 買價)\n"@ + (if goods.len() == 0 {
        "  （商人沒有可賣的東西）\n"@
    } else {
        trade_lines(goods, gnames)
    }) + "─────────────────────────\n"@ + "【可出售】(名稱 / 持有 / 賣價)\n"@ + (if sell.len() == 0 {
        "  （你沒有可賣的東西）\n"@
    } else {
        trade_lines(sell, snames)
    })
}

/// Each of `names` is a way of showing the matching item of `g` (see
/// [`display_name_of`]).
pub open spec fn names_shown(g: Seq<(String, u32, u32)>, names: Seq<Seq<char>>) -> bool {
    &&& names.len() == g.len()
    &&& forall|i: int| 0 <= i < g.len() ==> display_name_of(g[i].0@, #[trigger] names[i])
}

/// `t` is the trade view of `g` for `npc_id`: a note when nobody to trade
/// with, the trader or the player is missing; else the panel (see
/// [`trade_text`]) of the trader's goods and the player's sellables.
pub open spec fn trade_view(g: GameWorld, npc_id: Seq<char>, t: Seq<char>) -> bool {
    let m = g.npc_manager;
    match trade_partner(g, npc_id) {
        None => t == "（這裡沒有可以交易的對象。走到商人所在的格子再試試。）"@,
        Some(id) => match m.found(id) {
            None => t == "（找不到交易對象："@ + id + "）"@,
            Some(j) => match m.found(g.current_controlled_id@) {
                None => t == "（找不到玩家角色）"@,
                Some(a) => {
                    let npc = m.people()[j].1;
                    let me = m.people()[a].1;
                    exists|goods: Seq<(String, u32, u32)>, sell: Seq<(String, u32, u32)>, gn: Seq<Seq<char>>, sn: Seq<Seq<char>>|
                        #[trigger] trade_choices(npc.items, me.items, goods, sell, gn, sn) && t == trade_text(
                            npc.name@,
                            me.items.count_of("金幣"@),
                            goods,
                            gn,
                            sell,
                            sn,
                        )
                },
            },
        },
    }
}

/// `goods` and `sell` are what `npc` offers and what `me` can sell, shown
/// under `gn` and `sn`.
pub open spec fn trade_choices(
    npc: Inventory,
    me: Inventory,
    goods: Seq<(String, u32, u32)>,
    sell: Seq<(String, u32, u32)>,
    gn: Seq<Seq<char>>,
    sn: Seq<Seq<char>>,
) -> bool {
    &&& goods_of(npc, goods)
    &&& sellables_of(me, sell)
    &&& names_shown(goods, gn)
    &&& names_shown(sell, sn)
}

/// Appends the lines of `g` to `out`, each item under one of its names.
fn push_trade_lines(out: &mut String, g: &Vec<(String, u32, u32)>) -> (names: Ghost<Seq<Seq<char>>>)
    ensures
        names_shown(g@, names@),
        final(out)@ == old(out)@ + trade_lines(g@, names@),
{
    let ghost start = out@;
    let ghost mut names: Seq<Seq<char>> = Seq::empty();
    let mut i: usize = 0;
    while i < g.len()
        invariant
            i <= g@.len(),
            names.len() == i,
            forall|j: int| 0 <= j < i ==> display_name_of(g@[j].0@, #[trigger] names[j]),
            out@ == start + trade_lines(g@.take(i as int), names),
        decreases g@.len() - i,
    {
        let display = get_item_display_name(g[i].0.as_str());
        out.append("  • ");
        out.append(display.as_str());
        out.append("  x");
        push_decimal(out, g[i].1 as u64);
        out.append("  ");
        push_decimal(out, g[i].2 as u64);
        out.append("金/個\n");
        proof {
            reveal_strlit("  • ");
            reveal_strlit("  x");
            reveal_strlit("  ");
            reveal_strlit("金/個\n");
            let old_names = names;
            names = names.push(display@);
            assert(g@.take(i + 1).drop_last() =~= g@.take(i as int));
            assert(names.drop_last() =~= old_names);
            assert(display_name_of(g@[i as int].0@, names[i as int]));
            assert(out@ =~= start + trade_lines(g@.take(i + 1), names));
        }
        i = i + 1;
    }
    proof {
        assert(g@.take(i as int) =~= g@);
    }
    Ghost(names)
}

/// The trade view for `npc_id` (see [`trade_view`]).
pub fn render_trade(world: &GameWorld, npc_id: &str) -> (r: String)
    requires
        world.npc_manager.wf(),
        forall|i: int| 0 <= i < world.npc_manager.people().len() ==> (#[trigger] world.npc_manager.people()[i]).1.wf(),
    ensures
        trade_view(*world, npc_id@, r@),
{
    proof {
        reveal_strlit("（這裡沒有可以交易的對象。走到商人所在的格子再試試。）");
        reveal_strlit("（找不到交易對象：");
        reveal_strlit("）");
        reveal_strlit("（找不到玩家角色）");
        reveal_strlit("金幣");
        crate::npc_manager::lemma_found_in_range(world.npc_manager, world.current_controlled_id@);
    }
    let resolved = match resolve_trade_npc(world, npc_id) {
        None => {
            return String::from_str("（這裡沒有可以交易的對象。走到商人所在的格子再試試。）");
        },
        Some(id) => id,
    };
    proof {
        crate::npc_manager::lemma_found_in_range(world.npc_manager, resolved@);
    }
    let npc = match world.npc_manager.get_npc(resolved.as_str()) {
        None => {
            let mut t = String::from_str("（找不到交易對象：");
            t.append(resolved.as_str());
            t.append("）");
            return t;
        },
        Some(p) => p,
    };
    let player = match world.npc_manager.get_npc(world.current_controlled_id.as_str()) {
        None => {
            return String::from_str("（找不到玩家角色）");
        },
        Some(p) => p,
    };
    let gold = player.items.get_item_count("金幣");
    let mut out = String::from_str("🤝 與 ");
    out.append(npc.name.as_str());
    out.append(" 交易    你的金幣: ");
    push_decimal(&mut out, gold as u64);
    out.append("\n");
    out.append("═════════════════════════\n");
    out.append("【可購買】(名稱 / 庫存 / 買價)\n");
    let goods = TradeSystem::get_npc_goods(&npc.items);
    let ghost mut gn: Seq<Seq<char>> = Seq::empty();
    if goods.len() == 0 {
        out.append("  （商人沒有可賣的東西）\n");
    } else {
        let Ghost(names) = push_trade_lines(&mut out, &goods);
        proof {
            gn = names;
        }
    }
    out.append("─────────────────────────\n");
    out.append("【可出售】(名稱 / 持有 / 賣價)\n");
    let sell = TradeSystem::get_player_items(&player.items);
    let ghost mut sn: Seq<Seq<char>> = Seq::empty();
    if sell.len() == 0 {
        out.append("  （你沒有可賣的東西）\n");
    } else {
        let Ghost(names) = push_trade_lines(&mut out, &sell);
        proof {
            sn = names;
        }
    }
    proof {
        reveal_strlit("🤝 與 ");
        reveal_strlit(" 交易    你的金幣: ");
        reveal_strlit("\n");
        reveal_strlit("═════════════════════════\n");
        reveal_strlit("【可購買】(名稱 / 庫存 / 買價)\n");
        reveal_strlit("  （商人沒有可賣的東西）\n");
        reveal_strlit("─────────────────────────\n");
        reveal_strlit("【可出售】(名稱 / 持有 / 賣價)\n");
        reveal_strlit("  （你沒有可賣的東西）\n");
        assert(names_shown(goods@, gn));
        assert(names_shown(sell@, sn));
        assert(trade_choices(npc.items, player.items, goods@, sell@, gn, sn));
        assert(out@ =~= trade_text(npc.name@, player.items.count_of("金幣"@), goods@, gn, sell@, sn));
    }
    out
}

} // verus!
