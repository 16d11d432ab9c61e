//! Trading with NPCs: outcomes and prices.
use vstd::prelude::*;
use crate::inventory::{added, goods_of, taken, Inventory};
use crate::text::{decimal, push_decimal, str_eq};
use crate::command_interact::person_changed;
use crate::person::Person;
use crate::world::GameWorld;
use crate::item_registry::name_table;

verus! {

/// How a trade ended, with the message to show.
#[derive(Debug)]
pub enum TradeResult {
    Success(String),
    Failed(String),
}

/// The rules of trading.
pub struct TradeSystem;

/// The base price of an item, by its Chinese or English name; 10 for an
/// item not listed.
pub open spec fn base_price(name: Seq<char>) -> u32 {
    if name == "蘋果"@ || name == "apple"@ {
        5
    } else if name == "乾肉"@ || name == "jerky"@ {
        10
    } else if name == "麵包"@ || name == "bread"@ {
        8
    } else if name == "治療藥水"@ || name == "healing_potion"@ {
        50
    } else if name == "木劍"@ || name == "wooden_sword"@ {
        30
    } else if name == "石子"@ || name == "stone"@ {
        1
    } else if name == "魔法書"@ || name == "magic_book"@ || name == "book"@ {
        100
    } else if name == "金幣"@ || name == "gold"@ {
        1
    } else {
        10
    }
}

/// The unit price at which an NPC sells: one and a half times the base
/// price, rounded down.
pub open spec fn unit_buy_price(name: Seq<char>) -> u32 {
    (base_price(name) * 3 / 2) as u32
}

/// The unit price at which an NPC buys: seven tenths of the base price,
/// rounded down.
pub open spec fn unit_sell_price(name: Seq<char>) -> u32 {
    (base_price(name) * 7 / 10) as u32
}

/// When `TradeSystem::buy_goods` may be called.
pub open spec fn buy_ready(player: Inventory, npc: Inventory, item_name: Seq<char>, quantity: u32, price: u32) -> bool {
    &&& player.wf()
    &&& npc.wf()
    &&& !(npc.count_of(item_name) >= quantity && player.count_of("金幣"@) >= price && item_name
        != "金幣"@ && npc.amount(item_name) is None)
    &&& npc.count_of(item_name) >= quantity && player.count_of("金幣"@) >= price ==> {
        &&& npc.count_of("金幣"@) + price <= u32::MAX
        &&& item_name != "金幣"@ ==> player.count_of(item_name) + quantity <= u32::MAX
        &&& item_name == "金幣"@ ==> player.count_of("金幣"@) - price + quantity <= u32::MAX
    }
}

/// The trade of `TradeSystem::buy_goods` between the inventories `player` and
/// `npc`, leaving `player_after` and `npc_after` and answering `r`.
pub open spec fn bought(
    player: Inventory,
    npc: Inventory,
    player_after: Inventory,
    npc_after: Inventory,
    npc_name: Seq<char>,
    item_name: Seq<char>,
    quantity: u32,
    price: u32,
    r: TradeResult,
) -> bool {
    &&& player_after.wf()
    &&& npc_after.wf()
    &&& npc.count_of(item_name) < quantity ==> (r matches TradeResult::Failed(m) && m@ == npc_name
        + " 沒有足夠的 "@ + item_name + "（只有 "@ + decimal(npc.count_of(item_name)) + "）"@
        && player_after == player && npc_after == npc)
    &&& npc.count_of(item_name) >= quantity && player.count_of("金幣"@) < price ==> (r matches TradeResult::Failed(m)
        && m@ == "你沒有足夠的金幣（需要 "@ + decimal(price as nat) + "，只有 "@ + decimal(
        player.count_of("金幣"@),
    ) + "）"@ && player_after == player && npc_after == npc)
    &&& npc.count_of(item_name) >= quantity && player.count_of("金幣"@) >= price ==> {
        &&& r matches TradeResult::Success(m) && m@ == bought_text(price, npc_name, item_name, quantity)
        &&& item_name != "金幣"@ ==> {
            &&& player_after.amount("金幣"@) == taken(player.amount("金幣"@), price)
            &&& player_after.amount(item_name) == added(player.amount(item_name), quantity)
            &&& npc_after.amount("金幣"@) == added(npc.amount("金幣"@), price)
            &&& npc_after.amount(item_name) == taken(npc.amount(item_name), quantity)
        }
        &&& item_name == "金幣"@ ==> {
            &&& player_after.amount("金幣"@) == added(taken(player.amount("金幣"@), price), quantity)
            &&& npc_after.amount("金幣"@) == taken(added(npc.amount("金幣"@), price), quantity)
        }
        &&& forall|k: Seq<char>|
            k != item_name && k != "金幣"@ ==> #[trigger] npc_after.amount(k) == npc.amount(k)
                && player_after.amount(k) == player.amount(k)
    }
}

/// When `TradeSystem::sell_goods` may be called.
pub open spec fn sell_ready(player: Inventory, npc: Inventory, item_name: Seq<char>, quantity: u32, price: u32) -> bool {
    &&& player.wf()
    &&& npc.wf()
    &&& !(price == 0 && npc.amount("金幣"@) is None && player.count_of(item_name) >= quantity)
    &&& !(quantity == 0 && player.amount(item_name) is None && npc.count_of("金幣"@) >= price
        && item_name != "金幣"@)
    &&& player.count_of(item_name) >= quantity && npc.count_of("金幣"@) >= price ==> {
        &&& player.count_of("金幣"@) + price <= u32::MAX
        &&& item_name != "金幣"@ ==> npc.count_of(item_name) + quantity <= u32::MAX
        &&& item_name == "金幣"@ ==> npc.count_of("金幣"@) - price + quantity <= u32::MAX
    }
}

/// The trade of `TradeSystem::sell_goods` between the inventories `player` and
/// `npc`, leaving `player_after` and `npc_after` and answering `r`.
pub open spec fn sold(
    player: Inventory,
    npc: Inventory,
    player_after: Inventory,
    npc_after: Inventory,
    npc_name: Seq<char>,
    item_name: Seq<char>,
    quantity: u32,
    price: u32,
    r: TradeResult,
) -> bool {
    &&& player_after.wf()
    &&& npc_after.wf()
    &&& player.count_of(item_name) < quantity ==> (r matches TradeResult::Failed(m) && m@
        == "你沒有足夠的 "@ + item_name + "（只有 "@ + decimal(player.count_of(item_name)) + "）"@
        && player_after == player && npc_after == npc)
    &&& player.count_of(item_name) >= quantity && npc.count_of("金幣"@) < price ==> (r matches TradeResult::Failed(m)
        && m@ == npc_name + " 沒有足夠的金幣購買（需要 "@ + decimal(price as nat) + "，只有 "@ + decimal(
        npc.count_of("金幣"@),
    ) + "）"@ && player_after == player && npc_after == npc)
    &&& player.count_of(item_name) >= quantity && npc.count_of("金幣"@) >= price ==> {
        &&& r matches TradeResult::Success(m) && m@ == sold_text(price, npc_name, item_name, quantity)
        &&& item_name != "金幣"@ ==> {
            &&& npc_after.amount("金幣"@) == taken(npc.amount("金幣"@), price)
            &&& npc_after.amount(item_name) == added(npc.amount(item_name), quantity)
            &&& player_after.amount("金幣"@) == added(player.amount("金幣"@), price)
            &&& player_after.amount(item_name) == taken(player.amount(item_name), quantity)
        }
        &&& item_name == "金幣"@ ==> {
            &&& npc_after.amount("金幣"@) == added(taken(npc.amount("金幣"@), price), quantity)
            &&& player_after.amount("金幣"@) == taken(added(player.amount("金幣"@), price), quantity)
        }
        &&& forall|k: Seq<char>|
            k != item_name && k != "金幣"@ ==> #[trigger] npc_after.amount(k) == npc.amount(k)
                && player_after.amount(k) == player.amount(k)
    }
}

/// `s` lists what the carrier of `inv` can sell: their goods (see
/// [`goods_of`]) in the same order, each at its selling price.
pub open spec fn sellables_of(inv: Inventory, s: Seq<(String, u32, u32)>) -> bool {
    exists|g: Seq<(String, u32, u32)>|
        #[trigger] goods_of(inv, g) && s.len() == g.len() && forall|k: int|
            0 <= k < s.len() ==> (#[trigger] s[k]).0@ == g[k].0@ && s[k].1 == g[k].1 && s[k].2 == unit_sell_price(
                g[k].0@,
            )
}

impl TradeSystem {
    /// The base price of an item.
    pub fn get_item_base_price(item_name: &str) -> (r: u32)
        ensures
            r == base_price(item_name@),
    {
        if str_eq(item_name, "蘋果") || str_eq(item_name, "apple") {
            5
        } else if str_eq(item_name, "乾肉") || str_eq(item_name, "jerky") {
            10
        } else if str_eq(item_name, "麵包") || str_eq(item_name, "bread") {
            8
        } else if str_eq(item_name, "治療藥水") || str_eq(item_name, "healing_potion") {
            50
        } else if str_eq(item_name, "木劍") || str_eq(item_name, "wooden_sword") {
            30
        } else if str_eq(item_name, "石子") || str_eq(item_name, "stone") {
            1
        } else if str_eq(item_name, "魔法書") || str_eq(item_name, "magic_book") || str_eq(item_name, "book") {
            100
        } else if str_eq(item_name, "金幣") || str_eq(item_name, "gold") {
            1
        } else {
            10
        }
    }

    /// What the player pays for `quantity` of an item. The unit price is one
    /// and a half times the base price, rounded down, which for every base
    /// price of the list is what the computation in single precision gives.
    pub fn calculate_buy_price(item_name: &str, quantity: u32) -> (r: u32)
        requires
            unit_buy_price(item_name@) * quantity <= u32::MAX,
        ensures
            r == unit_buy_price(item_name@) * quantity,
    {
        let base = Self::get_item_base_price(item_name);
        let unit = base * 3 / 2;
        unit * quantity
    }

    /// What the player receives for `quantity` of an item. The unit price is
    /// seven tenths of the base price, rounded down, which for every base
    /// price of the list is what the computation in single precision gives.
    pub fn calculate_sell_price(item_name: &str, quantity: u32) -> (r: u32)
        requires
            unit_sell_price(item_name@) * quantity <= u32::MAX,
        ensures
            r == unit_sell_price(item_name@) * quantity,
    {
        let base = Self::get_item_base_price(item_name);
        let unit = base * 7 / 10;
        unit * quantity
    }
}


/// The message of a purchase.
pub open spec fn bought_text(price: u32, npc: Seq<char>, item: Seq<char>, quantity: u32) -> Seq<char> {
    "你花費 "@ + decimal(price as nat) + " 金幣從 "@ + npc + " 購買了 "@ + item + " x"@ + decimal(quantity as nat)
}

/// The message of a sale.
pub open spec fn sold_text(price: u32, npc: Seq<char>, item: Seq<char>, quantity: u32) -> Seq<char> {
    "你以 "@ + decimal(price as nat) + " 金幣向 "@ + npc + " 出售了 "@ + item + " x"@ + decimal(quantity as nat)
}

impl TradeSystem {
    /// The player buys `quantity` of `item_name` from the NPC `npc_name`
    /// for `price` gold coins: refused when the NPC holds fewer, or the
    /// player has fewer coins; otherwise the coins go from the player to
    /// the NPC and then the items from the NPC to the player.
    pub fn buy_goods(
        player: &mut Inventory,
        npc: &mut Inventory,
        npc_name: &str,
        item_name: &str,
        quantity: u32,
        price: u32,
    ) -> (r: TradeResult)
        requires
            buy_ready(*old(player), *old(npc), item_name@, quantity, price),
        ensures
            bought(*old(player), *old(npc), *final(player), *final(npc), npc_name@, item_name@, quantity, price, r),
    {
        proof {
            reveal_strlit("金幣");
        }
        let npc_has = npc.get_item_count(item_name);
        if npc_has < quantity {
            let mut m = String::from_str(npc_name);
            m.append(" 沒有足夠的 ");
            m.append(item_name);
            m.append("（只有 ");
            push_decimal(&mut m, npc_has as u64);
            m.append("）");
            return TradeResult::Failed(m);
        }
        let player_gold = player.get_item_count("金幣");
        if player_gold < price {
            let mut m = String::from_str("你沒有足夠的金幣（需要 ");
            push_decimal(&mut m, price as u64);
            m.append("，只有 ");
            push_decimal(&mut m, player_gold as u64);
            m.append("）");
            return TradeResult::Failed(m);
        }
        player.remove_items("金幣", price);
        npc.add_items("金幣", price);
        npc.remove_items(item_name, quantity);
        player.add_items(item_name, quantity);
        let mut m = String::from_str("你花費 ");
        push_decimal(&mut m, price as u64);
        m.append(" 金幣從 ");
        m.append(npc_name);
        m.append(" 購買了 ");
        m.append(item_name);
        m.append(" x");
        push_decimal(&mut m, quantity as u64);
        TradeResult::Success(m)
    }

    /// The player sells `quantity` of `item_name` to the NPC `npc_name` for
    /// `price` gold coins: refused when the player holds fewer, or the NPC
    /// has fewer coins; otherwise the coins go from the NPC to the player
    /// and then the items from the player to the NPC.
    pub fn sell_goods(
        player: &mut Inventory,
        npc: &mut Inventory,
        npc_name: &str,
        item_name: &str,
        quantity: u32,
        price: u32,
    ) -> (r: TradeResult)
        requires
            sell_ready(*old(player), *old(npc), item_name@, quantity, price),
        ensures
            sold(*old(player), *old(npc), *final(player), *final(npc), npc_name@, item_name@, quantity, price, r),
    {
        proof {
            reveal_strlit("金幣");
        }
        let player_has = player.get_item_count(item_name);
        if player_has < quantity {
            let mut m = String::from_str("你沒有足夠的 ");
            m.append(item_name);
            m.append("（只有 ");
            push_decimal(&mut m, player_has as u64);
            m.append("）");
            return TradeResult::Failed(m);
        }
        let npc_gold = npc.get_item_count("金幣");
        if npc_gold < price {
            let mut m = String::from_str(npc_name);
            m.append(" 沒有足夠的金幣購買（需要 ");
            push_decimal(&mut m, price as u64);
            m.append("，只有 ");
            push_decimal(&mut m, npc_gold as u64);
            m.append("）");
            return TradeResult::Failed(m);
        }
        npc.remove_items("金幣", price);
        player.add_items("金幣", price);
        player.remove_items(item_name, quantity);
        npc.add_items(item_name, quantity);
        let mut m = String::from_str("你以 ");
        push_decimal(&mut m, price as u64);
        m.append(" 金幣向 ");
        m.append(npc_name);
        m.append(" 出售了 ");
        m.append(item_name);
        m.append(" x");
        push_decimal(&mut m, quantity as u64);
        TradeResult::Success(m)
    }

    /// What the player can sell (see [`sellables_of`]): the goods they
    /// carry, each at its selling price.
    pub fn get_player_items(player: &Inventory) -> (r: Vec<(String, u32, u32)>)
        requires
            player.wf(),
        ensures
            sellables_of(*player, r@),
    {
        let g = player.goods();
        let mut r: Vec<(String, u32, u32)> = Vec::new();
        let mut i: usize = 0;
        while i < g.len()
            invariant
                i <= g@.len(),
                goods_of(*player, g@),
                r@.len() == i,
                forall|k: int|
                    0 <= k < i ==> (#[trigger] r@[k]).0@ == g@[k].0@ && r@[k].1 == g@[k].1 && r@[k].2
                        == unit_sell_price(g@[k].0@),
            decreases g@.len() - i,
        {
            let price = Self::calculate_sell_price(g[i].0.as_str(), 1);
            r.push((String::from_str(g[i].0.as_str()), g[i].1, price));
            i = i + 1;
        }
        r
    }

    /// The NPC's goods: each item it carries other than gold coins, with
    /// its count and the price of one, in the order of the names.
    pub fn get_npc_goods(npc: &Inventory) -> (r: Vec<(String, u32, u32)>)
        requires
            npc.wf(),
        ensures
            goods_of(*npc, r@),
    {
        npc.goods()
    }
}

/// An NPC never pays more for an item than it asks for it: for every item
/// and quantity, the selling price is at most the buying price.
pub proof fn law_sell_price_not_above_buy_price(name: Seq<char>, quantity: nat)
    ensures
        unit_sell_price(name) <= unit_buy_price(name),
        unit_sell_price(name) * quantity <= unit_buy_price(name) * quantity,
{
    let b = base_price(name);
    assert(b <= 100);
    assert(b * 7 / 10 <= b * 3 / 2) by (nonlinear_arith)
        requires
            0 <= b <= 100,
    ;
    let s = unit_sell_price(name);
    let u = unit_buy_price(name);
    assert(s * quantity <= u * quantity) by (nonlinear_arith)
        requires
            s <= u,
    ;
}

/// The number of items a listed count stands for, 0 when not listed.
pub open spec fn opt_count(a: Option<u32>) -> int {
    match a {
        Some(c) => c as int,
        None => 0,
    }
}

/// A trade moves items and coins without making or losing any: for an
/// item other than coins, the two sides' counts of the item, and of the
/// coins, add up to what they did before. Stated for a sale (the player
/// gives the items and takes the coins); a purchase is the same with the
/// player and the NPC in each other's place.
pub proof fn law_sale_conserves(player_item: Option<u32>, npc_item: Option<u32>, player_gold: Option<u32>, npc_gold: Option<u32>, quantity: u32, price: u32)
    requires
        opt_count(player_item) >= quantity,
        opt_count(npc_gold) >= price,
        player_item is Some || quantity == 0,
        npc_gold is Some || price == 0,
        opt_count(player_gold) + price <= u32::MAX,
        opt_count(npc_item) + quantity <= u32::MAX,
    ensures
        opt_count(taken(player_item, quantity)) + opt_count(added(npc_item, quantity)) == opt_count(
            player_item,
        ) + opt_count(npc_item),
        opt_count(added(player_gold, price)) + opt_count(taken(npc_gold, price)) == opt_count(player_gold)
            + opt_count(npc_gold),
{
}

/// What `TradeSystem::buy_from_npc` leaves behind and answers: the NPC that
/// `npc_id` finds sells to the player (see [`bought`]), only the two
/// inventories changing; with no such NPC nothing changes and the trade is
/// refused.
pub open spec fn bought_in_world(
    w0: GameWorld,
    w1: GameWorld,
    p0: Person,
    p1: Person,
    npc_id: Seq<char>,
    item_name: Seq<char>,
    quantity: u32,
    price: u32,
    r: TradeResult,
) -> bool {
    let m = w0.npc_manager;
    match m.found(npc_id) {
        None => r matches TradeResult::Failed(e) && e@ == "找不到指定的商人"@ && w1 == w0 && p1 == p0,
        Some(j) => {
            let npc = m.people()[j].1;
            let n1 = w1.npc_manager.people()[j].1;
            &&& bought(p0.items, npc.items, p1.items, n1.items, npc.name@, item_name, quantity, price, r)
            &&& p1 == (Person { items: p1.items, ..p0 })
            &&& person_changed(m, w1.npc_manager, j, Person { items: n1.items, ..npc })
            &&& w1 == (GameWorld { npc_manager: w1.npc_manager, ..w0 })
        },
    }
}

/// What `TradeSystem::sell_to_npc` leaves behind and answers: the player
/// sells to the NPC that `npc_id` finds (see [`sold`]), only the two
/// inventories changing; with no such NPC nothing changes and the trade is
/// refused.
pub open spec fn sold_in_world(
    w0: GameWorld,
    w1: GameWorld,
    p0: Person,
    p1: Person,
    npc_id: Seq<char>,
    item_name: Seq<char>,
    quantity: u32,
    price: u32,
    r: TradeResult,
) -> bool {
    let m = w0.npc_manager;
    match m.found(npc_id) {
        None => r matches TradeResult::Failed(e) && e@ == "找不到指定的商人"@ && w1 == w0 && p1 == p0,
        Some(j) => {
            let npc = m.people()[j].1;
            let n1 = w1.npc_manager.people()[j].1;
            &&& sold(p0.items, npc.items, p1.items, n1.items, npc.name@, item_name, quantity, price, r)
            &&& p1 == (Person { items: p1.items, ..p0 })
            &&& person_changed(m, w1.npc_manager, j, Person { items: n1.items, ..npc })
            &&& w1 == (GameWorld { npc_manager: w1.npc_manager, ..w0 })
        },
    }
}

impl TradeSystem {
    /// `player` buys `quantity` of `item_name` for `price` gold coins from
    /// the NPC that `npc_id` finds in `world` (see [`bought_in_world`]).
    pub fn buy_from_npc(
        world: &mut GameWorld,
        player: &mut Person,
        npc_id: &str,
        item_name: &str,
        quantity: u32,
        price: u32,
    ) -> (r: TradeResult)
        requires
            old(world).npc_manager.wf(),
            old(world).npc_manager.found(npc_id@) matches Some(j) ==> buy_ready(
                old(player).items,
                old(world).npc_manager.people()[j].1.items,
                item_name@,
                quantity,
                price,
            ),
        ensures
            bought_in_world(*old(world), *final(world), *old(player), *final(player), npc_id@, item_name@, quantity, price, r),
    {
        proof {
            reveal_strlit("找不到指定的商人");
            crate::npc_manager::lemma_found_in_range(world.npc_manager, npc_id@);
        }
        match world.npc_manager.get_npc_mut(npc_id) {
            None => TradeResult::Failed(String::from_str("找不到指定的商人")),
            Some(npc) => {
                let name = String::from_str(npc.name.as_str());
                Self::buy_goods(&mut player.items, &mut npc.items, name.as_str(), item_name, quantity, price)
            },
        }
    }

    /// `player` sells `quantity` of `item_name` for `price` gold coins to
    /// the NPC that `npc_id` finds in `world` (see [`sold_in_world`]).
    pub fn sell_to_npc(
        world: &mut GameWorld,
        player: &mut Person,
        npc_id: &str,
        item_name: &str,
        quantity: u32,
        price: u32,
    ) -> (r: TradeResult)
        requires
            old(world).npc_manager.wf(),
            old(world).npc_manager.found(npc_id@) matches Some(j) ==> sell_ready(
                old(player).items,
                old(world).npc_manager.people()[j].1.items,
                item_name@,
                quantity,
                price,
            ),
        ensures
            sold_in_world(*old(world), *final(world), *old(player), *final(player), npc_id@, item_name@, quantity, price, r),
    {
        proof {
            reveal_strlit("找不到指定的商人");
            crate::npc_manager::lemma_found_in_range(world.npc_manager, npc_id@);
        }
        match world.npc_manager.get_npc_mut(npc_id) {
            None => TradeResult::Failed(String::from_str("找不到指定的商人")),
            Some(npc) => {
                let name = String::from_str(npc.name.as_str());
                Self::sell_goods(&mut player.items, &mut npc.items, name.as_str(), item_name, quantity, price)
            },
        }
    }
}

/// The English names that the item registry knows but the price list does
/// not: a short sword, a potion and a coin are priced as unlisted items,
/// though their Chinese names are listed.
pub open spec fn priced_apart(e: Seq<char>) -> bool {
    e == "sword"@ || e == "potion"@ || e == "coin"@
}

/// An item costs the same under its Chinese name and under each English
/// name that the item registry gives it (see [`crate::item_registry`]),
/// but for the English names that the price list leaves out.
pub proof fn law_price_same_in_both_languages(k: int)
    requires
        0 <= k < name_table().len(),
        !priced_apart(name_table()[k].0),
    ensures
        base_price(name_table()[k].1) == base_price(name_table()[k].0),
{
    reveal_strlit("蘋果");
    reveal_strlit("apple");
    reveal_strlit("乾肉");
    reveal_strlit("jerky");
    reveal_strlit("麵包");
    reveal_strlit("bread");
    reveal_strlit("治療藥水");
    reveal_strlit("healing_potion");
    reveal_strlit("木劍");
    reveal_strlit("wooden_sword");
    reveal_strlit("石子");
    reveal_strlit("stone");
    reveal_strlit("魔法書");
    reveal_strlit("magic_book");
    reveal_strlit("book");
    reveal_strlit("金幣");
    reveal_strlit("gold");
    reveal_strlit("sword");
    reveal_strlit("potion");
    reveal_strlit("coin");
    reveal_strlit("cloth");
    reveal_strlit("bark");
    reveal_strlit("feather");
    reveal_strlit("berry");
    reveal_strlit("iron_sword");
    reveal_strlit("bow");
    reveal_strlit("dagger");
    reveal_strlit("leather");
    reveal_strlit("helmet");
    reveal_strlit("shield");
    reveal_strlit("mana");
    reveal_strlit("poison");
    reveal_strlit("torch");
    reveal_strlit("rope");
    reveal_strlit("pickaxe");
    reveal_strlit("key");
    reveal_strlit("舊布料");
    reveal_strlit("樹皮");
    reveal_strlit("羽毛");
    reveal_strlit("漿果");
    reveal_strlit("鐵劍");
    reveal_strlit("弓");
    reveal_strlit("匕首");
    reveal_strlit("皮衣");
    reveal_strlit("頭盔");
    reveal_strlit("盾牌");
    reveal_strlit("魔力藥水");
    reveal_strlit("毒藥");
    reveal_strlit("火把");
    reveal_strlit("繩索");
    reveal_strlit("鎬");
    reveal_strlit("鑰匙");
    assert("蘋果"@.len() == 2 && "蘋果"@[0] == '蘋');
    assert("apple"@.len() == 5 && "apple"@[0] == 'a');
    assert("乾肉"@.len() == 2 && "乾肉"@[0] == '乾');
    assert("jerky"@.len() == 5 && "jerky"@[0] == 'j');
    assert("麵包"@.len() == 2 && "麵包"@[0] == '麵');
    assert("bread"@.len() == 5 && "bread"@[0] == 'b' && "bread"@[1] == 'r');
    assert("治療藥水"@.len() == 4 && "治療藥水"@[0] == '治');
    assert("healing_potion"@.len() == 14);
    assert("木劍"@.len() == 2 && "木劍"@[0] == '木');
    assert("wooden_sword"@.len() == 12);
    assert("石子"@.len() == 2 && "石子"@[0] == '石');
    assert("stone"@.len() == 5 && "stone"@[0] == 's' && "stone"@[1] == 't');
    assert("魔法書"@.len() == 3 && "魔法書"@[0] == '魔');
    assert("magic_book"@.len() == 10 && "magic_book"@[0] == 'm');
    assert("book"@.len() == 4 && "book"@[0] == 'b' && "book"@[1] == 'o');
    assert("金幣"@.len() == 2 && "金幣"@[0] == '金');
    assert("gold"@.len() == 4 && "gold"@[0] == 'g');
    assert("sword"@.len() == 5 && "sword"@[0] == 's' && "sword"@[1] == 'w');
    assert("potion"@.len() == 6 && "potion"@[0] == 'p' && "potion"@[1] == 'o' && "potion"@[2] == 't');
    assert("coin"@.len() == 4 && "coin"@[0] == 'c');
    assert("cloth"@.len() == 5 && "cloth"@[0] == 'c');
    assert("bark"@.len() == 4 && "bark"@[0] == 'b' && "bark"@[1] == 'a');
    assert("feather"@.len() == 7 && "feather"@[0] == 'f');
    assert("berry"@.len() == 5 && "berry"@[0] == 'b' && "berry"@[1] == 'e');
    assert("iron_sword"@.len() == 10 && "iron_sword"@[0] == 'i');
    assert("bow"@.len() == 3 && "bow"@[0] == 'b');
    assert("dagger"@.len() == 6 && "dagger"@[0] == 'd');
    assert("leather"@.len() == 7 && "leather"@[0] == 'l');
    assert("helmet"@.len() == 6 && "helmet"@[0] == 'h');
    assert("shield"@.len() == 6 && "shield"@[0] == 's');
    assert("mana"@.len() == 4 && "mana"@[0] == 'm');
    assert("poison"@.len() == 6 && "poison"@[0] == 'p' && "poison"@[1] == 'o' && "poison"@[2] == 'i');
    assert("torch"@.len() == 5 && "torch"@[0] == 't');
    assert("rope"@.len() == 4 && "rope"@[0] == 'r');
    assert("pickaxe"@.len() == 7 && "pickaxe"@[0] == 'p');
    assert("key"@.len() == 3 && "key"@[0] == 'k');
    assert("舊布料"@.len() == 3 && "舊布料"@[0] == '舊');
    assert("樹皮"@.len() == 2 && "樹皮"@[0] == '樹');
    assert("羽毛"@.len() == 2 && "羽毛"@[0] == '羽');
    assert("漿果"@.len() == 2 && "漿果"@[0] == '漿');
    assert("鐵劍"@.len() == 2 && "鐵劍"@[0] == '鐵');
    assert("弓"@.len() == 1 && "弓"@[0] == '弓');
    assert("匕首"@.len() == 2 && "匕首"@[0] == '匕');
    assert("皮衣"@.len() == 2 && "皮衣"@[0] == '皮');
    assert("頭盔"@.len() == 2 && "頭盔"@[0] == '頭');
    assert("盾牌"@.len() == 2 && "盾牌"@[0] == '盾');
    assert("魔力藥水"@.len() == 4 && "魔力藥水"@[0] == '魔');
    assert("毒藥"@.len() == 2 && "毒藥"@[0] == '毒');
    assert("火把"@.len() == 2 && "火把"@[0] == '火');
    assert("繩索"@.len() == 2 && "繩索"@[0] == '繩');
    assert("鎬"@.len() == 1 && "鎬"@[0] == '鎬');
    assert("鑰匙"@.len() == 2 && "鑰匙"@[0] == '鑰');
}

/// An NPC sells an item for at least its base price and buys it for at
/// most that: the buying price never falls below the selling price.
pub proof fn law_buy_price_covers_sell_price(name: Seq<char>)
    ensures
        unit_sell_price(name) <= base_price(name) <= unit_buy_price(name),
{
}

} // verus!
