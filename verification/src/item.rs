//! Items: their kinds, their catalog and how they are shown.
use vstd::prelude::*;
use crate::random::random_below;
use crate::time_updatable::{TimeInfo, TimeUpdatable};

verus! {

/// The kind of an item.
#[derive(Clone, Copy, Debug, PartialEq, Eq, Hash, Structural)]
pub enum ItemType {
    Miscellaneous,
    Food,
    Weapon,
    Armor,
    Consumable,
    Tool,
}

/// The name of an item kind.
pub open spec fn item_type_name(t: ItemType) -> Seq<char> {
    match t {
        ItemType::Miscellaneous => "雜物"@,
        ItemType::Food => "食物"@,
        ItemType::Weapon => "武器"@,
        ItemType::Armor => "裝備"@,
        ItemType::Consumable => "消耗品"@,
        ItemType::Tool => "工具"@,
    }
}

impl ItemType {
    /// The name of the kind.
    pub fn describe(&self) -> (r: &'static str)
        ensures
            r@ == item_type_name(*self),
    {
        match self {
            ItemType::Miscellaneous => "雜物",
            ItemType::Food => "食物",
            ItemType::Weapon => "武器",
            ItemType::Armor => "裝備",
            ItemType::Consumable => "消耗品",
            ItemType::Tool => "工具",
        }
    }
}

/// An item.
#[derive(Clone, Debug)]
pub struct Item {
    pub name: String,
    /// An English name or short name, when the item has one.
    pub english_name: Option<String>,
    pub item_type: ItemType,
    pub description: String,
    pub value: u32,
    /// How long the item has existed, in seconds.
    pub age: u64,
    pub stories: Vec<String>,
}

/// How an item is shown: its name, its English name in brackets when it has
/// one, and its kind in square brackets.
pub open spec fn item_display(i: Item) -> Seq<char> {
    match i.english_name {
        Some(e) => i.name@ + " ("@ + e@ + ") ["@ + item_type_name(i.item_type) + "]"@,
        None => i.name@ + " ["@ + item_type_name(i.item_type) + "]"@,
    }
}

/// The number of items in the catalog of random items.
pub open spec fn catalog_len() -> nat {
    22
}

/// Entry `k` of the catalog of random items: (name, English name, kind,
/// description, value).
pub open spec fn catalog_entry(k: int) -> (Seq<char>, Seq<char>, ItemType, Seq<char>, u32) {
    if k == 0 {
        ("舊布料"@, "cloth"@, ItemType::Miscellaneous, "一塊破舊的布料"@, 5u32)
    } else if k == 1 {
        ("石子"@, "stone"@, ItemType::Miscellaneous, "光滑的小石子"@, 2u32)
    } else if k == 2 {
        ("樹皮"@, "bark"@, ItemType::Miscellaneous, "剝落的樹皮"@, 3u32)
    } else if k == 3 {
        ("羽毛"@, "feather"@, ItemType::Miscellaneous, "柔軟的羽毛"@, 4u32)
    } else if k == 4 {
        ("蘋果"@, "apple"@, ItemType::Food, "新鮮的紅蘋果"@, 10u32)
    } else if k == 5 {
        ("麵包"@, "bread"@, ItemType::Food, "烤得金黃的麵包"@, 15u32)
    } else if k == 6 {
        ("乾肉"@, "jerky"@, ItemType::Food, "風乾的肉乾"@, 20u32)
    } else if k == 7 {
        ("漿果"@, "berry"@, ItemType::Food, "野生的紫色漿果"@, 8u32)
    } else if k == 8 {
        ("木劍"@, "sword"@, ItemType::Weapon, "簡陋的木製劍"@, 30u32)
    } else if k == 9 {
        ("鐵劍"@, "iron_sword"@, ItemType::Weapon, "鋒利的鐵劍"@, 100u32)
    } else if k == 10 {
        ("弓"@, "bow"@, ItemType::Weapon, "木製的弓"@, 50u32)
    } else if k == 11 {
        ("匕首"@, "dagger"@, ItemType::Weapon, "精緻的小匕首"@, 40u32)
    } else if k == 12 {
        ("皮衣"@, "leather"@, ItemType::Armor, "耐用的皮衣"@, 60u32)
    } else if k == 13 {
        ("頭盔"@, "helmet"@, ItemType::Armor, "堅固的鐵頭盔"@, 80u32)
    } else if k == 14 {
        ("盾牌"@, "shield"@, ItemType::Armor, "厚實的木盾"@, 70u32)
    } else if k == 15 {
        ("治療藥水"@, "potion"@, ItemType::Consumable, "恢復體力的魔法藥水"@, 50u32)
    } else if k == 16 {
        ("魔力藥水"@, "mana"@, ItemType::Consumable, "補充魔力的藍色藥水"@, 45u32)
    } else if k == 17 {
        ("毒藥"@, "poison"@, ItemType::Consumable, "致命的紫色液體"@, 120u32)
    } else if k == 18 {
        ("火把"@, "torch"@, ItemType::Tool, "點燃的木製火把"@, 25u32)
    } else if k == 19 {
        ("繩索"@, "rope"@, ItemType::Tool, "粗糙的麻繩"@, 15u32)
    } else if k == 20 {
        ("鎬"@, "pickaxe"@, ItemType::Tool, "採礦用的工具"@, 35u32)
    } else {
        ("鑰匙"@, "key"@, ItemType::Tool, "古舊的金屬鑰匙"@, 40u32)
    }
}

/// `i` is a new item made from catalog entry `k`.
pub open spec fn made_from_entry(i: Item, k: int) -> bool {
    let (n, e, t, d, v) = catalog_entry(k);
    &&& i.name@ == n
    &&& i.english_name matches Some(en) && en@ == e
    &&& i.item_type == t
    &&& i.description@ == d
    &&& i.value == v
    &&& i.age == 0
    &&& i.stories@.len() == 0
}

fn catalog_row(k: usize) -> (r: (&'static str, &'static str, ItemType, &'static str, u32))
    requires
        k < catalog_len(),
    ensures
        (r.0@, r.1@, r.2, r.3@, r.4) == catalog_entry(k as int),
{
    match k {
        0 => ("舊布料", "cloth", ItemType::Miscellaneous, "一塊破舊的布料", 5),
        1 => ("石子", "stone", ItemType::Miscellaneous, "光滑的小石子", 2),
        2 => ("樹皮", "bark", ItemType::Miscellaneous, "剝落的樹皮", 3),
        3 => ("羽毛", "feather", ItemType::Miscellaneous, "柔軟的羽毛", 4),
        4 => ("蘋果", "apple", ItemType::Food, "新鮮的紅蘋果", 10),
        5 => ("麵包", "bread", ItemType::Food, "烤得金黃的麵包", 15),
        6 => ("乾肉", "jerky", ItemType::Food, "風乾的肉乾", 20),
        7 => ("漿果", "berry", ItemType::Food, "野生的紫色漿果", 8),
        8 => ("木劍", "sword", ItemType::Weapon, "簡陋的木製劍", 30),
        9 => ("鐵劍", "iron_sword", ItemType::Weapon, "鋒利的鐵劍", 100),
        10 => ("弓", "bow", ItemType::Weapon, "木製的弓", 50),
        11 => ("匕首", "dagger", ItemType::Weapon, "精緻的小匕首", 40),
        12 => ("皮衣", "leather", ItemType::Armor, "耐用的皮衣", 60),
        13 => ("頭盔", "helmet", ItemType::Armor, "堅固的鐵頭盔", 80),
        14 => ("盾牌", "shield", ItemType::Armor, "厚實的木盾", 70),
        15 => ("治療藥水", "potion", ItemType::Consumable, "恢復體力的魔法藥水", 50),
        16 => ("魔力藥水", "mana", ItemType::Consumable, "補充魔力的藍色藥水", 45),
        17 => ("毒藥", "poison", ItemType::Consumable, "致命的紫色液體", 120),
        18 => ("火把", "torch", ItemType::Tool, "點燃的木製火把", 25),
        19 => ("繩索", "rope", ItemType::Tool, "粗糙的麻繩", 15),
        20 => ("鎬", "pickaxe", ItemType::Tool, "採礦用的工具", 35),
        _ => ("鑰匙", "key", ItemType::Tool, "古舊的金屬鑰匙", 40),
    }
}

impl Item {
    /// A new item with no age and no stories.
    pub fn new(name: String, english_name: String, item_type: ItemType, description: String, value: u32) -> (r: Self)
        ensures
            r.name == name,
            r.english_name == Some(english_name),
            r.item_type == item_type,
            r.description == description,
            r.value == value,
            r.age == 0,
            r.stories@.len() == 0,
    {
        Item {
            name,
            english_name: Some(english_name),
            item_type,
            description,
            value,
            age: 0,
            stories: Vec::new(),
        }
    }

    /// How the item is shown.
    pub fn display(&self) -> (r: String)
        ensures
            r@ == item_display(*self),
    {
        let mut s = String::from_str(self.name.as_str());
        match &self.english_name {
            Some(eng) => {
                s.append(" (");
                s.append(eng.as_str());
                s.append(") [");
            },
            None => {
                s.append(" [");
            },
        }
        s.append(self.item_type.describe());
        s.append("]");
        s
    }

    /// A new item made from catalog entry `k`.
    pub fn from_catalog(k: usize) -> (r: Self)
        requires
            k < catalog_len(),
        ensures
            made_from_entry(r, k as int),
    {
        let (name, english_name, item_type, description, value) = catalog_row(k);
        Item::new(
            String::from_str(name),
            String::from_str(english_name),
            item_type,
            String::from_str(description),
            value,
        )
    }

    /// A new item made from a catalog entry drawn at random.
    pub fn generate_random() -> (r: Self)
        ensures
            exists|k: int| 0 <= k < catalog_len() && made_from_entry(r, k),
    {
        let k = random_below(22);
        Item::from_catalog(k)
    }
}

impl TimeUpdatable for Item {
    open spec fn can_update(&self) -> bool {
        self.age < u64::MAX
    }

    /// Each tick of the world clock ages the item by one second.
    fn on_time_update(&mut self, _current_time: &TimeInfo)
        ensures
            *final(self) == (Item { age: (old(self).age + 1) as u64, ..*old(self) }),
    {
        self.age = self.age + 1;
    }
}

} // verus!
