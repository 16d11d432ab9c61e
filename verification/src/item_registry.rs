//! The item name registry: English item names and their Chinese names, and
//! the foods with the health they restore.
use vstd::prelude::*;
use crate::text::{lowercase, str_eq, to_lowercase};

verus! {

/// The English item names with their Chinese names, each English name once.
pub open spec fn name_table() -> Seq<(Seq<char>, Seq<char>)> {
    seq![
        ("cloth"@, "舊布料"@),
        ("stone"@, "石子"@),
        ("bark"@, "樹皮"@),
        ("feather"@, "羽毛"@),
        ("apple"@, "蘋果"@),
        ("bread"@, "麵包"@),
        ("jerky"@, "乾肉"@),
        ("berry"@, "漿果"@),
        ("sword"@, "木劍"@),
        ("iron_sword"@, "鐵劍"@),
        ("bow"@, "弓"@),
        ("dagger"@, "匕首"@),
        ("leather"@, "皮衣"@),
        ("helmet"@, "頭盔"@),
        ("shield"@, "盾牌"@),
        ("potion"@, "治療藥水"@),
        ("mana"@, "魔力藥水"@),
        ("poison"@, "毒藥"@),
        ("torch"@, "火把"@),
        ("rope"@, "繩索"@),
        ("pickaxe"@, "鎬"@),
        ("key"@, "鑰匙"@),
        ("book"@, "魔法書"@),
        ("magic_book"@, "魔法書"@),
        ("gold"@, "金幣"@),
        ("coin"@, "金幣"@),
    ]
}

/// The Chinese name that the table `t` gives the English name `e` (its
/// first entry for `e`; the registry's table names each English name once).
pub open spec fn lookup(t: Seq<(Seq<char>, Seq<char>)>, e: Seq<char>) -> Option<Seq<char>>
    decreases t.len(),
{
    if t.len() == 0 {
        None
    } else if t[0].0 == e {
        Some(t[0].1)
    } else {
        lookup(t.drop_first(), e)
    }
}

/// The Chinese name of the English item name `e`.
pub open spec fn chinese_of(e: Seq<char>) -> Option<Seq<char>> {
    lookup(name_table(), e)
}

/// `c` is the Chinese name of some English item name.
pub open spec fn is_chinese_name(c: Seq<char>) -> bool {
    exists|k: int| 0 <= k < name_table().len() && name_table()[k].1 == c
}

/// The health that the food `name` restores.
pub open spec fn food_hp(name: Seq<char>) -> Option<i32> {
    if name == "蘋果"@ {
        Some(300i32)
    } else if name == "麵包"@ {
        Some(500i32)
    } else if name == "乾肉"@ {
        Some(800i32)
    } else if name == "漿果"@ {
        Some(200i32)
    } else {
        None
    }
}

fn table() -> (r: Vec<(&'static str, &'static str)>)
    ensures
        r@.map_values(|p: (&'static str, &'static str)| (p.0@, p.1@)) == name_table(),
{
    let r = vec![
        ("cloth", "舊布料"),
        ("stone", "石子"),
        ("bark", "樹皮"),
        ("feather", "羽毛"),
        ("apple", "蘋果"),
        ("bread", "麵包"),
        ("jerky", "乾肉"),
        ("berry", "漿果"),
        ("sword", "木劍"),
        ("iron_sword", "鐵劍"),
        ("bow", "弓"),
        ("dagger", "匕首"),
        ("leather", "皮衣"),
        ("helmet", "頭盔"),
        ("shield", "盾牌"),
        ("potion", "治療藥水"),
        ("mana", "魔力藥水"),
        ("poison", "毒藥"),
        ("torch", "火把"),
        ("rope", "繩索"),
        ("pickaxe", "鎬"),
        ("key", "鑰匙"),
        ("book", "魔法書"),
        ("magic_book", "魔法書"),
        ("gold", "金幣"),
        ("coin", "金幣"),
    ];
    proof {
        assert(r@.map_values(|p: (&'static str, &'static str)| (p.0@, p.1@)) =~= name_table());
    }
    r
}

/// Whether `item_name` is a food.
pub fn is_food(item_name: &str) -> (r: bool)
    ensures
        r == food_hp(item_name@) is Some,
{
    get_food_hp(item_name).is_some()
}

/// The health that the food `item_name` restores.
pub fn get_food_hp(item_name: &str) -> (r: Option<i32>)
    ensures
        r == food_hp(item_name@),
{
    if str_eq(item_name, "蘋果") {
        Some(300)
    } else if str_eq(item_name, "麵包") {
        Some(500)
    } else if str_eq(item_name, "乾肉") {
        Some(800)
    } else if str_eq(item_name, "漿果") {
        Some(200)
    } else {
        None
    }
}

/// The Chinese name of an item typed in English (in any case); any other
/// input as it is.
pub fn resolve_item_name(input: &str) -> (r: String)
    ensures
        r@ == (match chinese_of(lowercase(input@)) {
            Some(c) => c,
            None => input@,
        }),
{
    let lower = to_lowercase(input);
    let t = table();
    let ghost tv = t@.map_values(|p: (&'static str, &'static str)| (p.0@, p.1@));
    let mut i: usize = 0;
    proof {
        assert(tv.skip(0) =~= tv);
    }
    while i < t.len()
        invariant
            i <= t@.len(),
            tv == t@.map_values(|p: (&'static str, &'static str)| (p.0@, p.1@)),
            tv == name_table(),
            lower@ == lowercase(input@),
            lookup(tv, lower@) == lookup(tv.skip(i as int), lower@),
        decreases t@.len() - i,
    {
        proof {
            assert(tv.skip(i as int).drop_first() =~= tv.skip(i + 1));
        }
        if str_eq(t[i].0, lower.as_str()) {
            proof {
                assert(tv.skip(i as int)[0] == tv[i as int]);
                assert(tv[i as int] == (t@[i as int].0@, t@[i as int].1@));
            }
            return String::from_str(t[i].1);
        }
        i = i + 1;
    }
    proof {
        assert(tv.skip(i as int) =~= seq![]);
    }
    String::from_str(input)
}

/// `d` is a display name of the Chinese item name `c`: `c` followed by one
/// of its English names in brackets, or `c` itself when it has none.
pub open spec fn display_name_of(c: Seq<char>, d: Seq<char>) -> bool {
    if is_chinese_name(c) {
        exists|k: int| 0 <= k < name_table().len() && name_table()[k].1 == c && d == c + " ("@ + name_table()[k].0 + ")"@
    } else {
        d == c
    }
}

/// A Chinese item name followed by one of its English names in brackets;
/// a name without an English name as it is. Where two English names share
/// the Chinese name, which one is shown is left open.
pub fn get_item_display_name(chinese_name: &str) -> (r: String)
    ensures
        is_chinese_name(chinese_name@) ==> exists|k: int|
            0 <= k < name_table().len() && name_table()[k].1 == chinese_name@ && r@ == chinese_name@
                + " ("@ + name_table()[k].0 + ")"@,
        !is_chinese_name(chinese_name@) ==> r@ == chinese_name@,
{
    let t = table();
    let ghost tv = t@.map_values(|p: (&'static str, &'static str)| (p.0@, p.1@));
    let mut i: usize = 0;
    while i < t.len()
        invariant
            i <= t@.len(),
            tv == t@.map_values(|p: (&'static str, &'static str)| (p.0@, p.1@)),
            tv == name_table(),
            forall|j: int| 0 <= j < i ==> tv[j].1 != chinese_name@,
        decreases t@.len() - i,
    {
        if str_eq(t[i].1, chinese_name) {
            let mut s = String::from_str(chinese_name);
            s.append(" (");
            s.append(t[i].0);
            s.append(")");
            proof {
                assert(tv[i as int].1 == chinese_name@);
            }
            return s;
        }
        i = i + 1;
    }
    String::from_str(chinese_name)
}

/// The foods and the health each restores: 蘋果 300, 麵包 500, 乾肉 800
/// and 漿果 200; no other name is a food (see [`get_food_hp`] and
/// [`is_food`]). Each food is an item that the registry names, so it can be
/// typed under its English name as well.
pub proof fn law_food_table(n: Seq<char>, h: i32)
    ensures
        food_hp(n) == Some(h) <==> ((n == "蘋果"@ && h == 300) || (n == "麵包"@ && h == 500) || (n
            == "乾肉"@ && h == 800) || (n == "漿果"@ && h == 200)),
        food_hp(n) is Some ==> is_chinese_name(n),
{
    reveal_strlit("蘋果");
    reveal_strlit("麵包");
    reveal_strlit("乾肉");
    reveal_strlit("漿果");
    assert("蘋果"@.len() == 2 && "蘋果"@[0] == '蘋');
    assert("麵包"@.len() == 2 && "麵包"@[0] == '麵');
    assert("乾肉"@.len() == 2 && "乾肉"@[0] == '乾');
    assert("漿果"@.len() == 2 && "漿果"@[0] == '漿');
    if food_hp(n) is Some {
        let t = name_table();
        if n == "蘋果"@ {
            assert(t[4].1 == n);
        } else if n == "麵包"@ {
            assert(t[5].1 == n);
        } else if n == "乾肉"@ {
            assert(t[6].1 == n);
        } else {
            assert(t[7].1 == n);
        }
    }
}

} // verus!
