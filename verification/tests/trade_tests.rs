use ratamud::inventory::Inventory;
use ratamud::trade::{TradeResult, TradeSystem};

fn inv(items: &[(&str, u32)]) -> Inventory {
    let mut i = Inventory::new();
    for (n, c) in items {
        i.add_items(n, *c);
    }
    i
}

#[test]
fn counting_items() {
    let mut i = inv(&[("蘋果", 3)]);
    assert_eq!(i.get_item_count("蘋果"), 3);
    assert_eq!(i.get_item_count("石子"), 0);
    i.add_items("蘋果", 2);
    assert_eq!(i.get_item_count("蘋果"), 5);
    assert_eq!(i.drop_items("蘋果", 6), None);
    assert_eq!(i.drop_items("蘋果", 5), Some("蘋果".to_string()));
    assert!(!i.contains("蘋果"));
    assert_eq!(i.drop_items("蘋果", 1), None);
    assert!(i.remove_items("石子", 0));
    i.add_items("石子", 0);
    assert!(i.contains("石子"));
    assert!(!i.remove_items("石子", 1));
    i.add_items("石子", 4);
    assert!(i.remove_items("石子", 1));
    assert_eq!(i.get_item_count("石子"), 3);
}

#[test]
fn goods_are_sorted_without_coins() {
    let npc = inv(&[("麵包", 2), ("金幣", 50), ("蘋果", 0), ("乾肉", 1)]);
    let goods = TradeSystem::get_npc_goods(&npc);
    assert_eq!(goods, vec![("乾肉".to_string(), 1, 15), ("麵包".to_string(), 2, 12)]);
}

#[test]
fn buying() {
    let mut player = inv(&[("金幣", 100)]);
    let mut npc = inv(&[("麵包", 2)]);
    match TradeSystem::buy_goods(&mut player, &mut npc, "商人", "麵包", 3, 36) {
        TradeResult::Failed(m) => assert_eq!(m, "商人 沒有足夠的 麵包（只有 2）"),
        TradeResult::Success(m) => panic!("{}", m),
    }
    match TradeSystem::buy_goods(&mut player, &mut npc, "商人", "麵包", 2, 124) {
        TradeResult::Failed(m) => assert_eq!(m, "你沒有足夠的金幣（需要 124，只有 100）"),
        TradeResult::Success(m) => panic!("{}", m),
    }
    match TradeSystem::buy_goods(&mut player, &mut npc, "商人", "麵包", 2, 24) {
        TradeResult::Success(m) => assert_eq!(m, "你花費 24 金幣從 商人 購買了 麵包 x2"),
        TradeResult::Failed(m) => panic!("{}", m),
    }
    assert!(!npc.contains("麵包"));
    assert_eq!(npc.get_item_count("金幣"), 24);
    assert_eq!(player.get_item_count("麵包"), 2);
    assert_eq!(player.get_item_count("金幣"), 76);
}

#[test]
fn buying_with_every_coin() {
    let mut player = inv(&[("金幣", 15)]);
    let mut npc = inv(&[("乾肉", 4), ("金幣", 1)]);
    match TradeSystem::buy_goods(&mut player, &mut npc, "老闆", "乾肉", 1, 15) {
        TradeResult::Success(m) => assert_eq!(m, "你花費 15 金幣從 老闆 購買了 乾肉 x1"),
        TradeResult::Failed(m) => panic!("{}", m),
    }
    assert!(!player.contains("金幣"));
    assert_eq!(player.get_item_count("乾肉"), 1);
    assert_eq!(npc.get_item_count("乾肉"), 3);
    assert_eq!(npc.get_item_count("金幣"), 16);
}

#[test]
fn selling() {
    let mut player = inv(&[("蘋果", 3)]);
    let mut npc = inv(&[("金幣", 5)]);
    match TradeSystem::sell_goods(&mut player, &mut npc, "商人", "蘋果", 4, 3) {
        TradeResult::Failed(m) => assert_eq!(m, "你沒有足夠的 蘋果（只有 3）"),
        TradeResult::Success(m) => panic!("{}", m),
    }
    match TradeSystem::sell_goods(&mut player, &mut npc, "商人", "蘋果", 2, 9) {
        TradeResult::Failed(m) => assert_eq!(m, "商人 沒有足夠的金幣購買（需要 9，只有 5）"),
        TradeResult::Success(m) => panic!("{}", m),
    }
    match TradeSystem::sell_goods(&mut player, &mut npc, "商人", "蘋果", 3, 5) {
        TradeResult::Success(m) => assert_eq!(m, "你以 5 金幣向 商人 出售了 蘋果 x3"),
        TradeResult::Failed(m) => panic!("{}", m),
    }
    assert!(!player.contains("蘋果"));
    assert_eq!(player.get_item_count("金幣"), 5);
    assert!(!npc.contains("金幣"));
    assert_eq!(npc.get_item_count("蘋果"), 3);
}

fn merchant_world() -> (ratamud::world::GameWorld, ratamud::person::Person) {
    let descs = ratamud::person::PersonDescriptions {
        appearance: Vec::new(),
        strength: ratamud::person::AttributeRanges { ranges: Vec::new() },
        build: ratamud::person::AttributeRanges { ranges: Vec::new() },
        health_status: ratamud::person::HealthStatusRanges { ranges: Vec::new() },
    };
    let mut w = ratamud::world::GameWorld::new(descs);
    let mut shop = ratamud::person::Person::new("商人".to_string(), "".to_string(), &w.person_descriptions);
    shop.items.add_items("麵包", 5);
    w.npc_manager.add_npc("shop".to_string(), shop, Vec::new());
    let mut player = ratamud::person::Person::new("me".to_string(), "".to_string(), &w.person_descriptions);
    player.items.add_items("金幣", 100);
    (w, player)
}

#[test]
fn trading_in_the_world() {
    let (mut w, mut player) = merchant_world();
    match TradeSystem::buy_from_npc(&mut w, &mut player, "nobody", "麵包", 1, 12) {
        TradeResult::Failed(m) => assert_eq!(m, "找不到指定的商人"),
        TradeResult::Success(_) => panic!("no such merchant"),
    }
    assert_eq!(player.items.get_item_count("金幣"), 100);
    match TradeSystem::buy_from_npc(&mut w, &mut player, "shop", "麵包", 2, 24) {
        TradeResult::Success(m) => assert_eq!(m, "你花費 24 金幣從 商人 購買了 麵包 x2"),
        TradeResult::Failed(m) => panic!("{}", m),
    }
    assert_eq!(player.items.get_item_count("金幣"), 76);
    assert_eq!(player.items.get_item_count("麵包"), 2);
    let shop = w.npc_manager.get_npc("shop").unwrap();
    assert_eq!(shop.items.get_item_count("麵包"), 3);
    assert_eq!(shop.items.get_item_count("金幣"), 10024);
    match TradeSystem::sell_to_npc(&mut w, &mut player, "shop", "麵包", 1, 8) {
        TradeResult::Success(m) => assert_eq!(m, "你以 8 金幣向 商人 出售了 麵包 x1"),
        TradeResult::Failed(m) => panic!("{}", m),
    }
    assert_eq!(player.items.get_item_count("金幣"), 84);
    assert_eq!(w.npc_manager.get_npc("shop").unwrap().items.get_item_count("麵包"), 4);
    match TradeSystem::sell_to_npc(&mut w, &mut player, "nobody", "麵包", 1, 8) {
        TradeResult::Failed(m) => assert_eq!(m, "找不到指定的商人"),
        TradeResult::Success(_) => panic!("no such merchant"),
    }
}
