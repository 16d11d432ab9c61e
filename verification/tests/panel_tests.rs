use ratamud::inventory::Inventory;
use ratamud::map::{GameMap, MapType};
use ratamud::panel::{render_centered, render_inventory, render_map_full, render_map_view, render_minimap};

fn small_map() -> GameMap {
    let mut m = GameMap::new_with_type("村".to_string(), 4, 3, MapType::Normal);
    for y in 0..3 {
        for x in 0..4 {
            m.get_point_mut(x, y).unwrap().walkable = x != 3;
        }
    }
    m.get_point_mut(1, 1).unwrap().add_object("石子".to_string());
    m
}

#[test]
fn whole_map() {
    let m = small_map();
    let npcs = vec![(2, 0, 'N'), (2, 0, 'M'), (0, 2, 'F'), (0, 2, 'D')];
    let text = render_map_full(&m, &npcs, 0, 0);
    assert_eq!(
        text,
        "▣ 地圖 — 村 [4x3] 你在 (0, 0)\n@.M#\n.i.#\nF..#\n圖例: @你 M商人 N居民 i物品 .可走 #牆 ?界外"
    );
}

#[test]
fn windows_stay_on_the_map() {
    let m = small_map();
    let npcs = vec![];
    let text = render_centered(&m, &npcs, "T", 3, 2, 2, 2);
    assert_eq!(text, "T — 村 [4x3] 你在 (3, 2)\n.#\n.@\n圖例: @你 M商人 N居民 i物品 .可走 #牆 ?界外");
    let one = render_centered(&m, &npcs, "T", 0, 0, 0, 0);
    assert_eq!(one, "T — 村 [4x3] 你在 (0, 0)\n@\n圖例: @你 M商人 N居民 i物品 .可走 #牆 ?界外");
    let mini = render_minimap(&m, &npcs, 1, 1);
    assert!(mini.starts_with("⊕ 小地圖 — 村 [4x3] 你在 (1, 1)\n..."));
    let view = render_map_view(&m, &npcs, 1, 1, 0, 0);
    assert_eq!(view.lines().count(), 5);
}

#[test]
fn inventory_panel() {
    let mut inv = Inventory::new();
    let empty = render_inventory(&inv, 90, 100, 40, 100);
    assert_eq!(
        empty,
        "🎒 背包\n─────────────────────────\n金幣: 0\nHP: 90/100   MP: 40/100\n─────────────────────────\n（沒有任何物品）\n"
    );
    inv.add_items("金幣", 12);
    inv.add_items("石子", 3);
    inv.add_items("寶石", 1);
    let text = render_inventory(&inv, -5, 100, 0, 100);
    assert_eq!(
        text,
        "🎒 背包\n─────────────────────────\n金幣: 12\nHP: -5/100   MP: 0/100\n─────────────────────────\n  • 寶石 x1\n  • 石子 (stone) x3\n"
    );
}
