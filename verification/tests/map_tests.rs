use ratamud::map::{DescriptionDb, GameMap, MapType, Point};
use ratamud::observable::Observable;

#[test]
fn walkable_rates() {
    assert_eq!(MapType::Normal.walkable_percent(), 70);
    assert_eq!(MapType::Mountain.walkable_percent(), 40);
    assert_eq!(MapType::Desert.walkable_percent(), 75);
}

#[test]
fn descriptions_come_from_the_type() {
    let db = DescriptionDb::new();
    let d = db.get_description(&MapType::Cave).unwrap();
    assert!(!d.is_empty());
    let mut db2 = DescriptionDb::new();
    assert!(db2.load_from_file("x", &MapType::Forest).is_ok());
}

#[test]
fn point_objects() {
    let mut p = Point::new(1, 2, true, "草地".to_string());
    assert_eq!((p.x, p.y), (1, 2));
    p.add_object("a".to_string());
    p.add_object("b".to_string());
    p.add_object("a".to_string());
    assert!(p.remove_object("a"));
    assert_eq!(p.objects, vec!["b".to_string(), "a".to_string()]);
    assert!(!p.remove_object("c"));
    assert_eq!(p.objects.len(), 2);
    let r = Point::random(3, 4);
    assert_eq!((r.x, r.y), (3, 4));
    assert!(r.objects.is_empty());
}

fn grid(width: usize, height: usize, walls: &[(usize, usize)]) -> GameMap {
    let mut m = GameMap::new_with_type("測試".to_string(), width, height, MapType::Forest);
    for y in 0..height {
        for x in 0..width {
            let p = m.get_point_mut(x, y).unwrap();
            p.walkable = !walls.contains(&(x, y));
        }
    }
    m
}

#[test]
fn map_shape_and_lookups() {
    let m = GameMap::new("a".to_string(), 4, 3);
    assert_eq!(m.points.len(), 3);
    assert!(m.points.iter().all(|r| r.len() == 4));
    assert_eq!(m.get_point(3, 2).map(|p| (p.x, p.y)), Some((3, 2)));
    assert!(m.get_point(4, 0).is_none());
    assert!(m.get_point(0, 3).is_none());
}

#[test]
fn walkable_points_row_major() {
    let m = grid(3, 2, &[(1, 0), (0, 1)]);
    assert_eq!(m.get_walkable_points(), vec![(0, 0), (2, 0), (1, 1), (2, 1)]);
    assert_eq!(m.get_stats(), (4, 2));
}

#[test]
fn surrounding_points_stay_on_the_map() {
    let m = grid(5, 5, &[]);
    let around: Vec<(usize, usize)> = m.get_surrounding_points(0, 0, 1).iter().map(|p| (p.x, p.y)).collect();
    assert_eq!(around, vec![(0, 0), (1, 0), (0, 1), (1, 1)]);
    assert_eq!(m.get_surrounding_points(2, 2, 1).len(), 9);
    assert_eq!(m.get_surrounding_points(4, 4, 10).len(), 25);
    assert!(m.get_surrounding_points(9, 9, 1).is_empty());
}

#[test]
fn map_as_observable() {
    let m = grid(3, 2, &[(0, 0)]);
    assert_eq!(m.show_title(), "地圖: 測試");
    assert_eq!(m.show_description(), "大小: 3 x 2\n可行走點: 5\n不可行走點: 1");
    assert_eq!(m.show_list(), vec!["總點數: 6".to_string(), "類型: MUD地圖".to_string()]);
}
