use ratamud::event::Position;
use ratamud::map::{GameMap, MapType};
use ratamud::npc_rules::{display_char, manhattan_distance, proximity_notice};

#[test]
fn npc_letters() {
    assert_eq!(display_char("商人"), 'M');
    assert_eq!(display_char("旅者"), 'T');
    assert_eq!(display_char("路人"), 'T');
    assert_eq!(display_char("老師"), 'C');
    assert_eq!(display_char("bob"), 'N');
}

#[test]
fn distances() {
    assert_eq!(manhattan_distance(1, 2, 4, 0), 5);
    assert_eq!(manhattan_distance(7, 7, 7, 7), 0);
}

#[test]
fn proximity_notices() {
    assert_eq!(proximity_notice(Some(1), 0, true, "商人"), Some(("你看到這裡有 商人".to_string(), true)));
    assert_eq!(proximity_notice(Some(1), 0, false, "商人"), Some(("商人 往這邊走來".to_string(), true)));
    assert_eq!(proximity_notice(Some(0), 1, false, "商人"), Some(("商人 離開了".to_string(), false)));
    assert_eq!(proximity_notice(Some(0), 1, true, "商人"), None);
    assert_eq!(proximity_notice(None, 0, true, "商人"), None);
    assert_eq!(proximity_notice(Some(2), 1, false, "商人"), None);
}

#[test]
fn positions_resolve() {
    let mut m = GameMap::new_with_type("m".to_string(), 2, 2, MapType::Cave);
    for y in 0..2 {
        for x in 0..2 {
            m.get_point_mut(x, y).unwrap().walkable = x == 1 && y == 0;
        }
    }
    assert_eq!(Position::Fixed([5, 6]).resolve(&m), Some([5, 6]));
    assert_eq!(Position::Random("random".to_string()).resolve(&m), Some([1, 0]));
    m.get_point_mut(1, 0).unwrap().walkable = false;
    assert_eq!(Position::Random("random".to_string()).resolve(&m), None);
}

use ratamud::command_args::{parse_coordinates, resolve_npc_type};
use ratamud::person::parse_dialogue_conditions;

#[test]
fn coordinates() {
    assert_eq!(parse_coordinates("3,4"), Some((3, 4)));
    assert_eq!(parse_coordinates(" 10 , 20 "), Some((10, 20)));
    assert_eq!(parse_coordinates("3,4,5"), None);
    assert_eq!(parse_coordinates("3"), None);
    assert_eq!(parse_coordinates("a,4"), None);
    assert_eq!(parse_coordinates("-1,4"), None);
}

#[test]
fn npc_kinds() {
    assert_eq!(resolve_npc_type("M"), "商人");
    assert_eq!(resolve_npc_type("wr"), "戰士");
    assert_eq!(resolve_npc_type("Tr"), "老師");
    assert_eq!(resolve_npc_type("dragon"), "dragon");
}

#[test]
fn written_conditions() {
    let cs = parse_dialogue_conditions("hp>50, 顏值 >= 60,,bad,x=,性別=女, a != b ");
    let got: Vec<(String, String, String)> =
        cs.into_iter().map(|c| (c.attribute, c.operator, c.value)).collect();
    assert_eq!(
        got,
        vec![
            ("hp".to_string(), ">".to_string(), "50".to_string()),
            ("顏值".to_string(), ">=".to_string(), "60".to_string()),
            ("性別".to_string(), "=".to_string(), "女".to_string()),
            ("a".to_string(), "!=".to_string(), "b".to_string()),
        ]
    );
    assert!(parse_dialogue_conditions("").is_empty());
    let cs = parse_dialogue_conditions("hp<=3");
    assert_eq!(cs[0].operator, "<=");
}
