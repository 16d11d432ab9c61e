//! Rules about NPCs that stand on plain values: the letter that marks an
//! NPC on the big map, and the notices when an NPC and the controlled
//! character meet or part.
use vstd::prelude::*;
use crate::text::str_eq;

verus! {

/// The letter that marks an NPC called `name` on the big map.
pub open spec fn display_letter(name: Seq<char>) -> char {
    if name == "商人"@ {
        'M'
    } else if name == "農夫"@ {
        'F'
    } else if name == "醫生"@ {
        'D'
    } else if name == "工人"@ {
        'W'
    } else if name == "路人"@ || name == "旅者"@ {
        'T'
    } else if name == "戰士"@ {
        'R'
    } else if name == "工程師"@ {
        'E'
    } else if name == "老師"@ {
        'C'
    } else {
        'N'
    }
}

/// The letter that marks an NPC called `name` on the big map: by its role,
/// N for any other.
pub fn display_char(name: &str) -> (r: char)
    ensures
        r == display_letter(name@),
{
    if str_eq(name, "商人") {
        'M'
    } else if str_eq(name, "農夫") {
        'F'
    } else if str_eq(name, "醫生") {
        'D'
    } else if str_eq(name, "工人") {
        'W'
    } else if str_eq(name, "路人") || str_eq(name, "旅者") {
        'T'
    } else if str_eq(name, "戰士") {
        'R'
    } else if str_eq(name, "工程師") {
        'E'
    } else if str_eq(name, "老師") {
        'C'
    } else {
        'N'
    }
}

/// `|a - b|`.
pub open spec fn abs_diff(a: int, b: int) -> int {
    if a >= b {
        a - b
    } else {
        b - a
    }
}

/// The number of steps between (x1, y1) and (x2, y2) along the grid.
pub fn manhattan_distance(x1: usize, y1: usize, x2: usize, y2: usize) -> (r: usize)
    requires
        x1 <= i32::MAX,
        y1 <= i32::MAX,
        x2 <= i32::MAX,
        y2 <= i32::MAX,
        abs_diff(x1 as int, x2 as int) + abs_diff(y1 as int, y2 as int) <= i32::MAX,
    ensures
        r == abs_diff(x1 as int, x2 as int) + abs_diff(y1 as int, y2 as int),
{
    let dx = if x1 >= x2 {
        x1 - x2
    } else {
        x2 - x1
    };
    let dy = if y1 >= y2 {
        y1 - y2
    } else {
        y2 - y1
    };
    dx + dy
}

/// The notice about the NPC `name` whose distance to the controlled
/// character went from `previous` to `current`: when it closes from one to
/// none, who came to whom (with a greeting); when it opens from none to one
/// through the NPC's own move, that the NPC left; otherwise nothing.
pub open spec fn notice_of(previous: Option<usize>, current: usize, player_just_moved: bool, name: Seq<char>) -> Option<(Seq<char>, bool)> {
    if previous == Some(1usize) && current == 0 {
        if player_just_moved {
            Some(("你看到這裡有 "@ + name, true))
        } else {
            Some((name + " 往這邊走來"@, true))
        }
    } else if previous == Some(0usize) && current == 1 && !player_just_moved {
        Some((name + " 離開了"@, false))
    } else {
        None
    }
}

/// The notice about the NPC `name` (see [`notice_of`]).
pub fn proximity_notice(previous: Option<usize>, current: usize, player_just_moved: bool, name: &str) -> (r: Option<(String, bool)>)
    ensures
        match (r, notice_of(previous, current, player_just_moved, name@)) {
            (Some((m, g)), Some((n, h))) => m@ == n && g == h,
            (None, None) => true,
            _ => false,
        },
{
    if previous == Some(1usize) && current == 0 {
        if player_just_moved {
            let mut m = String::from_str("你看到這裡有 ");
            m.append(name);
            Some((m, true))
        } else {
            let mut m = String::from_str(name);
            m.append(" 往這邊走來");
            Some((m, true))
        }
    } else if previous == Some(0usize) && current == 1 && !player_just_moved {
        let mut m = String::from_str(name);
        m.append(" 離開了");
        Some((m, false))
    } else {
        None
    }
}

} // verus!
