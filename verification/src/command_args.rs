//! Arguments of world-building commands: coordinates and NPC kinds.
use vstd::prelude::*;
use crate::text::{
    lowercase, parse_usize, parse_usize_spec, split_on, split_on_char, str_eq, to_lowercase, trim, trim_text,
};

verus! {

/// The coordinates that `s` reads as: two numbers separated by one comma,
/// each with any whitespace around it.
pub open spec fn coordinates_of(s: Seq<char>) -> Option<(usize, usize)> {
    let parts = split_on(s, ',');
    if parts.len() == 2 {
        match (parse_usize_spec(trim(parts[0])), parse_usize_spec(trim(parts[1]))) {
            (Some(x), Some(y)) => Some((x, y)),
            _ => None,
        }
    } else {
        None
    }
}

/// The coordinates written as `x,y`.
pub fn parse_coordinates(s: &str) -> (r: Option<(usize, usize)>)
    ensures
        r == coordinates_of(s@),
{
    let parts = split_on_char(s, ',');
    if parts.len() == 2 {
        let a = trim_text(parts[0].as_str());
        let b = trim_text(parts[1].as_str());
        match (parse_usize(a.as_str()), parse_usize(b.as_str())) {
            (Some(x), Some(y)) => Some((x, y)),
            _ => None,
        }
    } else {
        None
    }
}

/// The kind of NPC that the short code `c` (already lowercased) stands
/// for.
pub open spec fn npc_kind_of(c: Seq<char>) -> Option<Seq<char>> {
    if c == "m"@ {
        Some("商人"@)
    } else if c == "w"@ {
        Some("工人"@)
    } else if c == "d"@ {
        Some("醫生"@)
    } else if c == "wr"@ {
        Some("戰士"@)
    } else if c == "en"@ {
        Some("工程師"@)
    } else if c == "tr"@ {
        Some("老師"@)
    } else {
        None
    }
}

/// The kind of NPC that `type_code` names: a short code, in any case, for
/// one of the kinds; any other text as it is.
pub fn resolve_npc_type(type_code: &str) -> (r: String)
    ensures
        r@ == (match npc_kind_of(lowercase(type_code@)) {
            Some(k) => k,
            None => type_code@,
        }),
{
    let lower = to_lowercase(type_code);
    let c = lower.as_str();
    if str_eq(c, "m") {
        String::from_str("商人")
    } else if str_eq(c, "w") {
        String::from_str("工人")
    } else if str_eq(c, "d") {
        String::from_str("醫生")
    } else if str_eq(c, "wr") {
        String::from_str("戰士")
    } else if str_eq(c, "en") {
        String::from_str("工程師")
    } else if str_eq(c, "tr") {
        String::from_str("老師")
    } else {
        String::from_str(type_code)
    }
}

} // verus!
