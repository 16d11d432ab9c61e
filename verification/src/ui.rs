//! Screen pieces that hold state or text of their own: the header line and
//! the menu.
use vstd::prelude::*;

verus! {

/// The input area of the screen.
pub struct InputDisplay;

/// The header line of the screen.
pub struct HeaderDisplay;

/// The header line for a world and a time of day.
pub open spec fn header_line(world_name: Seq<char>, current_time: Seq<char>) -> Seq<char> {
    "⚔️  "@ + world_name + " | 🕐 "@ + current_time
}

impl HeaderDisplay {
    /// The text of the header line.
    pub fn header_text(world_name: &str, current_time: &str) -> (r: String)
        ensures
            r@ == header_line(world_name@, current_time@),
    {
        let mut r = String::from_str("⚔️  ");
        r.append(world_name);
        r.append(" | 🕐 ");
        r.append(current_time);
        r
    }
}

/// The selection after `next` in a menu of `len` items.
pub open spec fn next_index(i: int, len: int) -> int {
    if len == 0 {
        i
    } else {
        (i + 1) % len
    }
}

/// The selection after `previous` in a menu of `len` items.
pub open spec fn previous_index(i: int, len: int) -> int {
    if len == 0 {
        i
    } else if i == 0 {
        len - 1
    } else {
        i - 1
    }
}

/// A list of choices with one selected.
pub struct Menu {
    pub title: String,
    pub items: Vec<String>,
    pub selected_index: usize,
    pub active: bool,
}

impl Menu {
    /// An inactive menu with its first item selected.
    pub fn new(title: String, items: Vec<String>) -> (r: Self)
        ensures
            r.title == title,
            r.items == items,
            r.selected_index == 0,
            !r.active,
    {
        Self { title, items, selected_index: 0, active: false }
    }

    /// Selects the next item, wrapping from the last to the first.
    pub fn next(&mut self)
        requires
            old(self).items@.len() > 0 ==> old(self).selected_index < usize::MAX,
        ensures
            final(self).title == old(self).title,
            final(self).items == old(self).items,
            final(self).active == old(self).active,
            final(self).selected_index == next_index(
                old(self).selected_index as int,
                old(self).items@.len() as int,
            ),
    {
        if self.items.len() > 0 {
            self.selected_index = (self.selected_index + 1) % self.items.len();
        }
    }

    /// Selects the previous item, wrapping from the first to the last.
    pub fn previous(&mut self)
        ensures
            final(self).title == old(self).title,
            final(self).items == old(self).items,
            final(self).active == old(self).active,
            final(self).selected_index == previous_index(
                old(self).selected_index as int,
                old(self).items@.len() as int,
            ),
    {
        if self.items.len() > 0 {
            if self.selected_index == 0 {
                self.selected_index = self.items.len() - 1;
            } else {
                self.selected_index = self.selected_index - 1;
            }
        }
    }

    /// The selected item, if the selection is within the items.
    pub fn get_selected_item(&self) -> (r: Option<&String>)
        ensures
            match r {
                Some(item) => self.selected_index < self.items@.len() && *item == self.items@[self.selected_index as int],
                None => self.selected_index >= self.items@.len(),
            },
    {
        if self.selected_index < self.items.len() {
            Some(&self.items[self.selected_index])
        } else {
            None
        }
    }

    /// Makes the menu active.
    pub fn activate(&mut self)
        ensures
            *final(self) == (Menu { active: true, ..*old(self) }),
    {
        self.active = true;
    }

    /// Makes the menu inactive and selects its first item again.
    pub fn deactivate(&mut self)
        ensures
            *final(self) == (Menu { active: false, selected_index: 0, ..*old(self) }),
    {
        self.active = false;
        self.selected_index = 0;
    }
}

/// Within a non-empty menu, `previous` undoes `next` and `next` undoes
/// `previous`, for every selection within the items.
pub proof fn law_menu_next_previous_inverse(len: int, i: int)
    requires
        0 < len,
        0 <= i < len,
    ensures
        previous_index(next_index(i, len), len) == i,
        next_index(previous_index(i, len), len) == i,
{
    if i + 1 < len {
        assert((i + 1) % len == i + 1) by (nonlinear_arith)
            requires
                0 <= i,
                i + 1 < len,
        ;
    } else {
        assert((i + 1) % len == 0) by (nonlinear_arith)
            requires
                i + 1 == len,
                0 < len,
        ;
    }
    if i == 0 {
        assert(len % len == 0) by (nonlinear_arith)
            requires
                0 < len,
        ;
    } else {
        assert(i % len == i) by (nonlinear_arith)
            requires
                0 <= i < len,
        ;
    }
}

} // verus!
