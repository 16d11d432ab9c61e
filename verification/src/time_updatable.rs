//! The game clock's reading and the objects that follow it.
use vstd::prelude::*;
use crate::text::{pad2, push_decimal, push_pad2, decimal};

verus! {

/// Something that changes as the world clock advances.
pub trait TimeUpdatable {
    /// Whether the object can take one more clock tick.
    spec fn can_update(&self) -> bool;

    /// Called at each tick of the world clock.
    fn on_time_update(&mut self, current_time: &TimeInfo)
        requires
            old(self).can_update(),
    ;
}

/// A reading of the game clock.
#[derive(Debug, Clone, Copy)]
pub struct TimeInfo {
    pub hour: u8,
    pub minute: u8,
    pub second: u8,
    pub day: u32,
}

/// `Day D HH:MM:SS`.
pub open spec fn clock_text(day: u32, hour: u8, minute: u8, second: u8) -> Seq<char> {
    "Day "@ + decimal(day as nat) + " "@ + pad2(hour as nat) + ":"@ + pad2(minute as nat) + ":"@ + pad2(
        second as nat,
    )
}

/// Writes `Day D HH:MM:SS`.
pub fn format_clock(day: u32, hour: u8, minute: u8, second: u8) -> (r: String)
    ensures
        r@ == clock_text(day, hour, minute, second),
{
    let mut s = String::from_str("Day ");
    push_decimal(&mut s, day as u64);
    s.append(" ");
    push_pad2(&mut s, hour as u64);
    s.append(":");
    push_pad2(&mut s, minute as u64);
    s.append(":");
    push_pad2(&mut s, second as u64);
    s
}

impl TimeInfo {
    /// The reading `hour:minute:00` of day `day`.
    pub fn new(hour: u8, minute: u8, day: u32) -> (r: Self)
        ensures
            r.hour == hour,
            r.minute == minute,
            r.second == 0,
            r.day == day,
    {
        TimeInfo { hour, minute, second: 0, day }
    }

    /// The reading `hour:minute:second` of day `day`.
    pub fn new_with_seconds(hour: u8, minute: u8, second: u8, day: u32) -> (r: Self)
        ensures
            r.hour == hour,
            r.minute == minute,
            r.second == second,
            r.day == day,
    {
        TimeInfo { hour, minute, second, day }
    }

    /// `Day D HH:MM:SS`.
    pub fn format_time(&self) -> (r: String)
        ensures
            r@ == clock_text(self.day, self.hour, self.minute, self.second),
    {
        format_clock(self.day, self.hour, self.minute, self.second)
    }
}

} // verus!
