//! The terminal screen's output: the main messages with their scroll
//! position, the status line, the side panel, the minimap, the log window
//! and the big map's view.
use vstd::prelude::*;
use std::time::Instant;
use crate::clock::{elapsed_nanos, instant_now, local_hms};
use crate::observable::{clone_strings, observable_text_lines, panel_lines, Observable};
use crate::input::Key;
use crate::text::strs_view;

verus! {

/// What an output manager holds, as plain values.
pub struct OutputState {
    pub messages: Seq<Seq<char>>,
    pub scroll: nat,
    pub status: Seq<char>,
    /// The status line was set at some instant and may expire.
    pub status_timed: bool,
    pub side_messages: Seq<Seq<char>>,
    pub side_scroll: nat,
    pub side_panel_open: bool,
    pub side_title: Seq<char>,
    pub side_description: Seq<char>,
    pub side_list: Seq<Seq<char>>,
    pub current_time: Seq<char>,
    pub minimap_open: bool,
    pub minimap_lines: Seq<Seq<char>>,
    pub logs: Seq<Seq<char>>,
    pub log_scroll: nat,
    pub log_open: bool,
    pub map_open: bool,
    pub map_offset_x: nat,
    pub map_offset_y: nat,
}

/// `a - b`, or 0 when `b` is larger.
pub open spec fn sat_sub(a: int, b: int) -> nat {
    if a > b {
        (a - b) as nat
    } else {
        0
    }
}

/// The smaller of `a` and `b`.
pub open spec fn min_nat(a: nat, b: nat) -> nat {
    if a <= b {
        a
    } else {
        b
    }
}

/// The scroll position brought back into range before scrolling: past the
/// end it becomes the last message.
pub open spec fn clamped_scroll(scroll: nat, len: nat) -> nat {
    if scroll > len {
        sat_sub(len as int, 1)
    } else {
        scroll
    }
}

/// The range of messages that a window of `height` lines shows.
pub open spec fn window(total: nat, scroll: nat, height: nat) -> (nat, nat) {
    let start = min_nat(scroll, sat_sub(total as int, height as int));
    if total > height {
        (start, start + min_nat(height, (total - start) as nat))
    } else {
        (0, total)
    }
}

/// The initial state: an empty screen at `Day 1 09:00:00`, with the log
/// window shown.
pub open spec fn initial_output() -> OutputState {
    OutputState {
        messages: Seq::empty(),
        scroll: 0,
        status: Seq::empty(),
        status_timed: false,
        side_messages: Seq::empty(),
        side_scroll: 0,
        side_panel_open: false,
        side_title: "無資料"@,
        side_description: Seq::empty(),
        side_list: Seq::empty(),
        current_time: "Day 1 09:00:00"@,
        minimap_open: false,
        minimap_lines: Seq::empty(),
        logs: Seq::empty(),
        log_scroll: 0,
        log_open: true,
        map_open: false,
        map_offset_x: 0,
        map_offset_y: 0,
    }
}

/// The log entry of `message` written at `timestamp`.
pub open spec fn log_entry(timestamp: Seq<char>, message: Seq<char>) -> Seq<char> {
    "["@ + timestamp + "] "@ + message
}

/// A status line set `elapsed` nanoseconds ago has expired: it was set
/// with a time and more than five seconds have passed.
pub open spec fn status_old(s: OutputState, elapsed: u128) -> bool {
    s.status_timed && elapsed > 5_000_000_000
}

/// `after` is `before` with the status line cleared when it has expired
/// (see [`status_old`]), and `before` unchanged otherwise.
pub open spec fn status_expired(before: OutputState, after: OutputState, elapsed: u128) -> bool {
    if status_old(before, elapsed) {
        after == (OutputState { status: Seq::empty(), status_timed: false, ..before })
    } else {
        after == before
    }
}

/// The status line shown `elapsed` nanoseconds after it was set: nothing
/// once it has expired (see [`status_old`]).
pub open spec fn status_shown(s: OutputState, elapsed: u128) -> Seq<char> {
    if status_old(s, elapsed) {
        Seq::empty()
    } else {
        s.status
    }
}

/// The main messages, the status line and the panels of the terminal
/// screen.
pub struct OutputManager {
    messages: Vec<String>,
    scroll: usize,
    status: String,
    status_time: Option<Instant>,
    side_messages: Vec<String>,
    side_scroll: usize,
    show_side_panel: bool,
    side_title: String,
    side_description: String,
    side_list: Vec<String>,
    current_time: String,
    show_minimap: bool,
    minimap_lines: Vec<String>,
    log_messages: Vec<String>,
    log_scroll: usize,
    show_log: bool,
    show_map: bool,
    map_offset_x: usize,
    map_offset_y: usize,
}

impl OutputManager {
    /// What the manager holds.
    pub closed spec fn state(&self) -> OutputState {
        OutputState {
            messages: strs_view(self.messages@),
            scroll: self.scroll as nat,
            status: self.status@,
            status_timed: self.status_time is Some,
            side_messages: strs_view(self.side_messages@),
            side_scroll: self.side_scroll as nat,
            side_panel_open: self.show_side_panel,
            side_title: self.side_title@,
            side_description: self.side_description@,
            side_list: strs_view(self.side_list@),
            current_time: self.current_time@,
            minimap_open: self.show_minimap,
            minimap_lines: strs_view(self.minimap_lines@),
            logs: strs_view(self.log_messages@),
            log_scroll: self.log_scroll as nat,
            log_open: self.show_log,
            map_open: self.show_map,
            map_offset_x: self.map_offset_x as nat,
            map_offset_y: self.map_offset_y as nat,
        }
    }

    /// An empty screen.
    pub fn new() -> (r: Self)
        ensures
            r.state() == initial_output(),
    {
        let r = OutputManager {
            messages: Vec::new(),
            scroll: 0,
            status: String::new(),
            status_time: None,
            side_messages: Vec::new(),
            side_scroll: 0,
            show_side_panel: false,
            side_title: String::from_str("無資料"),
            side_description: String::new(),
            side_list: Vec::new(),
            current_time: String::from_str("Day 1 09:00:00"),
            show_minimap: false,
            minimap_lines: Vec::new(),
            log_messages: Vec::new(),
            log_scroll: 0,
            show_log: true,
            show_map: false,
            map_offset_x: 0,
            map_offset_y: 0,
        };
        proof {
            assert(strs_view(r.messages@) =~= Seq::<Seq<char>>::empty());
            assert(strs_view(r.side_messages@) =~= Seq::<Seq<char>>::empty());
            assert(strs_view(r.side_list@) =~= Seq::<Seq<char>>::empty());
            assert(strs_view(r.minimap_lines@) =~= Seq::<Seq<char>>::empty());
            assert(strs_view(r.log_messages@) =~= Seq::<Seq<char>>::empty());
            assert(r.status@ =~= Seq::<char>::empty());
            assert(r.side_description@ =~= Seq::<char>::empty());
        }
        r
    }

    /// Appends a message and scrolls to the end (the scroll position is set
    /// past any end; showing it brings it back into range).
    pub fn print(&mut self, message: String)
        ensures
            final(self).state() == (OutputState {
                messages: old(self).state().messages.push(message@),
                scroll: usize::MAX as nat,
                ..old(self).state()
            }),
    {
        let ghost before = self.messages@;
        let ghost m = message@;
        self.messages.push(message);
        self.scroll = usize::MAX;
        proof {
            assert(strs_view(self.messages@) =~= strs_view(before).push(m));
        }
    }

    /// Sets the status line, which expires five seconds from now.
    pub fn set_status(&mut self, status: String)
        ensures
            final(self).state() == (OutputState {
                status: status@,
                status_timed: true,
                ..old(self).state()
            }),
    {
        self.status = status;
        self.status_time = Some(instant_now());
    }

    /// Clears the status line once it is more than five seconds old (see
    /// [`Self::expire_status`]); how old it is comes from the clock, so
    /// either outcome may come.
    pub fn update_status(&mut self)
        ensures
            exists|elapsed: u128| #[trigger] status_expired(old(self).state(), final(self).state(), elapsed),
    {
        let elapsed: u128 = match &self.status_time {
            Some(t) => elapsed_nanos(t),
            None => 0,
        };
        self.expire_status(elapsed);
    }

    /// Clears the status line when it was set more than five seconds
    /// (`elapsed` nanoseconds) ago: see [`status_expired`].
    pub fn expire_status(&mut self, elapsed: u128)
        ensures
            status_expired(old(self).state(), final(self).state(), elapsed),
    {
        if self.status_time.is_some() && elapsed > 5_000_000_000 {
            self.status = String::new();
            self.status_time = None;
            proof {
                assert(self.status@ =~= Seq::<char>::empty());
            }
        }
    }

    /// The status line, or nothing once it is more than five seconds old
    /// (see [`Self::status_after`]); how old it is comes from the clock.
    pub fn get_status(&self) -> (r: String)
        ensures
            exists|elapsed: u128| r@ == #[trigger] status_shown(self.state(), elapsed),
    {
        let elapsed: u128 = match &self.status_time {
            Some(t) => elapsed_nanos(t),
            None => 0,
        };
        self.status_after(elapsed)
    }

    /// The status line `elapsed` nanoseconds after it was set: see
    /// [`status_shown`].
    pub fn status_after(&self, elapsed: u128) -> (r: String)
        ensures
            r@ == status_shown(self.state(), elapsed),
    {
        if self.status_time.is_some() && elapsed > 5_000_000_000 {
            let r = String::new();
            proof {
                assert(r@ =~= Seq::<char>::empty());
            }
            r
        } else {
            self.status.clone()
        }
    }

    /// Sets the game time shown in the header.
    pub fn set_current_time(&mut self, time: String)
        ensures
            final(self).state() == (OutputState { current_time: time@, ..old(self).state() }),
    {
        self.current_time = time;
    }

    /// The game time shown in the header.
    pub fn current_time(&self) -> (r: String)
        ensures
            r@ == self.state().current_time,
    {
        self.current_time.clone()
    }

    /// Removes every main message and scrolls to the top.
    pub fn clear_messages(&mut self)
        ensures
            final(self).state() == (OutputState {
                messages: Seq::empty(),
                scroll: 0,
                ..old(self).state()
            }),
    {
        self.messages.clear();
        self.scroll = 0;
        proof {
            assert(strs_view(self.messages@) =~= Seq::<Seq<char>>::empty());
        }
    }

    /// Scrolls up five lines.
    pub fn scroll_up(&mut self)
        ensures
            final(self).state() == (OutputState {
                scroll: sat_sub(
                    clamped_scroll(old(self).state().scroll, old(self).state().messages.len()) as int,
                    5,
                ),
                ..old(self).state()
            }),
    {
        if self.scroll > self.messages.len() {
            self.scroll = self.messages.len().saturating_sub(1);
        }
        self.scroll = self.scroll.saturating_sub(5);
    }

    /// Scrolls down five lines, no further than a window of
    /// `visible_height` lines allows.
    pub fn scroll_down(&mut self, visible_height: usize)
        requires
            old(self).state().messages.len() + 5 <= usize::MAX,
        ensures
            final(self).state() == (OutputState {
                scroll: min_nat(
                    clamped_scroll(old(self).state().scroll, old(self).state().messages.len()) + 5,
                    sat_sub(old(self).state().messages.len() as int, visible_height as int),
                ),
                ..old(self).state()
            }),
    {
        if self.scroll > self.messages.len() {
            self.scroll = self.messages.len().saturating_sub(1);
        }
        let max_scroll = self.messages.len().saturating_sub(visible_height);
        let down = self.scroll + 5;
        self.scroll = if down < max_scroll {
            down
        } else {
            max_scroll
        };
    }

    /// The messages that a window of `message_area_height` lines shows.
    pub fn visible_messages(&self, message_area_height: usize) -> (r: Vec<String>)
        ensures
            strs_view(r@) == self.state().messages.subrange(
                window(self.state().messages.len(), self.state().scroll, message_area_height as nat).0 as int,
                window(self.state().messages.len(), self.state().scroll, message_area_height as nat).1 as int,
            ),
    {
        let total = self.messages.len();
        let max_scroll = total.saturating_sub(message_area_height);
        let scroll = if self.scroll < max_scroll {
            self.scroll
        } else {
            max_scroll
        };
        let (start, end) = if total > message_area_height {
            let rest = total - scroll;
            let n = if message_area_height < rest {
                message_area_height
            } else {
                rest
            };
            (scroll, scroll + n)
        } else {
            (0, total)
        };
        let mut r: Vec<String> = Vec::new();
        let mut i = start;
        while i < end
            invariant
                start <= i <= end <= self.messages@.len(),
                r@ == self.messages@.subrange(start as int, i as int),
            decreases end - i,
        {
            r.push(self.messages[i].clone());
            proof {
                assert(self.messages@.subrange(start as int, i + 1) =~= self.messages@.subrange(
                    start as int,
                    i as int,
                ).push(self.messages@[i as int]));
            }
            i = i + 1;
        }
        proof {
            assert(strs_view(r@) =~= strs_view(self.messages@).subrange(start as int, end as int));
        }
        r
    }

    /// Appends a side message and scrolls to it.
    pub fn add_side_message(&mut self, message: String)
        ensures
            final(self).state() == (OutputState {
                side_messages: old(self).state().side_messages.push(message@),
                side_scroll: old(self).state().side_messages.len(),
                ..old(self).state()
            }),
    {
        let ghost before = self.side_messages@;
        let ghost m = message@;
        self.side_messages.push(message);
        self.side_scroll = self.side_messages.len().saturating_sub(1);
        proof {
            assert(strs_view(self.side_messages@) =~= strs_view(before).push(m));
        }
    }

    /// Removes every side message.
    pub fn clear_side_messages(&mut self)
        ensures
            final(self).state() == (OutputState {
                side_messages: Seq::empty(),
                side_scroll: 0,
                ..old(self).state()
            }),
    {
        self.side_messages.clear();
        self.side_scroll = 0;
        proof {
            assert(strs_view(self.side_messages@) =~= Seq::<Seq<char>>::empty());
        }
    }

    /// Shows the side panel if it is hidden, hides it if it is shown.
    pub fn toggle_side_panel(&mut self)
        ensures
            final(self).state() == (OutputState {
                side_panel_open: !old(self).state().side_panel_open,
                ..old(self).state()
            }),
    {
        self.show_side_panel = !self.show_side_panel;
    }

    /// Whether the side panel is shown.
    pub fn is_side_panel_open(&self) -> (r: bool)
        ensures
            r == self.state().side_panel_open,
    {
        self.show_side_panel
    }

    /// Hides the side panel.
    pub fn close_side_panel(&mut self)
        ensures
            final(self).state() == (OutputState { side_panel_open: false, ..old(self).state() }),
    {
        self.show_side_panel = false;
    }

    /// Scrolls the side messages up one line.
    pub fn scroll_side_up(&mut self)
        ensures
            final(self).state() == (OutputState {
                side_scroll: sat_sub(old(self).state().side_scroll as int, 1),
                ..old(self).state()
            }),
    {
        if self.side_scroll > 0 {
            self.side_scroll = self.side_scroll - 1;
        }
    }

    /// Scrolls the side messages down one line, no further than a window of
    /// `visible_height` lines allows.
    pub fn scroll_side_down(&mut self, visible_height: usize)
        ensures
            final(self).state() == (OutputState {
                side_scroll: if old(self).state().side_scroll < sat_sub(
                    old(self).state().side_messages.len() as int,
                    visible_height as int,
                ) {
                    old(self).state().side_scroll + 1
                } else {
                    old(self).state().side_scroll
                },
                ..old(self).state()
            }),
    {
        let max_scroll = self.side_messages.len().saturating_sub(visible_height);
        if self.side_scroll < max_scroll {
            self.side_scroll = self.side_scroll + 1;
        }
    }

    /// The lines that the side panel shows.
    pub fn side_panel_lines(&self) -> (r: Vec<String>)
        ensures
            strs_view(r@) == panel_lines(
                self.state().side_title,
                self.state().side_description,
                self.state().side_list,
            ),
    {
        crate::observable::panel_text_lines(
            self.side_title.clone(),
            self.side_description.clone(),
            &self.side_list,
        )
    }

    /// The height of the side panel: its lines and the two borders, as a
    /// `u16` (truncated).
    pub fn get_side_panel_content_height(&self) -> (r: u16)
        ensures
            r as int == (panel_lines(
                self.state().side_title,
                self.state().side_description,
                self.state().side_list,
            ).len() + 2) % 65536,
    {
        let lines = self.side_panel_lines();
        proof {
            assert(strs_view(lines@).len() == lines@.len());
        }
        let n = lines.len();
        ((n % 65536 + 2) % 65536) as u16
    }

    /// Shows `obs` in the side panel: its title, description and list as
    /// they read now.
    pub fn set_side_observable(&mut self, obs: Box<dyn Observable>)
        requires
            obs.showable(),
        ensures
            final(self).state() == (OutputState {
                side_title: obs.title_view(),
                side_description: obs.description_view(),
                side_list: obs.list_view(),
                ..old(self).state()
            }),
    {
        self.side_title = obs.show_title();
        self.side_description = obs.show_description();
        self.side_list = obs.show_list();
    }

    /// Shows the minimap.
    pub fn show_minimap(&mut self)
        ensures
            final(self).state() == (OutputState { minimap_open: true, ..old(self).state() }),
    {
        self.show_minimap = true;
    }

    /// Hides the minimap.
    pub fn hide_minimap(&mut self)
        ensures
            final(self).state() == (OutputState { minimap_open: false, ..old(self).state() }),
    {
        self.show_minimap = false;
    }

    /// Shows the minimap if it is hidden, hides it if it is shown.
    pub fn toggle_minimap(&mut self)
        ensures
            final(self).state() == (OutputState {
                minimap_open: !old(self).state().minimap_open,
                ..old(self).state()
            }),
    {
        self.show_minimap = !self.show_minimap;
    }

    /// Whether the minimap is shown.
    pub fn is_minimap_open(&self) -> (r: bool)
        ensures
            r == self.state().minimap_open,
    {
        self.show_minimap
    }

    /// Replaces the minimap's lines.
    pub fn update_minimap(&mut self, minimap_data: Vec<String>)
        ensures
            final(self).state() == (OutputState {
                minimap_lines: strs_view(minimap_data@),
                ..old(self).state()
            }),
    {
        self.minimap_lines = minimap_data;
    }

    /// The minimap's lines.
    pub fn minimap_lines(&self) -> (r: Vec<String>)
        ensures
            strs_view(r@) == self.state().minimap_lines,
    {
        clone_strings(&self.minimap_lines)
    }

    /// Prints the title and the description of `obs`, then, if its list is
    /// not empty, a separator and the bulleted items.
    pub fn print_obserable(&mut self, obs: &dyn Observable)
        requires
            obs.showable(),
        ensures
            final(self).state() == (OutputState {
                messages: old(self).state().messages + seq![obs.title_view(), obs.description_view()]
                    + (if obs.list_view().len() > 0 {
                    seq!["--"@] + crate::observable::bulleted(obs.list_view())
                } else {
                    Seq::empty()
                }),
                scroll: if old(self).state().messages.len() + 2 + obs.list_view().len() == old(
                    self,
                ).state().messages.len() {
                    old(self).state().scroll
                } else {
                    usize::MAX as nat
                },
                ..old(self).state()
            }),
    {
        let ghost start = self.state();
        self.print(obs.show_title());
        self.print(obs.show_description());
        let list = obs.show_list();
        let ghost l = strs_view(list@);
        let ghost mid = self.state().messages;
        if list.len() > 0 {
            self.print(String::from_str("--"));
            proof {
                assert(crate::observable::bulleted(l.take(0)) =~= Seq::<Seq<char>>::empty());
                assert(self.state().messages =~= mid + seq!["--"@] + crate::observable::bulleted(
                    l.take(0),
                ));
            }
            let mut i: usize = 0;
            while i < list.len()
                invariant
                    i <= list@.len(),
                    l == strs_view(list@),
                    l.len() > 0,
                    self.state() == (OutputState {
                        messages: mid + seq!["--"@] + crate::observable::bulleted(l.take(i as int)),
                        scroll: usize::MAX as nat,
                        ..start
                    }),
                decreases list@.len() - i,
            {
                let mut item = String::from_str("• ");
                item.append(list[i].as_str());
                self.print(item);
                proof {
                    assert(crate::observable::bulleted(l.take(i + 1)) =~= crate::observable::bulleted(
                        l.take(i as int),
                    ).push("• "@ + l[i as int]));
                    assert(self.state().messages =~= mid + seq!["--"@] + crate::observable::bulleted(
                        l.take(i + 1),
                    ));
                }
                i = i + 1;
            }
            proof {
                assert(l.take(l.len() as int) =~= l);
                assert(self.state().messages =~= start.messages + seq![
                    obs.title_view(),
                    obs.description_view(),
                ] + (seq!["--"@] + crate::observable::bulleted(l)));
            }
        } else {
            proof {
                assert(self.state().messages =~= start.messages + seq![
                    obs.title_view(),
                    obs.description_view(),
                ] + Seq::<Seq<char>>::empty());
            }
        }
    }

    /// Appends `message` to the log, stamped with `timestamp`, and scrolls
    /// to it.
    pub fn log_with_timestamp(&mut self, timestamp: &str, message: String)
        ensures
            final(self).state() == (OutputState {
                logs: old(self).state().logs.push(log_entry(timestamp@, message@)),
                log_scroll: old(self).state().logs.len(),
                ..old(self).state()
            }),
    {
        let mut entry = String::from_str("[");
        entry.append(timestamp);
        entry.append("] ");
        entry.append(message.as_str());
        let ghost before = self.log_messages@;
        let ghost e = entry@;
        self.log_messages.push(entry);
        self.log_scroll = self.log_messages.len().saturating_sub(1);
        proof {
            assert(strs_view(self.log_messages@) =~= strs_view(before).push(e));
        }
    }

    /// Appends `message` to the log, stamped with the local time of day,
    /// and scrolls to it.
    pub fn log(&mut self, message: String)
        ensures
            exists|timestamp: Seq<char>|
                final(self).state() == (OutputState {
                    logs: old(self).state().logs.push(#[trigger] log_entry(timestamp, message@)),
                    log_scroll: old(self).state().logs.len(),
                    ..old(self).state()
                }),
    {
        let timestamp = local_hms();
        self.log_with_timestamp(timestamp.as_str(), message);
    }

    /// Shows the log window if it is hidden, hides it if it is shown.
    pub fn toggle_log(&mut self)
        ensures
            final(self).state() == (OutputState {
                log_open: !old(self).state().log_open,
                ..old(self).state()
            }),
    {
        self.show_log = !self.show_log;
    }

    /// Shows the log window.
    pub fn show_log_window(&mut self)
        ensures
            final(self).state() == (OutputState { log_open: true, ..old(self).state() }),
    {
        self.show_log = true;
    }

    /// Hides the log window.
    pub fn hide_log(&mut self)
        ensures
            final(self).state() == (OutputState { log_open: false, ..old(self).state() }),
    {
        self.show_log = false;
    }

    /// Whether the log window is shown.
    pub fn is_log_open(&self) -> (r: bool)
        ensures
            r == self.state().log_open,
    {
        self.show_log
    }

    /// Scrolls the log up one line.
    pub fn scroll_log_up(&mut self)
        ensures
            final(self).state() == (OutputState {
                log_scroll: sat_sub(old(self).state().log_scroll as int, 1),
                ..old(self).state()
            }),
    {
        if self.log_scroll > 0 {
            self.log_scroll = self.log_scroll - 1;
        }
    }

    /// Scrolls the log down one line, no further than a window of
    /// `visible_height` lines allows.
    pub fn scroll_log_down(&mut self, visible_height: usize)
        ensures
            final(self).state() == (OutputState {
                log_scroll: if old(self).state().log_scroll < sat_sub(
                    old(self).state().logs.len() as int,
                    visible_height as int,
                ) {
                    old(self).state().log_scroll + 1
                } else {
                    old(self).state().log_scroll
                },
                ..old(self).state()
            }),
    {
        let max_scroll = self.log_messages.len().saturating_sub(visible_height);
        if self.log_scroll < max_scroll {
            self.log_scroll = self.log_scroll + 1;
        }
    }

    /// The newest log entries that a window of `visible_height` lines
    /// shows.
    pub fn visible_log(&self, visible_height: usize) -> (r: Vec<String>)
        ensures
            strs_view(r@) == self.state().logs.subrange(
                sat_sub(self.state().logs.len() as int, visible_height as int) as int,
                self.state().logs.len() as int,
            ),
    {
        let total = self.log_messages.len();
        let start = total.saturating_sub(visible_height);
        let mut r: Vec<String> = Vec::new();
        let mut i = start;
        while i < total
            invariant
                start <= i <= total == self.log_messages@.len(),
                r@ == self.log_messages@.subrange(start as int, i as int),
            decreases total - i,
        {
            r.push(self.log_messages[i].clone());
            proof {
                assert(self.log_messages@.subrange(start as int, i + 1) =~= self.log_messages@.subrange(
                    start as int,
                    i as int,
                ).push(self.log_messages@[i as int]));
            }
            i = i + 1;
        }
        proof {
            assert(strs_view(r@) =~= strs_view(self.log_messages@).subrange(start as int, total as int));
        }
        r
    }

    /// Shows the big map around the player at (`player_x`, `player_y`).
    pub fn show_map(&mut self, player_x: usize, player_y: usize)
        ensures
            final(self).state() == (OutputState {
                map_open: true,
                map_offset_x: sat_sub(player_x as int, 20),
                map_offset_y: sat_sub(player_y as int, 10),
                ..old(self).state()
            }),
    {
        self.show_map = true;
        self.map_offset_x = player_x.saturating_sub(20);
        self.map_offset_y = player_y.saturating_sub(10);
    }

    /// Hides the big map.
    pub fn close_map(&mut self)
        ensures
            final(self).state() == (OutputState { map_open: false, ..old(self).state() }),
    {
        self.show_map = false;
    }

    /// Whether the big map is shown.
    pub fn is_map_open(&self) -> (r: bool)
        ensures
            r == self.state().map_open,
    {
        self.show_map
    }

    /// The top left corner of the big map's view.
    pub fn map_offset(&self) -> (r: (usize, usize))
        ensures
            r.0 == self.state().map_offset_x,
            r.1 == self.state().map_offset_y,
    {
        (self.map_offset_x, self.map_offset_y)
    }

    /// Moves the big map's view by (`dx`, `dy`), not before the first
    /// column or row and not past the last of a `max_width` by
    /// `max_height` map.
    pub fn move_map_view(&mut self, dx: i32, dy: i32, max_width: usize, max_height: usize)
        requires
            !(dx == i32::MIN && old(self).state().map_offset_x > 0),
            !(dy == i32::MIN && old(self).state().map_offset_y > 0),
            dx > 0 ==> old(self).state().map_offset_x + dx <= usize::MAX,
            dy > 0 ==> old(self).state().map_offset_y + dy <= usize::MAX,
        ensures
            final(self).state() == (OutputState {
                map_offset_x: moved_offset(old(self).state().map_offset_x, dx as int, max_width as nat),
                map_offset_y: moved_offset(old(self).state().map_offset_y, dy as int, max_height as nat),
                ..old(self).state()
            }),
    {
        self.map_offset_x = move_offset(self.map_offset_x, dx, max_width);
        self.map_offset_y = move_offset(self.map_offset_y, dy, max_height);
    }
}

/// The state after scrolling the main messages up five lines.
pub open spec fn scrolled_up(st: OutputState) -> OutputState {
    OutputState { scroll: sat_sub(clamped_scroll(st.scroll, st.messages.len()) as int, 5), ..st }
}

/// The state after scrolling the main messages down five lines in a
/// window of twenty.
pub open spec fn scrolled_down(st: OutputState) -> OutputState {
    OutputState {
        scroll: min_nat(clamped_scroll(st.scroll, st.messages.len()) + 5, sat_sub(st.messages.len() as int, 20)),
        ..st
    }
}

/// `st` with the status line `s`, set now.
pub open spec fn with_status(st: OutputState, s: Seq<char>) -> OutputState {
    OutputState { status: s, status_timed: true, ..st }
}

/// What a key does to the screen: F1 shows or hides the side panel; q
/// closes an open big map; Shift with up or down, and the page keys,
/// scroll the messages; an arrow moves an open big map's view by five
/// cells on a map of `map_size`. Each scroll and the closing say so on the
/// status line.
pub open spec fn after_screen_key(st: OutputState, key: Key, shift: bool, map_size: Option<(usize, usize)>) -> OutputState {
    match key {
        Key::F(n) => if n == 1 {
            OutputState { side_panel_open: !st.side_panel_open, ..st }
        } else {
            st
        },
        Key::Char(c) => if (c == 'q' || c == 'Q') && st.map_open {
            with_status(OutputState { map_open: false, ..st }, "大地圖已關閉"@)
        } else {
            st
        },
        Key::Up | Key::Down | Key::Left | Key::Right => if shift {
            match key {
                Key::Up => with_status(scrolled_up(st), "向上捲動訊息"@),
                Key::Down => with_status(scrolled_down(st), "向下捲動訊息"@),
                _ => st,
            }
        } else if st.map_open {
            match map_size {
                Some((w, h)) => {
                    let (dx, dy) = match key {
                        Key::Up => (0int, -5int),
                        Key::Down => (0int, 5int),
                        Key::Left => (-5int, 0int),
                        _ => (5int, 0int),
                    };
                    OutputState {
                        map_offset_x: moved_offset(st.map_offset_x, dx, w as nat),
                        map_offset_y: moved_offset(st.map_offset_y, dy, h as nat),
                        ..st
                    }
                },
                None => st,
            }
        } else {
            st
        },
        Key::PageUp => with_status(scrolled_up(st), "向上捲動訊息"@),
        Key::PageDown => with_status(scrolled_down(st), "向下捲動訊息"@),
        _ => st,
    }
}

impl OutputManager {
    /// Carries out what `key` does to the screen (see [`after_screen_key`]);
    /// `map_size` is the width and height of the current map, if there is
    /// one.
    pub fn apply_screen_key(&mut self, key: Key, shift: bool, map_size: Option<(usize, usize)>)
        requires
            old(self).state().messages.len() + 5 <= usize::MAX,
            old(self).state().map_offset_x + 5 <= usize::MAX,
            old(self).state().map_offset_y + 5 <= usize::MAX,
        ensures
            final(self).state() == after_screen_key(old(self).state(), key, shift, map_size),
    {
        match key {
            Key::F(n) => {
                if n == 1 {
                    self.toggle_side_panel();
                }
            },
            Key::Char(c) => {
                if (c == 'q' || c == 'Q') && self.is_map_open() {
                    self.close_map();
                    self.set_status(String::from_str("大地圖已關閉"));
                }
            },
            Key::Up | Key::Down | Key::Left | Key::Right => {
                if shift {
                    match key {
                        Key::Up => {
                            self.scroll_up();
                            self.set_status(String::from_str("向上捲動訊息"));
                        },
                        Key::Down => {
                            self.scroll_down(20);
                            self.set_status(String::from_str("向下捲動訊息"));
                        },
                        _ => {},
                    }
                } else if self.is_map_open() {
                    match map_size {
                        Some((w, h)) => {
                            let (dx, dy): (i32, i32) = match key {
                                Key::Up => (0, -5),
                                Key::Down => (0, 5),
                                Key::Left => (-5, 0),
                                _ => (5, 0),
                            };
                            self.move_map_view(dx, dy, w, h);
                        },
                        None => {},
                    }
                }
            },
            Key::PageUp => {
                self.scroll_up();
                self.set_status(String::from_str("向上捲動訊息"));
            },
            Key::PageDown => {
                self.scroll_down(20);
                self.set_status(String::from_str("向下捲動訊息"));
            },
            _ => {},
        }
    }
}

/// An offset of the big map's view moved by `d` on a side of `max` cells.
pub open spec fn moved_offset(offset: nat, d: int, max: nat) -> nat {
    if d < 0 && offset > 0 {
        sat_sub(offset as int, -d)
    } else if d > 0 {
        min_nat(offset + d as nat, sat_sub(max as int, 1))
    } else {
        offset
    }
}

fn move_offset(offset: usize, d: i32, max: usize) -> (r: usize)
    requires
        !(d == i32::MIN && offset > 0),
        d > 0 ==> offset + d <= usize::MAX,
    ensures
        r == moved_offset(offset as nat, d as int, max as nat),
{
    if d < 0 && offset > 0 {
        let back = (-d) as usize;
        offset.saturating_sub(back)
    } else if d > 0 {
        let ahead = offset + d as usize;
        let last = max.saturating_sub(1);
        if ahead < last {
            ahead
        } else {
            last
        }
    } else {
        offset
    }
}


/// After a print the window shows the newest messages: whatever its
/// height, a window over the scroll position that printing sets ends at
/// the last message.
pub proof fn law_print_shows_newest(total: nat, height: nat)
    requires
        0 < total <= usize::MAX,
        height > 0,
    ensures
        window(total, usize::MAX as nat, height).1 == total,
        window(total, usize::MAX as nat, height).0 < total,
{
}

} // verus!
