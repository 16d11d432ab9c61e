//! Output collection for front ends without a terminal screen: the main
//! messages, the log, the status line and the side panel.
use vstd::prelude::*;

verus! {

/// Where a piece of output belongs.
#[derive(Debug, Clone, Copy, PartialEq, Eq, Structural)]
pub enum OutputZone {
    Main,
    Log,
    Status,
    Side,
}

impl OutputZone {
    /// The zone's name as front ends receive it.
    pub fn as_str(&self) -> (r: &'static str)
        ensures
            r@ == (match *self {
                OutputZone::Main => "MAIN"@,
                OutputZone::Log => "LOG"@,
                OutputZone::Status => "STATUS"@,
                OutputZone::Side => "SIDE"@,
            }),
    {
        match self {
            OutputZone::Main => "MAIN",
            OutputZone::Log => "LOG",
            OutputZone::Status => "STATUS",
            OutputZone::Side => "SIDE",
        }
    }
}

/// Holds the output of a game without a terminal screen. Each change is
/// also to be forwarded to the output callback that the host registered,
/// with the zone it belongs to.
pub struct CoreOutputManager {
    messages: Vec<String>,
    log_messages: Vec<String>,
    status: String,
    side_content: String,
}

impl Default for CoreOutputManager {
    fn default() -> (r: Self)
        ensures
            r.messages_view().len() == 0,
            r.logs_view().len() == 0,
            r.status_view().len() == 0,
            r.side_view().len() == 0,
    {
        Self::new()
    }
}

impl CoreOutputManager {
    pub closed spec fn messages_view(&self) -> Seq<String> {
        self.messages@
    }

    pub closed spec fn logs_view(&self) -> Seq<String> {
        self.log_messages@
    }

    pub closed spec fn status_view(&self) -> Seq<char> {
        self.status@
    }

    pub closed spec fn side_view(&self) -> Seq<char> {
        self.side_content@
    }

    /// A manager with no output yet.
    pub fn new() -> (r: Self)
        ensures
            r.messages_view().len() == 0,
            r.logs_view().len() == 0,
            r.status_view().len() == 0,
            r.side_view().len() == 0,
    {
        CoreOutputManager {
            messages: Vec::new(),
            log_messages: Vec::new(),
            status: String::new(),
            side_content: String::new(),
        }
    }

    /// Appends a message to the main output.
    pub fn add_message(&mut self, msg: String)
        ensures
            final(self).messages_view() == old(self).messages_view().push(msg),
            final(self).logs_view() == old(self).logs_view(),
            final(self).status_view() == old(self).status_view(),
            final(self).side_view() == old(self).side_view(),
    {
        self.messages.push(msg);
    }

    /// Appends a message to the log.
    pub fn add_log(&mut self, msg: String)
        ensures
            final(self).logs_view() == old(self).logs_view().push(msg),
            final(self).messages_view() == old(self).messages_view(),
            final(self).status_view() == old(self).status_view(),
            final(self).side_view() == old(self).side_view(),
    {
        self.log_messages.push(msg);
    }

    /// Replaces the status line.
    pub fn set_status(&mut self, msg: String)
        ensures
            final(self).status_view() == msg@,
            final(self).messages_view() == old(self).messages_view(),
            final(self).logs_view() == old(self).logs_view(),
            final(self).side_view() == old(self).side_view(),
    {
        self.status = msg;
    }

    /// Replaces the side panel's content.
    pub fn set_side_content(&mut self, content: String)
        ensures
            final(self).side_view() == content@,
            final(self).messages_view() == old(self).messages_view(),
            final(self).logs_view() == old(self).logs_view(),
            final(self).status_view() == old(self).status_view(),
    {
        self.side_content = content;
    }

    /// The main messages, oldest first.
    pub fn get_messages(&self) -> (r: &[String])
        ensures
            r@ == self.messages_view(),
    {
        self.messages.as_slice()
    }

    /// The log messages, oldest first.
    pub fn get_logs(&self) -> (r: &[String])
        ensures
            r@ == self.logs_view(),
    {
        self.log_messages.as_slice()
    }

    /// The status line.
    pub fn get_status(&self) -> (r: &str)
        ensures
            r@ == self.status_view(),
    {
        self.status.as_str()
    }

    /// The side panel's content.
    pub fn get_side_content(&self) -> (r: &str)
        ensures
            r@ == self.side_view(),
    {
        self.side_content.as_str()
    }

    /// Empties the main output.
    pub fn clear_messages(&mut self)
        ensures
            final(self).messages_view().len() == 0,
            final(self).logs_view() == old(self).logs_view(),
            final(self).status_view() == old(self).status_view(),
            final(self).side_view() == old(self).side_view(),
    {
        self.messages.clear();
    }

    /// Empties the log.
    pub fn clear_logs(&mut self)
        ensures
            final(self).logs_view().len() == 0,
            final(self).messages_view() == old(self).messages_view(),
            final(self).status_view() == old(self).status_view(),
            final(self).side_view() == old(self).side_view(),
    {
        self.log_messages.clear();
    }
}

} // verus!
