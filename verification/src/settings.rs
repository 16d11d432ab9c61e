//! The player's display settings.
use vstd::prelude::*;

verus! {

/// Which optional windows are shown.
#[derive(Clone)]
pub struct GameSettings {
    /// The minimap is shown.
    pub show_minimap: bool,
    /// The log window is shown.
    pub show_log: bool,
}

impl Default for GameSettings {
    /// No minimap; the log window shown.
    fn default() -> (r: Self)
        ensures
            !r.show_minimap,
            r.show_log,
    {
        GameSettings { show_minimap: false, show_log: true }
    }
}

} // verus!
