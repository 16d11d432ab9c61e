//! Loading and saving the event files of a world. The files are read and
//! written by the front end, which hands the library the events it read.
use vstd::prelude::*;

verus! {

/// Reads and writes a world's event files.
pub struct EventLoader;

} // verus!
