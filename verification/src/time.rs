//! Which times of a file are kept when it is copied.

use vstd::prelude::*;

verus! {

/// Which times the copy of a file takes over from the source.
#[derive(Clone, Copy, Debug, PartialEq, Eq, Structural)]
pub struct TimeOptions {
    /// The copy keeps the time of the last modification.
    pub retain_modification_time: bool,
    /// The copy keeps the time of the last access.
    pub retain_access_time: bool,
}

impl TimeOptions {
    /// Options that keep no time.
    pub fn new() -> (options: TimeOptions)
        ensures
            options == (TimeOptions {
                retain_modification_time: false,
                retain_access_time: false,
            }),
    {
        TimeOptions { retain_modification_time: false, retain_access_time: false }
    }

    /// Some time is kept, so that the times of the source have to be read.
    pub fn retains_any(&self) -> (any: bool)
        ensures
            any == (self.retain_modification_time || self.retain_access_time),
    {
        self.retain_modification_time || self.retain_access_time
    }
}

} // verus!
