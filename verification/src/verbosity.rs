//! Up to which level the process shows messages.

use vstd::prelude::*;

verus! {

/// Up to which level messages are shown.
#[derive(Debug, Clone, Copy, PartialEq, Eq, Structural)]
pub enum LevelFilter {
    Off,
    Error,
    Warn,
    Info,
    Debug,
    Trace,
}

/// The mark of a level having been set for the process. Setting one is the only way to get it.
#[derive(Debug)]
pub struct MaxLevel {
    level: LevelFilter,
}

impl View for MaxLevel {
    type V = LevelFilter;

    closed spec fn view(&self) -> LevelFilter {
        self.level
    }
}

impl MaxLevel {
    /// The level that was set.
    pub fn level(&self) -> (res: LevelFilter)
        ensures
            res == self@,
    {
        self.level
    }
}

/// Calls `log::set_max_level` with the filter of the same name and hands back the mark of it.
/// The contract claims that the mark names the level of the call. The call changes a setting of
/// the whole process, which any other part of the program may change again; what
/// `log::max_level` answers later is therefore not stated.
#[verifier::external_body]
pub(crate) fn set_max_level(level: LevelFilter) -> (res: MaxLevel)
    ensures
        res@ == level,
{
    log::set_max_level(match level {
        LevelFilter::Off => log::LevelFilter::Off,
        LevelFilter::Error => log::LevelFilter::Error,
        LevelFilter::Warn => log::LevelFilter::Warn,
        LevelFilter::Info => log::LevelFilter::Info,
        LevelFilter::Debug => log::LevelFilter::Debug,
        LevelFilter::Trace => log::LevelFilter::Trace,
    });
    MaxLevel { level }
}

} // verus!
