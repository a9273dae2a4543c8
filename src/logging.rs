//! The verbosity levels that a run can be asked for.
use vstd::prelude::*;

verus! {

/// A log level filter, from silent to everything.
#[derive(Debug, Clone, Copy, PartialEq, Eq, Structural)]
pub enum LevelFilterArg {
    Off,
    Trace,
    Debug,
    Info,
    Warn,
    Error,
}

} // verus!
