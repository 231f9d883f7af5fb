use vstd::prelude::*;

verus! {

/// Health of the time source, as reported to subscribers.
#[derive(Clone, Copy, PartialEq, Eq, Structural, Debug)]
pub enum Status {
    Healthy,
    Initializing,
    UnknownUnhealthy,
    Network,
    Hardware,
    Protocol,
    Resource,
}

/// One reading of the clock: a UTC time and the monotonic time at which it held.
#[derive(Clone, Copy, PartialEq, Eq, Structural, Debug)]
pub struct TimeSample {
    pub utc: Option<i64>,
    pub monotonic: Option<i64>,
}

/// One update produced by the update source.
#[derive(Clone, Copy, PartialEq, Eq, Structural, Debug)]
pub enum Update {
    Sample(TimeSample),
    Status(Status),
}

impl Update {
    /// True exactly for a status update.
    pub fn is_status(&self) -> (r: bool)
        ensures
            r == (*self is Status),
    {
        match self {
            Update::Sample(_) => false,
            Update::Status(_) => true,
        }
    }
}

} // verus!
