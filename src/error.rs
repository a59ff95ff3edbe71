//! The errors of the core and the HTTP status that each one is reported as.
use vstd::prelude::*;

use crate::tuner::AllocationError;

verus! {

#[derive(Clone, Copy, Debug, PartialEq, Eq, Structural)]
pub enum Error {
    ChannelNotFound,
    ServiceNotFound,
    ProgramNotFound,
    /// A channel and decode setting that do not go together.
    InvalidRequest,
    /// Every tuner is busy.
    ServiceUnavailable,
    /// The filter at this position of the pipeline could not be spawned.
    SpawnFailed { stage: usize },
    /// The tuner was taken by a request of higher priority.
    TunerDisconnected,
    CollectorParseError,
    IoError,
}

pub open spec fn status_of(e: Error) -> u16 {
    match e {
        Error::ChannelNotFound | Error::ServiceNotFound | Error::ProgramNotFound => 404,
        Error::InvalidRequest => 400,
        Error::ServiceUnavailable => 503,
        _ => 500,
    }
}

impl Error {
    /// The HTTP status of a request that failed with this error.
    pub fn status_code(&self) -> (r: u16)
        ensures
            r == status_of(*self),
    {
        match self {
            Error::ChannelNotFound | Error::ServiceNotFound | Error::ProgramNotFound => 404,
            Error::InvalidRequest => 400,
            Error::ServiceUnavailable => 503,
            _ => 500,
        }
    }

    pub fn from_allocation_error(e: AllocationError) -> (r: Error)
        ensures
            e == AllocationError::ChannelNotFound ==> r == Error::ChannelNotFound,
            e == AllocationError::ServiceUnavailable ==> r == Error::ServiceUnavailable,
    {
        match e {
            AllocationError::ChannelNotFound => Error::ChannelNotFound,
            AllocationError::ServiceUnavailable => Error::ServiceUnavailable,
        }
    }
}

} // verus!
