//! Plain values shared by the configuration, the tuner manager and the jobs.
use vstd::prelude::*;

verus! {

/// The broadcast system that a channel belongs to.
#[derive(Clone, Copy, Debug, PartialEq, Eq, Structural, Hash)]
pub enum ChannelType {
    GR,
    BS,
    CS,
    SKY,
}

/// A service (programme stream) identifier within a transport stream.
#[derive(Clone, Copy, Debug, PartialEq, Eq, Structural, Hash)]
pub struct ServiceId(pub u16);

} // verus!
