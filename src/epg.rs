//! Channels and services as the EPG sees them.
use vstd::prelude::*;

use crate::models::{ChannelType, ServiceId};

verus! {

/// A channel to collect data from.
#[derive(Clone, Debug, PartialEq)]
pub struct EpgChannel {
    pub name: String,
    pub channel_type: ChannelType,
    pub channel: String,
    pub services: Vec<ServiceId>,
    pub excluded_services: Vec<ServiceId>,
}

/// A service as the collector reports it.
#[derive(Clone, Debug, PartialEq)]
pub struct TsService {
    pub nid: u16,
    pub tsid: u16,
    pub sid: u16,
    pub service_type: u16,
    pub logo_id: i16,
    pub remote_control_key_id: u16,
    pub name: String,
}

/// A service together with the channel that carries it.
#[derive(Clone, Debug, PartialEq)]
pub struct EpgService {
    pub nid: u16,
    pub tsid: u16,
    pub sid: u16,
    pub service_type: u16,
    pub logo_id: i16,
    pub remote_control_key_id: u16,
    pub name: String,
    pub channel: EpgChannel,
}

/// The two channels hold the same values.
pub open spec fn same_channel(a: EpgChannel, b: EpgChannel) -> bool {
    &&& a.name@ == b.name@
    &&& a.channel_type == b.channel_type
    &&& a.channel@ == b.channel@
    &&& a.services@ == b.services@
    &&& a.excluded_services@ == b.excluded_services@
}

/// `s` is the service `ts` found on `channel`.
pub open spec fn service_on(s: EpgService, channel: EpgChannel, ts: TsService) -> bool {
    &&& s.nid == ts.nid
    &&& s.tsid == ts.tsid
    &&& s.sid == ts.sid
    &&& s.service_type == ts.service_type
    &&& s.logo_id == ts.logo_id
    &&& s.remote_control_key_id == ts.remote_control_key_id
    &&& s.name@ == ts.name@
    &&& same_channel(s.channel, channel)
}

fn copy_ids(ids: &Vec<ServiceId>) -> (r: Vec<ServiceId>)
    ensures
        r@ == ids@,
{
    let mut r: Vec<ServiceId> = Vec::new();
    let mut k: usize = 0;
    while k < ids.len()
        invariant
            0 <= k <= ids@.len(),
            r@ == ids@.subrange(0, k as int),
        decreases ids@.len() - k,
    {
        r.push(ids[k]);
        k = k + 1;
        assert(r@ =~= ids@.subrange(0, k as int));
    }
    assert(r@ =~= ids@);
    r
}

impl EpgChannel {
    /// A copy that holds the same values.
    pub fn duplicate(&self) -> (r: EpgChannel)
        ensures
            same_channel(r, *self),
    {
        EpgChannel {
            name: self.name.clone(),
            channel_type: self.channel_type,
            channel: self.channel.clone(),
            services: copy_ids(&self.services),
            excluded_services: copy_ids(&self.excluded_services),
        }
    }
}

impl EpgService {
    /// The service `sv`, found on `channel`.
    pub fn from_ts_service(channel: &EpgChannel, sv: &TsService) -> (r: EpgService)
        ensures
            service_on(r, *channel, *sv),
    {
        EpgService {
            nid: sv.nid,
            tsid: sv.tsid,
            sid: sv.sid,
            service_type: sv.service_type,
            logo_id: sv.logo_id,
            remote_control_key_id: sv.remote_control_key_id,
            name: sv.name.clone(),
            channel: channel.duplicate(),
        }
    }
}

} // verus!
