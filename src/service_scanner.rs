//! Service discovery: one collector run per channel, one channel after
//! another.  The runs themselves (tuner, processes, JSON) belong to the caller;
//! this module decides what is scanned next and what the outcomes add up to.
use vstd::prelude::*;
use vstd::string::StringExecFns;

use crate::epg::{service_on, EpgChannel, EpgService, TsService};
use crate::tuner::{TunerUser, TunerUserInfo};

verus! {

/// How the collector run on one channel ended.
#[derive(Debug)]
pub enum ScanOutcome {
    /// No tuner could be had, or the collector could not be spawned.
    NotStarted,
    /// The collector wrote something that is not a list of services.
    Malformed,
    /// The services that the collector reported; none when it wrote nothing.
    Records(Vec<TsService>),
}

/// A scan over a list of channels with one collector command.
pub struct ServiceScanner {
    command: String,
    channels: Vec<EpgChannel>,
    next: usize,
    services: Vec<EpgService>,
    failed: Vec<usize>,
}

/// A byte that JSON and the collector treat as blank.
pub open spec fn is_blank(b: u8) -> bool {
    b == 0x20 || b == 0x09 || b == 0x0a || b == 0x0d
}

/// The collector wrote something other than blanks.
pub open spec fn has_data(out: Seq<u8>) -> bool {
    exists|k: int| 0 <= k < out.len() && !is_blank(#[trigger] out[k])
}

pub open spec fn scanner_label() -> Seq<char> {
    "service-scanner"@
}

/// Whether the collector's output needs parsing.  Output with nothing but
/// blanks stands for no services at all, not for malformed output.
pub fn output_has_data(out: &Vec<u8>) -> (r: bool)
    ensures
        r == has_data(out@),
{
    let mut k: usize = 0;
    while k < out.len()
        invariant
            0 <= k <= out@.len(),
            forall|j: int| 0 <= j < k ==> is_blank(#[trigger] out@[j]),
        decreases out@.len() - k,
    {
        let b = out[k];
        if !(b == 0x20 || b == 0x09 || b == 0x0a || b == 0x0d) {
            return true;
        }
        k = k + 1;
    }
    false
}

impl ServiceScanner {
    pub closed spec fn spec_command(&self) -> Seq<char> {
        self.command@
    }

    pub closed spec fn spec_channels(&self) -> Seq<EpgChannel> {
        self.channels@
    }

    /// The index of the channel to scan next; the number of channels once
    /// every channel is done.
    pub closed spec fn spec_next(&self) -> int {
        self.next as int
    }

    /// The services found so far, channel after channel.
    pub closed spec fn spec_services(&self) -> Seq<EpgService> {
        self.services@
    }

    /// The channels whose scan failed, in order.
    pub closed spec fn spec_failed(&self) -> Seq<usize> {
        self.failed@
    }

    pub closed spec fn wf(&self) -> bool {
        self.next <= self.channels@.len()
    }

    pub fn new(command: String, channels: Vec<EpgChannel>) -> (r: Self)
        ensures
            r.wf(),
            r.spec_command() == command@,
            r.spec_channels() == channels@,
            r.spec_next() == 0,
            r.spec_services().len() == 0,
            r.spec_failed().len() == 0,
    {
        ServiceScanner { command, channels, next: 0, services: Vec::new(), failed: Vec::new() }
    }

    /// The user that a scan holds its tuner as: a job that preempts nobody.
    pub fn tuner_user() -> (r: TunerUser)
        ensures
            r.priority == -1,
            r.info matches TunerUserInfo::Job { name } && name@ == scanner_label(),
    {
        TunerUser {
            info: TunerUserInfo::Job { name: String::from_str("service-scanner") },
            priority: -1,
        }
    }

    pub fn command(&self) -> (r: &String)
        ensures
            r@ == self.spec_command(),
    {
        &self.command
    }

    /// The channel to scan now, or `None` when every channel is done.
    pub fn current_channel(&self) -> (r: Option<&EpgChannel>)
        requires
            self.wf(),
        ensures
            match r {
                Some(c) => 0 <= self.spec_next() < self.spec_channels().len() && *c
                    == self.spec_channels()[self.spec_next()],
                None => self.spec_next() == self.spec_channels().len(),
            },
    {
        if self.next < self.channels.len() {
            Some(&self.channels[self.next])
        } else {
            None
        }
    }

    /// Takes the outcome of the current channel and moves to the next one.  A
    /// failed channel adds no services and stops nothing.
    pub fn record_outcome(&mut self, outcome: ScanOutcome)
        requires
            old(self).wf(),
            old(self).spec_next() < old(self).spec_channels().len(),
        ensures
            final(self).wf(),
            final(self).spec_command() == old(self).spec_command(),
            final(self).spec_channels() == old(self).spec_channels(),
            final(self).spec_next() == old(self).spec_next() + 1,
            match outcome {
                ScanOutcome::Records(rs) => {
                    let n = old(self).spec_services().len();
                    let ch = old(self).spec_channels()[old(self).spec_next()];
                    &&& final(self).spec_failed() == old(self).spec_failed()
                    &&& final(self).spec_services().len() == n + rs@.len()
                    &&& final(self).spec_services().subrange(0, n as int) == old(
                        self,
                    ).spec_services()
                    &&& forall|k: int|
                        0 <= k < rs@.len() ==> service_on(
                            #[trigger] final(self).spec_services()[n + k],
                            ch,
                            rs@[k],
                        )
                },
                _ => {
                    &&& final(self).spec_services() == old(self).spec_services()
                    &&& final(self).spec_failed() == old(self).spec_failed().push(
                        old(self).spec_next() as usize,
                    )
                },
            },
    {
        let count = self.channels.len();
        let ghost n = self.services@.len();
        let ghost before = self.services@;
        match outcome {
            ScanOutcome::Records(rs) => {
                let channel = &self.channels[self.next];
                let mut k: usize = 0;
                while k < rs.len()
                    invariant
                        0 <= k <= rs@.len(),
                        self.services@.len() == n + k,
                        self.services@.subrange(0, n as int) == before,
                        self.next < self.channels@.len(),
                        self.next == old(self).next,
                        self.command == old(self).command,
                        self.channels == old(self).channels,
                        self.failed == old(self).failed,
                        *channel == self.channels@[self.next as int],
                        forall|j: int|
                            0 <= j < k ==> service_on(
                                #[trigger] self.services@[n + j],
                                *channel,
                                rs@[j],
                            ),
                    decreases rs@.len() - k,
                {
                    let s = EpgService::from_ts_service(channel, &rs[k]);
                    let ghost prev = self.services@;
                    self.services.push(s);
                    proof {
                        assert(self.services@.subrange(0, n as int) =~= prev.subrange(0, n as int));
                        assert forall|j: int| 0 <= j < k + 1 implies service_on(
                            #[trigger] self.services@[n + j],
                            *channel,
                            rs@[j],
                        ) by {
                            if j < k {
                                assert(self.services@[n + j] == prev[n + j]);
                            }
                        }
                    }
                    k = k + 1;
                }
            },
            _ => {
                self.failed.push(self.next);
            },
        }
        assert(self.next < count);
        self.next = self.next + 1;
    }

    /// Every channel has been scanned.
    pub fn is_done(&self) -> (r: bool)
        requires
            self.wf(),
        ensures
            r == (self.spec_next() == self.spec_channels().len()),
    {
        self.next == self.channels.len()
    }

    /// The channels whose scan failed.
    pub fn failed_channels(&self) -> (r: &Vec<usize>)
        ensures
            r@ == self.spec_failed(),
    {
        &self.failed
    }

    /// The services found, channel after channel.
    pub fn into_services(self) -> (r: Vec<EpgService>)
        ensures
            r@ == self.spec_services(),
    {
        self.services
    }
}

} // verus!
