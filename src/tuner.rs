//! The tuner resource manager: it hands tuner devices to users, shares a tuned
//! device between users of the same channel, and preempts lower-priority users
//! when every suitable device is busy.
use vstd::prelude::*;
use vstd::string::StringExecFns;

use crate::config::{ChannelConfig, TunerConfig};
use crate::models::ChannelType;

verus! {

/// What a user of a tuner is, for diagnostics only.
#[derive(Clone, Debug, PartialEq)]
pub enum TunerUserInfo {
    Web { id: u64, agent: Option<String> },
    Job { name: String },
}

/// A request for a tuner.  A higher priority preempts a lower one; a negative
/// priority never preempts anybody.
#[derive(Clone, Debug, PartialEq)]
pub struct TunerUser {
    pub info: TunerUserInfo,
    pub priority: i32,
}

/// A user attached to a tuned device.
#[derive(Clone, Copy, Debug, PartialEq, Eq, Structural)]
pub struct UserRecord {
    pub id: u64,
    pub priority: i32,
}

/// A device is either idle or tuned to one channel with at least one user.
#[derive(Debug)]
pub enum TunerState {
    Idle,
    Tuned { channel_type: ChannelType, channel: String, users: Vec<UserRecord> },
}

/// One configured tuner device.
#[derive(Debug)]
pub struct TunerDevice {
    pub index: usize,
    pub name: String,
    pub channel_types: Vec<ChannelType>,
    pub command: String,
    pub disabled: bool,
    pub state: TunerState,
}

#[derive(Clone, Copy, Debug, PartialEq, Eq, Structural)]
pub enum AllocationError {
    /// The channel is not configured, is disabled, or no enabled device can
    /// receive its type.
    ChannelNotFound,
    /// Every suitable device is busy with users that cannot be preempted.
    ServiceUnavailable,
}

/// How a device was obtained.
#[derive(Clone, Copy, Debug, PartialEq, Eq, Structural)]
pub enum Grant {
    /// Joined the users of a device already tuned to the channel.
    Shared,
    /// Tuned an idle device.
    Tuned,
    /// Detached every user of a busy device and re-tuned it.
    Preempted,
}

/// A successful allocation: the device, the new user's id, and the users that
/// were detached to make room (empty unless preempted).
#[derive(Debug)]
pub struct Allocation {
    pub device: usize,
    pub user_id: u64,
    pub grant: Grant,
    pub evicted: Vec<UserRecord>,
}

/// The lowest priority among `users`; `i32::MAX` when there is none.
pub open spec fn min_priority(users: Seq<UserRecord>) -> int
    decreases users.len(),
{
    if users.len() == 0 {
        i32::MAX as int
    } else {
        let rest = min_priority(users.drop_last());
        if (users.last().priority as int) < rest {
            users.last().priority as int
        } else {
            rest
        }
    }
}

/// No user of `users` has a priority below `min_priority(users)`, and a
/// non-empty sequence has a user with exactly that priority.
pub proof fn lemma_min_priority(users: Seq<UserRecord>)
    ensures
        forall|k: int| 0 <= k < users.len() ==> min_priority(users) <= users[k].priority,
        users.len() > 0 ==> exists|k: int|
            0 <= k < users.len() && min_priority(users) == users[k].priority,
        min_priority(users) <= i32::MAX,
        min_priority(users) >= i32::MIN,
    decreases users.len(),
{
    if users.len() > 0 {
        let rest = users.drop_last();
        lemma_min_priority(rest);
        assert forall|k: int| 0 <= k < users.len() implies min_priority(users) <= users[k].priority by {
            if k < users.len() - 1 {
                assert(users[k] == rest[k]);
            }
        }
        if (users.last().priority as int) < min_priority(rest) {
            assert(min_priority(users) == users[users.len() - 1].priority);
        } else if rest.len() > 0 {
            let k = choose|k: int| 0 <= k < rest.len() && min_priority(rest) == rest[k].priority;
            assert(users[k] == rest[k]);
        } else {
            assert(min_priority(users) == users[users.len() - 1].priority);
        }
    }
}

impl TunerDevice {
    pub open spec fn supports(&self, channel_type: ChannelType) -> bool {
        self.channel_types@.contains(channel_type)
    }

    /// The device is enabled and can receive channels of the type.
    pub open spec fn usable_for(&self, channel_type: ChannelType) -> bool {
        !self.disabled && self.supports(channel_type)
    }

    pub open spec fn is_idle(&self) -> bool {
        self.state is Idle
    }

    pub open spec fn tuned_to(&self, channel_type: ChannelType, channel: Seq<char>) -> bool {
        match self.state {
            TunerState::Tuned { channel_type: t, channel: c, .. } => t == channel_type && c@
                == channel,
            TunerState::Idle => false,
        }
    }

    pub open spec fn tuned_type(&self) -> ChannelType
        recommends
            !self.is_idle(),
    {
        match self.state {
            TunerState::Tuned { channel_type, .. } => channel_type,
            TunerState::Idle => ChannelType::GR,
        }
    }

    pub open spec fn tuned_channel(&self) -> Seq<char> {
        match self.state {
            TunerState::Tuned { channel, .. } => channel@,
            TunerState::Idle => Seq::empty(),
        }
    }

    /// The users attached to the device, in the order in which they came.
    pub open spec fn users(&self) -> Seq<UserRecord> {
        match self.state {
            TunerState::Tuned { users, .. } => users@,
            TunerState::Idle => Seq::empty(),
        }
    }

    /// Everything but the state is the same.
    pub open spec fn same_setup(&self, other: &TunerDevice) -> bool {
        &&& self.index == other.index
        &&& self.name == other.name
        &&& self.channel_types == other.channel_types
        &&& self.command == other.command
        &&& self.disabled == other.disabled
    }

    pub fn supports_type(&self, channel_type: ChannelType) -> (r: bool)
        ensures
            r == self.supports(channel_type),
    {
        let mut k: usize = 0;
        while k < self.channel_types.len()
            invariant
                0 <= k <= self.channel_types@.len(),
                forall|j: int| 0 <= j < k ==> self.channel_types@[j] != channel_type,
            decreases self.channel_types@.len() - k,
        {
            if self.channel_types[k] == channel_type {
                return true;
            }
            k = k + 1;
        }
        false
    }

    pub fn is_usable_for(&self, channel_type: ChannelType) -> (r: bool)
        ensures
            r == self.usable_for(channel_type),
    {
        !self.disabled && self.supports_type(channel_type)
    }

    pub fn is_idle_now(&self) -> (r: bool)
        ensures
            r == self.is_idle(),
    {
        match self.state {
            TunerState::Idle => true,
            TunerState::Tuned { .. } => false,
        }
    }

    pub fn is_tuned_to(&self, channel_type: ChannelType, channel: &String) -> (r: bool)
        ensures
            r == self.tuned_to(channel_type, channel@),
    {
        match &self.state {
            TunerState::Tuned { channel_type: t, channel: c, .. } => *t == channel_type && *c
                == *channel,
            TunerState::Idle => false,
        }
    }

    /// The lowest priority among the device's users.
    pub fn lowest_priority(&self) -> (r: i32)
        ensures
            r == min_priority(self.users()),
    {
        proof {
            lemma_min_priority(self.users());
        }
        match &self.state {
            TunerState::Idle => i32::MAX,
            TunerState::Tuned { users, .. } => {
                let mut m: i32 = i32::MAX;
                let mut k: usize = 0;
                while k < users.len()
                    invariant
                        0 <= k <= users@.len(),
                        m == min_priority(users@.subrange(0, k as int)),
                    decreases users@.len() - k,
                {
                    proof {
                        let s = users@.subrange(0, k as int + 1);
                        assert(s.drop_last() =~= users@.subrange(0, k as int));
                        lemma_min_priority(users@.subrange(0, k as int));
                    }
                    if users[k].priority < m {
                        m = users[k].priority;
                    }
                    k = k + 1;
                }
                assert(users@.subrange(0, k as int) =~= users@);
                m
            }
        }
    }

    /// The number of users attached to the device.
    pub fn num_users(&self) -> (r: usize)
        ensures
            r == self.users().len(),
    {
        match &self.state {
            TunerState::Idle => 0,
            TunerState::Tuned { users, .. } => users.len(),
        }
    }
}

/// A device that a request for the channel can join.
pub open spec fn can_share(d: TunerDevice, channel_type: ChannelType, channel: Seq<char>) -> bool {
    d.usable_for(channel_type) && d.tuned_to(channel_type, channel)
}

/// An idle device that can be tuned to a channel of the type.
pub open spec fn can_tune(d: TunerDevice, channel_type: ChannelType) -> bool {
    d.usable_for(channel_type) && d.is_idle()
}

/// A device that could serve the type but is in use.
pub open spec fn is_busy(d: TunerDevice, channel_type: ChannelType) -> bool {
    d.usable_for(channel_type) && !d.is_idle()
}

/// `i` is the first index whose device can be joined.
pub open spec fn first_shareable(
    devices: Seq<TunerDevice>,
    channel_type: ChannelType,
    channel: Seq<char>,
    i: int,
) -> bool {
    &&& 0 <= i < devices.len()
    &&& can_share(devices[i], channel_type, channel)
    &&& forall|j: int| 0 <= j < i ==> !can_share(#[trigger] devices[j], channel_type, channel)
}

pub open spec fn any_shareable(
    devices: Seq<TunerDevice>,
    channel_type: ChannelType,
    channel: Seq<char>,
) -> bool {
    exists|j: int| 0 <= j < devices.len() && can_share(#[trigger] devices[j], channel_type, channel)
}

/// `i` is the first index whose device is idle and can be tuned.
pub open spec fn first_tunable(devices: Seq<TunerDevice>, channel_type: ChannelType, i: int) -> bool {
    &&& 0 <= i < devices.len()
    &&& can_tune(devices[i], channel_type)
    &&& forall|j: int| 0 <= j < i ==> !can_tune(#[trigger] devices[j], channel_type)
}

pub open spec fn any_tunable(devices: Seq<TunerDevice>, channel_type: ChannelType) -> bool {
    exists|j: int| 0 <= j < devices.len() && can_tune(#[trigger] devices[j], channel_type)
}

pub open spec fn any_usable(devices: Seq<TunerDevice>, channel_type: ChannelType) -> bool {
    exists|j: int| 0 <= j < devices.len() && (#[trigger] devices[j]).usable_for(channel_type)
}

/// `i` is the busy device whose weakest user is weakest of all, the first
/// such one where several tie.
pub open spec fn weakest_busy(devices: Seq<TunerDevice>, channel_type: ChannelType, i: int) -> bool {
    &&& 0 <= i < devices.len()
    &&& is_busy(devices[i], channel_type)
    &&& forall|j: int|
        0 <= j < devices.len() && is_busy(#[trigger] devices[j], channel_type) ==> min_priority(
            devices[i].users(),
        ) <= min_priority(devices[j].users())
    &&& forall|j: int|
        0 <= j < i && is_busy(#[trigger] devices[j], channel_type) ==> min_priority(
            devices[i].users(),
        ) < min_priority(devices[j].users())
}

/// A requester of this priority may displace every user of the device.
pub open spec fn may_preempt(d: TunerDevice, priority: i32) -> bool {
    priority >= 0 && min_priority(d.users()) < priority as int
}

pub open spec fn any_preemptable(
    devices: Seq<TunerDevice>,
    channel_type: ChannelType,
    priority: i32,
) -> bool {
    exists|j: int|
        0 <= j < devices.len() && is_busy(#[trigger] devices[j], channel_type) && may_preempt(
            devices[j],
            priority,
        )
}

/// A configured, enabled channel of the type with that name.
pub open spec fn channel_available(
    channels: Seq<ChannelConfig>,
    channel_type: ChannelType,
    channel: Seq<char>,
) -> bool {
    exists|k: int|
        0 <= k < channels.len() && (#[trigger] channels[k]).channel_type == channel_type
            && channels[k].channel@ == channel && !channels[k].disabled
}

/// A user id occurs at most once over all devices.
pub open spec fn user_ids_unique(devices: Seq<TunerDevice>) -> bool {
    forall|i1: int, k1: int, i2: int, k2: int|
        0 <= i1 < devices.len() && 0 <= i2 < devices.len() && 0 <= k1 < devices[i1].users().len()
            && 0 <= k2 < devices[i2].users().len() && (i1 != i2 || k1 != k2) ==> (
        #[trigger] devices[i1].users()[k1]).id != (#[trigger] devices[i2].users()[k2]).id
}

/// A device is tuned exactly when it has users, to a channel of a type that it
/// is enabled for.
pub open spec fn tuned_iff_used(devices: Seq<TunerDevice>) -> bool {
    forall|i: int|
        0 <= i < devices.len() ==> ((#[trigger] devices[i]).is_idle() <==> devices[i].users().len()
            == 0) && (!devices[i].is_idle() ==> devices[i].usable_for(devices[i].tuned_type()))
}

/// No channel is tuned on two devices at once.
pub open spec fn channels_distinct(devices: Seq<TunerDevice>) -> bool {
    forall|i: int, j: int|
        0 <= i < devices.len() && 0 <= j < devices.len() && i != j && !(
        #[trigger] devices[i]).is_idle() && !(#[trigger] devices[j]).is_idle() ==> !(
        devices[i].tuned_type() == devices[j].tuned_type() && devices[i].tuned_channel()
            == devices[j].tuned_channel())
}

/// The set of devices and the users attached to them.
pub struct TunerManager {
    devices: Vec<TunerDevice>,
    channels: Vec<ChannelConfig>,
    next_user_id: u64,
}

impl TunerManager {
    pub closed spec fn spec_devices(&self) -> Seq<TunerDevice> {
        self.devices@
    }

    pub closed spec fn spec_channels(&self) -> Seq<ChannelConfig> {
        self.channels@
    }

    /// The id that the next allocation hands out.
    pub closed spec fn spec_next_user_id(&self) -> u64 {
        self.next_user_id
    }

    pub open spec fn wf(&self) -> bool {
        &&& tuned_iff_used(self.spec_devices())
        &&& channels_distinct(self.spec_devices())
        &&& user_ids_unique(self.spec_devices())
        &&& forall|i: int, k: int|
            0 <= i < self.spec_devices().len() && 0 <= k < self.spec_devices()[i].users().len()
                ==> (#[trigger] self.spec_devices()[i].users()[k]).id < self.spec_next_user_id()
    }

    /// Whether a request of this priority gets a device.
    pub open spec fn allocation_succeeds(
        &self,
        channel_type: ChannelType,
        channel: Seq<char>,
        priority: i32,
    ) -> bool {
        let d = self.spec_devices();
        &&& channel_available(self.spec_channels(), channel_type, channel)
        &&& any_usable(d, channel_type)
        &&& (any_shareable(d, channel_type, channel) || any_tunable(d, channel_type)
            || any_preemptable(d, channel_type, priority))
    }

    /// Whether `user_id` is attached to some device.
    pub open spec fn has_user(&self, user_id: u64) -> bool {
        exists|i: int, k: int|
            0 <= i < self.spec_devices().len() && 0 <= k < self.spec_devices()[i].users().len()
                && (#[trigger] self.spec_devices()[i].users()[k]).id == user_id
    }
}

impl TunerManager {
    /// One idle device per configured tuner, in the configured order.  A
    /// disabled tuner keeps its place but is never handed out.
    pub fn new(tuners: &Vec<TunerConfig>, channels: Vec<ChannelConfig>) -> (r: Self)
        ensures
            r.wf(),
            r.spec_channels() == channels@,
            r.spec_next_user_id() == 1,
            r.spec_devices().len() == tuners@.len(),
            forall|i: int|
                0 <= i < tuners@.len() ==> {
                    let d = #[trigger] r.spec_devices()[i];
                    &&& d.index == i
                    &&& d.name == tuners@[i].name
                    &&& d.channel_types@ == tuners@[i].channel_types@
                    &&& d.command == tuners@[i].command
                    &&& d.disabled == tuners@[i].disabled
                    &&& d.is_idle()
                },
    {
        let mut devices: Vec<TunerDevice> = Vec::new();
        let mut i: usize = 0;
        while i < tuners.len()
            invariant
                0 <= i <= tuners@.len(),
                devices@.len() == i,
                forall|j: int|
                    0 <= j < i ==> {
                        let d = #[trigger] devices@[j];
                        &&& d.index == j
                        &&& d.name == tuners@[j].name
                        &&& d.channel_types@ == tuners@[j].channel_types@
                        &&& d.command == tuners@[j].command
                        &&& d.disabled == tuners@[j].disabled
                        &&& d.is_idle()
                    },
            decreases tuners@.len() - i,
        {
            let t = &tuners[i];
            let mut types: Vec<ChannelType> = Vec::new();
            let mut k: usize = 0;
            while k < t.channel_types.len()
                invariant
                    0 <= k <= t.channel_types@.len(),
                    types@ == t.channel_types@.subrange(0, k as int),
                decreases t.channel_types@.len() - k,
            {
                types.push(t.channel_types[k]);
                k = k + 1;
                assert(types@ =~= t.channel_types@.subrange(0, k as int));
            }
            assert(types@ =~= t.channel_types@);
            devices.push(
                TunerDevice {
                    index: i,
                    name: t.name.clone(),
                    channel_types: types,
                    command: t.command.clone(),
                    disabled: t.disabled,
                    state: TunerState::Idle,
                },
            );
            i = i + 1;
        }
        TunerManager { devices, channels, next_user_id: 1 }
    }

    /// The devices and their users, for status queries.
    pub fn devices(&self) -> (r: &Vec<TunerDevice>)
        ensures
            r@ == self.spec_devices(),
    {
        &self.devices
    }

    /// The id that the next allocation hands out; none is handed out once it
    /// reaches `u64::MAX`.
    pub fn next_user_id(&self) -> (r: u64)
        ensures
            r == self.spec_next_user_id(),
    {
        self.next_user_id
    }

    fn channel_is_available(&self, channel_type: ChannelType, channel: &String) -> (r: bool)
        ensures
            r == channel_available(self.channels@, channel_type, channel@),
    {
        let mut k: usize = 0;
        while k < self.channels.len()
            invariant
                0 <= k <= self.channels@.len(),
                forall|j: int|
                    0 <= j < k ==> !((#[trigger] self.channels@[j]).channel_type == channel_type
                        && self.channels@[j].channel@ == channel@ && !self.channels@[j].disabled),
            decreases self.channels@.len() - k,
        {
            let c = &self.channels[k];
            if c.channel_type == channel_type && c.channel == *channel && !c.disabled {
                return true;
            }
            k = k + 1;
        }
        false
    }

    fn has_usable(&self, channel_type: ChannelType) -> (r: bool)
        ensures
            r == any_usable(self.devices@, channel_type),
    {
        let mut i: usize = 0;
        while i < self.devices.len()
            invariant
                0 <= i <= self.devices@.len(),
                forall|j: int| 0 <= j < i ==> !(#[trigger] self.devices@[j]).usable_for(channel_type),
            decreases self.devices@.len() - i,
        {
            if self.devices[i].is_usable_for(channel_type) {
                return true;
            }
            i = i + 1;
        }
        false
    }

    fn find_shareable(&self, channel_type: ChannelType, channel: &String) -> (r: Option<usize>)
        ensures
            match r {
                Some(i) => first_shareable(self.devices@, channel_type, channel@, i as int),
                None => !any_shareable(self.devices@, channel_type, channel@),
            },
    {
        let mut i: usize = 0;
        while i < self.devices.len()
            invariant
                0 <= i <= self.devices@.len(),
                forall|j: int|
                    0 <= j < i ==> !can_share(#[trigger] self.devices@[j], channel_type, channel@),
            decreases self.devices@.len() - i,
        {
            let d = &self.devices[i];
            if d.is_usable_for(channel_type) && d.is_tuned_to(channel_type, channel) {
                return Some(i);
            }
            i = i + 1;
        }
        None
    }

    fn find_tunable(&self, channel_type: ChannelType) -> (r: Option<usize>)
        ensures
            match r {
                Some(i) => first_tunable(self.devices@, channel_type, i as int),
                None => !any_tunable(self.devices@, channel_type),
            },
    {
        let mut i: usize = 0;
        while i < self.devices.len()
            invariant
                0 <= i <= self.devices@.len(),
                forall|j: int| 0 <= j < i ==> !can_tune(#[trigger] self.devices@[j], channel_type),
            decreases self.devices@.len() - i,
        {
            let d = &self.devices[i];
            if d.is_usable_for(channel_type) && d.is_idle_now() {
                return Some(i);
            }
            i = i + 1;
        }
        None
    }

    fn find_weakest_busy(&self, channel_type: ChannelType) -> (r: Option<(usize, i32)>)
        ensures
            match r {
                Some((i, m)) => weakest_busy(self.devices@, channel_type, i as int) && m
                    == min_priority(self.devices@[i as int].users()),
                None => forall|j: int|
                    0 <= j < self.devices@.len() ==> !is_busy(
                        #[trigger] self.devices@[j],
                        channel_type,
                    ),
            },
    {
        let mut best: Option<(usize, i32)> = None;
        let mut i: usize = 0;
        while i < self.devices.len()
            invariant
                0 <= i <= self.devices@.len(),
                match best {
                    Some((b, m)) => {
                        &&& 0 <= b < i
                        &&& is_busy(self.devices@[b as int], channel_type)
                        &&& m == min_priority(self.devices@[b as int].users())
                        &&& forall|j: int|
                            0 <= j < i && is_busy(#[trigger] self.devices@[j], channel_type)
                                ==> m <= min_priority(self.devices@[j].users())
                        &&& forall|j: int|
                            0 <= j < b && is_busy(#[trigger] self.devices@[j], channel_type)
                                ==> m < min_priority(self.devices@[j].users())
                    },
                    None => forall|j: int|
                        0 <= j < i ==> !is_busy(#[trigger] self.devices@[j], channel_type),
                },
            decreases self.devices@.len() - i,
        {
            let d = &self.devices[i];
            if d.is_usable_for(channel_type) && !d.is_idle_now() {
                let m = d.lowest_priority();
                match best {
                    Some((_, bm)) => {
                        if m < bm {
                            best = Some((i, m));
                        }
                    },
                    None => {
                        best = Some((i, m));
                    },
                }
            }
            i = i + 1;
        }
        best
    }
}

impl TunerManager {
    /// Adds a user to the tuned device `i`.
    fn attach(&mut self, i: usize, user: UserRecord)
        requires
            0 <= i < old(self).devices@.len(),
            !old(self).devices@[i as int].is_idle(),
        ensures
            final(self).channels == old(self).channels,
            final(self).next_user_id == old(self).next_user_id,
            final(self).devices@.len() == old(self).devices@.len(),
            forall|j: int|
                0 <= j < old(self).devices@.len() && j != i ==> final(self).devices@[j]
                    == old(self).devices@[j],
            final(self).devices@[i as int].same_setup(&old(self).devices@[i as int]),
            final(self).devices@[i as int].tuned_to(
                old(self).devices@[i as int].tuned_type(),
                old(self).devices@[i as int].tuned_channel(),
            ),
            final(self).devices@[i as int].users() == old(self).devices@[i as int].users().push(
                user,
            ),
    {
        let d = self.devices.remove(i);
        let TunerDevice { index, name, channel_types, command, disabled, state } = d;
        let state = match state {
            TunerState::Tuned { channel_type, channel, mut users } => {
                users.push(user);
                TunerState::Tuned { channel_type, channel, users }
            },
            TunerState::Idle => TunerState::Idle,
        };
        self.devices.insert(i, TunerDevice { index, name, channel_types, command, disabled, state });
        assert(self.devices@ =~= old(self).devices@.update(
            i as int,
            self.devices@[i as int],
        ));
    }

    /// Tunes device `i` to the channel with `user` as its only user, and hands
    /// back the users it had.
    fn retune(&mut self, i: usize, channel_type: ChannelType, channel: String, user: UserRecord) -> (evicted: Vec<UserRecord>)
        requires
            0 <= i < old(self).devices@.len(),
        ensures
            final(self).channels == old(self).channels,
            final(self).next_user_id == old(self).next_user_id,
            final(self).devices@.len() == old(self).devices@.len(),
            forall|j: int|
                0 <= j < old(self).devices@.len() && j != i ==> final(self).devices@[j]
                    == old(self).devices@[j],
            final(self).devices@[i as int].same_setup(&old(self).devices@[i as int]),
            final(self).devices@[i as int].tuned_to(channel_type, channel@),
            final(self).devices@[i as int].users() == seq![user],
            evicted@ == old(self).devices@[i as int].users(),
    {
        let d = self.devices.remove(i);
        let TunerDevice { index, name, channel_types, command, disabled, state } = d;
        let evicted = match state {
            TunerState::Tuned { users, .. } => users,
            TunerState::Idle => Vec::new(),
        };
        let mut users: Vec<UserRecord> = Vec::new();
        users.push(user);
        assert(users@ =~= seq![user]);
        let state = TunerState::Tuned { channel_type, channel, users };
        self.devices.insert(i, TunerDevice { index, name, channel_types, command, disabled, state });
        assert(self.devices@ =~= old(self).devices@.update(
            i as int,
            self.devices@[i as int],
        ));
        evicted
    }

    /// Removes the `k`-th user of device `i`; the device becomes idle when no
    /// user is left.
    fn detach(&mut self, i: usize, k: usize)
        requires
            0 <= i < old(self).devices@.len(),
            0 <= k < old(self).devices@[i as int].users().len(),
        ensures
            final(self).channels == old(self).channels,
            final(self).next_user_id == old(self).next_user_id,
            final(self).devices@.len() == old(self).devices@.len(),
            forall|j: int|
                0 <= j < old(self).devices@.len() && j != i ==> final(self).devices@[j]
                    == old(self).devices@[j],
            final(self).devices@[i as int].same_setup(&old(self).devices@[i as int]),
            final(self).devices@[i as int].users() == old(self).devices@[i as int].users().remove(
                k as int,
            ),
            final(self).devices@[i as int].is_idle() <==> old(self).devices@[i as int].users().len()
                == 1,
            !final(self).devices@[i as int].is_idle() ==> final(self).devices@[i as int].tuned_to(
                old(self).devices@[i as int].tuned_type(),
                old(self).devices@[i as int].tuned_channel(),
            ),
    {
        let d = self.devices.remove(i);
        let TunerDevice { index, name, channel_types, command, disabled, state } = d;
        let state = match state {
            TunerState::Tuned { channel_type, channel, mut users } => {
                users.remove(k);
                if users.len() == 0 {
                    TunerState::Idle
                } else {
                    TunerState::Tuned { channel_type, channel, users }
                }
            },
            TunerState::Idle => TunerState::Idle,
        };
        self.devices.insert(i, TunerDevice { index, name, channel_types, command, disabled, state });
        assert(self.devices@ =~= old(self).devices@.update(
            i as int,
            self.devices@[i as int],
        ));
    }
}

impl TunerManager {
    /// Finds a device for a user who wants `channel` of `channel_type`.
    ///
    /// In this order: join the first enabled device already tuned to the
    /// channel; else tune the first idle enabled device of the type; else take
    /// the busy device whose weakest user is weakest (the first on a tie) and,
    /// if that user's priority is below the requester's and the requester's is
    /// not negative, detach all its users and re-tune it.
    pub fn allocate(&mut self, channel_type: ChannelType, channel: &str, user: &TunerUser) -> (r:
        Result<Allocation, AllocationError>)
        requires
            old(self).wf(),
            old(self).spec_next_user_id() < u64::MAX,
        ensures
            final(self).wf(),
            final(self).spec_channels() == old(self).spec_channels(),
            r is Ok <==> old(self).allocation_succeeds(channel_type, channel@, user.priority),
            r == Err::<Allocation, AllocationError>(AllocationError::ChannelNotFound) <==> !(
            channel_available(old(self).spec_channels(), channel_type, channel@) && any_usable(
                old(self).spec_devices(),
                channel_type,
            )),
            r is Err ==> *final(self) == *old(self),
            match r {
                Ok(a) => {
                    let olds = old(self).spec_devices();
                    let news = final(self).spec_devices();
                    let i = a.device as int;
                    let rec = UserRecord { id: a.user_id, priority: user.priority };
                    &&& a.user_id == old(self).spec_next_user_id()
                    &&& final(self).spec_next_user_id() == a.user_id + 1
                    &&& 0 <= i < olds.len()
                    &&& channel_available(old(self).spec_channels(), channel_type, channel@)
                    &&& !olds[i].disabled
                    &&& olds[i].supports(channel_type)
                    &&& news.len() == olds.len()
                    &&& forall|j: int| 0 <= j < olds.len() && j != i ==> news[j] == olds[j]
                    &&& news[i].same_setup(&olds[i])
                    &&& news[i].tuned_to(channel_type, channel@)
                    &&& match a.grant {
                        Grant::Shared => {
                            &&& first_shareable(olds, channel_type, channel@, i)
                            &&& news[i].users() == olds[i].users().push(rec)
                            &&& a.evicted@.len() == 0
                        },
                        Grant::Tuned => {
                            &&& !any_shareable(olds, channel_type, channel@)
                            &&& first_tunable(olds, channel_type, i)
                            &&& news[i].users() == seq![rec]
                            &&& a.evicted@.len() == 0
                        },
                        Grant::Preempted => {
                            &&& !any_shareable(olds, channel_type, channel@)
                            &&& !any_tunable(olds, channel_type)
                            &&& weakest_busy(olds, channel_type, i)
                            &&& may_preempt(olds[i], user.priority)
                            &&& news[i].users() == seq![rec]
                            &&& a.evicted@ == olds[i].users()
                        },
                    }
                },
                Err(AllocationError::ServiceUnavailable) => {
                    let olds = old(self).spec_devices();
                    &&& !any_shareable(olds, channel_type, channel@)
                    &&& !any_tunable(olds, channel_type)
                    &&& !any_preemptable(olds, channel_type, user.priority)
                },
                Err(AllocationError::ChannelNotFound) => true,
            },
    {
        let ch = String::from_str(channel);
        let priority = user.priority;
        if !self.channel_is_available(channel_type, &ch) || !self.has_usable(channel_type) {
            return Err(AllocationError::ChannelNotFound);
        }
        let id = self.next_user_id;
        let rec = UserRecord { id, priority };
        let ghost olds = self.devices@;
        match self.find_shareable(channel_type, &ch) {
            Some(i) => {
                self.attach(i, rec);
                self.next_user_id = id + 1;
                proof {
                    self.lemma_wf_after_change(olds, i as int, id);
                }
                Ok(Allocation { device: i, user_id: id, grant: Grant::Shared, evicted: Vec::new() })
            },
            None => match self.find_tunable(channel_type) {
                Some(i) => {
                    let evicted = self.retune(i, channel_type, ch, rec);
                    self.next_user_id = id + 1;
                    proof {
                        self.lemma_wf_after_change(olds, i as int, id);
                    }
                    Ok(Allocation { device: i, user_id: id, grant: Grant::Tuned, evicted })
                },
                None => match self.find_weakest_busy(channel_type) {
                    Some((i, m)) => {
                        if priority >= 0 && m < priority {
                            let evicted = self.retune(i, channel_type, ch, rec);
                            self.next_user_id = id + 1;
                            proof {
                                self.lemma_wf_after_change(olds, i as int, id);
                            }
                            Ok(Allocation { device: i, user_id: id, grant: Grant::Preempted, evicted })
                        } else {
                            Err(AllocationError::ServiceUnavailable)
                        }
                    },
                    None => Err(AllocationError::ServiceUnavailable),
                },
            },
        }
    }
}

impl TunerManager {
    /// The invariant survives giving device `i` the user `id`, whether the
    /// user joined its users or replaced them.
    proof fn lemma_wf_after_change(&self, olds: Seq<TunerDevice>, i: int, id: u64)
        requires
            tuned_iff_used(olds),
            channels_distinct(olds),
            user_ids_unique(olds),
            forall|j: int, k: int|
                0 <= j < olds.len() && 0 <= k < olds[j].users().len() ==> (#[trigger] olds[j].users()[k]).id
                    < id,
            id < u64::MAX,
            self.next_user_id == id + 1,
            0 <= i < olds.len(),
            self.devices@.len() == olds.len(),
            forall|j: int| 0 <= j < olds.len() && j != i ==> self.devices@[j] == olds[j],
            self.devices@[i].same_setup(&olds[i]),
            !self.devices@[i].is_idle(),
            self.devices@[i].usable_for(self.devices@[i].tuned_type()),
            self.devices@[i].users().len() >= 1,
            self.devices@[i].users().len() - 1 <= olds[i].users().len(),
            self.devices@[i].users().last().id == id,
            forall|k: int|
                0 <= k < self.devices@[i].users().len() - 1 ==> self.devices@[i].users()[k]
                    == olds[i].users()[k],
            (!olds[i].is_idle() && self.devices@[i].tuned_type() == olds[i].tuned_type()
                && self.devices@[i].tuned_channel() == olds[i].tuned_channel()) || !any_shareable(
                olds,
                self.devices@[i].tuned_type(),
                self.devices@[i].tuned_channel(),
            ),
        ensures
            self.wf(),
    {
        let news = self.devices@;
        let ni = news[i];
        assert(tuned_iff_used(news)) by {
            assert forall|j: int| 0 <= j < news.len() implies ((#[trigger] news[j]).is_idle()
                <==> news[j].users().len() == 0) && (!news[j].is_idle() ==> news[j].usable_for(
                news[j].tuned_type(),
            )) by {
                if j != i {
                    assert(news[j] == olds[j]);
                }
            }
        }
        assert(channels_distinct(news)) by {
            assert forall|a: int, b: int|
                0 <= a < news.len() && 0 <= b < news.len() && a != b && !(
                #[trigger] news[a]).is_idle() && !(#[trigger] news[b]).is_idle() implies !(
            news[a].tuned_type() == news[b].tuned_type() && news[a].tuned_channel()
                == news[b].tuned_channel()) by {
                if a != i && b != i {
                    assert(news[a] == olds[a] && news[b] == olds[b]);
                } else {
                    let o = if a == i {
                        b
                    } else {
                        a
                    };
                    assert(news[o] == olds[o]);
                    if !(!olds[i].is_idle() && ni.tuned_type() == olds[i].tuned_type()
                        && ni.tuned_channel() == olds[i].tuned_channel()) {
                        if olds[o].tuned_type() == ni.tuned_type() && olds[o].tuned_channel()
                            == ni.tuned_channel() {
                            assert(olds[o].tuned_to(ni.tuned_type(), ni.tuned_channel()));
                            assert(can_share(olds[o], ni.tuned_type(), ni.tuned_channel()));
                        }
                    }
                }
            }
        }
        assert forall|j: int, k: int|
            0 <= j < news.len() && 0 <= k < news[j].users().len() implies (#[trigger] news[j].users()[k]).id
            < self.next_user_id by {
            if j != i {
                assert(news[j] == olds[j]);
                assert(olds[j].users()[k].id < id);
            } else if k < ni.users().len() - 1 {
                assert(olds[i].users()[k].id < id);
            }
        }
        assert(user_ids_unique(news)) by {
            assert forall|i1: int, k1: int, i2: int, k2: int|
                0 <= i1 < news.len() && 0 <= i2 < news.len() && 0 <= k1 < news[i1].users().len()
                    && 0 <= k2 < news[i2].users().len() && (i1 != i2 || k1 != k2) implies (
            #[trigger] news[i1].users()[k1]).id != (#[trigger] news[i2].users()[k2]).id by {
                let last = ni.users().len() - 1;
                let fresh1 = i1 == i && k1 == last;
                let fresh2 = i2 == i && k2 == last;
                if i1 != i {
                    assert(news[i1] == olds[i1]);
                    assert(olds[i1].users()[k1].id < id);
                } else if k1 < last {
                    assert(olds[i].users()[k1].id < id);
                }
                if i2 != i {
                    assert(news[i2] == olds[i2]);
                    assert(olds[i2].users()[k2].id < id);
                } else if k2 < last {
                    assert(olds[i].users()[k2].id < id);
                }
                if !fresh1 && !fresh2 {
                    assert(news[i1].users()[k1] == olds[i1].users()[k1]);
                    assert(news[i2].users()[k2] == olds[i2].users()[k2]);
                }
            }
        }
    }
}

impl TunerManager {
    fn find_user(&self, user_id: u64) -> (r: Option<(usize, usize)>)
        ensures
            match r {
                Some((i, k)) => 0 <= i < self.devices@.len() && 0 <= k
                    < self.devices@[i as int].users().len()
                    && self.devices@[i as int].users()[k as int].id == user_id,
                None => !self.has_user(user_id),
            },
    {
        let mut i: usize = 0;
        while i < self.devices.len()
            invariant
                0 <= i <= self.devices@.len(),
                forall|j: int, k: int|
                    0 <= j < i && 0 <= k < self.devices@[j].users().len()
                        ==> (#[trigger] self.devices@[j].users()[k]).id != user_id,
            decreases self.devices@.len() - i,
        {
            match &self.devices[i].state {
                TunerState::Tuned { users, .. } => {
                    let mut k: usize = 0;
                    while k < users.len()
                        invariant
                            0 <= k <= users@.len(),
                            0 <= i < self.devices@.len(),
                            users@ == self.devices@[i as int].users(),
                            forall|j: int, k: int|
                                0 <= j < i && 0 <= k < self.devices@[j].users().len()
                                    ==> (#[trigger] self.devices@[j].users()[k]).id != user_id,
                            forall|l: int| 0 <= l < k ==> (#[trigger] users@[l]).id != user_id,
                        decreases users@.len() - k,
                    {
                        if users[k].id == user_id {
                            return Some((i, k));
                        }
                        k = k + 1;
                    }
                },
                TunerState::Idle => {},
            }
            i = i + 1;
        }
        None
    }

    /// Detaches a user.  The device that it used goes idle when it was the
    /// last user, and keeps its channel otherwise.  Returns that device, or
    /// `None` when no device has the user.
    pub fn release(&mut self, user_id: u64) -> (r: Option<usize>)
        requires
            old(self).wf(),
        ensures
            final(self).wf(),
            final(self).spec_channels() == old(self).spec_channels(),
            final(self).spec_next_user_id() == old(self).spec_next_user_id(),
            !final(self).has_user(user_id),
            r is None <==> !old(self).has_user(user_id),
            r is None ==> *final(self) == *old(self),
            match r {
                Some(i) => {
                    let olds = old(self).spec_devices();
                    let news = final(self).spec_devices();
                    &&& 0 <= i < olds.len()
                    &&& news.len() == olds.len()
                    &&& forall|j: int| 0 <= j < olds.len() && j != i ==> news[j] == olds[j]
                    &&& news[i as int].same_setup(&olds[i as int])
                    &&& exists|k: int|
                        0 <= k < olds[i as int].users().len() && olds[i as int].users()[k].id
                            == user_id && news[i as int].users() == olds[i as int].users().remove(
                            k,
                        )
                    &&& news[i as int].users().len() == olds[i as int].users().len() - 1
                    &&& news[i as int].is_idle() <==> olds[i as int].users().len() == 1
                    &&& !news[i as int].is_idle() ==> news[i as int].tuned_to(
                        olds[i as int].tuned_type(),
                        olds[i as int].tuned_channel(),
                    )
                },
                None => true,
            },
    {
        match self.find_user(user_id) {
            Some((i, k)) => {
                let ghost olds = self.devices@;
                self.detach(i, k);
                proof {
                    self.lemma_wf_after_detach(olds, i as int, k as int);
                    let us = olds[i as int].users();
                    assert(us[k as int].id == user_id);
                }
                Some(i)
            },
            None => None,
        }
    }

    /// The invariant survives removing the `k`-th user of device `i`, and that
    /// user's id is then nowhere.
    proof fn lemma_wf_after_detach(&self, olds: Seq<TunerDevice>, i: int, k: int)
        requires
            tuned_iff_used(olds),
            channels_distinct(olds),
            user_ids_unique(olds),
            forall|j: int, l: int|
                0 <= j < olds.len() && 0 <= l < olds[j].users().len() ==> (#[trigger] olds[j].users()[l]).id
                    < self.next_user_id,
            0 <= i < olds.len(),
            0 <= k < olds[i].users().len(),
            self.devices@.len() == olds.len(),
            forall|j: int| 0 <= j < olds.len() && j != i ==> self.devices@[j] == olds[j],
            self.devices@[i].same_setup(&olds[i]),
            self.devices@[i].users() == olds[i].users().remove(k),
            self.devices@[i].is_idle() <==> olds[i].users().len() == 1,
            !self.devices@[i].is_idle() ==> self.devices@[i].tuned_to(
                olds[i].tuned_type(),
                olds[i].tuned_channel(),
            ),
        ensures
            self.wf(),
            !self.has_user(olds[i].users()[k].id),
    {
        let news = self.devices@;
        let ni = news[i];
        let gone = olds[i].users()[k].id;
        // position in the old users of the `l`-th remaining user of device `i`
        assert forall|l: int| 0 <= l < ni.users().len() implies ni.users()[l] == olds[i].users()[
            if l < k {
                l
            } else {
                l + 1
            }] by {}
        assert(tuned_iff_used(news)) by {
            assert forall|j: int| 0 <= j < news.len() implies ((#[trigger] news[j]).is_idle()
                <==> news[j].users().len() == 0) && (!news[j].is_idle() ==> news[j].usable_for(
                news[j].tuned_type(),
            )) by {
                if j != i {
                    assert(news[j] == olds[j]);
                }
            }
        }
        assert(channels_distinct(news)) by {
            assert forall|a: int, b: int|
                0 <= a < news.len() && 0 <= b < news.len() && a != b && !(
                #[trigger] news[a]).is_idle() && !(#[trigger] news[b]).is_idle() implies !(
            news[a].tuned_type() == news[b].tuned_type() && news[a].tuned_channel()
                == news[b].tuned_channel()) by {
                assert(news[a].same_setup(&olds[a]) || a == i);
                if a != i {
                    assert(news[a] == olds[a]);
                }
                if b != i {
                    assert(news[b] == olds[b]);
                }
            }
        }
        assert forall|j: int, l: int|
            0 <= j < news.len() && 0 <= l < news[j].users().len() implies (#[trigger] news[j].users()[l]).id
            < self.next_user_id by {
            if j != i {
                assert(news[j] == olds[j]);
                assert(olds[j].users()[l].id < self.next_user_id);
            } else {
                let o = if l < k {
                    l
                } else {
                    l + 1
                };
                assert(olds[i].users()[o].id < self.next_user_id);
            }
        }
        assert(user_ids_unique(news)) by {
            assert forall|i1: int, k1: int, i2: int, k2: int|
                0 <= i1 < news.len() && 0 <= i2 < news.len() && 0 <= k1 < news[i1].users().len()
                    && 0 <= k2 < news[i2].users().len() && (i1 != i2 || k1 != k2) implies (
            #[trigger] news[i1].users()[k1]).id != (#[trigger] news[i2].users()[k2]).id by {
                let o1 = if i1 == i && k1 >= k {
                    k1 + 1
                } else {
                    k1
                };
                let o2 = if i2 == i && k2 >= k {
                    k2 + 1
                } else {
                    k2
                };
                if i1 != i {
                    assert(news[i1] == olds[i1]);
                }
                if i2 != i {
                    assert(news[i2] == olds[i2]);
                }
                assert(news[i1].users()[k1] == olds[i1].users()[o1]);
                assert(news[i2].users()[k2] == olds[i2].users()[o2]);
                assert(olds[i1].users()[o1].id != olds[i2].users()[o2].id);
            }
        }
        assert(!self.has_user(gone)) by {
            assert forall|j: int, l: int|
                0 <= j < news.len() && 0 <= l < news[j].users().len() implies (
            #[trigger] news[j].users()[l]).id != gone by {
                let o = if j == i && l >= k {
                    l + 1
                } else {
                    l
                };
                if j != i {
                    assert(news[j] == olds[j]);
                }
                assert(news[j].users()[l] == olds[j].users()[o]);
                assert(olds[j].users()[o].id != olds[i].users()[k].id);
            }
        }
    }
}

/// Every state that `new`, `allocate` and `release` leave is well formed, so
/// in each of them a device with users is tuned to exactly one channel, all
/// its users share that channel, and no channel is tuned on two devices.
pub proof fn lemma_single_channel_per_device(m: &TunerManager)
    requires
        m.wf(),
    ensures
        forall|i: int|
            0 <= i < m.spec_devices().len() && (#[trigger] m.spec_devices()[i]).users().len() > 0
                ==> m.spec_devices()[i].tuned_to(
                m.spec_devices()[i].tuned_type(),
                m.spec_devices()[i].tuned_channel(),
            ),
        forall|i: int, j: int|
            0 <= i < m.spec_devices().len() && 0 <= j < m.spec_devices().len() && i != j && (
            #[trigger] m.spec_devices()[i]).users().len() > 0 && (#[trigger] m.spec_devices()[j]).users().len()
                > 0 ==> !m.spec_devices()[j].tuned_to(
                m.spec_devices()[i].tuned_type(),
                m.spec_devices()[i].tuned_channel(),
            ),
{
    let d = m.spec_devices();
    assert forall|i: int| 0 <= i < d.len() && (#[trigger] d[i]).users().len() > 0 implies d[i].tuned_to(
        d[i].tuned_type(),
        d[i].tuned_channel(),
    ) by {
        assert(!d[i].is_idle());
    }
    assert forall|i: int, j: int|
        0 <= i < d.len() && 0 <= j < d.len() && i != j && (#[trigger] d[i]).users().len() > 0 && (
        #[trigger] d[j]).users().len() > 0 implies !d[j].tuned_to(d[i].tuned_type(), d[i].tuned_channel()) by {
        assert(!d[i].is_idle() && !d[j].is_idle());
    }
}

/// A request that preempts outranks the weakest user of the device it takes;
/// when the users of that device all hold one priority, it outranks every one
/// of them.
pub proof fn lemma_preemption_outranks_users(
    devices: Seq<TunerDevice>,
    channel_type: ChannelType,
    priority: i32,
    i: int,
)
    requires
        weakest_busy(devices, channel_type, i),
        may_preempt(devices[i], priority),
        forall|k: int, l: int|
            0 <= k < devices[i].users().len() && 0 <= l < devices[i].users().len() ==> (
            #[trigger] devices[i].users()[k]).priority == (#[trigger] devices[i].users()[l]).priority,
    ensures
        exists|k: int|
            0 <= k < devices[i].users().len() && (#[trigger] devices[i].users()[k]).priority
                < priority,
        forall|k: int|
            0 <= k < devices[i].users().len() ==> (#[trigger] devices[i].users()[k]).priority
                < priority,
{
    let us = devices[i].users();
    lemma_min_priority(us);
    assert(us.len() > 0);
    let w = choose|k: int| 0 <= k < us.len() && min_priority(us) == us[k].priority;
    assert(devices[i].users()[w].priority < priority);
    assert forall|k: int| 0 <= k < us.len() implies (#[trigger] devices[i].users()[k]).priority
        < priority by {
        assert(devices[i].users()[k].priority == devices[i].users()[w].priority);
    }
}

/// When no device can be joined and none is idle, a request is refused if no
/// user anywhere ranks below it; in particular a request of the same priority
/// as every current user is refused.
pub proof fn lemma_equal_priority_never_preempts(
    m: &TunerManager,
    channel_type: ChannelType,
    channel: Seq<char>,
    priority: i32,
)
    requires
        !any_shareable(m.spec_devices(), channel_type, channel),
        !any_tunable(m.spec_devices(), channel_type),
        forall|j: int, k: int|
            0 <= j < m.spec_devices().len() && 0 <= k < m.spec_devices()[j].users().len()
                ==> (#[trigger] m.spec_devices()[j].users()[k]).priority >= priority,
    ensures
        !m.allocation_succeeds(channel_type, channel, priority),
{
    let d = m.spec_devices();
    assert forall|j: int| 0 <= j < d.len() && is_busy(#[trigger] d[j], channel_type) implies !may_preempt(
        d[j],
        priority,
    ) by {
        let us = d[j].users();
        lemma_min_priority(us);
        if us.len() > 0 {
            let w = choose|k: int| 0 <= k < us.len() && min_priority(us) == us[k].priority;
            assert(d[j].users()[w].priority >= priority);
        }
    }
}

/// An idle device stays available: a request for any enabled channel of a type
/// that the device can receive is granted.
pub proof fn lemma_idle_device_reusable(
    m: &TunerManager,
    i: int,
    channel_type: ChannelType,
    channel: Seq<char>,
    priority: i32,
)
    requires
        0 <= i < m.spec_devices().len(),
        m.spec_devices()[i].is_idle(),
        m.spec_devices()[i].usable_for(channel_type),
        channel_available(m.spec_channels(), channel_type, channel),
    ensures
        m.allocation_succeeds(channel_type, channel, priority),
{
    assert(can_tune(m.spec_devices()[i], channel_type));
}

} // verus!
