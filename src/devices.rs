//! Devices, groups, and the dispatch of switching commands to a transmitter.
use vstd::prelude::*;

use crate::codec::{device_packet, encode_device, encode_group, group_packet};

verus! {

/// One switch: its fully resolved address and how often its packet is sent.
#[derive(Clone, Copy, Debug)]
pub struct Device {
    pub house_id: u64,
    pub group_id: u64,
    pub device_id: u64,
    pub tries: usize,
}

impl Device {
    pub fn new(house_id: u64, group_id: u64, device_id: u64, tries: usize) -> (r: Self)
        ensures
            r.house_id == house_id,
            r.group_id == group_id,
            r.device_id == device_id,
            r.tries == tries,
    {
        Device { house_id, group_id, device_id, tries }
    }

    /// The device-scope packet that switches this device on or off.
    pub fn get_proove_packet(&self, status: bool) -> (r: u32)
        ensures
            r == device_packet(self.house_id, self.group_id, self.device_id, status),
    {
        encode_device(self.house_id, self.group_id, self.device_id, status)
    }
}

/// A named collection of devices. In compact mode it holds a house id, a group
/// id and a group-level tries count; in extended mode none of them.
#[derive(Debug)]
pub struct Group {
    pub house_id: Option<u64>,
    pub group_id: Option<u64>,
    pub devices: Vec<(String, Device)>,
    pub tries: Option<usize>,
}

/// A group with its device names as character sequences.
pub struct GroupView {
    pub house_id: Option<u64>,
    pub group_id: Option<u64>,
    pub devices: Seq<(Seq<char>, Device)>,
    pub tries: Option<usize>,
}

/// Named entries with each name replaced by its characters.
pub open spec fn named_view<V>(entries: Seq<(String, V)>) -> Seq<(Seq<char>, V)> {
    entries.map_values(|e: (String, V)| (e.0@, e.1))
}

/// The value of the first entry with the given name.
pub open spec fn lookup<V>(entries: Seq<(Seq<char>, V)>, name: Seq<char>) -> Option<V>
    decreases entries.len(),
{
    if entries.len() == 0 {
        None
    } else if entries[0].0 == name {
        Some(entries[0].1)
    } else {
        lookup(entries.drop_first(), name)
    }
}

/// No two entries share a name.
pub open spec fn unique_names<V>(entries: Seq<(Seq<char>, V)>) -> bool {
    forall|i: int, j: int|
        #![trigger entries[i], entries[j]]
        0 <= i < j < entries.len() ==> entries[i].0 != entries[j].0
}

/// Group names are unique, and so are device names within each group.
pub open spec fn groups_well_formed(groups: Seq<(String, Group)>) -> bool {
    &&& unique_names(named_view(groups))
    &&& forall|i: int| 0 <= i < groups.len() ==> unique_names(#[trigger] groups[i].1@.devices)
}

/// A name that is not found is held by no entry.
pub proof fn lemma_lookup_none<V>(entries: Seq<(Seq<char>, V)>, name: Seq<char>)
    requires
        lookup(entries, name) is None,
    ensures
        forall|i: int| 0 <= i < entries.len() ==> #[trigger] entries[i].0 != name,
    decreases entries.len(),
{
    if entries.len() > 0 {
        lemma_lookup_none(entries.drop_first(), name);
        assert forall|i: int| 0 <= i < entries.len() implies #[trigger] entries[i].0 != name by {
            if i > 0 {
                assert(entries[i] == entries.drop_first()[i - 1]);
            }
        }
    }
}

/// Whether no two entries share a name.
fn entries_unique<V>(entries: &Vec<(String, V)>) -> (r: bool)
    ensures
        r == unique_names(named_view(entries@)),
{
    let n = entries.len();
    let ghost es = named_view(entries@);
    let mut j: usize = 0;
    while j < n
        invariant
            n == entries@.len(),
            es == named_view(entries@),
            j <= n,
            forall|a: int, b: int|
                #![trigger es[a], es[b]]
                0 <= a < b < j ==> es[a].0 != es[b].0,
        decreases n - j,
    {
        let mut i: usize = 0;
        while i < j
            invariant
                n == entries@.len(),
                es == named_view(entries@),
                i <= j < n,
                forall|a: int, b: int|
                    #![trigger es[a], es[b]]
                    0 <= a < b < j ==> es[a].0 != es[b].0,
                forall|a: int| 0 <= a < i ==> #[trigger] es[a].0 != es[j as int].0,
            decreases j - i,
        {
            if entries[i].0 == entries[j].0 {
                assert(es[i as int].0 == es[j as int].0);
                return false;
            }
            i = i + 1;
        }
        j = j + 1;
    }
    true
}

/// Whether group names are unique, and device names within each group.
pub fn has_unique_names(groups: &Vec<(String, Group)>) -> (r: bool)
    ensures
        r == groups_well_formed(groups@),
{
    let n = groups.len();
    let mut k: usize = 0;
    while k < n
        invariant
            n == groups@.len(),
            k <= n,
            forall|i: int| 0 <= i < k ==> unique_names(#[trigger] groups@[i].1@.devices),
        decreases n - k,
    {
        if !entries_unique(&groups[k].1.devices) {
            assert(!unique_names(groups@[k as int].1@.devices));
            return false;
        }
        k = k + 1;
    }
    entries_unique(groups)
}

impl View for Group {
    type V = GroupView;

    open spec fn view(&self) -> GroupView {
        GroupView {
            house_id: self.house_id,
            group_id: self.group_id,
            devices: named_view(self.devices@),
            tries: self.tries,
        }
    }
}

/// The group-scope packet of a group, defined only where it has both ids.
pub open spec fn group_packet_of(g: GroupView, on: bool) -> Option<u32> {
    match (g.house_id, g.group_id) {
        (Some(h), Some(gid)) => Some(group_packet(h, gid, on)),
        _ => None,
    }
}

/// `n` copies of one packet.
pub open spec fn repeat_packet(p: u32, n: nat) -> Seq<u32> {
    Seq::new(n, |_i: int| p)
}

/// Each device's packet, repeated as often as its tries say, device after
/// device in the order of the sequence.
pub open spec fn devices_transmission(devices: Seq<(Seq<char>, Device)>, on: bool) -> Seq<u32>
    decreases devices.len(),
{
    if devices.len() == 0 {
        Seq::empty()
    } else {
        let d = devices.last().1;
        devices_transmission(devices.drop_last(), on) + repeat_packet(
            device_packet(d.house_id, d.group_id, d.device_id, on),
            d.tries as nat,
        )
    }
}

/// What switching a whole group sends: its group packet `tries` times when it
/// has a group-level tries count, else every device's packets in turn. Not
/// defined for a group with a tries count and no group packet.
pub open spec fn group_transmission(g: GroupView, on: bool) -> Option<Seq<u32>> {
    match g.tries {
        Some(t) => match group_packet_of(g, on) {
            Some(p) => Some(repeat_packet(p, t as nat)),
            None => None,
        },
        None => Some(devices_transmission(g.devices, on)),
    }
}

impl Group {
    pub fn new(
        house_id: Option<u64>,
        group_id: Option<u64>,
        devices: Vec<(String, Device)>,
        tries: Option<usize>,
    ) -> (r: Self)
        ensures
            r.house_id == house_id,
            r.group_id == group_id,
            r.devices == devices,
            r.tries == tries,
    {
        Group { house_id, group_id, devices, tries }
    }

    /// The group-scope packet, or `None` where the group lacks a house id or
    /// a group id.
    pub fn get_proove_packet(&self, status: bool) -> (r: Option<u32>)
        ensures
            r == group_packet_of(self@, status),
    {
        match (self.house_id, self.group_id) {
            (Some(h), Some(g)) => Some(encode_group(h, g, status)),
            _ => None,
        }
    }
}

/// Finds the first entry with the given name.
pub fn find_entry<V>(entries: &Vec<(String, V)>, name: &String) -> (r: Option<usize>)
    ensures
        match r {
            Some(i) => i < entries@.len() && lookup(named_view(entries@), name@) == Some(
                entries@[i as int].1,
            ),
            None => lookup(named_view(entries@), name@) is None,
        },
{
    let n = entries.len();
    let ghost all = named_view(entries@);
    let mut i: usize = 0;
    assert(all.subrange(0, n as int) =~= all);
    while i < n
        invariant
            n == entries@.len(),
            all == named_view(entries@),
            i <= n,
            lookup(all, name@) == lookup(all.subrange(i as int, n as int), name@),
        decreases n - i,
    {
        let ghost rest = all.subrange(i as int, n as int);
        assert(rest.drop_first() =~= all.subrange(i + 1, n as int));
        if entries[i].0 == *name {
            return Some(i);
        }
        i = i + 1;
    }
    None
}

/// Errors of the dispatch operations.
#[derive(Debug)]
pub enum ManagementError {
    GroupNotFound { group_name: String },
    DeviceNotFound { device_name: String },
    /// A group with a group-level tries count lacks the ids of a group packet.
    Inconsistency,
}

/// A transmitter of packets: the capability that the dispatch layer drives.
pub trait PacketSender {
    /// Every packet this transmitter has been handed, in order.
    ///
    /// The empty default lets a transmitter written outside Verus (one that
    /// drives hardware) implement the trait without naming a model. A
    /// verified implementation cannot keep the default: its `send_packet`
    /// could not then meet the contract below.
    open spec fn transmitted(&self) -> Seq<u32> {
        Seq::empty()
    }

    fn send_packet(&mut self, packet: u32)
        ensures
            final(self).transmitted() == old(self).transmitted().push(packet),
    ;
}

/// A transmitter that only records the packets handed to it.
#[derive(Debug)]
pub struct PacketLog {
    pub packets: Vec<u32>,
}

impl PacketLog {
    pub fn new() -> (r: Self)
        ensures
            r.packets@ == Seq::<u32>::empty(),
    {
        PacketLog { packets: Vec::new() }
    }
}

impl PacketSender for PacketLog {
    open spec fn transmitted(&self) -> Seq<u32> {
        self.packets@
    }

    fn send_packet(&mut self, packet: u32) {
        self.packets.push(packet);
    }
}

/// Named groups and the transmitter that switches them.
pub struct DeviceManager<T: PacketSender> {
    pub groups: Vec<(String, Group)>,
    pub tx: T,
}

impl<T: PacketSender> DeviceManager<T> {
    /// Group names are unique, and so are device names within each group.
    pub open spec fn wf(&self) -> bool {
        groups_well_formed(self.groups@)
    }

    pub fn new(groups: Vec<(String, Group)>, tx: T) -> (r: Self)
        requires
            groups_well_formed(groups@),
        ensures
            r.groups == groups,
            r.tx == tx,
            r.wf(),
    {
        DeviceManager { groups, tx }
    }

    /// Sends `packet` `tries` times.
    fn send_repeated(&mut self, packet: u32, tries: usize)
        ensures
            final(self).groups == old(self).groups,
            final(self).tx.transmitted() == old(self).tx.transmitted() + repeat_packet(packet, tries as nat),
    {
        let mut k: usize = 0;
        while k < tries
            invariant
                k <= tries,
                self.groups == old(self).groups,
                self.tx.transmitted() == old(self).tx.transmitted() + repeat_packet(packet, k as nat),
            decreases tries - k,
        {
            self.tx.send_packet(packet);
            k = k + 1;
            assert(self.tx.transmitted() =~= old(self).tx.transmitted() + repeat_packet(packet, k as nat));
        }
    }

    /// Switches a whole group: one group packet `tries` times where the group
    /// has a group-level tries count, else each device's packet as often as
    /// its own tries say.
    pub fn set_group_state(&mut self, group_name: String, state: bool) -> (r: Result<
        (),
        ManagementError,
    >)
        requires
            old(self).wf(),
        ensures
            final(self).groups == old(self).groups,
            match lookup(named_view(old(self).groups@), group_name@) {
                None => {
                    &&& r matches Err(ManagementError::GroupNotFound { group_name: n })
                        && n@ == group_name@
                    &&& final(self).tx.transmitted() == old(self).tx.transmitted()
                },
                Some(g) => match group_transmission(g@, state) {
                    None => {
                        &&& r matches Err(ManagementError::Inconsistency)
                        &&& final(self).tx.transmitted() == old(self).tx.transmitted()
                    },
                    Some(packets) => {
                        &&& r is Ok
                        &&& final(self).tx.transmitted() == old(self).tx.transmitted() + packets
                    },
                },
            },
    {
        let gi = match find_entry(&self.groups, &group_name) {
            Some(i) => i,
            None => {
                return Err(ManagementError::GroupNotFound { group_name });
            },
        };
        let ghost g = self.groups@[gi as int].1@;
        if let Some(tries) = self.groups[gi].1.tries {
            let packet = match self.groups[gi].1.get_proove_packet(state) {
                Some(p) => p,
                None => {
                    return Err(ManagementError::Inconsistency);
                },
            };
            self.send_repeated(packet, tries);
        } else {
            let n = self.groups[gi].1.devices.len();
            let mut di: usize = 0;
            while di < n
                invariant
                    gi < self.groups@.len(),
                    self.groups == old(self).groups,
                    g == self.groups@[gi as int].1@,
                    n == g.devices.len(),
                    di <= n,
                    self.tx.transmitted() == old(self).tx.transmitted() + devices_transmission(
                        g.devices.take(di as int),
                        state,
                    ),
                decreases n - di,
            {
                let device = self.groups[gi].1.devices[di].1;
                let packet = device.get_proove_packet(state);
                self.send_repeated(packet, device.tries);
                proof {
                    let next = g.devices.take(di + 1);
                    assert(next.drop_last() =~= g.devices.take(di as int));
                    assert(next.last().1 == device);
                }
                di = di + 1;
                assert(self.tx.transmitted() =~= old(self).tx.transmitted() + devices_transmission(
                    g.devices.take(di as int),
                    state,
                ));
            }
            assert(g.devices.take(n as int) =~= g.devices);
        }
        Ok(())
    }

    /// Switches one device of a group, sending its packet as often as its
    /// tries say.
    pub fn set_device_state(&mut self, group_name: String, device_name: String, state: bool) -> (r:
        Result<(), ManagementError>)
        requires
            old(self).wf(),
        ensures
            final(self).groups == old(self).groups,
            match lookup(named_view(old(self).groups@), group_name@) {
                None => {
                    &&& r matches Err(ManagementError::GroupNotFound { group_name: n })
                        && n@ == group_name@
                    &&& final(self).tx.transmitted() == old(self).tx.transmitted()
                },
                Some(g) => match lookup(g@.devices, device_name@) {
                    None => {
                        &&& r matches Err(ManagementError::DeviceNotFound { device_name: n })
                            && n@ == device_name@
                        &&& final(self).tx.transmitted() == old(self).tx.transmitted()
                    },
                    Some(d) => {
                        &&& r is Ok
                        &&& final(self).tx.transmitted() == old(self).tx.transmitted() + repeat_packet(
                            device_packet(d.house_id, d.group_id, d.device_id, state),
                            d.tries as nat,
                        )
                    },
                },
            },
    {
        let gi = match find_entry(&self.groups, &group_name) {
            Some(i) => i,
            None => {
                return Err(ManagementError::GroupNotFound { group_name });
            },
        };
        let di = match find_entry(&self.groups[gi].1.devices, &device_name) {
            Some(i) => i,
            None => {
                return Err(ManagementError::DeviceNotFound { device_name });
            },
        };
        let device = self.groups[gi].1.devices[di].1;
        let packet = device.get_proove_packet(state);
        self.send_repeated(packet, device.tries);
        Ok(())
    }
}

} // verus!
