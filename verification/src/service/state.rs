//! The registry of all known devices. A device comes into being when any
//! source first speaks of its identity, and is never removed.

use crate::service::device::{
    Device, DeviceView, HttpDeviceInfo, UndocDeviceEntry, UndocDeviceInfoView,
};
use crate::text::same_text;
use std::collections::HashMap;
use vstd::prelude::*;

verus! {

/// A room of the companion API.
#[derive(Debug)]
pub struct UndocGroup {
    pub group_id: u64,
    pub group_name: String,
}

/// All known devices, in the order in which they became known.
#[derive(Debug)]
pub struct State {
    pub devices: Vec<Device>,
}

impl View for State {
    type V = Seq<DeviceView>;

    open spec fn view(&self) -> Seq<DeviceView> {
        self.devices@.map_values(|d: Device| d@)
    }
}

/// The first position from `from` on that holds the device `(sku, id)`, or the
/// length of `devices` where none does.
pub open spec fn position_of(devices: Seq<DeviceView>, sku: Seq<char>, id: Seq<char>, from: int) -> int
    decreases devices.len() - from,
{
    if from >= devices.len() {
        devices.len() as int
    } else if devices[from].has_identity(sku, id) {
        from
    } else {
        position_of(devices, sku, id, from + 1)
    }
}

/// The device `(sku, id)` is among `devices`.
pub open spec fn known(devices: Seq<DeviceView>, sku: Seq<char>, id: Seq<char>) -> bool {
    position_of(devices, sku, id, 0) < devices.len()
}

/// `devices`, with the device `(sku, id)` added at the end as an unknown
/// device where it was not among them.
pub open spec fn ensured(devices: Seq<DeviceView>, sku: Seq<char>, id: Seq<char>) -> Seq<
    DeviceView,
> {
    if known(devices, sku, id) {
        devices
    } else {
        devices.push(DeviceView::unknown(sku, id))
    }
}

/// No two of `devices` have the same identity.
pub open spec fn distinct(devices: Seq<DeviceView>) -> bool {
    forall|i: int, j: int|
        0 <= i < j < devices.len() ==> !(#[trigger] devices[i]).has_identity(
            (#[trigger] devices[j]).sku,
            devices[j].id,
        )
}

/// `devices` after the cloud descriptor `info` is merged in.
pub open spec fn with_http_info(devices: Seq<DeviceView>, info: HttpDeviceInfo) -> Seq<DeviceView> {
    let at = position_of(devices, info.sku@, info.device@, 0);
    let all = ensured(devices, info.sku@, info.device@);
    all.update(at, DeviceView { http_device_info: Some(info), ..all[at] })
}

/// `devices` after the first `n` of `infos` are merged in, in turn.
pub open spec fn with_http_infos(devices: Seq<DeviceView>, infos: Seq<HttpDeviceInfo>, n: int) -> Seq<
    DeviceView,
>
    decreases n,
{
    if n <= 0 {
        devices
    } else {
        with_http_info(with_http_infos(devices, infos, n - 1), infos[n - 1])
    }
}

/// The name of the room `group_id`: that of the last of `groups` with this
/// id, `None` where none has it.
pub open spec fn room_name_of(groups: Seq<UndocGroup>, group_id: u64, n: int) -> Option<Seq<char>>
    decreases n,
{
    if n <= 0 || n > groups.len() {
        None
    } else if groups[n - 1].group_id == group_id {
        Some(groups[n - 1].group_name@)
    } else {
        room_name_of(groups, group_id, n - 1)
    }
}

/// `devices` after the companion API's `entry` is merged in, with the room
/// that `groups` gives it.
pub open spec fn with_undoc_entry(
    devices: Seq<DeviceView>,
    groups: Seq<UndocGroup>,
    entry: UndocDeviceEntry,
) -> Seq<DeviceView> {
    let at = position_of(devices, entry.sku@, entry.device@, 0);
    let all = ensured(devices, entry.sku@, entry.device@);
    all.update(
        at,
        DeviceView {
            undoc_device_info: Some(
                UndocDeviceInfoView {
                    entry,
                    room_name: room_name_of(groups, entry.group_id, groups.len() as int),
                },
            ),
            ..all[at]
        },
    )
}

/// `devices` after the first `n` of `entries` are merged in, in turn.
pub open spec fn with_undoc_entries(
    devices: Seq<DeviceView>,
    groups: Seq<UndocGroup>,
    entries: Seq<UndocDeviceEntry>,
    n: int,
) -> Seq<DeviceView>
    decreases n,
{
    if n <= 0 {
        devices
    } else {
        with_undoc_entry(with_undoc_entries(devices, groups, entries, n - 1), groups, entries[n - 1])
    }
}

/// `position_of` gives a position from `from` to the length; where it is below
/// the length the device there has the identity, and no device between `from`
/// and it has.
pub proof fn lemma_position_of(devices: Seq<DeviceView>, sku: Seq<char>, id: Seq<char>, from: int)
    requires
        0 <= from <= devices.len(),
    ensures
        from <= position_of(devices, sku, id, from) <= devices.len(),
        position_of(devices, sku, id, from) < devices.len() ==> devices[position_of(
            devices,
            sku,
            id,
            from,
        )].has_identity(sku, id),
        forall|k: int|
            from <= k < position_of(devices, sku, id, from) ==> !(#[trigger] devices[k]).has_identity(
                sku,
                id,
            ),
    decreases devices.len() - from,
{
    if from < devices.len() && !devices[from].has_identity(sku, id) {
        lemma_position_of(devices, sku, id, from + 1);
    }
}

/// Making sure of a device, and then changing it without touching its
/// identity, leaves all identities distinct.
pub proof fn lemma_ensured_distinct(
    devices: Seq<DeviceView>,
    sku: Seq<char>,
    id: Seq<char>,
    changed: DeviceView,
)
    requires
        distinct(devices),
        changed.has_identity(sku, id),
    ensures
        distinct(ensured(devices, sku, id)),
        distinct(ensured(devices, sku, id).update(position_of(devices, sku, id, 0), changed)),
{
    lemma_position_of(devices, sku, id, 0);
    let at = position_of(devices, sku, id, 0);
    let all = ensured(devices, sku, id);
    assert forall|i: int, j: int| 0 <= i < j < all.len() implies !(#[trigger] all[i]).has_identity(
        (#[trigger] all[j]).sku,
        all[j].id,
    ) by {
        if j < devices.len() {
            assert(!devices[i].has_identity(devices[j].sku, devices[j].id));
        }
    }
    let after = all.update(at, changed);
    assert forall|i: int, j: int| 0 <= i < j < after.len() implies !(
    #[trigger] after[i]).has_identity((#[trigger] after[j]).sku, after[j].id) by {
        assert(!all[i].has_identity(all[j].sku, all[j].id));
    }
}

/// `names` gives the id `group_id` the room name that `groups` gives it.
pub open spec fn names_match_at(names: Map<u64, String>, groups: Seq<UndocGroup>, group_id: u64) -> bool {
    match room_name_of(groups, group_id, groups.len() as int) {
        Some(name) => names.dom().contains(group_id) && names[group_id]@ == name,
        None => !names.dom().contains(group_id),
    }
}

/// `names` gives every id the room name that `groups` gives it.
pub open spec fn names_match(names: Map<u64, String>, groups: Seq<UndocGroup>) -> bool {
    forall|group_id: u64| #[trigger] names_match_at(names, groups, group_id)
}

/// The lookup from a room's id to its name.
fn group_names(groups: &Vec<UndocGroup>) -> (r: HashMap<u64, String>)
    ensures
        names_match(r@, groups@),
{
    broadcast use vstd::std_specs::hash::group_hash_axioms;

    let mut group_by_id: HashMap<u64, String> = HashMap::new();
    let mut i: usize = 0;
    while i < groups.len()
        invariant
            i <= groups@.len(),
            forall|group_id: u64| #[trigger]
                names_match_at(group_by_id@, groups@.take(i as int), group_id),
        decreases groups@.len() - i,
    {
        let ghost held = group_by_id@;
        group_by_id.insert(groups[i].group_id, groups[i].group_name.clone());
        proof {
            let before = groups@.take(i as int);
            let now = groups@.take(i + 1);
            assert forall|group_id: u64| #[trigger]
                names_match_at(group_by_id@, now, group_id) by {
                assert(names_match_at(held, before, group_id));
                lemma_room_name_prefix(groups@, group_id, i as int);
                lemma_room_name_prefix(groups@, group_id, i + 1);
            }
        }
        i = i + 1;
    }
    assert(groups@.take(i as int) =~= groups@);
    group_by_id
}

/// The room names of a prefix of `groups` are those that `room_name_of` finds
/// below the prefix's length.
proof fn lemma_room_name_prefix(groups: Seq<UndocGroup>, group_id: u64, n: int)
    requires
        0 <= n <= groups.len(),
    ensures
        room_name_of(groups.take(n), group_id, n) == room_name_of(groups, group_id, n),
    decreases n,
{
    if n > 0 {
        lemma_room_name_under(groups, groups.take(n), group_id, n);
    }
}

/// `room_name_of` below `n` reads only the first `n` groups.
proof fn lemma_room_name_under(a: Seq<UndocGroup>, b: Seq<UndocGroup>, group_id: u64, n: int)
    requires
        0 <= n <= a.len(),
        n <= b.len(),
        forall|k: int| 0 <= k < n ==> a[k] == b[k],
    ensures
        room_name_of(a, group_id, n) == room_name_of(b, group_id, n),
    decreases n,
{
    if n > 0 {
        lemma_room_name_under(a, b, group_id, n - 1);
    }
}

impl State {
    /// A registry without devices.
    pub fn new() -> (r: State)
        ensures
            r@ == Seq::<DeviceView>::empty(),
            distinct(r@),
    {
        let r = State { devices: Vec::new() };
        assert(r@ =~= Seq::<DeviceView>::empty());
        r
    }

    /// All known devices, in the order in which they became known.
    pub fn devices(&self) -> (r: &Vec<Device>)
        ensures
            r@.map_values(|d: Device| d@) == self@,
    {
        &self.devices
    }

    /// The position of the device `(sku, id)`, or the number of devices where
    /// it is not known.
    fn find(&self, sku: &str, id: &str) -> (r: usize)
        ensures
            r == position_of(self@, sku@, id@, 0),
            r <= self.devices@.len(),
    {
        let mut i: usize = 0;
        while i < self.devices.len()
            invariant
                i <= self.devices@.len(),
                position_of(self@, sku@, id@, 0) == position_of(self@, sku@, id@, i as int),
            decreases self.devices@.len() - i,
        {
            if same_text(self.devices[i].sku.as_str(), sku) && same_text(
                self.devices[i].id.as_str(),
                id,
            ) {
                return i;
            }
            i = i + 1;
        }
        i
    }

    /// The device `(sku, id)`, if it is known.
    pub fn device_by_id(&self, sku: &str, id: &str) -> (r: Option<&Device>)
        ensures
            match r {
                Some(d) => known(self@, sku@, id@) && d@ == self@[position_of(self@, sku@, id@, 0)],
                None => !known(self@, sku@, id@),
            },
    {
        let at = self.find(sku, id);
        if at < self.devices.len() {
            Some(&self.devices[at])
        } else {
            None
        }
    }

    /// The device `(sku, id)`, to be changed in place; a device that was not
    /// known is first added at the end, with nothing known of it but its
    /// identity. The registry afterwards holds, at the device's position,
    /// whatever the caller left there, and every other device as it was.
    pub fn device_mut(&mut self, sku: &str, id: &str) -> (r: &mut Device)
        ensures
            r@ == ensured(old(self)@, sku@, id@)[position_of(old(self)@, sku@, id@, 0)],
            r@.has_identity(sku@, id@),
            final(self)@ == ensured(old(self)@, sku@, id@).update(
                position_of(old(self)@, sku@, id@, 0),
                final(r)@,
            ),
            distinct(old(self)@) && final(r)@.has_identity(sku@, id@) ==> distinct(final(self)@),
    {
        let at = self.find(sku, id);
        proof {
            lemma_position_of(self@, sku@, id@, 0);
        }
        if at == self.devices.len() {
            self.devices.push(Device::new(sku, id));
        }
        proof {
            let held = *self;
            assert(held@ =~= ensured(old(self)@, sku@, id@));
            assert forall|after: State|
                after.devices@ == held.devices@.update(
                    at as int,
                    after.devices@[at as int],
                ) implies (#[trigger] after@) == held@.update(
                at as int,
                after.devices@[at as int]@,
            ) by {
                assert(after@ =~= held@.update(at as int, after.devices@[at as int]@));
            }
            assert forall|changed: DeviceView|
                distinct(old(self)@) && changed.has_identity(sku@, id@) implies distinct(
                #[trigger] held@.update(at as int, changed),
            ) by {
                lemma_ensured_distinct(old(self)@, sku@, id@, changed);
            }
        }
        &mut self.devices[at]
    }

    /// Merges the device list of the cloud API: each descriptor goes to the
    /// device of its identity, which is created where it was not known.
    pub fn merge_http_devices(&mut self, infos: Vec<HttpDeviceInfo>)
        ensures
            final(self)@ == with_http_infos(old(self)@, infos@, infos@.len() as int),
            distinct(old(self)@) ==> distinct(final(self)@),
    {
        let ghost all = infos@;
        for info in it: infos
            invariant
                it.seq() == all,
                self@ == with_http_infos(old(self)@, all, it.index() as int),
                distinct(old(self)@) ==> distinct(self@),
        {
            let sku = info.sku.clone();
            let id = info.device.clone();
            self.device_mut(sku.as_str(), id.as_str()).set_http_device_info(info);
        }
    }

    /// Merges the device list of the companion API: each entry goes to the
    /// device of its identity, which is created where it was not known,
    /// together with the name of the entry's room. Of two rooms with one id
    /// the later one gives the name; an entry whose room is not listed gets
    /// none.
    pub fn merge_undoc_devices(&mut self, groups: &Vec<UndocGroup>, entries: Vec<UndocDeviceEntry>)
        ensures
            final(self)@ == with_undoc_entries(
                old(self)@,
                groups@,
                entries@,
                entries@.len() as int,
            ),
            distinct(old(self)@) ==> distinct(final(self)@),
    {
        let group_by_id = group_names(groups);
        let ghost all = entries@;
        for entry in it: entries
            invariant
                it.seq() == all,
                names_match(group_by_id@, groups@),
                self@ == with_undoc_entries(old(self)@, groups@, all, it.index() as int),
                distinct(old(self)@) ==> distinct(self@),
        {
            let sku = entry.sku.clone();
            let id = entry.device.clone();
            let room_name = match group_by_id.get(&entry.group_id) {
                Some(name) => Some(name.as_str()),
                None => None,
            };
            assert(names_match_at(group_by_id@, groups@, entry.group_id));
            self.device_mut(sku.as_str(), id.as_str()).set_undoc_device_info(entry, room_name);
        }
    }
}

} // verus!
