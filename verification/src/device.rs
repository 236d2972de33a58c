//! Devices: their kind, their identity, and their place in a discovery.

use vstd::prelude::*;

verus! {

/// Whether a port receives or sends.
#[derive(Clone, Copy, Debug, PartialEq, Eq, Hash, Structural)]
pub enum MidiKind {
    Input,
    Output,
}

/// The identity of a device as a mathematical value: its name and its kind.
pub struct DeviceId {
    pub name: Seq<char>,
    pub kind: MidiKind,
}

/// The identity of a device: two devices are the same exactly when name and
/// kind agree. Names are case-sensitive here.
#[derive(Debug, Hash)]
pub struct DeviceKey {
    pub name: String,
    pub kind: MidiKind,
}

impl View for DeviceKey {
    type V = DeviceId;

    open spec fn view(&self) -> DeviceId {
        DeviceId { name: self.name@, kind: self.kind }
    }
}

impl DeepView for DeviceKey {
    type V = DeviceId;

    open spec fn deep_view(&self) -> DeviceId {
        self@
    }
}

impl Clone for DeviceKey {
    fn clone(&self) -> (r: Self)
        ensures
            r@ == self@,
    {
        DeviceKey { name: self.name.clone(), kind: self.kind }
    }
}

impl PartialEq for DeviceKey {
    fn eq(&self, other: &Self) -> (r: bool) {
        self.kind == other.kind && self.name == other.name
    }
}

impl vstd::std_specs::cmp::PartialEqSpecImpl for DeviceKey {
    open spec fn obeys_eq_spec() -> bool {
        true
    }

    open spec fn eq_spec(&self, other: &Self) -> bool {
        self.kind == other.kind && self.name@ == other.name@
    }
}

impl Eq for DeviceKey {

}

/// A device as a mathematical value: its identity and its position among the
/// ports of its kind at the time of the discovery.
pub struct DeviceEntry {
    pub key: DeviceId,
    pub index: usize,
}

/// A device found by a discovery. `index` is the port's position among the
/// ports of its kind in that discovery; a later discovery may number the
/// ports differently.
#[derive(Debug)]
pub struct DeviceItem {
    pub key: DeviceKey,
    pub index: usize,
}

impl View for DeviceItem {
    type V = DeviceEntry;

    open spec fn view(&self) -> DeviceEntry {
        DeviceEntry { key: self.key@, index: self.index }
    }
}

impl DeepView for DeviceItem {
    type V = DeviceEntry;

    open spec fn deep_view(&self) -> DeviceEntry {
        self@
    }
}

impl Clone for DeviceItem {
    fn clone(&self) -> (r: Self)
        ensures
            r@ == self@,
    {
        DeviceItem { key: self.key.clone(), index: self.index }
    }
}

impl PartialEq for DeviceItem {
    fn eq(&self, other: &Self) -> (r: bool) {
        self.index == other.index && self.key == other.key
    }
}

impl vstd::std_specs::cmp::PartialEqSpecImpl for DeviceItem {
    open spec fn obeys_eq_spec() -> bool {
        true
    }

    open spec fn eq_spec(&self, other: &Self) -> bool {
        self.index == other.index && self.key@ == other.key@
    }
}

impl Eq for DeviceItem {

}

/// The first position in `devices` that holds the identity `id`, if any does.
pub open spec fn position_of(devices: Seq<DeviceEntry>, id: DeviceId) -> Option<int>
    decreases devices.len(),
{
    if devices.len() == 0 {
        None
    } else if devices[0].key == id {
        Some(0)
    } else {
        match position_of(devices.drop_first(), id) {
            Some(i) => Some(i + 1),
            None => None,
        }
    }
}

/// `position_of` finds the first position of the identity, and finds none
/// only where no position holds it.
pub proof fn lemma_position_of(devices: Seq<DeviceEntry>, id: DeviceId)
    ensures
        match position_of(devices, id) {
            Some(i) => 0 <= i < devices.len() && devices[i].key == id && forall|j: int|
                0 <= j < i ==> (#[trigger] devices[j]).key != id,
            None => forall|j: int| 0 <= j < devices.len() ==> (#[trigger] devices[j]).key != id,
        },
    decreases devices.len(),
{
    if devices.len() > 0 && devices[0].key != id {
        let rest = devices.drop_first();
        lemma_position_of(rest, id);
        match position_of(rest, id) {
            Some(i) => {
                assert(rest[i] == devices[i + 1]);
                assert forall|j: int| 0 <= j < i + 1 implies (#[trigger] devices[j]).key != id by {
                    if j > 0 {
                        assert(rest[j - 1] == devices[j]);
                    }
                }
            },
            None => {
                assert forall|j: int| 0 <= j < devices.len() implies (#[trigger] devices[j]).key
                    != id by {
                    if j > 0 {
                        assert(rest[j - 1] == devices[j]);
                    }
                }
            },
        }
    }
}

/// The first position in `devices` of the device `key`, if it is listed.
pub fn position(devices: &Vec<DeviceItem>, key: &DeviceKey) -> (at: Option<usize>)
    ensures
        match at {
            Some(i) => i < devices.len() && position_of(devices.deep_view(), key@) == Some(
                i as int,
            ),
            None => position_of(devices.deep_view(), key@).is_none(),
        },
{
    let mut i: usize = 0;
    while i < devices.len()
        invariant
            i <= devices.len(),
            forall|j: int| 0 <= j < i ==> (#[trigger] devices.deep_view()[j]).key != key@,
        decreases devices.len() - i,
    {
        if devices[i].key == *key {
            proof {
                lemma_position_of(devices.deep_view(), key@);
                assert(devices.deep_view()[i as int].key == key@);
            }
            return Some(i);
        }
        assert(devices.deep_view()[i as int].key != key@);
        i += 1;
    }
    proof {
        lemma_position_of(devices.deep_view(), key@);
    }
    None
}

/// The position to select in `devices` when the device `wanted` was selected
/// before: its first position if it is listed, else the first of the list.
pub open spec fn reselected(devices: Seq<DeviceEntry>, wanted: Option<DeviceId>) -> nat {
    match wanted {
        Some(id) => match position_of(devices, id) {
            Some(i) => i as nat,
            None => 0,
        },
        None => 0,
    }
}

/// The selection follows the identity that was selected: to its first
/// position in the new list, or to the first device where it is gone, and it
/// is always a position of the list where the list has any.
pub proof fn lemma_reselected(devices: Seq<DeviceEntry>, wanted: Option<DeviceId>)
    ensures
        devices.len() > 0 ==> reselected(devices, wanted) < devices.len(),
        devices.len() == 0 ==> reselected(devices, wanted) == 0,
        wanted matches Some(id) ==> {
            let at = reselected(devices, wanted) as int;
            if exists|i: int| 0 <= i < devices.len() && (#[trigger] devices[i]).key == id {
                &&& devices[at].key == id
                &&& forall|j: int| 0 <= j < at ==> (#[trigger] devices[j]).key != id
            } else {
                at == 0
            }
        },
{
    match wanted {
        Some(id) => {
            lemma_position_of(devices, id);
        },
        None => {},
    }
}

/// The position to select in `devices` when the device `wanted` was selected
/// before. A device that is no longer listed is no error.
pub fn restore_selection(devices: &Vec<DeviceItem>, wanted: &Option<DeviceKey>) -> (selected: usize)
    ensures
        selected == reselected(devices.deep_view(), wanted.deep_view()),
        devices.len() > 0 ==> selected < devices.len(),
        devices.len() == 0 ==> selected == 0,
{
    match wanted {
        Some(key) => match position(devices, key) {
            Some(i) => i,
            None => 0,
        },
        None => 0,
    }
}

} // verus!
