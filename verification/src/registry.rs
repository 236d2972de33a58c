//! The device registry: from what the driver reports to the list of devices.

use crate::device::{DeviceEntry, DeviceId, DeviceItem, DeviceKey, MidiKind};
use crate::error::{Failure, ManagerError};
use crate::order::{in_listing_order, sort_devices, stable_sorted};
use crate::text::{decimal, push_decimal};
use vstd::prelude::*;
use vstd::string::StringExecFns;

verus! {

/// The name that stands for a port whose own name the driver cannot tell.
pub open spec fn fallback_name(kind: MidiKind, index: nat) -> Seq<char> {
    match kind {
        MidiKind::Input => "Input #"@ + decimal(index),
        MidiKind::Output => "Output #"@ + decimal(index),
    }
}

/// What the port at `index` among the ports of `kind` is called: by the
/// name that the driver told, else by its fallback name.
pub open spec fn label_of(kind: MidiKind, index: nat, name: Option<Seq<char>>) -> Seq<char> {
    match name {
        Some(n) => n,
        None => fallback_name(kind, index),
    }
}

/// What the port at `index` among the ports of `kind` is called.
pub fn port_label(kind: MidiKind, index: usize, name: Option<String>) -> (label: String)
    ensures
        label@ == label_of(kind, index as nat, name.deep_view()),
{
    match name {
        Some(n) => n,
        None => {
            let mut label = match kind {
                MidiKind::Input => String::from_str("Input #"),
                MidiKind::Output => String::from_str("Output #"),
            };
            push_decimal(&mut label, index);
            label
        },
    }
}

/// What the driver reported when it was asked for its ports.
#[derive(Debug)]
pub enum PortScan {
    /// The driver could not be started for ports of `kind`.
    Unavailable { kind: MidiKind, detail: String },
    /// The names of the input ports and of the output ports, each in the
    /// driver's order, with `None` where the driver could not tell a name.
    Ports { inputs: Vec<Option<String>>, outputs: Vec<Option<String>> },
}

/// The devices of one kind in the driver's order, one for each port.
pub open spec fn ports_of(kind: MidiKind, names: Seq<Option<Seq<char>>>) -> Seq<DeviceEntry> {
    Seq::new(
        names.len(),
        |i: int|
            DeviceEntry {
                key: DeviceId { name: label_of(kind, i as nat, names[i]), kind },
                index: i as usize,
            },
    )
}

/// The devices of a scan before they are sorted: the inputs, then the outputs.
pub open spec fn listing(
    inputs: Seq<Option<Seq<char>>>,
    outputs: Seq<Option<Seq<char>>>,
) -> Seq<DeviceEntry> {
    ports_of(MidiKind::Input, inputs) + ports_of(MidiKind::Output, outputs)
}

fn list_ports(kind: MidiKind, names: Vec<Option<String>>, items: &mut Vec<DeviceItem>)
    ensures
        final(items).deep_view() == old(items).deep_view() + ports_of(kind, names.deep_view()),
{
    let ghost all = names.deep_view();
    let ghost start = items.deep_view();
    let mut index: usize = 0;
    assert(items.deep_view() =~= start + ports_of(kind, all).take(0));
    assert(all.len() == names.len());
    for name in it: names
        invariant
            all.len() <= usize::MAX,
            it.seq().len() == all.len(),
            forall|i: int| 0 <= i < all.len() ==> (#[trigger] it.seq()[i]).deep_view() == all[i],
            index == it.index(),
            items.deep_view() == start + ports_of(kind, all).take(index as int),
    {
        let ghost before = items.deep_view();
        let label = port_label(kind, index, name);
        items.push(DeviceItem { key: DeviceKey { name: label, kind }, index });
        assert(items.deep_view() =~= before.push(ports_of(kind, all)[index as int]));
        assert(items.deep_view() =~= start + ports_of(kind, all).take(index + 1));
        index += 1;
    }
    assert(ports_of(kind, all).take(all.len() as int) =~= ports_of(kind, all));
}

/// Builds the list of devices from what the driver reported: one device for
/// each port, under its label, all inputs before all outputs, each kind
/// ascending by name without regard to case, ports of one name in the
/// driver's order. It fails only where the driver could not be started; a
/// port without a name does not fail it.
pub fn collect_devices(scan: PortScan) -> (found: Result<Vec<DeviceItem>, ManagerError>)
    ensures
        match scan {
            PortScan::Unavailable { kind, detail } => {
                &&& found matches Err(e)
                &&& e@ == (Failure::Discovery { kind, detail: detail@ })
            },
            PortScan::Ports { inputs, outputs } => found matches Ok(devices) && {
                &&& stable_sorted(
                    devices.deep_view(),
                    listing(inputs.deep_view(), outputs.deep_view()),
                )
                &&& in_listing_order(devices.deep_view())
            },
        },
{
    match scan {
        PortScan::Unavailable { kind, detail } => Err(ManagerError::Discovery { kind, detail }),
        PortScan::Ports { inputs, outputs } => {
            let mut items: Vec<DeviceItem> = Vec::new();
            assert(items.deep_view() =~= Seq::<DeviceEntry>::empty());
            list_ports(MidiKind::Input, inputs, &mut items);
            list_ports(MidiKind::Output, outputs, &mut items);
            assert(items.deep_view() =~= listing(inputs.deep_view(), outputs.deep_view()));
            Ok(sort_devices(items))
        },
    }
}

} // verus!
