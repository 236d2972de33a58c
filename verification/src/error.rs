//! What can go wrong between the manager and the driver.

use crate::device::MidiKind;
use vstd::prelude::*;
use vstd::string::StringExecFns;

verus! {

/// A failure as a mathematical value.
pub enum Failure {
    Discovery { kind: MidiKind, detail: Seq<char> },
    StalePort { kind: MidiKind, index: usize, available: usize },
    Connection { kind: MidiKind, port: Seq<char>, detail: Seq<char> },
}

/// A failure of the manager. None of them is retried.
#[derive(Debug)]
pub enum ManagerError {
    /// The driver could not be started for ports of `kind`.
    Discovery { kind: MidiKind, detail: String },
    /// The position `index` is not among the `available` ports of `kind`
    /// that the driver lists now: nothing was opened.
    StalePort { kind: MidiKind, index: usize, available: usize },
    /// The driver refused to open the port called `port`.
    Connection { kind: MidiKind, port: String, detail: String },
}

impl View for ManagerError {
    type V = Failure;

    open spec fn view(&self) -> Failure {
        match self {
            ManagerError::Discovery { kind, detail } => Failure::Discovery {
                kind: *kind,
                detail: detail@,
            },
            ManagerError::StalePort { kind, index, available } => Failure::StalePort {
                kind: *kind,
                index: *index,
                available: *available,
            },
            ManagerError::Connection { kind, port, detail } => Failure::Connection {
                kind: *kind,
                port: port@,
                detail: detail@,
            },
        }
    }
}

impl PartialEq for ManagerError {
    fn eq(&self, other: &Self) -> (r: bool) {
        match (self, other) {
            (
                ManagerError::Discovery { kind, detail },
                ManagerError::Discovery { kind: other_kind, detail: other_detail },
            ) => *kind == *other_kind && *detail == *other_detail,
            (
                ManagerError::StalePort { kind, index, available },
                ManagerError::StalePort {
                    kind: other_kind,
                    index: other_index,
                    available: other_available,
                },
            ) => *kind == *other_kind && *index == *other_index && *available == *other_available,
            (
                ManagerError::Connection { kind, port, detail },
                ManagerError::Connection {
                    kind: other_kind,
                    port: other_port,
                    detail: other_detail,
                },
            ) => *kind == *other_kind && *port == *other_port && *detail == *other_detail,
            _ => false,
        }
    }
}

impl vstd::std_specs::cmp::PartialEqSpecImpl for ManagerError {
    open spec fn obeys_eq_spec() -> bool {
        true
    }

    open spec fn eq_spec(&self, other: &Self) -> bool {
        self@ == other@
    }
}

impl Eq for ManagerError {

}

/// The words that describe a failure.
pub open spec fn failure_text(f: Failure) -> Seq<char> {
    match f {
        Failure::Discovery { kind: MidiKind::Input, detail } => "Failed to create MidiInput: "@
            + detail,
        Failure::Discovery { kind: MidiKind::Output, detail } => "Failed to create MidiOutput: "@
            + detail,
        Failure::StalePort { kind: MidiKind::Input, .. } => "input port index out of range"@,
        Failure::StalePort { kind: MidiKind::Output, .. } => "output port index out of range"@,
        Failure::Connection { kind: MidiKind::Input, port, detail } => "Failed to open input: "@
            + port + ": "@ + detail,
        Failure::Connection { kind: MidiKind::Output, port, detail } => "Failed to open output: "@
            + port + ": "@ + detail,
    }
}

impl ManagerError {
    /// The words that describe this failure.
    pub fn message(&self) -> (msg: String)
        ensures
            msg@ == failure_text(self@),
    {
        match self {
            ManagerError::Discovery { kind, detail } => {
                let mut msg = match kind {
                    MidiKind::Input => String::from_str("Failed to create MidiInput: "),
                    MidiKind::Output => String::from_str("Failed to create MidiOutput: "),
                };
                msg.append(detail.as_str());
                msg
            },
            ManagerError::StalePort { kind, .. } => {
                match kind {
                    MidiKind::Input => String::from_str("input port index out of range"),
                    MidiKind::Output => String::from_str("output port index out of range"),
                }
            },
            ManagerError::Connection { kind, port, detail } => {
                let mut msg = match kind {
                    MidiKind::Input => String::from_str("Failed to open input: "),
                    MidiKind::Output => String::from_str("Failed to open output: "),
                };
                msg.append(port.as_str());
                msg.append(": ");
                msg.append(detail.as_str());
                msg
            },
        }
    }
}

} // verus!
