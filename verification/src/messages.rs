//! The wording of log entries: status lines and records of inbound messages.

use crate::device::MidiKind;
use crate::text::{decimal, hex_list, push_decimal, push_hex_list};
use vstd::prelude::*;
use vstd::string::StringExecFns;

verus! {

/// The mark that opens every status line.
pub open spec fn status_mark() -> Seq<char> {
    "\u{b7} "@
}

/// A status line: the mark and the message.
pub open spec fn status_text(msg: Seq<char>) -> Seq<char> {
    status_mark() + msg
}

/// The message that reports a failure: distinct from every other status by
/// its first word.
pub open spec fn error_text(reason: Seq<char>) -> Seq<char> {
    "Error: "@ + reason
}

/// The message for a connection that was closed.
pub open spec fn closed_text(kind: MidiKind, name: Seq<char>) -> Seq<char> {
    match kind {
        MidiKind::Input => "Closed input: "@ + name,
        MidiKind::Output => "Closed output: "@ + name,
    }
}

/// The message for a connection that was opened on the port called `port`.
pub open spec fn opened_text(kind: MidiKind, port: Seq<char>) -> Seq<char> {
    match kind {
        MidiKind::Input => "Opened input: "@ + port,
        MidiKind::Output => "Opened output: "@ + port,
    }
}

/// The message for the closing of all connections, with the numbers of
/// inputs and outputs that were open.
pub open spec fn closed_all_text(inputs: nat, outputs: nat) -> Seq<char> {
    "Closed all ports (inputs: "@ + decimal(inputs) + ", outputs: "@ + decimal(outputs) + ")"@
}

/// The record of a message received from the device called `name`: its
/// bytes in hexadecimal, their number, and the name.
pub open spec fn inbound_text(bytes: Seq<u8>, name: Seq<char>) -> Seq<char> {
    "IN  "@ + hex_list(bytes) + "  (len "@ + decimal(bytes.len()) + ")  ["@ + name + "]"@
}

/// Builds the status line for `msg`.
pub fn status_line(msg: &str) -> (line: String)
    ensures
        line@ == status_text(msg@),
{
    let mut line = String::from_str("\u{b7} ");
    line.append(msg);
    line
}

/// Builds the message that reports the failure `reason`.
pub fn error_message(reason: &str) -> (msg: String)
    ensures
        msg@ == error_text(reason@),
{
    let mut msg = String::from_str("Error: ");
    msg.append(reason);
    msg
}

/// Builds the message for a closed connection.
pub fn closed_message(kind: MidiKind, name: &str) -> (msg: String)
    ensures
        msg@ == closed_text(kind, name@),
{
    let mut msg = match kind {
        MidiKind::Input => String::from_str("Closed input: "),
        MidiKind::Output => String::from_str("Closed output: "),
    };
    msg.append(name);
    msg
}

/// Builds the message for an opened connection.
pub fn opened_message(kind: MidiKind, port: &str) -> (msg: String)
    ensures
        msg@ == opened_text(kind, port@),
{
    let mut msg = match kind {
        MidiKind::Input => String::from_str("Opened input: "),
        MidiKind::Output => String::from_str("Opened output: "),
    };
    msg.append(port);
    msg
}

/// Builds the message for the closing of all connections.
pub fn closed_all_message(inputs: usize, outputs: usize) -> (msg: String)
    ensures
        msg@ == closed_all_text(inputs as nat, outputs as nat),
{
    let mut msg = String::from_str("Closed all ports (inputs: ");
    push_decimal(&mut msg, inputs);
    msg.append(", outputs: ");
    push_decimal(&mut msg, outputs);
    msg.append(")");
    msg
}

/// Builds the record of a message of `bytes` received from the device called
/// `name`. The work is bounded by the length of the message and of the name.
pub fn format_message(bytes: &[u8], name: &str) -> (record: String)
    ensures
        record@ == inbound_text(bytes@, name@),
{
    let mut record = String::from_str("IN  ");
    push_hex_list(&mut record, bytes);
    record.append("  (len ");
    push_decimal(&mut record, bytes.len());
    record.append(")  [");
    record.append(name);
    record.append("]");
    record
}

} // verus!
