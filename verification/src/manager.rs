//! The device connection manager: the list of devices with its selection,
//! the open connections, and the log, as one owned state.

use crate::connections::ConnectionMap;
use crate::control::{intent_for, intent_of, refresh_due, Intent, KeyPress, Phase, REFRESH_MS};
use crate::device::{
    reselected, restore_selection, DeviceEntry, DeviceId, DeviceItem, DeviceKey, MidiKind,
};
use crate::error::{failure_text, Failure, ManagerError};
use crate::log::{keep_last, Log, LOG_CAPACITY};
use crate::order::{in_listing_order, stable_sorted};
use crate::registry::{collect_devices, label_of, listing, port_label, PortScan};
use crate::messages::{
    closed_all_message, closed_all_text, closed_message, closed_text, error_message, error_text,
    opened_message, opened_text, status_text,
};
use crate::session::{starting_focus, Focus, Persisted, Remembered};
use vstd::prelude::*;

verus! {

/// The state of the manager as a mathematical value. `I` and `O` are the
/// handles of open input and output connections.
#[verifier::reject_recursive_types(I)]
#[verifier::reject_recursive_types(O)]
pub struct AppView<I, O> {
    /// The devices of the last discovery, in listing order.
    pub devices: Seq<DeviceEntry>,
    /// The selected position in `devices`.
    pub selected: nat,
    pub focus: Focus,
    /// When the devices were last discovered, in milliseconds.
    pub last_refresh: u64,
    /// The open input connections by the identity of their device.
    pub inputs: Map<DeviceId, I>,
    /// The open output connections by the identity of their device.
    pub outputs: Map<DeviceId, O>,
    /// The entries of the log, oldest first.
    pub log: Seq<Seq<char>>,
    pub phase: Phase,
}

/// What the manager asks of its caller, as a mathematical value.
pub enum Asked {
    Idle,
    Discover,
    Open(DeviceEntry),
    Exit,
}

/// What the manager asks of its caller after a step. The manager decides;
/// the work on the driver is the caller's.
#[derive(Debug)]
pub enum Effect {
    /// Nothing.
    Idle,
    /// Ask the driver for its ports and hand the answer to
    /// `refresh_devices`.
    Discover,
    /// Open a port for this device: ask the driver for the ports of its
    /// kind, hand their number to `validate_port`, and what came of opening
    /// the port at the position it returns to `open_input` or `open_output`.
    Open(DeviceItem),
    /// Leave the loop: store what `shutdown` returns.
    Exit,
}

impl View for Effect {
    type V = Asked;

    open spec fn view(&self) -> Asked {
        match self {
            Effect::Idle => Asked::Idle,
            Effect::Discover => Asked::Discover,
            Effect::Open(d) => Asked::Open(d@),
            Effect::Exit => Asked::Exit,
        }
    }
}

/// The state `v` with the status line for `msg` appended to its log.
pub open spec fn logged<I, O>(v: AppView<I, O>, msg: Seq<char>) -> AppView<I, O> {
    AppView { log: keep_last(v.log.push(status_text(msg)), LOG_CAPACITY as nat), ..v }
}

/// The selected device, if the list has any.
pub open spec fn selected_entry<I, O>(v: AppView<I, O>) -> Option<DeviceEntry> {
    if v.selected < v.devices.len() {
        Some(v.devices[v.selected as int])
    } else {
        None
    }
}

/// The identity of the selected device, if the list has any.
pub open spec fn selected_id<I, O>(v: AppView<I, O>) -> Option<DeviceId> {
    match selected_entry(v) {
        Some(d) => Some(d.key),
        None => None,
    }
}

/// Whether the device `id` has an open connection of its kind.
pub open spec fn is_open_in<I, O>(v: AppView<I, O>, id: DeviceId) -> bool {
    match id.kind {
        MidiKind::Input => v.inputs.dom().contains(id),
        MidiKind::Output => v.outputs.dom().contains(id),
    }
}

/// The state after the selection moved up by one, from the first device
/// round to the last.
pub open spec fn moved_up<I, O>(v: AppView<I, O>) -> AppView<I, O> {
    if v.devices.len() == 0 {
        v
    } else if v.selected == 0 {
        AppView { selected: (v.devices.len() - 1) as nat, ..v }
    } else {
        AppView { selected: (v.selected - 1) as nat, ..v }
    }
}

/// The state after the selection moved down by one, from the last device
/// round to the first.
pub open spec fn moved_down<I, O>(v: AppView<I, O>) -> AppView<I, O> {
    if v.devices.len() == 0 {
        v
    } else {
        AppView { selected: ((v.selected as int + 1) % (v.devices.len() as int)) as nat, ..v }
    }
}

/// The state after a toggle of the selected device, as far as the manager
/// can go alone: an open connection is closed and the closing logged; a
/// closed one stays closed until the caller has opened the port.
pub open spec fn toggled<I, O>(v: AppView<I, O>) -> AppView<I, O> {
    match selected_entry(v) {
        Some(d) => if is_open_in(v, d.key) {
            let closed = match d.key.kind {
                MidiKind::Input => AppView { inputs: v.inputs.remove(d.key), ..v },
                MidiKind::Output => AppView { outputs: v.outputs.remove(d.key), ..v },
            };
            logged(closed, closed_text(d.key.kind, d.key.name))
        } else {
            v
        },
        None => v,
    }
}

/// The device that a toggle asks the caller to open: the selected one, if
/// it has no open connection.
pub open spec fn toggle_request<I, O>(v: AppView<I, O>) -> Option<DeviceEntry> {
    match selected_entry(v) {
        Some(d) => if is_open_in(v, d.key) {
            None
        } else {
            Some(d)
        },
        None => None,
    }
}

/// The state after a connection with the handle `conn` was opened for the
/// device of `kind` called `name` on the port called `port`, and the opening
/// logged. The device has this connection and no other of its kind.
pub open spec fn input_opened<I, O>(
    v: AppView<I, O>,
    name: Seq<char>,
    port: Seq<char>,
    conn: I,
) -> AppView<I, O> {
    logged(
        AppView { inputs: v.inputs.insert(DeviceId { name, kind: MidiKind::Input }, conn), ..v },
        opened_text(MidiKind::Input, port),
    )
}

/// As `input_opened`, for an output.
pub open spec fn output_opened<I, O>(
    v: AppView<I, O>,
    name: Seq<char>,
    port: Seq<char>,
    conn: O,
) -> AppView<I, O> {
    logged(
        AppView { outputs: v.outputs.insert(DeviceId { name, kind: MidiKind::Output }, conn), ..v },
        opened_text(MidiKind::Output, port),
    )
}

/// The state after all connections were closed and the closing logged with
/// the numbers of connections that were open.
pub open spec fn all_closed<I, O>(v: AppView<I, O>) -> AppView<I, O> {
    logged(
        AppView { inputs: Map::empty(), outputs: Map::empty(), ..v },
        closed_all_text(v.inputs.dom().len(), v.outputs.dom().len()),
    )
}

/// What is remembered of the state `v`: the identity of the selected
/// device and the focus.
pub open spec fn snapshot<I, O>(v: AppView<I, O>) -> Remembered {
    Remembered { last_device: selected_id(v), last_focus: Some(v.focus) }
}

/// The state after `intent` was applied, as far as the manager can go alone.
/// Only a running manager takes intents.
pub open spec fn applied<I, O>(v: AppView<I, O>, intent: Intent) -> AppView<I, O> {
    if v.phase != Phase::Running {
        v
    } else {
        match intent {
            Intent::Quit => AppView { phase: Phase::ShuttingDown, ..v },
            Intent::Refresh => v,
            Intent::FocusLeft => AppView { focus: Focus::Left, ..v },
            Intent::FocusRight => AppView { focus: Focus::Right, ..v },
            Intent::Toggle => toggled(v),
            Intent::CloseAll => all_closed(v),
            Intent::SelectUp => moved_up(v),
            Intent::SelectDown => moved_down(v),
        }
    }
}

/// What the manager asks of its caller when `intent` is applied to `v`.
pub open spec fn asked<I, O>(v: AppView<I, O>, intent: Intent) -> Asked {
    if v.phase != Phase::Running {
        Asked::Idle
    } else {
        match intent {
            Intent::Quit => Asked::Exit,
            Intent::Refresh => Asked::Discover,
            Intent::Toggle => match toggle_request(v) {
                Some(d) => Asked::Open(d),
                None => Asked::Idle,
            },
            _ => Asked::Idle,
        }
    }
}

/// What holds of every state of a manager: the selection is a position of
/// the list, or 0 where the list is empty; the devices are in listing
/// order; the log is within its capacity; the connections are finitely many.
pub open spec fn valid<I, O>(v: AppView<I, O>) -> bool {
    &&& v.devices.len() == 0 ==> v.selected == 0
    &&& v.devices.len() > 0 ==> v.selected < v.devices.len()
    &&& in_listing_order(v.devices)
    &&& v.log.len() <= LOG_CAPACITY
    &&& v.inputs.dom().finite()
    &&& v.outputs.dom().finite()
}

/// Opening the selected device, which was closed, and toggling it again
/// leaves the connections as they were: the toggle closes what was opened.
/// Between the two the device has one connection.
pub proof fn lemma_open_then_toggle<I, O>(
    v: AppView<I, O>,
    port: Seq<char>,
    input: I,
    output: O,
)
    requires
        selected_entry(v).is_some(),
        !is_open_in(v, selected_entry(v).unwrap().key),
    ensures
        ({
            let d = selected_entry(v).unwrap();
            let opened = match d.key.kind {
                MidiKind::Input => input_opened(v, d.key.name, port, input),
                MidiKind::Output => output_opened(v, d.key.name, port, output),
            };
            &&& is_open_in(opened, d.key)
            &&& toggle_request(opened).is_none()
            &&& toggled(opened).inputs == v.inputs
            &&& toggled(opened).outputs == v.outputs
            &&& !is_open_in(toggled(opened), d.key)
        }),
{
    let d = selected_entry(v).unwrap();
    match d.key.kind {
        MidiKind::Input => {
            let opened = input_opened(v, d.key.name, port, input);
            assert(DeviceId { name: d.key.name, kind: MidiKind::Input } == d.key);
            assert(toggled(opened).inputs =~= v.inputs);
        },
        MidiKind::Output => {
            let opened = output_opened(v, d.key.name, port, output);
            assert(DeviceId { name: d.key.name, kind: MidiKind::Output } == d.key);
            assert(toggled(opened).outputs =~= v.outputs);
        },
    }
}

/// Closing all connections leaves none, whatever was open, and adds one
/// line to a log that was not full.
pub proof fn lemma_all_closed<I, O>(v: AppView<I, O>)
    ensures
        all_closed(v).inputs == Map::<DeviceId, I>::empty(),
        all_closed(v).outputs == Map::<DeviceId, O>::empty(),
        v.log.len() < LOG_CAPACITY ==> all_closed(v).log == v.log.push(
            status_text(closed_all_text(v.inputs.dom().len(), v.outputs.dom().len())),
        ),
        all_closed(all_closed(v)).inputs == all_closed(v).inputs,
        all_closed(all_closed(v)).outputs == all_closed(v).outputs,
{
}

/// The manager. `I` and `O` are the handles of open input and output
/// connections; a handle is owned by the manager from the moment it is
/// stored until its connection is closed, and dropping it releases the port.
pub struct App<I, O> {
    devices: Vec<DeviceItem>,
    selected: usize,
    focus: Focus,
    last_refresh: u64,
    in_conns: ConnectionMap<I>,
    out_conns: ConnectionMap<O>,
    log: Log,
    phase: Phase,
}

impl<I, O> View for App<I, O> {
    type V = AppView<I, O>;

    closed spec fn view(&self) -> AppView<I, O> {
        AppView {
            devices: self.devices.deep_view(),
            selected: self.selected as nat,
            focus: self.focus,
            last_refresh: self.last_refresh,
            inputs: self.in_conns@,
            outputs: self.out_conns@,
            log: self.log@,
            phase: self.phase,
        }
    }
}

impl<I, O> App<I, O> {
    /// The manager's parts are well formed and its state is valid.
    pub closed spec fn wf(&self) -> bool {
        &&& self.in_conns.wf()
        &&& self.out_conns.wf()
        &&& self.log.wf()
        &&& self.log.limit() == LOG_CAPACITY
        &&& self.devices.len() == 0 ==> self.selected == 0
        &&& self.devices.len() > 0 ==> self.selected < self.devices.len()
        &&& in_listing_order(self.devices.deep_view())
    }

    /// Every well-formed manager is in a valid state.
    pub proof fn lemma_valid(&self)
        requires
            self.wf(),
        ensures
            valid(self@),
    {
        self.log.lemma_within_limit();
        self.in_conns.lemma_finite();
        self.out_conns.lemma_finite();
    }

    /// Starts a manager at the time `now` from what was remembered and from
    /// what the driver reported. The remembered device is selected if it is
    /// listed, else the first device; that it is gone is no error. The start
    /// fails only where the driver could not be started.
    pub fn new(persisted: Persisted, scan: PortScan, now: u64) -> (made: Result<Self, ManagerError>)
        ensures
            match scan {
                PortScan::Unavailable { kind, detail } => {
                    &&& made matches Err(e)
                    &&& e@ == (Failure::Discovery { kind, detail: detail@ })
                },
                PortScan::Ports { inputs, outputs } => made matches Ok(app) && {
                    &&& app.wf()
                    &&& stable_sorted(
                        app@.devices,
                        listing(inputs.deep_view(), outputs.deep_view()),
                    )
                    &&& app@ == (AppView::<I, O> {
                        devices: app@.devices,
                        selected: reselected(app@.devices, persisted@.last_device),
                        focus: starting_focus(persisted@.last_focus),
                        last_refresh: now,
                        inputs: Map::empty(),
                        outputs: Map::empty(),
                        log: Seq::empty(),
                        phase: Phase::Running,
                    })
                },
            },
    {
        match collect_devices(scan) {
            Err(e) => Err(e),
            Ok(devices) => {
                let selected = restore_selection(&devices, &persisted.last_device);
                let focus = match persisted.last_focus {
                    Some(f) => f,
                    None => Focus::Left,
                };
                let in_conns = ConnectionMap::new();
                let out_conns = ConnectionMap::new();
                Ok(
                    App {
                        devices,
                        selected,
                        focus,
                        last_refresh: now,
                        in_conns,
                        out_conns,
                        log: Log::new(LOG_CAPACITY),
                        phase: Phase::Running,
                    },
                )
            },
        }
    }

    /// The devices of the last discovery.
    pub fn devices(&self) -> (devices: &Vec<DeviceItem>)
        ensures
            devices.deep_view() == self@.devices,
    {
        &self.devices
    }

    /// The selected position in the list of devices.
    pub fn selected(&self) -> (selected: usize)
        ensures
            selected == self@.selected,
    {
        self.selected
    }

    /// The selected device, if the list has any.
    pub fn selected_device(&self) -> (device: Option<&DeviceItem>)
        ensures
            device.deep_view() == selected_entry(self@),
    {
        if self.selected < self.devices.len() {
            Some(&self.devices[self.selected])
        } else {
            None
        }
    }

    /// The side that has the focus.
    pub fn focus(&self) -> (focus: Focus)
        ensures
            focus == self@.focus,
    {
        self.focus
    }

    /// Where the control loop stands.
    pub fn phase(&self) -> (phase: Phase)
        ensures
            phase == self@.phase,
    {
        self.phase
    }

    /// When the devices were last discovered.
    pub fn last_refresh(&self) -> (at: u64)
        ensures
            at == self@.last_refresh,
    {
        self.last_refresh
    }

    /// The log.
    pub fn log(&self) -> (log: &Log)
        requires
            self.wf(),
        ensures
            log.wf(),
            log@ == self@.log,
            log.limit() == LOG_CAPACITY,
    {
        &self.log
    }

    /// The number of open input connections.
    pub fn open_inputs(&self) -> (n: usize)
        requires
            self.wf(),
        ensures
            n == self@.inputs.dom().len(),
    {
        self.in_conns.len()
    }

    /// The number of open output connections.
    pub fn open_outputs(&self) -> (n: usize)
        requires
            self.wf(),
        ensures
            n == self@.outputs.dom().len(),
    {
        self.out_conns.len()
    }

    /// Whether the device `key` has an open connection of its kind.
    pub fn is_open(&self, key: &DeviceKey) -> (open: bool)
        requires
            self.wf(),
        ensures
            open == is_open_in(self@, key@),
    {
        match key.kind {
            MidiKind::Input => self.in_conns.contains_key(key),
            MidiKind::Output => self.out_conns.contains_key(key),
        }
    }

    /// The handle of the open input connection of the device `key`.
    pub fn input(&self, key: &DeviceKey) -> (conn: Option<&I>)
        requires
            self.wf(),
        ensures
            match conn {
                Some(c) => self@.inputs.dom().contains(key@) && *c == self@.inputs[key@],
                None => !self@.inputs.dom().contains(key@),
            },
    {
        self.in_conns.get(key)
    }

    /// The handle of the open output connection of the device `key`.
    pub fn output(&self, key: &DeviceKey) -> (conn: Option<&O>)
        requires
            self.wf(),
        ensures
            match conn {
                Some(c) => self@.outputs.dom().contains(key@) && *c == self@.outputs[key@],
                None => !self@.outputs.dom().contains(key@),
            },
    {
        self.out_conns.get(key)
    }

    /// Whether the devices are due to be discovered anew at the time `now`.
    pub fn refresh_due(&self, now: u64) -> (due: bool)
        ensures
            due == (now - self@.last_refresh >= REFRESH_MS),
    {
        refresh_due(self.last_refresh, now)
    }

    /// Takes in what the driver reported at the time `now`. A report of
    /// ports replaces the list; the device that was selected stays selected
    /// at its new position, and where it is gone the first device is
    /// selected. A driver that could not be started changes nothing. The
    /// connections and the log are never touched. Returns whether the list
    /// was replaced.
    pub fn refresh_devices(&mut self, scan: PortScan, now: u64) -> (replaced: bool)
        requires
            old(self).wf(),
        ensures
            final(self).wf(),
            final(self)@.inputs == old(self)@.inputs,
            final(self)@.outputs == old(self)@.outputs,
            match scan {
                PortScan::Unavailable { .. } => !replaced && final(self)@ == old(self)@,
                PortScan::Ports { inputs, outputs } => {
                    &&& replaced
                    &&& stable_sorted(
                        final(self)@.devices,
                        listing(inputs.deep_view(), outputs.deep_view()),
                    )
                    &&& final(self)@ == (AppView {
                        devices: final(self)@.devices,
                        selected: reselected(final(self)@.devices, selected_id(old(self)@)),
                        last_refresh: now,
                        ..old(self)@
                    })
                },
            },
    {
        match collect_devices(scan) {
            Err(_) => false,
            Ok(devices) => {
                let selected = if self.selected < self.devices.len() {
                    let key = &self.devices[self.selected].key;
                    assert(Some(key@) == selected_id(self@));
                    restore_selection(&devices, &Some(key.clone()))
                } else {
                    0
                };
                self.devices = devices;
                self.selected = selected;
                self.last_refresh = now;
                true
            },
        }
    }

    /// Moves the selection up by one, from the first device round to the last.
    pub fn select_up(&mut self)
        requires
            old(self).wf(),
        ensures
            final(self).wf(),
            final(self)@ == moved_up(old(self)@),
    {
        if self.devices.len() == 0 {
            return ;
        }
        if self.selected == 0 {
            self.selected = self.devices.len() - 1;
        } else {
            self.selected = self.selected - 1;
        }
    }

    /// Moves the selection down by one, from the last device round to the
    /// first.
    pub fn select_down(&mut self)
        requires
            old(self).wf(),
        ensures
            final(self).wf(),
            final(self)@ == moved_down(old(self)@),
    {
        if self.devices.len() == 0 {
            return ;
        }
        self.selected = (self.selected + 1) % self.devices.len();
    }

    /// Gives the focus to `focus`.
    pub fn set_focus(&mut self, focus: Focus)
        requires
            old(self).wf(),
        ensures
            final(self).wf(),
            final(self)@ == (AppView { focus, ..old(self)@ }),
    {
        self.focus = focus;
    }

    /// Appends the status line for `msg` to the log.
    pub fn push_status(&mut self, msg: &str)
        requires
            old(self).wf(),
        ensures
            final(self).wf(),
            final(self)@ == logged(old(self)@, msg@),
    {
        self.log.push_status(msg);
    }

    /// Appends the queued records of inbound messages to the log, in order.
    pub fn drain_rx(&mut self, queued: Vec<String>)
        requires
            old(self).wf(),
        ensures
            final(self).wf(),
            final(self)@ == (AppView {
                log: keep_last(old(self)@.log + queued.deep_view(), LOG_CAPACITY as nat),
                ..old(self)@
            }),
    {
        self.log.drain(queued);
    }

    /// Starts a round of the control loop at the time `now`: appends the
    /// queued records of inbound messages to the log, and asks for a
    /// discovery where one is due. Only a running manager asks for one.
    pub fn tick(&mut self, queued: Vec<String>, now: u64) -> (effect: Effect)
        requires
            old(self).wf(),
        ensures
            final(self).wf(),
            final(self)@ == (AppView {
                log: keep_last(old(self)@.log + queued.deep_view(), LOG_CAPACITY as nat),
                ..old(self)@
            }),
            effect@ == if old(self)@.phase == Phase::Running && now - old(self)@.last_refresh
                >= REFRESH_MS {
                Asked::Discover
            } else {
                Asked::Idle
            },
    {
        self.log.drain(queued);
        let running = match self.phase {
            Phase::Running => true,
            _ => false,
        };
        if running && refresh_due(self.last_refresh, now) {
            Effect::Discover
        } else {
            Effect::Idle
        }
    }

    /// Logs the failure `error` as a status line that starts with `Error: `.
    pub fn report(&mut self, error: &ManagerError)
        requires
            old(self).wf(),
        ensures
            final(self).wf(),
            final(self)@ == logged(old(self)@, error_text(failure_text(error@))),
    {
        let reason = error.message();
        let msg = error_message(reason.as_str());
        self.log.push_status(msg.as_str());
    }

    /// Toggles the connection of the selected device. An open connection is
    /// closed, its handle dropped and the closing logged. For a closed one
    /// nothing changes yet: the device is returned, and the caller is to
    /// open its port. With no devices nothing happens.
    pub fn toggle_open_selected(&mut self) -> (request: Option<DeviceItem>)
        requires
            old(self).wf(),
        ensures
            final(self).wf(),
            final(self)@ == toggled(old(self)@),
            request.deep_view() == toggle_request(old(self)@),
    {
        if self.devices.len() == 0 {
            return None;
        }
        let dev = self.devices[self.selected].clone();
        assert(Some(dev@) == selected_entry(self@));
        match dev.key.kind {
            MidiKind::Input => {
                if self.in_conns.remove(&dev.key).is_some() {
                    let msg = closed_message(MidiKind::Input, dev.key.name.as_str());
                    self.log.push_status(msg.as_str());
                    None
                } else {
                    assert(self.in_conns@ =~= old(self).in_conns@);
                    Some(dev)
                }
            },
            MidiKind::Output => {
                if self.out_conns.remove(&dev.key).is_some() {
                    let msg = closed_message(MidiKind::Output, dev.key.name.as_str());
                    self.log.push_status(msg.as_str());
                    None
                } else {
                    assert(self.out_conns@ =~= old(self).out_conns@);
                    Some(dev)
                }
            },
        }
    }

    /// Checks the position of `device` against what the driver lists now,
    /// before anything is opened: `listed` is the number of ports of the
    /// device's kind, or why the driver could not be started. A position
    /// that is out of range is stale; the failure is logged and nothing is
    /// to be opened. Otherwise the position is returned and nothing changes.
    pub fn validate_port(&mut self, device: &DeviceItem, listed: Result<usize, String>) -> (checked:
        Result<usize, ManagerError>)
        requires
            old(self).wf(),
        ensures
            final(self).wf(),
            match listed {
                Err(detail) => {
                    let f = (Failure::Discovery { kind: device@.key.kind, detail: detail@ });
                    &&& checked matches Err(e) && e@ == f
                    &&& final(self)@ == logged(old(self)@, error_text(failure_text(f)))
                },
                Ok(available) => if device.index < available {
                    &&& checked == Ok::<usize, ManagerError>(device.index)
                    &&& final(self)@ == old(self)@
                } else {
                    let f = (Failure::StalePort {
                        kind: device@.key.kind,
                        index: device.index,
                        available,
                    });
                    &&& checked matches Err(e) && e@ == f
                    &&& final(self)@ == logged(old(self)@, error_text(failure_text(f)))
                },
            },
    {
        let kind = device.key.kind;
        match listed {
            Err(detail) => {
                let e = ManagerError::Discovery { kind, detail };
                self.report(&e);
                Err(e)
            },
            Ok(available) => {
                if device.index < available {
                    Ok(device.index)
                } else {
                    let e = ManagerError::StalePort { kind, index: device.index, available };
                    self.report(&e);
                    Err(e)
                }
            },
        }
    }

    /// Takes in what came of opening the input port of `device`, whose
    /// position was validated: `port_name` is the name that the driver told
    /// for the port, `attempt` the handle of the connection or why the
    /// driver refused. A handle is stored under the device's name as an
    /// input and the opening logged. A refusal is logged and changes no
    /// connection.
    pub fn open_input(
        &mut self,
        device: &DeviceItem,
        port_name: Option<String>,
        attempt: Result<I, String>,
    ) -> (done: Result<(), ManagerError>)
        requires
            old(self).wf(),
        ensures
            final(self).wf(),
            final(self)@.outputs == old(self)@.outputs,
            ({
                let port = label_of(MidiKind::Input, device.index as nat, port_name.deep_view());
                match attempt {
                    Ok(conn) => {
                        &&& done.is_ok()
                        &&& final(self)@ == input_opened(old(self)@, device@.key.name, port, conn)
                    },
                    Err(detail) => {
                        let f = (Failure::Connection {
                            kind: MidiKind::Input,
                            port,
                            detail: detail@,
                        });
                        &&& done matches Err(e) && e@ == f
                        &&& final(self)@ == logged(old(self)@, error_text(failure_text(f)))
                    },
                }
            }),
    {
        let port = port_label(MidiKind::Input, device.index, port_name);
        match attempt {
            Ok(conn) => {
                let key = DeviceKey { name: device.key.name.clone(), kind: MidiKind::Input };
                self.in_conns.insert(key, conn);
                let msg = opened_message(MidiKind::Input, port.as_str());
                self.log.push_status(msg.as_str());
                Ok(())
            },
            Err(detail) => {
                let e = ManagerError::Connection { kind: MidiKind::Input, port, detail };
                self.report(&e);
                Err(e)
            },
        }
    }

    /// Takes in what came of opening the output port of `device`, whose
    /// position was validated: as `open_input` does for an input.
    pub fn open_output(
        &mut self,
        device: &DeviceItem,
        port_name: Option<String>,
        attempt: Result<O, String>,
    ) -> (done: Result<(), ManagerError>)
        requires
            old(self).wf(),
        ensures
            final(self).wf(),
            final(self)@.inputs == old(self)@.inputs,
            ({
                let port = label_of(MidiKind::Output, device.index as nat, port_name.deep_view());
                match attempt {
                    Ok(conn) => {
                        &&& done.is_ok()
                        &&& final(self)@ == output_opened(
                            old(self)@,
                            device@.key.name,
                            port,
                            conn,
                        )
                    },
                    Err(detail) => {
                        let f = (Failure::Connection {
                            kind: MidiKind::Output,
                            port,
                            detail: detail@,
                        });
                        &&& done matches Err(e) && e@ == f
                        &&& final(self)@ == logged(old(self)@, error_text(failure_text(f)))
                    },
                }
            }),
    {
        let port = port_label(MidiKind::Output, device.index, port_name);
        match attempt {
            Ok(conn) => {
                let key = DeviceKey { name: device.key.name.clone(), kind: MidiKind::Output };
                self.out_conns.insert(key, conn);
                let msg = opened_message(MidiKind::Output, port.as_str());
                self.log.push_status(msg.as_str());
                Ok(())
            },
            Err(detail) => {
                let e = ManagerError::Connection { kind: MidiKind::Output, port, detail };
                self.report(&e);
                Err(e)
            },
        }
    }

    /// Closes every connection, whatever was open, and logs one line with
    /// the numbers of inputs and outputs that were open.
    pub fn close_all(&mut self)
        requires
            old(self).wf(),
        ensures
            final(self).wf(),
            final(self)@ == all_closed(old(self)@),
            final(self)@.inputs == Map::<DeviceId, I>::empty(),
            final(self)@.outputs == Map::<DeviceId, O>::empty(),
    {
        let in_count = self.in_conns.len();
        let out_count = self.out_conns.len();
        self.in_conns.clear();
        self.out_conns.clear();
        let msg = closed_all_message(in_count, out_count);
        self.log.push_status(msg.as_str());
    }

    /// What to remember of this state: the identity of the selected device,
    /// not its position, and the focus.
    pub fn save_persisted(&self) -> (persisted: Persisted)
        ensures
            persisted@ == snapshot(self@),
    {
        let last_device = if self.selected < self.devices.len() {
            Some(self.devices[self.selected].key.clone())
        } else {
            None
        };
        Persisted { last_device, last_focus: Some(self.focus) }
    }

    /// Applies `intent` as far as the manager can go alone, and returns what
    /// is left for the caller to do. A manager that is not running takes no
    /// intent.
    pub fn apply(&mut self, intent: Intent) -> (effect: Effect)
        requires
            old(self).wf(),
        ensures
            final(self).wf(),
            final(self)@ == applied(old(self)@, intent),
            effect@ == asked(old(self)@, intent),
    {
        match self.phase {
            Phase::Running => {},
            _ => {
                return Effect::Idle;
            },
        }
        match intent {
            Intent::Quit => {
                self.phase = Phase::ShuttingDown;
                Effect::Exit
            },
            Intent::Refresh => Effect::Discover,
            Intent::FocusLeft => {
                self.focus = Focus::Left;
                Effect::Idle
            },
            Intent::FocusRight => {
                self.focus = Focus::Right;
                Effect::Idle
            },
            Intent::Toggle => match self.toggle_open_selected() {
                Some(device) => Effect::Open(device),
                None => Effect::Idle,
            },
            Intent::CloseAll => {
                self.close_all();
                Effect::Idle
            },
            Intent::SelectUp => {
                self.select_up();
                Effect::Idle
            },
            Intent::SelectDown => {
                self.select_down();
                Effect::Idle
            },
        }
    }

    /// Applies what the key press asks for, if it asks for anything.
    pub fn handle_key(&mut self, press: KeyPress) -> (effect: Effect)
        requires
            old(self).wf(),
        ensures
            final(self).wf(),
            match intent_of(press, old(self)@.focus) {
                Some(intent) => final(self)@ == applied(old(self)@, intent) && effect@ == asked(
                    old(self)@,
                    intent,
                ),
                None => final(self)@ == old(self)@ && effect@ == Asked::Idle,
            },
    {
        match intent_for(press, self.focus) {
            Some(intent) => self.apply(intent),
            None => Effect::Idle,
        }
    }

    /// Ends the run: returns what to remember, closes every connection and
    /// leaves the manager terminated.
    pub fn shutdown(&mut self) -> (persisted: Persisted)
        requires
            old(self).wf(),
        ensures
            final(self).wf(),
            persisted@ == snapshot(old(self)@),
            final(self)@ == (AppView {
                inputs: Map::empty(),
                outputs: Map::empty(),
                phase: Phase::Terminated,
                ..old(self)@
            }),
    {
        let persisted = self.save_persisted();
        self.in_conns.clear();
        self.out_conns.clear();
        self.phase = Phase::Terminated;
        persisted
    }
}

} // verus!
