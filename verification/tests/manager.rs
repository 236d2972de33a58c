use midir_tui::control::{Intent, Key, KeyPress, Phase};
use midir_tui::device::{DeviceItem, DeviceKey, MidiKind};
use midir_tui::error::ManagerError;
use midir_tui::log::LOG_CAPACITY;
use midir_tui::manager::{App, Effect};
use midir_tui::messages::format_message;
use midir_tui::registry::PortScan;
use midir_tui::session::{Focus, Persisted};
use std::rc::Rc;

type Manager = App<u32, u32>;

fn key(name: &str, kind: MidiKind) -> DeviceKey {
    DeviceKey { name: name.to_string(), kind }
}

fn item(name: &str, kind: MidiKind, index: usize) -> DeviceItem {
    DeviceItem { key: key(name, kind), index }
}

fn ports(inputs: &[&str], outputs: &[&str]) -> PortScan {
    PortScan::Ports {
        inputs: inputs.iter().map(|n| Some(n.to_string())).collect(),
        outputs: outputs.iter().map(|n| Some(n.to_string())).collect(),
    }
}

fn start(inputs: &[&str], outputs: &[&str]) -> Manager {
    App::new(Persisted::default(), ports(inputs, outputs), 0).unwrap()
}

fn lines<I, O>(app: &App<I, O>) -> Vec<String> {
    let log = app.log();
    (0..log.len()).map(|i| log.get(i).unwrap()).collect()
}

fn names<I, O>(app: &App<I, O>) -> Vec<String> {
    app.devices().iter().map(|d| d.key.name.clone()).collect()
}

#[test]
fn a_new_manager_runs_with_nothing_open() {
    let app = start(&["Beta"], &["Alpha"]);
    assert_eq!(app.devices(), &vec![item("Beta", MidiKind::Input, 0), item("Alpha", MidiKind::Output, 0)]);
    assert_eq!(app.selected(), 0);
    assert_eq!(app.focus(), Focus::Left);
    assert_eq!(app.phase(), Phase::Running);
    assert_eq!(app.last_refresh(), 0);
    assert_eq!(app.open_inputs(), 0);
    assert_eq!(app.open_outputs(), 0);
    assert!(app.log().is_empty());
    assert_eq!(app.log().capacity(), LOG_CAPACITY);
    assert_eq!(app.selected_device(), Some(&item("Beta", MidiKind::Input, 0)));
}

#[test]
fn a_manager_cannot_start_without_a_driver() {
    let scan = PortScan::Unavailable { kind: MidiKind::Output, detail: "no MIDI here".to_string() };
    let made: Result<Manager, ManagerError> = App::new(Persisted::default(), scan, 0);
    match made {
        Ok(_) => panic!("started without a driver"),
        Err(e) => assert_eq!(
            e,
            ManagerError::Discovery { kind: MidiKind::Output, detail: "no MIDI here".to_string() }
        ),
    }
}

#[test]
fn the_remembered_device_is_selected() {
    let persisted = Persisted { last_device: Some(key("Beta", MidiKind::Output)), last_focus: Some(Focus::Right) };
    let app: Manager = App::new(persisted, ports(&["Alpha", "Beta"], &["Alpha", "Beta"]), 42).unwrap();
    assert_eq!(app.selected(), 3);
    assert_eq!(app.focus(), Focus::Right);
    assert_eq!(app.last_refresh(), 42);
}

#[test]
fn a_remembered_device_that_is_gone_is_no_error() {
    let persisted = Persisted { last_device: Some(key("Gamma", MidiKind::Input)), last_focus: None };
    let app: Manager = App::new(persisted, ports(&["Alpha", "Beta"], &["Delta"]), 0).unwrap();
    assert_eq!(app.selected(), 0);
    assert_eq!(app.focus(), Focus::Left);
    assert!(app.log().is_empty());
}

#[test]
fn a_manager_without_devices_selects_nothing() {
    let persisted = Persisted { last_device: Some(key("Gamma", MidiKind::Input)), last_focus: None };
    let mut app: Manager = App::new(persisted, ports(&[], &[]), 0).unwrap();
    assert_eq!(app.selected(), 0);
    assert_eq!(app.selected_device(), None);
    app.select_up();
    assert_eq!(app.selected(), 0);
    app.select_down();
    assert_eq!(app.selected(), 0);
    assert!(app.toggle_open_selected().is_none());
    assert!(app.log().is_empty());
    assert_eq!(app.save_persisted(), Persisted { last_device: None, last_focus: Some(Focus::Left) });
}

#[test]
fn selection_wraps_round() {
    let mut app = start(&["a", "b"], &["c"]);
    app.select_up();
    assert_eq!(app.selected(), 2);
    app.select_up();
    assert_eq!(app.selected(), 1);
    app.select_down();
    assert_eq!(app.selected(), 2);
    app.select_down();
    assert_eq!(app.selected(), 0);
    app.select_down();
    assert_eq!(app.selected(), 1);
}

#[test]
fn refresh_follows_the_selected_identity() {
    let mut app = start(&["Beta", "Delta"], &["Alpha"]);
    app.select_down();
    assert_eq!(app.selected_device().unwrap().key, key("Delta", MidiKind::Input));
    assert!(app.refresh_devices(ports(&["Alpha", "Beta", "Charlie", "Delta"], &["Alpha"]), 900));
    assert_eq!(names(&app), vec!["Alpha", "Beta", "Charlie", "Delta", "Alpha"]);
    assert_eq!(app.selected(), 3);
    assert_eq!(app.selected_device().unwrap().key, key("Delta", MidiKind::Input));
    assert_eq!(app.last_refresh(), 900);
}

#[test]
fn refresh_tells_kinds_apart() {
    let mut app = start(&["Beta"], &["Beta"]);
    app.select_down();
    assert_eq!(app.selected_device().unwrap().key, key("Beta", MidiKind::Output));
    assert!(app.refresh_devices(ports(&["Beta", "Zed"], &["Alpha", "Beta"]), 1));
    assert_eq!(app.selected(), 3);
}

#[test]
fn refresh_without_the_selected_device_selects_the_first() {
    let mut app = start(&["Alpha", "Beta"], &[]);
    app.select_down();
    assert!(app.refresh_devices(ports(&["Alpha", "Gamma"], &[]), 1));
    assert_eq!(app.selected(), 0);
    assert!(app.refresh_devices(ports(&[], &[]), 2));
    assert_eq!(app.selected(), 0);
    assert_eq!(app.selected_device(), None);
    assert!(app.refresh_devices(ports(&["Alpha"], &[]), 3));
    assert_eq!(app.selected(), 0);
}

#[test]
fn refresh_without_a_driver_changes_nothing() {
    let mut app = start(&["Alpha", "Beta"], &[]);
    app.select_down();
    let scan = PortScan::Unavailable { kind: MidiKind::Input, detail: "gone".to_string() };
    assert!(!app.refresh_devices(scan, 777));
    assert_eq!(names(&app), vec!["Alpha", "Beta"]);
    assert_eq!(app.selected(), 1);
    assert_eq!(app.last_refresh(), 0);
    assert!(app.log().is_empty());
}

#[test]
fn refresh_is_due_five_seconds_after_the_last() {
    let mut app = start(&["Alpha"], &[]);
    assert!(!app.refresh_due(4999));
    assert!(app.refresh_due(5000));
    assert!(app.refresh_devices(ports(&["Alpha"], &[]), 5000));
    assert!(!app.refresh_due(9999));
    assert!(app.refresh_due(10000));
}

#[test]
fn toggle_asks_to_open_a_closed_device() {
    let mut app = start(&["Beta"], &["Alpha"]);
    let request = app.toggle_open_selected();
    assert_eq!(request, Some(item("Beta", MidiKind::Input, 0)));
    assert_eq!(app.open_inputs(), 0);
    assert!(app.log().is_empty());
}

#[test]
fn open_then_toggle_closes_again() {
    let mut app = start(&["Beta"], &["Alpha"]);
    let dev = app.toggle_open_selected().unwrap();
    assert_eq!(app.validate_port(&dev, Ok(1)), Ok(0));
    assert_eq!(app.open_input(&dev, Some("Beta".to_string()), Ok(11)), Ok(()));
    assert!(app.is_open(&dev.key));
    assert_eq!(app.open_inputs(), 1);
    assert_eq!(app.input(&dev.key), Some(&11));
    assert_eq!(lines(&app), vec!["· Opened input: Beta"]);
    assert_eq!(app.toggle_open_selected(), None);
    assert!(!app.is_open(&dev.key));
    assert_eq!(app.open_inputs(), 0);
    assert_eq!(app.input(&dev.key), None);
    assert_eq!(lines(&app), vec!["· Opened input: Beta", "· Closed input: Beta"]);
}

#[test]
fn outputs_open_and_close_too() {
    let mut app = start(&["Beta"], &["Alpha"]);
    app.select_down();
    let dev = app.toggle_open_selected().unwrap();
    assert_eq!(dev, item("Alpha", MidiKind::Output, 0));
    assert_eq!(app.open_output(&dev, None, Ok(5)), Ok(()));
    assert!(app.is_open(&dev.key));
    assert_eq!(app.open_outputs(), 1);
    assert_eq!(app.open_inputs(), 0);
    assert_eq!(app.output(&dev.key), Some(&5));
    assert_eq!(app.input(&dev.key), None);
    assert_eq!(lines(&app), vec!["· Opened output: Output #0"]);
    assert_eq!(app.toggle_open_selected(), None);
    assert_eq!(app.open_outputs(), 0);
    assert_eq!(lines(&app), vec!["· Opened output: Output #0", "· Closed output: Alpha"]);
}

#[test]
fn a_device_never_has_two_connections() {
    let mut app = start(&["Beta"], &[]);
    let dev = item("Beta", MidiKind::Input, 0);
    assert_eq!(app.open_input(&dev, None, Ok(1)), Ok(()));
    assert_eq!(app.open_input(&dev, None, Ok(2)), Ok(()));
    assert_eq!(app.open_inputs(), 1);
    assert_eq!(app.input(&dev.key), Some(&2));
}

#[test]
fn closing_drops_the_handle() {
    let handle = Rc::new(());
    let mut app: App<Rc<()>, Rc<()>> = App::new(Persisted::default(), ports(&["Beta"], &["Alpha"]), 0).unwrap();
    let dev = app.toggle_open_selected().unwrap();
    assert_eq!(app.open_input(&dev, None, Ok(handle.clone())), Ok(()));
    assert_eq!(Rc::strong_count(&handle), 2);
    assert!(app.toggle_open_selected().is_none());
    assert_eq!(Rc::strong_count(&handle), 1);
    assert_eq!(app.open_input(&dev, None, Ok(handle.clone())), Ok(()));
    assert_eq!(app.open_output(&item("Alpha", MidiKind::Output, 0), None, Ok(handle.clone())), Ok(()));
    assert_eq!(Rc::strong_count(&handle), 3);
    app.close_all();
    assert_eq!(Rc::strong_count(&handle), 1);
}

#[test]
fn a_stale_position_opens_nothing() {
    let mut app = start(&["Alpha", "Beta"], &[]);
    app.select_down();
    let dev = app.toggle_open_selected().unwrap();
    assert_eq!(dev.index, 1);
    let checked = app.validate_port(&dev, Ok(1));
    assert_eq!(checked, Err(ManagerError::StalePort { kind: MidiKind::Input, index: 1, available: 1 }));
    assert_eq!(app.open_inputs(), 0);
    assert_eq!(lines(&app), vec!["· Error: input port index out of range"]);
    assert_eq!(app.validate_port(&dev, Ok(0)).unwrap_err().message(), "input port index out of range");
    assert_eq!(app.validate_port(&dev, Ok(2)), Ok(1));
    assert_eq!(lines(&app).len(), 2);
}

#[test]
fn a_stale_output_position_is_reported_as_such() {
    let mut app = start(&[], &["Alpha"]);
    let dev = item("Alpha", MidiKind::Output, 3);
    assert_eq!(
        app.validate_port(&dev, Ok(3)),
        Err(ManagerError::StalePort { kind: MidiKind::Output, index: 3, available: 3 })
    );
    assert_eq!(lines(&app), vec!["· Error: output port index out of range"]);
}

#[test]
fn a_driver_that_cannot_start_is_reported() {
    let mut app = start(&["Alpha"], &[]);
    let dev = item("Alpha", MidiKind::Input, 0);
    let checked = app.validate_port(&dev, Err("busy".to_string()));
    assert_eq!(checked, Err(ManagerError::Discovery { kind: MidiKind::Input, detail: "busy".to_string() }));
    assert_eq!(lines(&app), vec!["· Error: Failed to create MidiInput: busy"]);
    assert_eq!(app.open_inputs(), 0);
}

#[test]
fn a_refused_port_changes_no_connection() {
    let mut app = start(&["Alpha", "Beta"], &["Out"]);
    let alpha = item("Alpha", MidiKind::Input, 0);
    let beta = item("Beta", MidiKind::Input, 1);
    assert_eq!(app.open_input(&alpha, Some("Alpha".to_string()), Ok(1)), Ok(()));
    let done = app.open_input(&beta, Some("Beta port".to_string()), Err("in use".to_string()));
    assert_eq!(
        done,
        Err(ManagerError::Connection {
            kind: MidiKind::Input,
            port: "Beta port".to_string(),
            detail: "in use".to_string()
        })
    );
    assert_eq!(app.open_inputs(), 1);
    assert!(!app.is_open(&beta.key));
    assert!(app.is_open(&alpha.key));
    assert_eq!(
        lines(&app),
        vec!["· Opened input: Alpha", "· Error: Failed to open input: Beta port: in use"]
    );
    let out = item("Out", MidiKind::Output, 0);
    let done = app.open_output(&out, None, Err("gone".to_string()));
    assert_eq!(done.unwrap_err().message(), "Failed to open output: Output #0: gone");
    assert_eq!(app.open_outputs(), 0);
    assert_eq!(lines(&app)[2], "· Error: Failed to open output: Output #0: gone");
}

#[test]
fn close_all_empties_both_maps() {
    let mut app = start(&["a", "b"], &["c"]);
    assert_eq!(app.open_input(&item("a", MidiKind::Input, 0), None, Ok(1)), Ok(()));
    assert_eq!(app.open_input(&item("b", MidiKind::Input, 1), None, Ok(2)), Ok(()));
    assert_eq!(app.open_output(&item("c", MidiKind::Output, 0), None, Ok(3)), Ok(()));
    app.close_all();
    assert_eq!(app.open_inputs(), 0);
    assert_eq!(app.open_outputs(), 0);
    assert!(!app.is_open(&key("a", MidiKind::Input)));
    assert!(!app.is_open(&key("c", MidiKind::Output)));
    assert_eq!(lines(&app).last().unwrap(), "· Closed all ports (inputs: 2, outputs: 1)");
}

#[test]
fn close_all_of_nothing_still_logs() {
    let mut app = start(&["a"], &[]);
    app.close_all();
    app.close_all();
    assert_eq!(app.open_inputs(), 0);
    assert_eq!(app.open_outputs(), 0);
    assert_eq!(
        lines(&app),
        vec!["· Closed all ports (inputs: 0, outputs: 0)", "· Closed all ports (inputs: 0, outputs: 0)"]
    );
}

#[test]
fn inbound_messages_reach_the_log() {
    let mut app = start(&["Beta"], &[]);
    let dev = app.toggle_open_selected().unwrap();
    assert_eq!(app.validate_port(&dev, Ok(1)), Ok(0));
    assert_eq!(app.open_input(&dev, Some("Beta".to_string()), Ok(1)), Ok(()));
    let (tx, rx) = std::sync::mpsc::channel::<String>();
    tx.send(format_message(&[0x90, 0x40, 0x7F], &dev.key.name)).unwrap();
    app.drain_rx(rx.try_iter().collect());
    let log = lines(&app);
    assert_eq!(log, vec!["· Opened input: Beta", "IN  [90, 40, 7F]  (len 3)  [Beta]"]);
    assert!(log[1].contains("Beta"));
    assert!(log[1].contains("90, 40, 7F"));
    assert_eq!(app.log().recent(1), vec!["IN  [90, 40, 7F]  (len 3)  [Beta]"]);
}

#[test]
fn a_connection_outlives_its_listing() {
    let mut app = start(&["Alpha", "Beta"], &[]);
    app.select_down();
    let dev = app.toggle_open_selected().unwrap();
    assert_eq!(dev.key, key("Beta", MidiKind::Input));
    assert_eq!(app.open_input(&dev, None, Ok(9)), Ok(()));
    assert!(app.refresh_devices(ports(&["Alpha"], &[]), 10));
    assert_eq!(app.selected(), 0);
    assert_eq!(names(&app), vec!["Alpha"]);
    assert!(app.is_open(&dev.key));
    assert_eq!(app.input(&dev.key), Some(&9));
    assert_eq!(app.open_inputs(), 1);
    assert!(app.refresh_devices(ports(&[], &[]), 20));
    assert_eq!(app.selected_device(), None);
    assert_eq!(app.input(&dev.key), Some(&9));
    app.close_all();
    assert_eq!(app.input(&dev.key), None);
}

#[test]
fn the_log_of_the_manager_is_bounded() {
    let mut app = start(&[], &[]);
    for i in 0..(LOG_CAPACITY + 5) {
        app.push_status(&format!("{}", i));
        assert!(app.log().len() <= LOG_CAPACITY);
    }
    assert_eq!(app.log().len(), LOG_CAPACITY);
    assert_eq!(app.log().get(0), Some("· 5".to_string()));
    app.drain_rx(vec!["x".to_string(), "y".to_string()]);
    assert_eq!(app.log().len(), LOG_CAPACITY);
    assert_eq!(app.log().get(0), Some("· 7".to_string()));
    assert_eq!(app.log().recent(2), vec!["y", "x"]);
}

#[test]
fn report_marks_the_failure() {
    let mut app = start(&[], &[]);
    app.report(&ManagerError::StalePort { kind: MidiKind::Input, index: 4, available: 2 });
    assert_eq!(lines(&app), vec!["· Error: input port index out of range"]);
}

#[test]
fn what_is_saved_is_the_identity() {
    let mut app = start(&["Alpha", "Beta"], &["Gamma"]);
    app.select_up();
    app.set_focus(Focus::Right);
    assert_eq!(
        app.save_persisted(),
        Persisted { last_device: Some(key("Gamma", MidiKind::Output)), last_focus: Some(Focus::Right) }
    );
    let again: Manager = App::new(app.save_persisted(), ports(&["Gamma"], &["Alpha", "Gamma"]), 0).unwrap();
    assert_eq!(again.selected(), 2);
    assert_eq!(again.focus(), Focus::Right);
}

#[test]
fn keys_drive_the_manager() {
    let press = |key: Key| KeyPress { key, shift: false, control: false };
    let mut app = start(&["Alpha", "Beta"], &[]);
    assert!(matches!(app.handle_key(press(Key::Down)), Effect::Idle));
    assert_eq!(app.selected(), 1);
    assert!(matches!(app.handle_key(press(Key::Up)), Effect::Idle));
    assert_eq!(app.selected(), 0);
    assert!(matches!(app.handle_key(press(Key::Char('r'))), Effect::Discover));
    match app.handle_key(press(Key::Enter)) {
        Effect::Open(dev) => assert_eq!(dev, item("Alpha", MidiKind::Input, 0)),
        _ => panic!("no request to open"),
    }
    assert_eq!(app.open_input(&item("Alpha", MidiKind::Input, 0), None, Ok(1)), Ok(()));
    assert!(matches!(app.handle_key(press(Key::Right)), Effect::Idle));
    assert_eq!(app.focus(), Focus::Right);
    assert!(matches!(app.handle_key(press(Key::Enter)), Effect::Idle));
    assert!(matches!(app.handle_key(press(Key::Down)), Effect::Idle));
    assert_eq!(app.selected(), 0);
    assert_eq!(app.open_inputs(), 1);
    assert!(matches!(app.handle_key(press(Key::Left)), Effect::Idle));
    assert_eq!(app.focus(), Focus::Left);
    assert!(matches!(app.handle_key(press(Key::Enter)), Effect::Idle));
    assert_eq!(app.open_inputs(), 0);
    assert_eq!(app.open_input(&item("Alpha", MidiKind::Input, 0), None, Ok(1)), Ok(()));
    let shift_c = KeyPress { key: Key::Char('C'), shift: true, control: false };
    assert!(matches!(app.handle_key(shift_c), Effect::Idle));
    assert_eq!(app.open_inputs(), 0);
    assert!(matches!(app.handle_key(press(Key::Other)), Effect::Idle));
    assert_eq!(app.phase(), Phase::Running);
    assert!(matches!(app.handle_key(press(Key::Esc)), Effect::Exit));
    assert_eq!(app.phase(), Phase::ShuttingDown);
}

#[test]
fn a_manager_that_is_leaving_takes_no_intent() {
    let mut app = start(&["Alpha", "Beta"], &[]);
    assert!(matches!(app.apply(Intent::Quit), Effect::Exit));
    assert_eq!(app.phase(), Phase::ShuttingDown);
    assert!(matches!(app.apply(Intent::SelectDown), Effect::Idle));
    assert_eq!(app.selected(), 0);
    assert!(matches!(app.apply(Intent::Toggle), Effect::Idle));
    assert!(matches!(app.apply(Intent::Refresh), Effect::Idle));
    assert!(matches!(app.apply(Intent::Quit), Effect::Idle));
    assert!(matches!(app.apply(Intent::FocusRight), Effect::Idle));
    assert_eq!(app.focus(), Focus::Left);
    assert_eq!(app.phase(), Phase::ShuttingDown);
    assert!(app.log().is_empty());
}

#[test]
fn shutdown_saves_and_closes() {
    let mut app = start(&["Alpha", "Beta"], &["Out"]);
    app.select_down();
    assert_eq!(app.open_input(&item("Beta", MidiKind::Input, 1), None, Ok(1)), Ok(()));
    assert_eq!(app.open_output(&item("Out", MidiKind::Output, 0), None, Ok(2)), Ok(()));
    assert!(matches!(app.apply(Intent::Quit), Effect::Exit));
    let saved = app.shutdown();
    assert_eq!(saved, Persisted { last_device: Some(key("Beta", MidiKind::Input)), last_focus: Some(Focus::Left) });
    assert_eq!(app.phase(), Phase::Terminated);
    assert_eq!(app.open_inputs(), 0);
    assert_eq!(app.open_outputs(), 0);
    assert_eq!(app.selected(), 1);
    assert_eq!(lines(&app).len(), 2);
    assert!(matches!(app.apply(Intent::SelectDown), Effect::Idle));
    assert_eq!(app.selected(), 1);
}

#[test]
fn a_tick_drains_and_asks_for_discovery_when_due() {
    let mut app = start(&["Alpha"], &[]);
    assert!(matches!(app.tick(vec!["one".to_string()], 100), Effect::Idle));
    assert!(matches!(app.tick(vec!["two".to_string(), "three".to_string()], 4999), Effect::Idle));
    assert_eq!(lines(&app), vec!["one", "two", "three"]);
    assert!(matches!(app.tick(Vec::new(), 5000), Effect::Discover));
    assert!(matches!(app.tick(Vec::new(), 5100), Effect::Discover));
    assert!(app.refresh_devices(ports(&["Alpha"], &[]), 5100));
    assert!(matches!(app.tick(Vec::new(), 5200), Effect::Idle));
    assert!(matches!(app.tick(Vec::new(), 10100), Effect::Discover));
    assert_eq!(lines(&app), vec!["one", "two", "three"]);
}

#[test]
fn a_tick_of_a_leaving_manager_only_drains() {
    let mut app = start(&["Alpha"], &[]);
    assert!(matches!(app.apply(Intent::Quit), Effect::Exit));
    assert!(matches!(app.tick(vec!["late".to_string()], 60000), Effect::Idle));
    assert_eq!(lines(&app), vec!["late"]);
}
