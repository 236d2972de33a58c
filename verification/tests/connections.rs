use midir_tui::connections::ConnectionMap;
use midir_tui::device::{DeviceKey, MidiKind};
use std::rc::Rc;

fn key(name: &str, kind: MidiKind) -> DeviceKey {
    DeviceKey { name: name.to_string(), kind }
}

#[test]
fn new_map_is_empty() {
    let m: ConnectionMap<u32> = ConnectionMap::new();
    assert_eq!(m.len(), 0);
    assert!(m.is_empty());
    assert!(!m.contains_key(&key("Beta", MidiKind::Input)));
    assert_eq!(m.get(&key("Beta", MidiKind::Input)), None);
}

#[test]
fn insert_then_remove_restores_the_map() {
    let mut m: ConnectionMap<u32> = ConnectionMap::new();
    assert_eq!(m.insert(key("Beta", MidiKind::Input), 7), None);
    assert_eq!(m.len(), 1);
    assert!(m.contains_key(&key("Beta", MidiKind::Input)));
    assert_eq!(m.get(&key("Beta", MidiKind::Input)), Some(&7));
    assert_eq!(m.remove(&key("Beta", MidiKind::Input)), Some(7));
    assert_eq!(m.len(), 0);
    assert!(m.is_empty());
    assert!(!m.contains_key(&key("Beta", MidiKind::Input)));
}

#[test]
fn one_identity_has_one_connection() {
    let mut m: ConnectionMap<u32> = ConnectionMap::new();
    assert_eq!(m.insert(key("Beta", MidiKind::Input), 1), None);
    assert_eq!(m.insert(key("Beta", MidiKind::Input), 2), Some(1));
    assert_eq!(m.len(), 1);
    assert_eq!(m.get(&key("Beta", MidiKind::Input)), Some(&2));
    assert_eq!(m.remove(&key("Beta", MidiKind::Input)), Some(2));
    assert_eq!(m.remove(&key("Beta", MidiKind::Input)), None);
}

#[test]
fn identities_differ_by_name_case_and_kind() {
    let mut m: ConnectionMap<u32> = ConnectionMap::new();
    m.insert(key("Beta", MidiKind::Input), 1);
    m.insert(key("beta", MidiKind::Input), 2);
    m.insert(key("Beta", MidiKind::Output), 3);
    assert_eq!(m.len(), 3);
    assert_eq!(m.get(&key("Beta", MidiKind::Input)), Some(&1));
    assert_eq!(m.get(&key("beta", MidiKind::Input)), Some(&2));
    assert_eq!(m.get(&key("Beta", MidiKind::Output)), Some(&3));
    assert_eq!(m.remove(&key("beta", MidiKind::Input)), Some(2));
    assert_eq!(m.len(), 2);
    assert_eq!(m.get(&key("Beta", MidiKind::Input)), Some(&1));
    assert_eq!(m.get(&key("Beta", MidiKind::Output)), Some(&3));
    assert_eq!(m.get(&key("beta", MidiKind::Input)), None);
}

#[test]
fn remove_of_an_absent_key_changes_nothing() {
    let mut m: ConnectionMap<u32> = ConnectionMap::new();
    m.insert(key("a", MidiKind::Input), 1);
    m.insert(key("b", MidiKind::Input), 2);
    assert_eq!(m.remove(&key("c", MidiKind::Input)), None);
    assert_eq!(m.len(), 2);
    assert_eq!(m.get(&key("a", MidiKind::Input)), Some(&1));
    assert_eq!(m.get(&key("b", MidiKind::Input)), Some(&2));
}

#[test]
fn clear_drops_every_handle() {
    let handle = Rc::new(());
    let mut m: ConnectionMap<Rc<()>> = ConnectionMap::new();
    m.insert(key("a", MidiKind::Input), handle.clone());
    m.insert(key("b", MidiKind::Input), handle.clone());
    assert_eq!(Rc::strong_count(&handle), 3);
    m.clear();
    assert_eq!(Rc::strong_count(&handle), 1);
    assert_eq!(m.len(), 0);
    m.clear();
    assert!(m.is_empty());
}

#[test]
fn replacing_hands_the_old_handle_back() {
    let old = Rc::new(());
    let new = Rc::new(());
    let mut m: ConnectionMap<Rc<()>> = ConnectionMap::new();
    m.insert(key("a", MidiKind::Output), old.clone());
    let previous = m.insert(key("a", MidiKind::Output), new.clone());
    assert!(previous.is_some());
    assert!(Rc::ptr_eq(&previous.unwrap(), &old));
    assert_eq!(Rc::strong_count(&old), 1);
    assert_eq!(Rc::strong_count(&new), 2);
}
