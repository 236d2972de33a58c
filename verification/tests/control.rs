use midir_tui::control::{intent_for, refresh_due, Intent, Key, KeyPress, REFRESH_MS, TICK_MS};
use midir_tui::session::Focus;

fn press(key: Key) -> KeyPress {
    KeyPress { key, shift: false, control: false }
}

#[test]
fn intervals_are_fixed() {
    assert_eq!(TICK_MS, 100);
    assert_eq!(REFRESH_MS, 5000);
}

#[test]
fn quit_keys_ask_to_quit() {
    for focus in [Focus::Left, Focus::Right] {
        assert_eq!(intent_for(press(Key::Char('q')), focus), Some(Intent::Quit));
        assert_eq!(intent_for(press(Key::Esc), focus), Some(Intent::Quit));
        assert_eq!(
            intent_for(KeyPress { key: Key::Char('c'), shift: false, control: true }, focus),
            Some(Intent::Quit)
        );
        assert_eq!(
            intent_for(KeyPress { key: Key::Char('q'), shift: true, control: true }, focus),
            Some(Intent::Quit)
        );
    }
}

#[test]
fn plain_c_asks_for_nothing() {
    assert_eq!(intent_for(press(Key::Char('c')), Focus::Left), None);
    assert_eq!(intent_for(press(Key::Char('C')), Focus::Left), None);
    assert_eq!(
        intent_for(KeyPress { key: Key::Char('C'), shift: false, control: true }, Focus::Left),
        None
    );
    assert_eq!(
        intent_for(KeyPress { key: Key::Char('c'), shift: true, control: false }, Focus::Left),
        None
    );
}

#[test]
fn shift_c_closes_all() {
    for focus in [Focus::Left, Focus::Right] {
        assert_eq!(
            intent_for(KeyPress { key: Key::Char('C'), shift: true, control: false }, focus),
            Some(Intent::CloseAll)
        );
    }
}

#[test]
fn r_refreshes() {
    assert_eq!(intent_for(press(Key::Char('r')), Focus::Left), Some(Intent::Refresh));
    assert_eq!(intent_for(press(Key::Char('r')), Focus::Right), Some(Intent::Refresh));
    assert_eq!(intent_for(press(Key::Char('R')), Focus::Left), None);
}

#[test]
fn arrows_move_the_focus() {
    for focus in [Focus::Left, Focus::Right] {
        assert_eq!(intent_for(press(Key::Left), focus), Some(Intent::FocusLeft));
        assert_eq!(intent_for(press(Key::Right), focus), Some(Intent::FocusRight));
    }
}

#[test]
fn list_keys_need_the_focus_on_the_list() {
    assert_eq!(intent_for(press(Key::Enter), Focus::Left), Some(Intent::Toggle));
    assert_eq!(intent_for(press(Key::Up), Focus::Left), Some(Intent::SelectUp));
    assert_eq!(intent_for(press(Key::Down), Focus::Left), Some(Intent::SelectDown));
    assert_eq!(intent_for(press(Key::Enter), Focus::Right), None);
    assert_eq!(intent_for(press(Key::Up), Focus::Right), None);
    assert_eq!(intent_for(press(Key::Down), Focus::Right), None);
}

#[test]
fn other_keys_ask_for_nothing() {
    assert_eq!(intent_for(press(Key::Other), Focus::Left), None);
    assert_eq!(intent_for(press(Key::Char('x')), Focus::Left), None);
    assert_eq!(intent_for(press(Key::Char(' ')), Focus::Right), None);
}

#[test]
fn refresh_is_due_after_the_interval() {
    assert!(!refresh_due(0, 0));
    assert!(!refresh_due(1000, 5999));
    assert!(refresh_due(1000, 6000));
    assert!(refresh_due(1000, 60000));
    assert!(!refresh_due(6000, 1000));
    assert!(refresh_due(0, u64::MAX));
    assert!(!refresh_due(u64::MAX, 0));
}
