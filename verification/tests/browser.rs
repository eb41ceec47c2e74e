use zkbrowse::events::{Config, Event, Events, EventsError, Key};
use zkbrowse::session::{Action, Message, Session};

fn session_with(path: &[&str], children: &[&str], selected: Option<usize>) -> Session {
    let mut s = Session::new();
    s.path = path.iter().map(|p| p.to_string()).collect();
    s.children = children.iter().map(|c| c.to_string()).collect();
    s.selected = selected;
    s
}

fn invariant_holds(s: &Session) -> bool {
    match s.selected {
        Some(i) => i < s.children.len(),
        None => s.children.is_empty(),
    }
}

const EXIT: Key = Key::Char('q');

#[test]
fn config_default_values() {
    let c = Config::default();
    assert_eq!(c.exit_key, Key::Char('q'));
    assert_eq!(c.tick_rate_ms, 1000);
}

#[test]
fn down_cycles_and_wraps_to_zero() {
    let mut s = session_with(&[], &["a", "b", "c"], Some(0));
    let mut seen = Vec::new();
    for _ in 0..6 {
        s.on_key(Key::Down, EXIT);
        seen.push(s.selected.unwrap());
    }
    assert_eq!(seen, vec![1, 2, 0, 1, 2, 0]);
}

#[test]
fn up_cycles_and_wraps_to_last() {
    let mut s = session_with(&[], &["a", "b", "c"], Some(0));
    let mut seen = Vec::new();
    for _ in 0..6 {
        s.on_key(Key::Up, EXIT);
        seen.push(s.selected.unwrap());
    }
    assert_eq!(seen, vec![2, 1, 0, 2, 1, 0]);
}

#[test]
fn absent_selection_moves_onto_the_list() {
    let mut s = session_with(&[], &["a", "b", "c"], None);
    s.on_key(Key::Down, EXIT);
    assert_eq!(s.selected, Some(0));
    let mut s = session_with(&[], &["a", "b", "c"], None);
    s.on_key(Key::Up, EXIT);
    assert_eq!(s.selected, Some(2));
}

#[test]
fn empty_children_keep_selection_absent() {
    let mut s = session_with(&["a"], &[], None);
    s.on_key(Key::Down, EXIT);
    assert_eq!(s.selected, None);
    s.on_key(Key::Up, EXIT);
    assert_eq!(s.selected, None);
    assert!(invariant_holds(&s));
}

#[test]
fn selection_invariant_holds_after_every_transition() {
    let mut s = session_with(&[], &["a", "b"], Some(0));
    let keys = [Key::Down, Key::Up, Key::Right, Key::Left, Key::Char('z'), Key::Other];
    for k in keys {
        s.on_key(k, EXIT);
        assert!(invariant_holds(&s));
    }
    s.on_key(Key::Right, EXIT);
    s.apply_listing(Ok(vec![]));
    assert!(invariant_holds(&s));
    s.apply_listing(Err("ConnectionLoss".to_string()));
    assert!(invariant_holds(&s));
    s.apply_listing(Ok(vec!["x".to_string()]));
    assert!(invariant_holds(&s));
    s.apply_read("/x".to_string(), Ok("v".to_string()));
    assert!(invariant_holds(&s));
}

#[test]
fn right_then_left_round_trips_the_path() {
    let mut s = session_with(&["a"], &["c", "d"], Some(1));
    let prior_path = s.path.clone();

    let a = s.on_key(Key::Right, EXIT);
    assert!(matches!(a, Action::ListChildren));
    assert_eq!(s.path, vec!["a".to_string(), "d".to_string()]);
    s.apply_listing(Ok(vec!["x".to_string()]));
    assert_eq!(s.selected, Some(0));

    let a = s.on_key(Key::Left, EXIT);
    assert!(matches!(a, Action::ListChildren));
    let fresh = vec!["c".to_string(), "d".to_string()];
    s.apply_listing(Ok(fresh.clone()));

    assert_eq!(s.path, prior_path);
    assert_eq!(s.children, fresh);
    assert_eq!(s.selected, Some(0));
    assert!(s.messages.is_empty());
}

#[test]
fn enter_with_selection_targets_the_selected_child() {
    let mut s = session_with(&["a", "b"], &["c", "d"], Some(1));
    let a = s.on_key(Key::Char('\n'), EXIT);
    match a {
        Action::ReadValue(target) => assert_eq!(target, "/a/b/d"),
        other => panic!("expected a read, got {:?}", other),
    }
    assert_eq!(s.path, vec!["a".to_string(), "b".to_string()]);
}

#[test]
fn enter_at_the_root_collapses_the_double_separator() {
    let mut s = session_with(&[], &["c", "d"], Some(0));
    let a = s.on_key(Key::Char('\n'), EXIT);
    match a {
        Action::ReadValue(target) => assert_eq!(target, "/c"),
        other => panic!("expected a read, got {:?}", other),
    }
}

#[test]
fn enter_with_absent_selection_targets_the_current_path() {
    let mut s = session_with(&["a", "b"], &[], None);
    let a = s.on_key(Key::Char('\n'), EXIT);
    match a {
        Action::ReadValue(target) => assert_eq!(target, "/a/b"),
        other => panic!("expected a read, got {:?}", other),
    }
    let mut s = session_with(&[], &[], None);
    match s.on_key(Key::Char('\n'), EXIT) {
        Action::ReadValue(target) => assert_eq!(target, "/"),
        other => panic!("expected a read, got {:?}", other),
    }
}

#[test]
fn empty_listing_on_right_logs_one_error_and_leaves_path_moved() {
    let mut s = session_with(&[], &["c", "d"], Some(0));
    let a = s.on_key(Key::Right, EXIT);
    assert!(matches!(a, Action::ListChildren));
    assert_eq!(s.path, vec!["c".to_string()]);

    s.apply_listing(Ok(vec![]));

    assert_eq!(s.messages.len(), 1);
    match &s.messages[0] {
        Message::Error(detail) => assert_eq!(detail, "NoNode"),
        other => panic!("expected an error message, got {:?}", other),
    }
    assert_eq!(s.path, vec!["c".to_string()]);
    assert_eq!(s.children, vec!["c".to_string(), "d".to_string()]);
    assert_eq!(s.selected, Some(0));
}

#[test]
fn failed_listing_keeps_stale_children_and_selection() {
    let mut s = session_with(&["a"], &["c", "d"], Some(1));
    s.on_key(Key::Left, EXIT);
    assert!(s.path.is_empty());
    s.apply_listing(Err("ConnectionLoss".to_string()));
    assert_eq!(s.children, vec!["c".to_string(), "d".to_string()]);
    assert_eq!(s.selected, Some(1));
    assert_eq!(s.messages.len(), 1);
    match &s.messages[0] {
        Message::Error(detail) => assert_eq!(detail, "ConnectionLoss"),
        other => panic!("expected an error message, got {:?}", other),
    }
}

#[test]
fn left_at_the_root_keeps_the_path_empty() {
    let mut s = session_with(&[], &["c"], Some(0));
    let a = s.on_key(Key::Left, EXIT);
    assert!(matches!(a, Action::ListChildren));
    assert!(s.path.is_empty());
}

#[test]
fn right_with_absent_selection_is_a_no_op() {
    let mut s = session_with(&["a"], &[], None);
    let a = s.on_key(Key::Right, EXIT);
    assert!(matches!(a, Action::Ignore));
    assert_eq!(s.path, vec!["a".to_string()]);
}

#[test]
fn other_keys_are_ignored() {
    let mut s = session_with(&["a"], &["c"], Some(0));
    for k in [Key::Char('z'), Key::Other] {
        let a = s.on_key(k, EXIT);
        assert!(matches!(a, Action::Ignore));
    }
    assert_eq!(s.path, vec!["a".to_string()]);
    assert_eq!(s.children, vec!["c".to_string()]);
    assert_eq!(s.selected, Some(0));
    assert!(s.messages.is_empty());
}

#[test]
fn read_answers_are_logged_in_order() {
    let mut s = session_with(&[], &[], None);
    s.apply_read("/a".to_string(), Ok("value".to_string()));
    s.apply_read("/b".to_string(), Err("NoNode".to_string()));
    assert_eq!(s.messages.len(), 2);
    match &s.messages[0] {
        Message::Value(path, data) => {
            assert_eq!(path, "/a");
            assert_eq!(data, "value");
        }
        other => panic!("expected a value message, got {:?}", other),
    }
    match &s.messages[1] {
        Message::Error(detail) => assert_eq!(detail, "NoNode"),
        other => panic!("expected an error message, got {:?}", other),
    }
}

#[test]
fn path_string_renders_root_and_nested_paths() {
    assert_eq!(Session::new().path_string(), "/");
    let s = session_with(&["a", "b"], &[], None);
    assert_eq!(s.path_string(), "/a/b");
}

#[test]
fn exit_key_stops_the_consumer_loop_exactly_once() {
    let mut events = Events::new();
    let exit_key = events.config().exit_key;
    assert!(events.on_key_read(exit_key));
    let mut session = session_with(&[], &["c"], Some(0));
    // Events sent before the exit key was consumed are still pending.
    events.push_kafka_event("late".to_string()).unwrap();
    events.push_kafka_event("later".to_string()).unwrap();

    let mut exits = 0;
    while events.can_recv() {
        match events.next() {
            Ok(Event::KeyInput(key)) => match session.on_key(key, exit_key) {
                Action::Exit => {
                    exits += 1;
                    break;
                }
                _ => {}
            },
            Ok(_) => {}
            Err(_) => break,
        }
    }
    assert_eq!(exits, 1);
    // The loop stopped on the exit key although events were still pending.
    assert!(events.can_recv());
}

#[test]
fn injected_events_are_delivered_after_earlier_ones() {
    let mut events = Events::new();
    assert!(!events.on_key_read(Key::Char('a')));
    assert!(!events.on_key_read(Key::Down));
    events.push_kafka_event("hello".to_string()).unwrap();

    match events.next() {
        Ok(Event::KeyInput(Key::Char('a'))) => {}
        other => panic!("expected the first key, got {:?}", other),
    }
    match events.next() {
        Ok(Event::KeyInput(Key::Down)) => {}
        other => panic!("expected the second key, got {:?}", other),
    }
    match events.next() {
        Ok(Event::Kafka(message)) => assert_eq!(message, "hello"),
        other => panic!("expected the injected message, got {:?}", other),
    }
    // Nothing is pending, but the keyboard producer is still live, so the
    // consumer would block rather than fail.
    assert!(!events.can_recv());
}

#[test]
fn inject_fails_once_the_receiver_is_dropped() {
    let mut events = Events::new();
    events.drop_receiver();
    assert_eq!(
        events.push_kafka_event("late".to_string()),
        Err(EventsError::ChannelClosed)
    );
}

#[test]
fn next_fails_only_when_drained_and_disconnected() {
    let mut events = Events::new();
    assert!(!events.on_key_read(Key::Char('a')));
    events.end_input();
    assert!(events.can_recv());
    assert!(matches!(events.next(), Ok(Event::KeyInput(Key::Char('a')))));
    assert!(matches!(events.next(), Err(EventsError::Disconnected)));
}

#[test]
fn keyboard_producer_stops_after_sending_the_exit_key() {
    let mut events = Events::new();
    assert!(!events.on_key_read(Key::Char('x')));
    assert!(events.on_key_read(Key::Char('q')));
    // Both keys, the exit key included, were still sent.
    assert!(matches!(events.next(), Ok(Event::KeyInput(Key::Char('x')))));
    assert!(matches!(events.next(), Ok(Event::KeyInput(Key::Char('q')))));
    assert!(matches!(events.next(), Err(EventsError::Disconnected)));
}
