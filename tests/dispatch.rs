use std::sync::{Arc, Mutex};

use event_listeners::sync::EventHandler;
use event_listeners::{EventAction, EventArgs, EventArgsOwned, EventArgsRef};

fn new_log() -> Arc<Mutex<Vec<&'static str>>> {
    Arc::new(Mutex::new(Vec::new()))
}

fn entries(log: &Arc<Mutex<Vec<&'static str>>>) -> Vec<&'static str> {
    log.lock().unwrap().clone()
}

#[test]
fn basic() {
    let listener = EventHandler::new();
    listener.subscribe_fn(|args| assert_eq!(*args.data(), 5));
    listener.dispatch(5);
}

#[test]
fn empty_handler_allows_default() {
    let handler: EventHandler<i32> = EventHandler::new();
    assert!(handler.dispatch(1));
    assert!(handler.dispatch_ref(&2));
}

#[test]
fn listeners_run_newest_first() {
    let log = new_log();
    let handler = EventHandler::new();
    for name in ["a", "b", "c"] {
        let l = log.clone();
        handler.subscribe_fn(move |_args| l.lock().unwrap().push(name));
    }
    assert!(handler.dispatch(0u8));
    assert_eq!(entries(&log), vec!["c", "b", "a"]);
}

#[test]
fn stop_propagation_skips_older_listeners() {
    let log = new_log();
    let handler = EventHandler::new();
    let l = log.clone();
    handler.subscribe_fn(move |_args| l.lock().unwrap().push("old"));
    let l = log.clone();
    handler.subscribe_fn(move |args| {
        l.lock().unwrap().push("stopper");
        args.stop_propagation();
    });
    let l = log.clone();
    handler.subscribe_fn(move |_args| l.lock().unwrap().push("new"));
    assert!(handler.dispatch(0u8));
    assert_eq!(entries(&log), vec!["new", "stopper"]);
}

#[test]
fn prevent_default_makes_dispatch_false() {
    let log = new_log();
    let handler = EventHandler::new();
    let l = log.clone();
    handler.subscribe_fn(move |args| {
        assert!(args.is_default_prevented());
        l.lock().unwrap().push("older");
    });
    handler.subscribe_fn(|args| args.prevent_default());
    assert!(!handler.dispatch(0u8));
    assert_eq!(entries(&log), vec!["older"]);
}

#[test]
fn prevent_default_with_stop_propagation() {
    let handler = EventHandler::new();
    handler.subscribe_fn(|args| {
        args.prevent_default();
        args.stop_propagation();
    });
    assert!(!handler.dispatch(0u8));
}

#[test]
fn removal_keeps_the_others_in_order() {
    let log = new_log();
    let handler = EventHandler::new();
    for (name, action) in [
        ("l0", EventAction::Remove),
        ("l1", EventAction::Keep),
        ("l2", EventAction::Remove),
        ("l3", EventAction::Keep),
        ("l4", EventAction::Remove),
    ] {
        let l = log.clone();
        handler.subscribe_fn(move |_args| {
            l.lock().unwrap().push(name);
            action
        });
    }
    assert!(handler.dispatch(0u8));
    assert_eq!(entries(&log), vec!["l4", "l3", "l2", "l1", "l0"]);
    log.lock().unwrap().clear();
    assert!(handler.dispatch(0u8));
    assert_eq!(entries(&log), vec!["l3", "l1"]);
}

#[test]
fn remove_is_recorded_even_when_a_later_listener_stops() {
    let log = new_log();
    let handler = EventHandler::new();
    let l = log.clone();
    handler.subscribe_fn(move |_args| l.lock().unwrap().push("oldest"));
    let l = log.clone();
    handler.subscribe_fn(move |args| {
        l.lock().unwrap().push("stopper");
        args.stop_propagation();
        EventAction::Keep
    });
    let l = log.clone();
    handler.subscribe_fn(move |_args| {
        l.lock().unwrap().push("leaver");
        EventAction::Remove
    });
    handler.dispatch(0u8);
    handler.dispatch(0u8);
    assert_eq!(entries(&log), vec!["leaver", "stopper", "stopper"]);
}

#[test]
fn stopped_listeners_are_skipped_and_kept() {
    let log = new_log();
    let handler = EventHandler::new();
    let l = log.clone();
    handler.subscribe_fn(move |_args| {
        l.lock().unwrap().push("a");
        EventAction::Keep
    });
    let l = log.clone();
    handler.subscribe_fn(move |_args| {
        l.lock().unwrap().push("b");
        EventAction::Remove
    });
    let l = log.clone();
    handler.subscribe_fn(move |args| {
        l.lock().unwrap().push("c");
        args.stop_propagation();
        EventAction::Keep
    });
    assert!(handler.dispatch(0u8));
    assert_eq!(entries(&log), vec!["c"]);
    assert!(handler.dispatch(0u8));
    assert_eq!(entries(&log), vec!["c", "c"]);
}

#[test]
fn self_removing_listener_runs_once() {
    let calls = Arc::new(Mutex::new(0u32));
    let handler = EventHandler::new();
    let c = calls.clone();
    handler.subscribe_fn(move |_args| {
        *c.lock().unwrap() += 1;
        EventAction::Remove
    });
    assert!(handler.dispatch(0u8));
    assert_eq!(*calls.lock().unwrap(), 1);
    assert!(handler.dispatch(0u8));
    assert_eq!(*calls.lock().unwrap(), 1);
}

#[test]
fn preventing_listener_sees_payload_and_stays() {
    let seen = Arc::new(Mutex::new(Vec::new()));
    let handler = EventHandler::new();
    let s = seen.clone();
    handler.subscribe_fn(move |args| {
        s.lock().unwrap().push(*args.data());
        args.prevent_default();
        EventAction::Keep
    });
    assert!(!handler.dispatch(5));
    assert!(!handler.dispatch(6));
    assert_eq!(*seen.lock().unwrap(), vec![5, 6]);
}

#[test]
fn dispatch_ref_leaves_payload_with_caller() {
    let handler = EventHandler::new();
    handler.subscribe_fn(|args: &mut EventArgsRef<'_, String>| {
        assert_eq!(args.data().as_str(), "payload");
    });
    let payload = String::from("payload");
    assert!(handler.dispatch_ref(&payload));
    assert_eq!(payload, "payload");
    assert!(handler.dispatch(payload));
}

#[test]
fn clones_share_listeners() {
    let log = new_log();
    let handler = EventHandler::new();
    let other = handler.clone();
    let l = log.clone();
    other.subscribe_fn(move |_args| {
        l.lock().unwrap().push("shared");
        EventAction::Remove
    });
    assert!(handler.dispatch(0u8));
    assert!(other.dispatch(0u8));
    assert_eq!(entries(&log), vec!["shared"]);
}

#[test]
fn owned_args_flags() {
    let mut args = EventArgsOwned::new(7);
    assert!(!args.is_propagation_stopped());
    assert!(!args.is_default_prevented());
    args.stop_propagation();
    assert!(args.is_propagation_stopped());
    assert!(!args.is_default_prevented());
    args.prevent_default();
    args.prevent_default();
    assert!(args.is_default_prevented());
    assert_eq!(*args.data(), 7);
}

#[test]
fn ref_args_flags() {
    let value = vec![1, 2];
    let mut args = EventArgsRef::new(&value);
    assert!(!args.is_propagation_stopped());
    args.prevent_default();
    assert!(args.is_default_prevented());
    assert!(!args.is_propagation_stopped());
    args.stop_propagation();
    assert!(args.is_propagation_stopped());
    assert_eq!(args.data(), &vec![1, 2]);
}

#[test]
fn unit_converts_to_keep() {
    assert_eq!(EventAction::from(()), EventAction::Keep);
    let action: EventAction = ().into();
    assert_eq!(action, EventAction::Keep);
}
