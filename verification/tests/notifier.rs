use skip_bridge::notifier::{NotifierRegistry, SinkAction, SubState, Subscription};

fn deliver(act: &SinkAction) -> (u64, String, String, bool) {
    match act {
        SinkAction::Deliver { sink, update } => (
            *sink,
            update.values.clone(),
            update.watermark.clone(),
            update.is_initial,
        ),
        SinkAction::Terminate { .. } => panic!("expected a delivery"),
    }
}

fn terminated(act: &SinkAction) -> u64 {
    match act {
        SinkAction::Terminate { sink } => *sink,
        SinkAction::Deliver { .. } => panic!("expected a termination"),
    }
}

#[test]
fn buffered_updates_flush_in_order_on_attach() {
    let mut reg = NotifierRegistry::new();
    assert!(reg.register(7));
    assert!(reg
        .push_update(7, "v1".to_string(), "w1".to_string(), true)
        .is_none());
    assert!(reg
        .push_update(7, "v2".to_string(), "w2".to_string(), false)
        .is_none());
    let acts = reg.attach(7, 3);
    assert_eq!(acts.len(), 2);
    assert_eq!(
        deliver(&acts[0]),
        (3, "v1".to_string(), "w1".to_string(), true)
    );
    assert_eq!(
        deliver(&acts[1]),
        (3, "v2".to_string(), "w2".to_string(), false)
    );
}

#[test]
fn attach_on_empty_buffer_delivers_nothing_until_next_push() {
    let mut reg = NotifierRegistry::new();
    assert!(reg.register(1));
    let acts = reg.attach(1, 5);
    assert_eq!(acts.len(), 0);
    let act = reg.push_update(1, "a".to_string(), "w".to_string(), true);
    let act = act.expect("an attached subscription forwards at once");
    assert_eq!(deliver(&act), (5, "a".to_string(), "w".to_string(), true));
}

#[test]
fn live_updates_are_forwarded_in_emission_order() {
    let mut reg = NotifierRegistry::new();
    assert!(reg.register(2));
    let _ = reg.attach(2, 8);
    let mut seen: Vec<String> = Vec::new();
    for (v, w) in [("a", "1"), ("b", "2"), ("c", "3")] {
        let act = reg
            .push_update(2, v.to_string(), w.to_string(), false)
            .expect("forwarded at once");
        seen.push(deliver(&act).1);
    }
    assert_eq!(seen, vec!["a".to_string(), "b".to_string(), "c".to_string()]);
}

#[test]
fn close_then_attach_terminates_with_zero_deliveries() {
    let mut reg = NotifierRegistry::new();
    assert!(reg.register(4));
    assert!(reg
        .push_update(4, "buffered".to_string(), "w".to_string(), true)
        .is_none());
    assert!(reg.close(4).is_none());
    let acts = reg.attach(4, 9);
    assert_eq!(acts.len(), 1);
    assert_eq!(terminated(&acts[0]), 9);
}

#[test]
fn close_on_attached_terminates_sink_and_silences_later_pushes() {
    let mut reg = NotifierRegistry::new();
    assert!(reg.register(6));
    let _ = reg.attach(6, 2);
    let t = reg.close(6).expect("the attached sink is terminated");
    assert_eq!(terminated(&t), 2);
    assert!(reg
        .push_update(6, "late".to_string(), "w".to_string(), false)
        .is_none());
    assert!(reg.close(6).is_none(), "closing twice is a no-op");
}

#[test]
fn reattach_replays_only_undelivered_updates() {
    let mut reg = NotifierRegistry::new();
    assert!(reg.register(10));
    let _ = reg.push_update(10, "v1".to_string(), "w1".to_string(), true);
    let first = reg.attach(10, 1);
    assert_eq!(first.len(), 1);
    let _ = reg.push_update(10, "v2".to_string(), "w2".to_string(), false);
    let second = reg.attach(10, 2);
    assert_eq!(
        second.len(),
        0,
        "nothing was buffered after the first attach, so nothing is replayed"
    );
    let act = reg
        .push_update(10, "v3".to_string(), "w3".to_string(), false)
        .expect("the new sink is live");
    assert_eq!(deliver(&act).0, 2, "the superseding sink is the target");
}

#[test]
fn push_for_unknown_handle_is_tolerated_silently() {
    let mut reg = NotifierRegistry::new();
    assert!(reg.register(1));
    assert!(reg
        .push_update(99, "v".to_string(), "w".to_string(), true)
        .is_none());
    assert_eq!(reg.subs.len(), 1);
}

#[test]
fn attach_on_unknown_handle_terminates_the_sink() {
    let mut reg = NotifierRegistry::new();
    let acts = reg.attach(42, 7);
    assert_eq!(acts.len(), 1);
    assert_eq!(terminated(&acts[0]), 7);
}

#[test]
fn register_is_refused_for_a_known_handle() {
    let mut reg = NotifierRegistry::new();
    assert!(reg.register(5));
    assert!(!reg.register(5));
    assert_eq!(reg.subs.len(), 1);
}

#[test]
fn registry_keeps_other_subscriptions_apart() {
    let mut reg = NotifierRegistry::new();
    assert!(reg.register(1));
    assert!(reg.register(2));
    let _ = reg.attach(2, 20);
    assert!(reg
        .push_update(1, "only-one".to_string(), "w".to_string(), true)
        .is_none());
    let act = reg
        .push_update(2, "other".to_string(), "w".to_string(), false)
        .expect("handle 2 is attached");
    assert_eq!(deliver(&act).0, 20);
    assert_eq!(reg.subs[0].queue.len(), 1, "handle 1 buffered its update");
}

#[test]
fn single_subscription_protocol_matches_registry() {
    let mut sub = Subscription::register(11);
    assert_eq!(sub.state, SubState::Buffering);
    assert!(sub
        .push_update(skip_bridge::notifier::Notification {
            values: "x".to_string(),
            watermark: "w".to_string(),
            is_initial: true,
        })
        .is_none());
    let acts = sub.attach(4);
    assert_eq!(acts.len(), 1);
    assert_eq!(sub.state, SubState::Attached(4));
    let t = sub.close().expect("attached sink is terminated");
    assert_eq!(terminated(&t), 4);
    assert_eq!(sub.state, SubState::Closed);
}
