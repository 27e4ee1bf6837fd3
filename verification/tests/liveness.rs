use skip_bridge::clients::Clients;
use skip_bridge::notifier::{NotifierRegistry, SinkAction};

#[test]
fn probe_failure_evicts_the_client_and_yields_one_unsubscribe() {
    let mut notifier = NotifierRegistry::new();
    assert!(notifier.register(100));
    assert!(notifier.register(200));
    let mut clients = Clients::create();
    let (c1, _) = clients.new_client(&mut notifier, 100);
    let (c2, _) = clients.new_client(&mut notifier, 200);

    // The probe cycle walks a point-in-time snapshot of the registry and
    // reports the ids whose probe send failed.
    let snapshot = clients.ids();
    assert_eq!(snapshot, vec![c1, c2]);
    let failed = vec![c1];
    let handles = clients.evict_failed(&failed);

    assert_eq!(handles, vec![100], "exactly one unsubscribe, for c1's subscription");
    let next_cycle = clients.ids();
    assert_eq!(next_cycle, vec![c2], "the dead client is gone from the next cycle");
}

#[test]
fn eviction_of_an_unknown_id_is_a_no_op() {
    let mut notifier = NotifierRegistry::new();
    assert!(notifier.register(1));
    let mut clients = Clients::create();
    let (c, _) = clients.new_client(&mut notifier, 1);
    let handles = clients.evict_failed(&vec![c + 17]);
    assert!(handles.is_empty());
    assert_eq!(clients.ids(), vec![c]);
}

#[test]
fn eviction_keeps_surviving_clients_in_order() {
    let mut notifier = NotifierRegistry::new();
    for h in [1i64, 2, 3, 4] {
        assert!(notifier.register(h));
    }
    let mut clients = Clients::create();
    let mut ids = Vec::new();
    for h in [1i64, 2, 3, 4] {
        let (c, _) = clients.new_client(&mut notifier, h);
        ids.push(c);
    }
    let failed = vec![ids[1], ids[3]];
    let handles = clients.evict_failed(&failed);
    assert_eq!(handles, vec![2, 4]);
    assert_eq!(clients.ids(), vec![ids[0], ids[2]]);
}

#[test]
fn new_client_flushes_what_buffered_before_the_stream_opened() {
    let mut notifier = NotifierRegistry::new();
    assert!(notifier.register(33));
    let _ = notifier.push_update(33, "early".to_string(), "w0".to_string(), true);
    let mut clients = Clients::create();
    let (c, acts) = clients.new_client(&mut notifier, 33);
    assert_eq!(acts.len(), 1);
    match &acts[0] {
        SinkAction::Deliver { sink, update } => {
            assert_eq!(*sink, c);
            assert_eq!(update.values, "early");
            assert!(update.is_initial);
        }
        SinkAction::Terminate { .. } => panic!("expected the buffered update"),
    }
}

#[test]
fn new_client_on_unknown_subscription_gets_a_clean_termination() {
    let mut notifier = NotifierRegistry::new();
    let mut clients = Clients::create();
    let (c, acts) = clients.new_client(&mut notifier, 77);
    assert_eq!(acts.len(), 1);
    match &acts[0] {
        SinkAction::Terminate { sink } => assert_eq!(*sink, c),
        SinkAction::Deliver { .. } => panic!("no data may be delivered"),
    }
}

#[test]
fn connection_ids_are_never_reused() {
    let mut notifier = NotifierRegistry::new();
    assert!(notifier.register(5));
    let mut clients = Clients::create();
    let (a, _) = clients.new_client(&mut notifier, 5);
    let _ = clients.evict_failed(&vec![a]);
    let (b, _) = clients.new_client(&mut notifier, 5);
    assert_ne!(a, b);
}
