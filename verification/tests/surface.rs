use skip_bridge::surface::{content_type_ok, control_status, event_name, instance_location, AppState};

fn json() -> Vec<u8> {
    b"application/json".to_vec()
}

#[test]
fn exact_content_type_is_accepted() {
    let header = json();
    assert!(content_type_ok(&json(), Some(&header)));
}

#[test]
fn content_type_with_parameters_is_accepted() {
    let header = b"application/json; charset=utf-8".to_vec();
    assert!(content_type_ok(&json(), Some(&header)));
}

#[test]
fn wrong_content_type_is_refused() {
    let header = b"text/plain".to_vec();
    assert!(!content_type_ok(&json(), Some(&header)));
}

#[test]
fn extended_type_without_separator_is_refused() {
    let header = b"application/jsonx".to_vec();
    assert!(!content_type_ok(&json(), Some(&header)));
}

#[test]
fn missing_content_type_is_refused() {
    assert!(!content_type_ok(&json(), None));
}

#[test]
fn status_codes_follow_the_propagation_policy() {
    assert_eq!(control_status(false, true, true), 406);
    assert_eq!(control_status(false, false, false), 406);
    assert_eq!(control_status(true, false, false), 500);
    assert_eq!(control_status(true, true, true), 201);
    assert_eq!(control_status(true, true, false), 200);
}

#[test]
fn event_names_tell_snapshots_from_deltas() {
    assert_eq!(event_name(true), "init");
    assert_eq!(event_name(false), "update");
}

#[test]
fn create_response_carries_the_prefix_when_set() {
    let id = b"abc".to_vec();
    let prefix = b"/prefixed".to_vec();
    assert_eq!(instance_location(None, &id), b"abc".to_vec());
    assert_eq!(
        instance_location(Some(&prefix), &id),
        b"/prefixed/abc".to_vec()
    );
}

#[test]
fn fresh_service_state_is_empty() {
    let s = AppState::new();
    assert_eq!(s.clients.entries.len(), 0);
    assert_eq!(s.notifier.subs.len(), 0);
    assert_eq!(s.clients.next_id, 0);
}
