use skip_bridge::boundary::{check_result, interpret_subscribe, BoundaryReply, PollOutcome, SnapshotFlow};

#[test]
fn missing_error_text_means_success() {
    assert!(check_result(None).is_ok());
}

#[test]
fn empty_error_text_means_success() {
    assert!(check_result(Some(String::new())).is_ok());
}

#[test]
fn nonempty_error_text_is_an_engine_error() {
    let err = check_result(Some("resource not found".to_string())).expect_err("non-empty text fails");
    assert_eq!(err.msg, "resource not found");
    assert_eq!(err.message(), "resource not found");
}

#[test]
fn subscribe_reply_yields_the_handle_on_success() {
    assert_eq!(interpret_subscribe(42, None).expect("success"), 42);
    assert_eq!(
        interpret_subscribe(43, Some(String::new())).expect("empty text is success"),
        43
    );
}

#[test]
fn subscribe_reply_yields_the_error_on_failure() {
    let err = interpret_subscribe(42, Some("bad instance".to_string())).expect_err("failure");
    assert_eq!(err.msg, "bad instance");
}

#[test]
fn snapshot_flow_draws_a_36_character_instance_id() {
    let f = SnapshotFlow::begin(10);
    assert_eq!(f.instance_id.chars().count(), 36);
    let g = SnapshotFlow::begin(10);
    assert_ne!(
        f.instance_id, g.instance_id,
        "two flows run under different throwaway instances"
    );
}

#[test]
fn poll_finishes_on_a_success_reply() {
    let mut f = SnapshotFlow::begin(3);
    match f.poll(BoundaryReply::Success("payload".to_string())) {
        PollOutcome::Finish(Ok(p)) => assert_eq!(p, "payload"),
        _ => panic!("a success reply is final"),
    }
    assert_eq!(f.attempts, 0);
}

#[test]
fn poll_finishes_on_a_failure_reply() {
    let mut f = SnapshotFlow::begin(3);
    match f.poll(BoundaryReply::Failure("no such resource".to_string())) {
        PollOutcome::Finish(Err(e)) => assert_eq!(e.msg, "no such resource"),
        _ => panic!("a failure reply is final"),
    }
}

#[test]
fn poll_treats_an_empty_reply_as_unknown_fatal() {
    let mut f = SnapshotFlow::begin(3);
    match f.poll(BoundaryReply::Empty) {
        PollOutcome::Finish(Err(e)) => assert_eq!(e.msg, "unknown engine error"),
        _ => panic!("an empty reply is fatal"),
    }
}

#[test]
fn poll_follows_continuations_until_the_cap() {
    let mut f = SnapshotFlow::begin(2);
    match f.poll(BoundaryReply::Continuation("t1".to_string())) {
        PollOutcome::Retry(t) => assert_eq!(t, "t1"),
        _ => panic!("below the cap a continuation is followed"),
    }
    assert_eq!(f.attempts, 1);
    match f.poll(BoundaryReply::Continuation("t2".to_string())) {
        PollOutcome::Retry(t) => assert_eq!(t, "t2"),
        _ => panic!("below the cap a continuation is followed"),
    }
    assert_eq!(f.attempts, 2);
    match f.poll(BoundaryReply::Continuation("t3".to_string())) {
        PollOutcome::Finish(Err(e)) => {
            assert_eq!(e.msg, "snapshot polling attempt limit reached")
        }
        _ => panic!("at the cap the poll gives up"),
    }
}
