use skip_bridge::worker::ThreadWorker;

#[test]
fn tasks_run_in_submission_order() {
    let mut w = ThreadWorker::new();
    w.submit(10).expect("a live lane accepts work");
    w.submit(11).expect("a live lane accepts work");
    w.submit(12).expect("a live lane accepts work");
    assert_eq!(w.run_next(), Some(10));
    assert_eq!(w.run_next(), Some(11));
    w.submit(13).expect("a live lane accepts work");
    assert_eq!(w.run_next(), Some(12));
    assert_eq!(w.run_next(), Some(13));
    assert_eq!(w.run_next(), None);
}

#[test]
fn terminated_lane_refuses_submissions() {
    let mut w = ThreadWorker::new();
    w.submit(1).expect("a live lane accepts work");
    w.shutdown();
    let err = w.submit(2).expect_err("a dead lane refuses work");
    assert_eq!(err.msg, "Failed to send task");
    assert_eq!(
        w.run_next(),
        Some(1),
        "work accepted before the termination still runs"
    );
}

#[test]
fn empty_lane_hands_out_nothing() {
    let mut w = ThreadWorker::new();
    assert_eq!(w.run_next(), None);
}
