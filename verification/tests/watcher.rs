use lifecycle_watch::watch::{PollOutcome, WatchEvent, Watcher};

#[test]
fn scenario_single_subscriber_ready() {
    let mut w = Watcher::new(1);
    assert!(w.is_supervising());
    assert!(!w.is_done());

    // First poll: the supervised future is still running.
    assert_eq!(w.poll(Some(PollOutcome::NotReady)), None);
    assert!(w.is_supervising());
    assert_eq!(w.pending_count(), 0);

    // It resolves: exactly one delivery is issued, to subscriber 0.
    assert_eq!(w.poll(Some(PollOutcome::Ready)), Some(WatchEvent::Stopped));
    assert!(!w.is_supervising());
    assert_eq!(w.pending_slots(), vec![0]);

    // The delivery is still in flight: not ready yet.
    assert!(!w.poll_notifications(&vec![PollOutcome::NotReady]));
    assert!(!w.is_done());

    // Next invocation: no re-fire, and once the delivery resolves the
    // watcher reports ready.
    assert_eq!(w.poll(None), None);
    assert!(w.poll_notifications(&vec![PollOutcome::Ready]));
    assert!(w.is_done());
}

#[test]
fn scenario_three_subscribers_one_stuck() {
    let mut w = Watcher::new(3);
    assert_eq!(w.poll(Some(PollOutcome::Ready)), Some(WatchEvent::Stopped));
    assert_eq!(w.pending_slots(), vec![0, 1, 2]);

    // Deliveries for subscribers 0 and 2 resolve; number 1 never does.
    assert!(!w.poll_notifications(&vec![
        PollOutcome::Ready,
        PollOutcome::NotReady,
        PollOutcome::Ready,
    ]));
    assert_eq!(w.pending_slots(), vec![1]);

    // However long the scheduler keeps polling, the watcher never reports
    // ready while that delivery stays outstanding.
    for _ in 0..100 {
        assert_eq!(w.poll(None), None);
        assert!(!w.poll_notifications(&vec![PollOutcome::NotReady]));
        assert!(!w.is_done());
    }
    assert_eq!(w.pending_slots(), vec![1]);
}

#[test]
fn scenario_failed_lifecycle_same_event() {
    let mut on_failure = Watcher::new(1);
    let fired_on_failure = on_failure.poll(Some(PollOutcome::Failed));

    let mut on_success = Watcher::new(1);
    let fired_on_success = on_success.poll(Some(PollOutcome::Ready));

    // Abnormal termination is collapsed into the same single event.
    assert_eq!(fired_on_failure, Some(WatchEvent::Stopped));
    assert_eq!(fired_on_failure, fired_on_success);
    assert_eq!(on_failure.pending_slots(), vec![0]);

    assert!(on_failure.poll_notifications(&vec![PollOutcome::Ready]));
    assert!(on_failure.is_done());
}

#[test]
fn zero_subscribers_done_after_resolution() {
    let mut w = Watcher::new(0);
    assert_eq!(w.subscriber_count(), 0);
    assert_eq!(w.poll(Some(PollOutcome::Ready)), Some(WatchEvent::Stopped));
    assert_eq!(w.pending_count(), 0);
    assert!(w.poll_notifications(&vec![]));
    assert!(w.is_done());
}

#[test]
fn never_ready_while_supervising() {
    let mut w = Watcher::new(2);
    for _ in 0..50 {
        assert_eq!(w.poll(Some(PollOutcome::NotReady)), None);
        assert!(w.is_supervising());
        assert!(!w.is_done());
        assert_eq!(w.pending_count(), 0);
    }
}

#[test]
fn ready_reported_once_then_discarded() {
    // Drive the watcher the way a cooperative scheduler would: poll until the
    // first ready report, then discard it. The delivery resolves on the
    // third round.
    let mut w = Watcher::new(1);
    let lifecycle_rounds = vec![
        PollOutcome::NotReady,
        PollOutcome::NotReady,
        PollOutcome::Ready,
    ];
    let mut round: usize = 0;
    let mut ready_reports: usize = 0;
    let mut delivery_round: usize = 0;
    while ready_reports == 0 {
        let lifecycle_outcome = if w.is_supervising() {
            Some(lifecycle_rounds[round])
        } else {
            None
        };
        w.poll(lifecycle_outcome);
        let mut outcomes: Vec<PollOutcome> = Vec::new();
        for _ in 0..w.pending_count() {
            delivery_round += 1;
            outcomes.push(if delivery_round >= 3 {
                PollOutcome::Ready
            } else {
                PollOutcome::NotReady
            });
        }
        let ready = if w.is_supervising() {
            false
        } else {
            w.poll_notifications(&outcomes)
        };
        if ready {
            ready_reports += 1;
        }
        round += 1;
        assert!(round < 20, "watcher must finish");
    }
    assert_eq!(ready_reports, 1);
    assert!(w.is_done());
}

#[test]
fn no_refire_after_transition() {
    let mut w = Watcher::new(2);
    assert_eq!(w.poll(Some(PollOutcome::Ready)), Some(WatchEvent::Stopped));
    // Repeated polls after the present -> absent transition never issue
    // another notification, whatever the deliveries report.
    assert_eq!(w.poll(None), None);
    assert!(!w.poll_notifications(&vec![PollOutcome::NotReady, PollOutcome::Ready]));
    assert_eq!(w.poll(None), None);
    assert_eq!(w.pending_slots(), vec![0]);
    assert!(w.poll_notifications(&vec![PollOutcome::Ready]));
    assert_eq!(w.poll(None), None);
    assert!(w.is_done());
}

#[test]
fn delivery_failure_counts_as_resolved() {
    let mut w = Watcher::new(2);
    w.poll(Some(PollOutcome::Failed));
    // One delivery fails, one succeeds: both count as resolved, so the
    // watcher is done.
    assert!(w.poll_notifications(&vec![PollOutcome::Failed, PollOutcome::Ready]));
    assert!(w.is_done());
}
