use push_source::{
    ClientId, Delivery, PushSourceInternal, Response, Session, Status, TimeSample, Update,
    WatchHandler, WatchOutcome,
};

type TestHub = PushSourceInternal<u32, u32>;

fn sample(monotonic: i64, utc: i64) -> TimeSample {
    TimeSample { monotonic: Some(monotonic), utc: Some(utc) }
}

fn register(hub: &mut TestHub) -> ClientId {
    hub.register_client().unwrap()
}

#[test]
fn it_works() {
    let hub: TestHub = PushSourceInternal::new(Status::Healthy);
    assert_eq!(hub.subscriber_count(), 0);
}

#[test]
fn test_watch_sample_closes_on_multiple_watches() {
    let mut hub: TestHub = PushSourceInternal::new(Status::Healthy);
    let a = register(&mut hub);
    // No sample yet: the first watch hangs.
    assert_eq!(hub.watch_sample(a, 1), WatchOutcome::Parked);
    // A second watch while the first is parked fails both.
    assert_eq!(hub.watch_sample(a, 2), WatchOutcome::Violation { rejected: 2, pending: 1 });
    // The subscriber is gone afterwards.
    assert_eq!(hub.watch_sample(a, 3), WatchOutcome::Closed(3));
    assert_eq!(hub.watch_status(a, 4), WatchOutcome::Closed(4));
    assert!(hub.push_update(Update::Sample(sample(1, 2))).is_empty());
}

#[test]
fn test_watch_status_closes_on_multiple_watches() {
    let mut hub: TestHub = PushSourceInternal::new(Status::Healthy);
    let a = register(&mut hub);
    assert_eq!(
        hub.watch_status(a, 1),
        WatchOutcome::Resolved(Delivery { responder: 1, value: Status::Healthy })
    );
    assert_eq!(hub.watch_status(a, 2), WatchOutcome::Parked);
    assert_eq!(hub.watch_status(a, 3), WatchOutcome::Violation { rejected: 3, pending: 2 });
    assert_eq!(hub.watch_status(a, 4), WatchOutcome::Closed(4));
}

#[test]
fn test_watch_sample() {
    let mut hub: TestHub = PushSourceInternal::new(Status::Healthy);
    let a = register(&mut hub);
    assert_eq!(hub.watch_sample(a, 1), WatchOutcome::Parked);
    assert_eq!(
        hub.push_update(Update::Sample(sample(23, 24))),
        vec![Response::Sample(Delivery { responder: 1, value: sample(23, 24) })]
    );
    assert_eq!(hub.watch_sample(a, 2), WatchOutcome::Parked);
    assert_eq!(
        hub.push_update(Update::Sample(sample(25, 26))),
        vec![Response::Sample(Delivery { responder: 2, value: sample(25, 26) })]
    );
    // No new sample: the watch hangs.
    assert_eq!(hub.watch_sample(a, 3), WatchOutcome::Parked);
}

#[test]
fn test_watch_sample_sent_to_all_clients() {
    let mut hub: TestHub = PushSourceInternal::new(Status::Healthy);
    let a = register(&mut hub);
    let b = register(&mut hub);
    assert_eq!(hub.watch_sample(a, 1), WatchOutcome::Parked);
    assert_eq!(hub.watch_sample(b, 2), WatchOutcome::Parked);
    assert_eq!(
        hub.push_update(Update::Sample(sample(23, 24))),
        vec![
            Response::Sample(Delivery { responder: 1, value: sample(23, 24) }),
            Response::Sample(Delivery { responder: 2, value: sample(23, 24) }),
        ]
    );
    assert_eq!(hub.watch_sample(a, 3), WatchOutcome::Parked);
    assert_eq!(hub.watch_sample(b, 4), WatchOutcome::Parked);
    assert_eq!(
        hub.push_update(Update::Sample(sample(25, 26))),
        vec![
            Response::Sample(Delivery { responder: 3, value: sample(25, 26) }),
            Response::Sample(Delivery { responder: 4, value: sample(25, 26) }),
        ]
    );
    // A subscriber that connects later gets the latest sample.
    let c = register(&mut hub);
    assert_eq!(
        hub.watch_sample(c, 5),
        WatchOutcome::Resolved(Delivery { responder: 5, value: sample(25, 26) })
    );
}

#[test]
fn test_watch_status() {
    let mut hub: TestHub = PushSourceInternal::new(Status::Healthy);
    let a = register(&mut hub);
    assert_eq!(
        hub.watch_status(a, 1),
        WatchOutcome::Resolved(Delivery { responder: 1, value: Status::Healthy })
    );
    assert_eq!(hub.watch_status(a, 2), WatchOutcome::Parked);
    assert_eq!(
        hub.push_update(Update::Status(Status::Hardware)),
        vec![Response::Status(Delivery { responder: 2, value: Status::Hardware })]
    );
    assert_eq!(hub.watch_status(a, 3), WatchOutcome::Parked);
}

#[test]
fn test_watch_status_sent_to_all_clients() {
    let mut hub: TestHub = PushSourceInternal::new(Status::Healthy);
    let a = register(&mut hub);
    let b = register(&mut hub);
    assert_eq!(
        hub.watch_status(a, 1),
        WatchOutcome::Resolved(Delivery { responder: 1, value: Status::Healthy })
    );
    assert_eq!(
        hub.watch_status(b, 2),
        WatchOutcome::Resolved(Delivery { responder: 2, value: Status::Healthy })
    );
    assert_eq!(hub.watch_status(a, 3), WatchOutcome::Parked);
    assert_eq!(hub.watch_status(b, 4), WatchOutcome::Parked);
    assert_eq!(
        hub.push_update(Update::Status(Status::Hardware)),
        vec![
            Response::Status(Delivery { responder: 3, value: Status::Hardware }),
            Response::Status(Delivery { responder: 4, value: Status::Hardware }),
        ]
    );
    let c = register(&mut hub);
    assert_eq!(
        hub.watch_status(c, 5),
        WatchOutcome::Resolved(Delivery { responder: 5, value: Status::Hardware })
    );
}

#[test]
fn status_scenario_with_late_joiner() {
    let mut hub: TestHub = PushSourceInternal::new(Status::Initializing);
    let a = register(&mut hub);
    assert_eq!(
        hub.watch_status(a, 1),
        WatchOutcome::Resolved(Delivery { responder: 1, value: Status::Initializing })
    );
    assert_eq!(hub.watch_status(a, 2), WatchOutcome::Parked);
    assert_eq!(
        hub.push_update(Update::Status(Status::Healthy)),
        vec![Response::Status(Delivery { responder: 2, value: Status::Healthy })]
    );
    let b = register(&mut hub);
    assert_eq!(
        hub.watch_status(b, 3),
        WatchOutcome::Resolved(Delivery { responder: 3, value: Status::Healthy })
    );
    assert_eq!(hub.watch_status(a, 4), WatchOutcome::Parked);
    assert_eq!(hub.watch_status(b, 5), WatchOutcome::Parked);
    assert_eq!(
        hub.push_update(Update::Status(Status::Network)),
        vec![
            Response::Status(Delivery { responder: 4, value: Status::Network }),
            Response::Status(Delivery { responder: 5, value: Status::Network }),
        ]
    );
}

#[test]
fn duplicate_watch_fails_both_and_closes() {
    let mut hub: TestHub = PushSourceInternal::new(Status::Healthy);
    let a = register(&mut hub);
    let b = register(&mut hub);
    assert_eq!(hub.watch_sample(a, 10), WatchOutcome::Parked);
    assert_eq!(hub.watch_sample(a, 11), WatchOutcome::Violation { rejected: 11, pending: 10 });
    assert_eq!(hub.watch_sample(a, 12), WatchOutcome::Closed(12));
    // Other subscribers are untouched.
    assert_eq!(hub.watch_sample(b, 20), WatchOutcome::Parked);
    assert_eq!(
        hub.push_update(Update::Sample(sample(1, 1))),
        vec![Response::Sample(Delivery { responder: 20, value: sample(1, 1) })]
    );
    assert_eq!(hub.subscriber_count(), 1);
}

#[test]
fn late_joiner_gets_latest_sample_and_status() {
    let mut hub: TestHub = PushSourceInternal::new(Status::Healthy);
    assert!(hub.push_update(Update::Sample(sample(7, 8))).is_empty());
    assert!(hub.push_update(Update::Status(Status::Protocol)).is_empty());
    assert_eq!(hub.latest_sample(), Some(sample(7, 8)));
    assert_eq!(hub.latest_status(), Status::Protocol);
    let a = register(&mut hub);
    assert_eq!(
        hub.watch_sample(a, 1),
        WatchOutcome::Resolved(Delivery { responder: 1, value: sample(7, 8) })
    );
    assert_eq!(
        hub.watch_status(a, 2),
        WatchOutcome::Resolved(Delivery { responder: 2, value: Status::Protocol })
    );
}

#[test]
fn slow_subscriber_sees_only_the_last_sample() {
    let mut hub: TestHub = PushSourceInternal::new(Status::Healthy);
    let a = register(&mut hub);
    for i in 0..5 {
        assert!(hub.push_update(Update::Sample(sample(i, i))).is_empty());
    }
    assert_eq!(
        hub.watch_sample(a, 1),
        WatchOutcome::Resolved(Delivery { responder: 1, value: sample(4, 4) })
    );
    assert_eq!(hub.watch_sample(a, 2), WatchOutcome::Parked);
}

#[test]
fn repeat_watch_waits_for_a_new_push() {
    let mut hub: TestHub = PushSourceInternal::new(Status::Healthy);
    let a = register(&mut hub);
    assert!(matches!(hub.watch_status(a, 1), WatchOutcome::Resolved(_)));
    assert_eq!(hub.watch_status(a, 2), WatchOutcome::Parked);
    // A sample does not answer a parked status watch.
    assert!(hub.push_update(Update::Sample(sample(1, 2))).is_empty());
    // A push of the same status still counts as new.
    assert_eq!(
        hub.push_update(Update::Status(Status::Healthy)),
        vec![Response::Status(Delivery { responder: 2, value: Status::Healthy })]
    );
}

#[test]
fn departed_subscribers_are_reclaimed() {
    let mut hub: TestHub = PushSourceInternal::new(Status::Healthy);
    let keep = register(&mut hub);
    assert_eq!(hub.watch_sample(keep, 100), WatchOutcome::Parked);
    for round in 0..50u32 {
        let gone = register(&mut hub);
        assert_eq!(hub.watch_sample(gone, round), WatchOutcome::Parked);
        hub.release_client(gone);
        assert_eq!(hub.subscriber_count(), 2);
        let replies = hub.push_update(Update::Status(Status::Network));
        assert!(replies.is_empty());
        assert_eq!(hub.subscriber_count(), 1);
        assert_eq!(hub.watch_sample(gone, 1000), WatchOutcome::Closed(1000));
    }
    assert_eq!(
        hub.push_update(Update::Sample(sample(3, 3))),
        vec![Response::Sample(Delivery { responder: 100, value: sample(3, 3) })]
    );
}

#[test]
fn unknown_subscriber_is_closed() {
    let mut hub: TestHub = PushSourceInternal::new(Status::Healthy);
    assert_eq!(hub.watch_status(ClientId { id: 9 }, 1), WatchOutcome::Closed(1));
}

#[test]
fn session_routes_updates_by_field() {
    let mut s: Session<u32, u32> = Session::new(None, Status::Healthy);
    assert_eq!(s.handle_watch_sample(1), WatchOutcome::Parked);
    assert_eq!(
        s.handle_watch_status(2),
        WatchOutcome::Resolved(Delivery { responder: 2, value: Status::Healthy })
    );
    assert_eq!(s.handle_update(Update::Status(Status::Resource)), None);
    assert_eq!(
        s.handle_update(Update::Sample(sample(5, 6))),
        Some(Response::Sample(Delivery { responder: 1, value: sample(5, 6) }))
    );
    assert_eq!(s.handle_watch_sample(3), WatchOutcome::Parked);
    assert_eq!(s.handle_watch_sample(4), WatchOutcome::Violation { rejected: 4, pending: 3 });
}

#[test]
fn watch_handler_hanging_get() {
    let mut h: WatchHandler<Status, u32> = WatchHandler::create(Some(Status::Healthy));
    assert_eq!(h.watch(1).unwrap(), Some(Delivery { responder: 1, value: Status::Healthy }));
    assert_eq!(h.watch(2).unwrap(), None);
    let err = h.watch(3).unwrap_err();
    assert_eq!(err.responder, 3);
    assert_eq!(h.set_value(Status::Hardware), Some(Delivery { responder: 2, value: Status::Hardware }));
    assert_eq!(h.set_value(Status::Network), None);
    assert_eq!(h.set_value(Status::Hardware), None);
    // The caller last saw Hardware and the field holds Hardware again: park.
    assert_eq!(h.watch(4).unwrap(), None);
    assert_eq!(h.take_pending(), Some(4));
    assert_eq!(h.take_pending(), None);
}

#[test]
fn watch_handler_without_value_parks() {
    let mut h: WatchHandler<TimeSample, u32> = WatchHandler::create(None);
    assert_eq!(h.watch(1).unwrap(), None);
    assert_eq!(h.set_value(sample(1, 2)), Some(Delivery { responder: 1, value: sample(1, 2) }));
    assert_eq!(h.watch(2).unwrap(), None);
}

#[test]
fn update_kind() {
    assert!(Update::Status(Status::Healthy).is_status());
    assert!(!Update::Sample(sample(1, 1)).is_status());
}
