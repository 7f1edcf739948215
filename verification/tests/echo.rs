use a653rs_router::echo::{Echo, EchoReceiver, EchoSender};

#[test]
fn requests_are_numbered_from_one() {
    let mut s = EchoSender::new();
    assert_eq!(s.next_request(100), Echo { sequence: 1, when_us: 100 });
    assert_eq!(s.next_request(250), Echo { sequence: 2, when_us: 250 });
    assert_eq!(s.sent, 2);
}

#[test]
fn sampled_reply_is_reported_once() {
    let mut r = EchoReceiver::new();
    let reply = Echo { sequence: 3, when_us: 1_000 };
    assert_eq!(r.on_sampled_reply(reply, 1_500), Some(500));
    assert_eq!(r.last, 3);
    assert_eq!(r.on_sampled_reply(reply, 1_600), None);
    assert_eq!(r.on_sampled_reply(Echo { sequence: 2, when_us: 0 }, 1_600), None);
}

#[test]
fn queued_replies_advance_count_by_one_and_restart_at_one() {
    let mut r = EchoReceiver::new();
    assert_eq!(r.on_queued_reply(Echo { sequence: 5, when_us: 10 }, 30), Some(20));
    assert_eq!(r.last, 1);
    assert_eq!(r.on_queued_reply(Echo { sequence: 1, when_us: 40 }, 45), Some(5));
    assert_eq!(r.last, 1);
    assert_eq!(r.on_queued_reply(Echo { sequence: 1, when_us: 40 }, 46), Some(6));
    assert_eq!(r.on_queued_reply(Echo { sequence: 0, when_us: 40 }, 46), None);
}
