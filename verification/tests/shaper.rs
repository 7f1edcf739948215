use a653rs_router::network_partition::shaper::{CreditBasedShaper, QueueId, QueueStatus, Transmission};
use a653rs_router::time::Duration;
use a653rs_router::types::DataRate;

#[test]
fn given_credit_negative_then_no_transmission_allowed() {
    let queue = QueueStatus {
        id: QueueId(0),
        credit: -10,
        idle_slope: 10,
        transmit: false,
        send_slope: 20,
        backlog: 0,
    };

    assert!(!queue.transmit_allowed());
}

#[test]
fn given_credit_not_negative_then_transmission_allowed() {
    let queue = QueueStatus {
        id: QueueId(0),
        credit: 10000,
        idle_slope: 10,
        transmit: false,
        send_slope: 20,
        backlog: 0,
    };
    assert!(queue.transmit_allowed());
}

#[test]
fn given_no_backlog_when_restore_then_credit_zero() {
    let mut q = QueueStatus {
        id: QueueId(0),
        credit: 10000,
        idle_slope: 10,
        transmit: false,
        send_slope: 20,
        backlog: 0,
    };
    assert!(q.restore(&Duration::from_millis(10)).is_ok());
    assert_eq!(0, q.credit);
}

#[test]
fn given_credit_and_transmit_and_backlog_zero_when_restore_then_credit_unchanged() {
    let credit: i128 = 10_000;
    let mut q = QueueStatus {
        id: QueueId(0),
        credit,
        idle_slope: 10,
        transmit: true,
        send_slope: 20,
        backlog: 0,
    };
    assert!(q.restore(&Duration::from_millis(10)).is_ok());
    assert_eq!(credit, q.credit);
}

#[test]
fn given_not_enough_remaining_bandwidth_when_queue_added_then_error() {
    let mut s = CreditBasedShaper::<2>::new(DataRate::b(128_000));
    _ = s.add_queue(DataRate::b(90_000)).unwrap();
    let id = s.add_queue(DataRate::b(90_000));
    assert!(id.is_none())
}

#[test]
fn given_enough_remaining_bandwidth_when_queue_added_then_ok() {
    let mut s = CreditBasedShaper::<2>::new(DataRate::b(128_000));
    _ = s.add_queue(DataRate::b(64_000)).unwrap();
    let id = s.add_queue(DataRate::b(50_000));
    assert!(id.is_some())
}

#[test]
fn given_exactly_enough_remaining_bandwidth_when_queue_added_then_ok() {
    let mut s = CreditBasedShaper::<2>::new(DataRate::b(128_000));
    _ = s.add_queue(DataRate::b(64_000)).unwrap();
    let id = s.add_queue(DataRate::b(64_000));
    assert!(id.is_some())
}

#[test]
fn given_two_queues_high_credit_and_backlog_when_both_transmit_then_bandwidth_usage_below_limit() {
    let mut s = CreditBasedShaper::<2>::new(DataRate::b(100_000));
    let q0_id = s.add_queue(DataRate::b(60_000)).unwrap();
    let q1_id = s.add_queue(DataRate::b(40_000)).unwrap();

    const MTU_Q1: u32 = 7_000;
    const MTU_Q2: u32 = 4_000;

    let transmissions = [
        Transmission::new(q0_id, Duration::zero(), MTU_Q1),
        Transmission::new(q1_id, Duration::zero(), MTU_Q2),
        Transmission::new(q1_id, Duration::zero(), MTU_Q2),
        Transmission::new(q0_id, Duration::zero(), MTU_Q1),
        Transmission::new(q0_id, Duration::zero(), MTU_Q1),
        Transmission::new(q1_id, Duration::zero(), MTU_Q2),
        Transmission::new(q0_id, Duration::zero(), MTU_Q1),
        Transmission::new(q1_id, Duration::zero(), MTU_Q2),
        Transmission::new(q1_id, Duration::zero(), MTU_Q2),
        Transmission::new(q0_id, Duration::zero(), MTU_Q1),
        Transmission::new(q0_id, Duration::zero(), MTU_Q1),
        Transmission::new(q1_id, Duration::zero(), MTU_Q2),
    ];

    for t in transmissions.iter() {
        s.request_transmission(t).unwrap();
    }

    // This is how long MTU_Q1/2 will take in the test
    let duration_q1 = Duration::from_millis(70);
    let duration_q2 = Duration::from_millis(50);

    let mut total_byte: u64 = 0;
    let mut total_time: u128 = 0;

    while let Some(next_q) = s.next_queue() {
        if next_q == QueueId(0) {
            let t = Transmission::new(next_q, duration_q1, MTU_Q1);
            s.record_transmission(&t).unwrap();
            total_byte += MTU_Q1 as u64;
            total_time += duration_q1.as_millis();
        } else {
            let t = Transmission::new(next_q, duration_q2, MTU_Q2);
            s.record_transmission(&t).unwrap();
            total_byte += MTU_Q2 as u64;
            total_time += duration_q2.as_millis();
        }
    }

    let byte_per_second = ((total_byte as u128) * 1000) / total_time;
    let limit = 100_000;
    assert!(
        byte_per_second <= limit,
        "Recorded rate: {byte_per_second}, Limit: {limit}, Recorded bytes: {total_byte}, Recorded time: {total_time}"
    );
}

#[test]
fn given_empty_queue_with_credit_when_next_queue_then_none() {
    let mut shaper = CreditBasedShaper::<1>::new(DataRate::b(10_000_000));
    _ = shaper.add_queue(DataRate::b(1_000_000)).unwrap();
    let status = shaper.queues.get_mut(0).unwrap();
    status.backlog = 0;
    assert!(shaper.next_queue().is_none());
}

#[test]
fn queue_new_takes_send_slope_from_port_rate() {
    let q = QueueStatus::new(QueueId(3), 40, 100);
    assert_eq!(q.send_slope, 60);
    assert_eq!(q.credit, 0);
    assert_eq!(q.backlog, 0);
    assert!(!q.transmit);
}

#[test]
fn restore_adds_idle_slope_credit_while_waiting() {
    let mut q = QueueStatus::new(QueueId(0), 1_000, 10_000);
    q.backlog = 8;
    assert_eq!(q.restore(&Duration::from_millis(10)).unwrap(), 10);
    assert_eq!(q.credit, 10);
    assert_eq!(q.restore(&Duration::from_nanos(1_500_000)).unwrap(), 1);
    assert_eq!(q.credit, 11);
}

#[test]
fn consume_takes_send_slope_credit_and_backlog() {
    let mut q = QueueStatus::new(QueueId(0), 1_000, 10_000);
    q.backlog = 100;
    q.credit = 50;
    assert_eq!(q.consume(&40, &Duration::from_millis(10)).unwrap(), 90);
    assert_eq!(q.credit, -40);
    assert_eq!(q.backlog, 60);
}

#[test]
fn consume_with_negative_credit_is_not_allowed() {
    let mut q = QueueStatus::new(QueueId(0), 1_000, 10_000);
    q.credit = -1;
    q.backlog = 10;
    let before = q;
    assert!(matches!(
        q.consume(&10, &Duration::from_millis(1)),
        Err(a653rs_router::network_partition::error::Error::TransmitNotAllowed)
    ));
    assert_eq!(q, before);
}

#[test]
fn submit_overflow_keeps_backlog() {
    let mut q = QueueStatus::new(QueueId(0), 1, 2);
    assert_eq!(q.submit(u64::MAX - 1), Ok(u64::MAX - 1));
    assert_eq!(q.submit(2), Err(2));
    assert_eq!(q.backlog, u64::MAX - 1);
}

#[test]
fn add_queue_to_full_shaper_takes_share_but_adds_no_queue() {
    let mut s = CreditBasedShaper::<1>::new(DataRate::b(100));
    assert_eq!(s.add_queue(DataRate::b(10)), Some(QueueId(0)));
    assert_eq!(s.add_queue(DataRate::b(10)), None);
    assert_eq!(s.queues.len(), 1);
    assert_eq!(s.free_bandwidth, DataRate::b(80));
}

#[test]
fn request_for_unknown_queue_is_invalid_data() {
    let mut s = CreditBasedShaper::<2>::new(DataRate::b(100));
    let t = Transmission::new(QueueId(5), Duration::zero(), 1);
    assert!(matches!(
        s.request_transmission(&t),
        Err(a653rs_router::network_partition::error::Error::InvalidData)
    ));
}

#[test]
fn record_for_unknown_queue_restores_the_others() {
    let mut s = CreditBasedShaper::<2>::new(DataRate::b(1_000));
    let q0 = s.add_queue(DataRate::b(100)).unwrap();
    s.request_transmission(&Transmission::new(q0, Duration::zero(), 1)).unwrap();
    let t = Transmission::new(QueueId(7), Duration::from_secs(1), 1);
    assert!(matches!(
        s.record_transmission(&t),
        Err(a653rs_router::network_partition::error::Error::InvalidData)
    ));
    assert_eq!(s.queues[0].credit, 100);
}

#[test]
fn next_queue_picks_first_ready_and_marks_it() {
    let mut s = CreditBasedShaper::<3>::new(DataRate::b(1_000));
    let q0 = s.add_queue(DataRate::b(100)).unwrap();
    let q1 = s.add_queue(DataRate::b(100)).unwrap();
    s.request_transmission(&Transmission::new(q1, Duration::zero(), 2)).unwrap();
    assert_eq!(s.get_backlog(&q0), Some(0));
    assert_eq!(s.get_backlog(&q1), Some(16));
    assert_eq!(s.get_backlog(&QueueId(2)), None);
    assert_eq!(s.next_queue(), Some(q1));
    assert!(s.queues[1].transmit);
    assert!(!s.queues[0].transmit);
}

#[test]
fn restore_all_restores_only_waiting_queues() {
    let mut s = CreditBasedShaper::<2>::new(DataRate::b(1_000));
    let q0 = s.add_queue(DataRate::b(100)).unwrap();
    let _q1 = s.add_queue(DataRate::b(200)).unwrap();
    s.request_transmission(&Transmission::new(q0, Duration::zero(), 1)).unwrap();
    s.restore_all(Duration::from_secs(2)).unwrap();
    assert_eq!(s.queues[0].credit, 200);
    assert_eq!(s.queues[1].credit, 0);
}

#[test]
fn shares_never_exceed_port_bandwidth() {
    let mut s = CreditBasedShaper::<4>::new(DataRate::b(100));
    let shares = [30u64, 50, 30, 20];
    for share in shares {
        let _ = s.add_queue(DataRate::b(share));
    }
    let reserved: u64 = s.queues.iter().map(|q| q.idle_slope).sum();
    assert_eq!(reserved, 100);
    assert_eq!(s.free_bandwidth, DataRate::b(0));
    assert_eq!(s.queues.len(), 3);
}
