use a653rs_router::network_partition::forward::{interfaces_for, links_for, Forwarder};
use a653rs_router::network_partition::scheduler::DeadlineRrScheduler as PartitionScheduler;
use a653rs_router::scheduler::{DeadlineRrScheduler, ScheduleError, ScheduleErrorKind, InvalidTimeError, Window};
use a653rs_router::time::Duration;
use a653rs_router::types::{NetworkInterfaceId, VirtualLinkId};

fn ms(m: u64) -> Duration {
    Duration::from_millis(m)
}

#[test]
fn windows_start_one_period_after_start() {
    let vls = [(VirtualLinkId(1), ms(10)), (VirtualLinkId(2), ms(20))];
    let s = DeadlineRrScheduler::<4>::try_new(&vls, &ms(100)).unwrap();
    assert_eq!(s.last_window, 0);
    assert_eq!(s.windows.len(), 2);
    assert_eq!(s.windows[0].last, ms(110));
    assert_eq!(s.windows[1].last, ms(120));
}

#[test]
fn round_robin_starts_after_last_scheduled_window() {
    let vls = [
        (VirtualLinkId(1), ms(10)),
        (VirtualLinkId(2), ms(10)),
        (VirtualLinkId(3), ms(10)),
    ];
    let mut s = DeadlineRrScheduler::<4>::try_new(&vls, &Duration::zero()).unwrap();
    assert_eq!(s.schedule_next(&ms(5)), None);
    assert_eq!(s.schedule_next(&ms(20)), Some(VirtualLinkId(2)));
    assert_eq!(s.schedule_next(&ms(20)), Some(VirtualLinkId(3)));
    assert_eq!(s.schedule_next(&ms(20)), Some(VirtualLinkId(1)));
    assert_eq!(s.schedule_next(&ms(20)), None);
    assert_eq!(s.schedule_next(&ms(30)), Some(VirtualLinkId(2)));
}

#[test]
fn clock_far_past_deadline_is_ignored() {
    let vls = [(VirtualLinkId(1), ms(10))];
    let mut s = DeadlineRrScheduler::<1>::try_new(&vls, &Duration::zero()).unwrap();
    assert_eq!(s.schedule_next(&Duration::from_secs(16)), None);
    assert_eq!(s.windows[0].last, ms(10));
    assert_eq!(s.schedule_next(&Duration::from_secs(15)), Some(VirtualLinkId(1)));
    assert_eq!(s.windows[0].last, Duration::from_secs(15));
}

#[test]
fn empty_scheduler_schedules_nothing() {
    let mut s = DeadlineRrScheduler::<2>::try_new(&[], &Duration::zero()).unwrap();
    assert_eq!(s.schedule_next(&Duration::from_secs(1)), None);
}

#[test]
fn window_is_due_once_its_period_passed() {
    let w = Window { vl: VirtualLinkId(1), period: ms(10), last: ms(5) };
    assert!(!w.is_due(&ms(14)));
    assert!(w.is_due(&ms(15)));
}

#[test]
fn deadline_overflow_is_detected_before_scheduling() {
    let vls = [(VirtualLinkId(1), ms(10))];
    let mut s = DeadlineRrScheduler::<1>::try_new(&vls, &Duration::zero()).unwrap();
    assert!(s.fits_round(&ms(1)));
    s.windows[0].last = Duration::checked_new(u64::MAX, 995_000_000).unwrap();
    assert!(!s.fits_round(&ms(1)));
}

#[test]
fn invalid_time_converts_to_schedule_error() {
    let e = ScheduleError::from(InvalidTimeError);
    assert_eq!(e.kind, ScheduleErrorKind::SystemTime(InvalidTimeError));
}

#[test]
fn partition_scheduler_cycles_over_slots() {
    let mut s = PartitionScheduler::<2>::new();
    s.insert(VirtualLinkId(1), ms(10)).unwrap();
    s.insert(VirtualLinkId(2), ms(20)).unwrap();
    assert!(s.insert(VirtualLinkId(3), ms(20)).is_err());
    assert_eq!(s.next(ms(5)), None);
    assert_eq!(s.next(ms(10)), Some(VirtualLinkId(1)));
    assert_eq!(s.windows[0].next, ms(20));
    assert_eq!(s.next(ms(20)), Some(VirtualLinkId(2)));
    assert_eq!(s.next(ms(20)), Some(VirtualLinkId(1)));
    assert_eq!(s.next(ms(20)), None);
    s.clear();
    assert!(s.windows.is_empty());
}

#[test]
fn partition_window_is_due_at_next_instant() {
    let w = a653rs_router::network_partition::scheduler::Window {
        vl: VirtualLinkId(4),
        period: ms(3),
        next: ms(9),
    };
    assert!(!w.is_due(ms(8)));
    assert!(w.is_due(ms(9)));
}

#[test]
fn frames_from_the_network_go_to_every_link_with_their_id() {
    let links = [VirtualLinkId(3), VirtualLinkId(7), VirtualLinkId(7)];
    assert_eq!(links_for(&links, VirtualLinkId(7)), vec![1, 2]);
    assert_eq!(links_for(&links, VirtualLinkId(3)), vec![0]);
    assert!(links_for(&links, VirtualLinkId(9)).is_empty());
}

#[test]
fn forwarder_sends_the_scheduled_local_link() {
    let mut s = PartitionScheduler::<1>::new();
    s.insert(VirtualLinkId(7), Duration::from_millis(5)).unwrap();
    let mut f = Forwarder::new(
        s,
        vec![VirtualLinkId(3), VirtualLinkId(7), VirtualLinkId(7)],
        vec![vec![], vec![NetworkInterfaceId(1)], vec![]],
        vec![NetworkInterfaceId(1)],
    );
    assert_eq!(f.receivers(VirtualLinkId(3)), vec![0]);
    assert_eq!(f.local_to_send(Err(InvalidTimeError)), None);
    assert_eq!(f.local_to_send(Ok(Duration::from_millis(1))), None);
    assert_eq!(f.local_to_send(Ok(Duration::from_millis(5))), Some(1));
    assert_eq!(f.scheduler.windows[0].next, Duration::from_millis(10));
    let mut s = PartitionScheduler::<1>::new();
    s.insert(VirtualLinkId(8), Duration::from_millis(5)).unwrap();
    let mut g = Forwarder::new(s, vec![VirtualLinkId(3)], vec![vec![]], vec![]);
    assert_eq!(g.local_to_send(Ok(Duration::from_millis(5))), None);
}

#[test]
fn local_message_goes_to_every_connected_interface() {
    let ifs = [NetworkInterfaceId(4), NetworkInterfaceId(1), NetworkInterfaceId(9), NetworkInterfaceId(1)];
    assert_eq!(interfaces_for(&[NetworkInterfaceId(1), NetworkInterfaceId(9)], &ifs), vec![1, 2, 3]);
    assert_eq!(interfaces_for(&[NetworkInterfaceId(4)], &ifs), vec![0]);
    assert!(interfaces_for(&[], &ifs).is_empty());
    assert!(interfaces_for(&[NetworkInterfaceId(2)], &ifs).is_empty());
}

#[test]
fn forwarding_round_plans_remote_and_local_traffic() {
    let mut s = PartitionScheduler::<2>::new();
    s.insert(VirtualLinkId(7), Duration::from_millis(5)).unwrap();
    s.insert(VirtualLinkId(3), Duration::from_millis(50)).unwrap();
    let mut f = Forwarder::new(
        s,
        vec![VirtualLinkId(3), VirtualLinkId(7), VirtualLinkId(7)],
        vec![vec![NetworkInterfaceId(2)], vec![NetworkInterfaceId(1), NetworkInterfaceId(2)], vec![]],
        vec![NetworkInterfaceId(1), NetworkInterfaceId(2)],
    );
    let now = Duration::from_millis(5);
    assert!(f.scheduler.round_stays_in_bounds(now));
    let plan = f.forward(&[Some(VirtualLinkId(7)), None, Some(VirtualLinkId(5))], Ok(now));
    assert_eq!(plan.remote, vec![vec![1, 2], vec![], vec![]]);
    assert_eq!(plan.local, Some((1, vec![0, 1])));
    let plan = f.forward(&[], Ok(Duration::from_millis(6)));
    assert!(plan.remote.is_empty());
    assert_eq!(plan.local, None);
    let plan = f.forward(&[Some(VirtualLinkId(3))], Err(InvalidTimeError));
    assert_eq!(plan.remote, vec![vec![0]]);
    assert_eq!(plan.local, None);
}

#[test]
fn partition_round_must_stay_on_filled_slots() {
    let mut s = PartitionScheduler::<2>::new();
    s.insert(VirtualLinkId(7), Duration::from_millis(5)).unwrap();
    assert!(!s.round_stays_in_bounds(Duration::from_millis(1)));
    let mut full = PartitionScheduler::<1>::new();
    full.insert(VirtualLinkId(7), Duration::from_millis(5)).unwrap();
    assert!(full.round_stays_in_bounds(Duration::from_millis(1)));
}
