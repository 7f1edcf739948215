use a653rs_router::config::PortName;
use a653rs_router::map::BoundedMap;
use a653rs_router::time::Duration;
use a653rs_router::types::{DataRate, NetworkInterfaceId, VirtualLinkId};

#[test]
fn bounded_map_reads_back_what_was_written() {
    let mut m: BoundedMap<VirtualLinkId, u32, 2> = BoundedMap::new();
    assert!(m.is_empty());
    assert_eq!(m.insert(VirtualLinkId(1), 10), Ok(None));
    assert_eq!(m.insert(VirtualLinkId(2), 20), Ok(None));
    assert_eq!(m.insert(VirtualLinkId(1), 11), Ok(Some(10)));
    assert_eq!(m.len(), 2);
    assert_eq!(m.find(&VirtualLinkId(1)), Some(0));
    assert_eq!(m.entries[0], (VirtualLinkId(1), 11));
    assert_eq!(m.insert(VirtualLinkId(3), 30), Err((VirtualLinkId(3), 30)));
    assert!(!m.contains_key(&VirtualLinkId(3)));
    assert!(m.contains_key(&VirtualLinkId(2)));
}

#[test]
fn bounded_map_keys_by_port_name() {
    let mut m: BoundedMap<PortName, u8, 4> = BoundedMap::new();
    m.insert(PortName::from_str("a").unwrap(), 1).unwrap();
    m.insert(PortName::from_str("b").unwrap(), 2).unwrap();
    assert_eq!(m.find(&PortName::from_str("b").unwrap()), Some(1));
    assert_eq!(m.find(&PortName::from_str("c").unwrap()), None);
}

#[test]
fn duration_arithmetic_is_exact_and_checked() {
    let a = Duration::from_millis(1_500);
    assert_eq!(a.as_secs(), 1);
    assert_eq!(a.subsec_nanos(), 500_000_000);
    assert_eq!(a.as_nanos(), 1_500_000_000);
    assert_eq!(a.as_millis(), 1_500);
    assert_eq!(Duration::from_micros(3).as_nanos(), 3_000);
    let b = Duration::from_secs(2);
    assert!(a.lt(&b) && a.le(&b) && !b.le(&a));
    assert_eq!(a.add(&b), Duration::from_millis(3_500));
    assert_eq!(a.checked_sub(&b), None);
    assert_eq!(b.checked_sub(&a), Some(Duration::from_millis(500)));
    let max = Duration::checked_new(u64::MAX, 999_999_999).unwrap();
    assert_eq!(max.checked_add(&Duration::from_nanos(1)), None);
    assert_eq!(Duration::checked_new(u64::MAX, 1_000_000_000), None);
    assert_eq!(Duration::checked_new(1, 1_000_000_000), Some(Duration::from_secs(2)));
    assert!(Duration::zero().is_zero());
}

#[test]
fn identifiers_round_trip() {
    assert_eq!(DataRate::b(64).as_u64(), 64);
    assert_eq!(VirtualLinkId::from_u32(7).into_inner(), 7);
    assert_eq!(VirtualLinkId::from_u16(9), VirtualLinkId(9));
    assert_eq!(NetworkInterfaceId::from_usize(5).into_usize(), 5);
    assert_eq!(NetworkInterfaceId::from_usize(0x1_0000_0002), NetworkInterfaceId(2));
}

#[test]
fn virtual_link_ids_convert_both_ways() {
    assert_eq!(VirtualLinkId::from(5u32), VirtualLinkId::from_u32(5));
    assert_eq!(u32::from(VirtualLinkId::from_u32(7)), 7);
    let v: VirtualLinkId = 9u32.into();
    assert_eq!(v.into_inner(), 9);
}
