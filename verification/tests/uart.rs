use a653rs_router::network::InterfaceError;
use a653rs_router::network_partition::config::uart_frame_bits;
use a653rs_router::uart::{max_encoded_len, RxBuffer, UartFrame};

#[test]
fn encoded_length_counts_overhead_and_terminator() {
    assert_eq!(max_encoded_len(0), 2);
    assert_eq!(max_encoded_len(1), 3);
    assert_eq!(max_encoded_len(254), 256);
    assert_eq!(max_encoded_len(255), 258);
    assert_eq!(UartFrame::<10>::max_decoded_len(), 14);
    assert_eq!(UartFrame::<10>::max_encoded_len(), 17);
    let pl = [1u8, 2, 3];
    let frame = UartFrame::<10> { pl: &pl };
    assert_eq!(frame.frame_encoded_len(), 9);
}

#[test]
fn frame_of_check_string_carries_usb_checksum() {
    let bytes = UartFrame::<64>::encode_payload(b"123456789").unwrap();
    let mut expected = vec![12u8];
    expected.extend_from_slice(b"123456789");
    expected.extend_from_slice(&[0xB4, 0xC8]);
    assert_eq!(bytes, expected);
}

#[test]
fn frame_with_zero_bytes_is_stuffed() {
    let bytes = UartFrame::<8>::encode_payload(&[0u8, 5, 0]).unwrap();
    assert!(!bytes.contains(&0));
    let mut buf = bytes.clone();
    buf.push(0);
    let n = UartFrame::<8>::decode(&mut buf).unwrap();
    assert_eq!(&buf[..n], &[0u8, 5, 0]);
}

#[test]
fn encode_refuses_long_payload_and_short_buffer() {
    let pl = [7u8; 5];
    let frame = UartFrame::<4> { pl: &pl };
    let mut out = [0u8; 64];
    assert!(frame.encode(&mut out).is_err());
    let frame = UartFrame::<8> { pl: &pl };
    let mut short = [0u8; 10];
    assert!(frame.encode(&mut short).is_err());
    assert_eq!(short, [0u8; 10]);
    let mut enough = [0u8; 11];
    let n = frame.encode(&mut enough).unwrap();
    assert_eq!(n, 8);
    assert_eq!(
        UartFrame::<8>::encode_payload(&[7u8; 9]).unwrap_err(),
        InterfaceError::InvalidData
    );
}

#[test]
fn decode_refuses_bad_checksum_and_short_message() {
    let mut bytes = UartFrame::<16>::encode_payload(b"abc").unwrap();
    bytes[1] ^= 1;
    bytes.push(0);
    assert!(UartFrame::<16>::decode(&mut bytes).is_err());
    let mut one = vec![2u8, 9, 0];
    assert!(UartFrame::<16>::decode(&mut one).is_err());
}

#[test]
fn received_frame_gives_back_the_payload() {
    let bytes = UartFrame::<32>::encode_payload(b"hello router").unwrap();
    let mut rx = RxBuffer::new();
    for b in bytes.iter() {
        assert!(!rx.push(*b));
    }
    assert!(rx.push(0));
    rx.push(42);
    let pl = UartFrame::<32>::take_payload(&mut rx).unwrap();
    assert_eq!(pl, b"hello router".to_vec());
    let rest = rx.take_frame(8);
    assert_eq!(rest, vec![42u8]);
}

#[test]
fn garbage_on_the_line_is_invalid_data() {
    let mut rx = RxBuffer::new();
    for b in [5u8, 1, 2, 0] {
        rx.push(b);
    }
    assert_eq!(
        UartFrame::<32>::take_payload(&mut rx).unwrap_err(),
        InterfaceError::InvalidData
    );
}

#[test]
fn take_frame_stops_at_zero_or_limit() {
    let mut rx = RxBuffer::new();
    for b in [1u8, 2, 0, 3, 4, 5] {
        rx.push(b);
    }
    assert_eq!(rx.take_frame(10), vec![1u8, 2, 0]);
    assert_eq!(rx.take_frame(2), vec![3u8, 4]);
    assert_eq!(rx.take_frame(2), vec![5u8]);
    assert_eq!(rx.take_frame(2), Vec::<u8>::new());
}

#[test]
fn uart_frame_bits_count_stuffing_and_framing() {
    assert_eq!(uart_frame_bits(1_000), 8_066);
    assert_eq!(uart_frame_bits(250), 2_042);
    assert_eq!(uart_frame_bits(251), 2_050);
}

#[test]
fn full_receive_buffer_drops_bytes() {
    let mut rx = RxBuffer::new();
    for _ in 0..20_000 {
        rx.push(7);
    }
    assert_eq!(rx.take_frame(30_000).len(), 19_999);
}

#[test]
fn frame_followed_by_more_bytes_comes_back_whole() {
    let payload = [0u8, 1, 0, 255, 0];
    let bytes = UartFrame::<16>::encode_payload(&payload).unwrap();
    assert!(bytes.iter().all(|b| *b != 0));
    let second = UartFrame::<16>::encode_payload(b"next").unwrap();
    let mut rx = RxBuffer::new();
    for b in bytes.iter() {
        assert!(!rx.push(*b));
    }
    assert!(rx.push(0));
    for b in second.iter() {
        rx.push(*b);
    }
    rx.push(0);
    assert_eq!(UartFrame::<16>::take_payload(&mut rx).unwrap(), payload.to_vec());
    assert_eq!(UartFrame::<16>::take_payload(&mut rx).unwrap(), b"next".to_vec());
}

#[test]
fn frame_decodes_alone_or_with_what_follows() {
    let payload = b"hi there";
    let bare = UartFrame::<16>::encode_payload(payload).unwrap();
    let mut alone = bare.clone();
    assert_eq!(UartFrame::<16>::decode(&mut alone), Ok(payload.len()));
    assert_eq!(&alone[..payload.len()], payload);
    let mut framed = bare.clone();
    framed.push(0);
    framed.extend_from_slice(&[9, 9, 0, 1]);
    assert_eq!(UartFrame::<16>::decode(&mut framed), Ok(payload.len()));
    assert_eq!(&framed[..payload.len()], payload);
}
