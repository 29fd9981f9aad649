use paneru::msg::{Outgoing, OolRegion, SEND_MSG, SEND_TIMEOUT};
use paneru::{parse, reply, Malformed, RecvRight, SendOnceRight, SendRight};

fn u32le(out: &mut Vec<u8>, x: u32) {
    out.extend_from_slice(&x.to_le_bytes());
}

/// A received header: bits, size, remote port, local port, voucher, id.
fn header(bits: u32, remote: u32) -> Vec<u8> {
    let mut b = Vec::new();
    u32le(&mut b, bits);
    u32le(&mut b, 0);
    u32le(&mut b, remote);
    u32le(&mut b, 0);
    u32le(&mut b, 0);
    u32le(&mut b, 0);
    b
}

fn ool(out: &mut Vec<u8>, address: u64, size: u32) {
    out.extend_from_slice(&address.to_le_bytes());
    out.extend_from_slice(&[0, 1, 0, 1]);
    u32le(out, size);
}

fn port(out: &mut Vec<u8>, name: u32, disposition: u8) {
    u32le(out, name);
    u32le(out, 0);
    out.extend_from_slice(&[0, 0, disposition, 0]);
}

fn padded(mut b: Vec<u8>) -> Vec<u8> {
    b.resize(256, 0);
    b
}

#[test]
fn parses_request_with_reply_and_subscriber() {
    let mut b = header(0x8000_0000 | 18, 77);
    u32le(&mut b, 2);
    ool(&mut b, 0x1000, 5);
    port(&mut b, 55, 17);
    let parsed = parse(&padded(b));
    assert_eq!(parsed.reply, Some(77));
    assert_eq!(parsed.regions, vec![OolRegion { address: 0x1000, size: 5 }]);
    assert_eq!(parsed.ports, vec![55]);
    assert_eq!(parsed.outcome, Ok(()));
    assert_eq!(parsed.payload_region(), Some(OolRegion { address: 0x1000, size: 5 }));

    let incoming = parsed.into_incoming(b"hello".to_vec()).unwrap();
    assert_eq!(incoming.payload, b"hello".to_vec());
    assert_eq!(incoming.reply.map(|r| r.as_raw()), Some(77));
    assert_eq!(incoming.ports.iter().map(|r| r.as_raw()).collect::<Vec<_>>(), vec![55]);
}

#[test]
fn reply_right_needs_send_once_disposition_and_a_port() {
    let mut b = header(0x8000_0000 | 17, 77);
    u32le(&mut b, 1);
    ool(&mut b, 0, 0);
    assert_eq!(parse(&padded(b)).reply, None);

    let mut b = header(0x8000_0000 | 18, 0);
    u32le(&mut b, 1);
    ool(&mut b, 0, 0);
    let parsed = parse(&padded(b));
    assert_eq!(parsed.reply, None);
    assert_eq!(parsed.outcome, Ok(()));
    assert!(!parsed.regions[0].is_mapped());
}

#[test]
fn only_moved_send_rights_are_kept() {
    let mut b = header(0x8000_0000, 0);
    u32le(&mut b, 4);
    port(&mut b, 1, 20);
    port(&mut b, 0, 17);
    port(&mut b, 2, 17);
    ool(&mut b, 0x2000, 3);
    let parsed = parse(&padded(b));
    assert_eq!(parsed.ports, vec![2]);
    assert_eq!(parsed.outcome, Ok(()));
}

#[test]
fn last_out_of_line_region_is_the_payload() {
    let mut b = header(0x8000_0000, 0);
    u32le(&mut b, 2);
    ool(&mut b, 0x1000, 4);
    ool(&mut b, 0x3000, 9);
    let parsed = parse(&padded(b));
    assert_eq!(parsed.regions.len(), 2);
    assert_eq!(parsed.payload_region(), Some(OolRegion { address: 0x3000, size: 9 }));
}

#[test]
fn plain_message_is_refused_but_keeps_its_reply_right() {
    let b = header(18, 40);
    let parsed = parse(&padded(b));
    assert_eq!(parsed.outcome, Err(Malformed::NotComplex));
    assert_eq!(parsed.reply, Some(40));
    assert!(parsed.into_incoming(Vec::new()).is_err());
    assert_eq!(Malformed::NotComplex.text(), "not a complex message");
}

#[test]
fn descriptor_past_the_end_is_refused() {
    let mut b = header(0x8000_0000, 0);
    u32le(&mut b, 1);
    b.extend_from_slice(&[0; 11]);
    assert_eq!(b.len(), 39);
    assert_eq!(parse(&b).outcome, Err(Malformed::DescriptorPastEnd));

    let mut b = header(0x8000_0000, 0);
    u32le(&mut b, 1000);
    ool(&mut b, 0x1000, 1);
    let parsed = parse(&padded(b));
    assert_eq!(parsed.outcome, Err(Malformed::DescriptorPastEnd));
    assert_eq!(parsed.regions.len(), 1);
}

#[test]
fn truncated_out_of_line_descriptor_is_refused() {
    let mut b = header(0x8000_0000, 0);
    u32le(&mut b, 1);
    b.extend_from_slice(&[0; 11]);
    b.push(1);
    assert_eq!(parse(&b).outcome, Err(Malformed::OolTruncated));
}

#[test]
fn unknown_descriptor_kind_is_refused() {
    let mut b = header(0x8000_0000, 0);
    u32le(&mut b, 2);
    port(&mut b, 3, 17);
    b.extend_from_slice(&[0; 11]);
    b.push(2);
    let parsed = parse(&padded(b));
    assert_eq!(parsed.outcome, Err(Malformed::UnsupportedDescriptor));
    assert_eq!(parsed.ports, vec![3]);
}

#[test]
fn message_without_payload_is_refused() {
    let mut b = header(0x8000_0000, 0);
    u32le(&mut b, 0);
    assert_eq!(parse(&padded(b)).outcome, Err(Malformed::NoPayload));

    let mut b = header(0x8000_0000, 0);
    u32le(&mut b, 1);
    port(&mut b, 3, 17);
    let parsed = parse(&padded(b));
    assert_eq!(parsed.outcome, Err(Malformed::NoPayload));
    assert_eq!(parsed.into_incoming(Vec::new()).err(), Some(Malformed::NoPayload));
}

#[test]
fn request_frame_layout() {
    let service = SendRight::from_raw(9);
    let payload = [1u8, 2, 3];
    let frame = Outgoing::new(&service, &payload).prepare(0x1122_3344_5566_7788).unwrap();
    let mut expected = Vec::new();
    u32le(&mut expected, 0x8000_0013);
    u32le(&mut expected, 44);
    u32le(&mut expected, 9);
    u32le(&mut expected, 0);
    u32le(&mut expected, 0);
    u32le(&mut expected, 0);
    u32le(&mut expected, 1);
    ool(&mut expected, 0x1122_3344_5566_7788, 3);
    assert_eq!(frame.bytes, expected);
    assert_eq!(frame.options, SEND_MSG);
    assert_eq!(frame.timeout, 0);
}

#[test]
fn subscription_frame_layout() {
    let service = SendRight::from_raw(9);
    let reply_port = RecvRight::from_raw(31);
    let channel = RecvRight::from_raw(32);
    let payload = [7u8; 10];
    let frame = Outgoing::new(&service, &payload)
        .replying_to(&reply_port)
        .carrying(&channel)
        .without_waiting()
        .prepare(0x4000)
        .unwrap();
    let mut expected = Vec::new();
    u32le(&mut expected, 0x8000_1513);
    u32le(&mut expected, 56);
    u32le(&mut expected, 9);
    u32le(&mut expected, 31);
    u32le(&mut expected, 0);
    u32le(&mut expected, 0);
    u32le(&mut expected, 2);
    ool(&mut expected, 0x4000, 10);
    u32le(&mut expected, 32);
    u32le(&mut expected, 0);
    expected.extend_from_slice(&[0, 0, 20, 0]);
    assert_eq!(frame.bytes, expected);
    assert_eq!(frame.options, SEND_MSG | SEND_TIMEOUT);
    assert_eq!(frame.timeout, 0);
}

#[test]
fn reply_frame_moves_the_send_once_right() {
    let right = SendOnceRight::from_raw(88);
    let frame = reply(right, b"ok", 0x10).unwrap();
    assert_eq!(&frame.bytes[0..4], &0x8000_0012u32.to_le_bytes());
    assert_eq!(&frame.bytes[8..12], &88u32.to_le_bytes());
    assert_eq!(&frame.bytes[40..44], &2u32.to_le_bytes());
    assert_eq!(frame.bytes.len(), 44);
    assert_eq!(frame.options, SEND_MSG);
}

#[test]
fn built_frame_parses_to_its_payload() {
    let service = SendRight::from_raw(9);
    let channel = RecvRight::from_raw(32);
    let payload = [1u8; 6];
    let frame = Outgoing::new(&service, &payload).carrying(&channel).prepare(0xabc0).unwrap();
    let parsed = parse(&padded(frame.bytes));
    assert_eq!(parsed.regions, vec![OolRegion { address: 0xabc0, size: 6 }]);
    assert!(parsed.ports.is_empty());
    assert_eq!(parsed.outcome, Ok(()));
}
