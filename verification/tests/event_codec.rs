use zyra::types::{Event, FlowDirection, LogEvent, PacketType};

fn sample() -> Event {
    Event::LogEvent(LogEvent {
        src_addr: 0xC0A8_0164,
        port: 443,
        packet_type: PacketType::UDP,
        direction: FlowDirection::EGRESS,
    })
}

#[test]
fn record_layout() {
    assert_eq!(
        sample().to_bytes(),
        vec![0, 0, 0, 0, 0x64, 0x01, 0xA8, 0xC0, 0xBB, 0x01, 0, 0, 1, 0, 0, 0, 1, 0, 0, 0]
    );
}

#[test]
fn record_roundtrip() {
    for packet_type in [PacketType::TCP, PacketType::UDP] {
        for direction in [FlowDirection::INGRESS, FlowDirection::EGRESS] {
            let e = Event::LogEvent(LogEvent { src_addr: 0x0102_0304, port: 65535, packet_type, direction });
            assert_eq!(Event::from_bytes(&e.to_bytes()), Some(e));
        }
    }
}

#[test]
fn padding_is_ignored() {
    let mut bytes = sample().to_bytes();
    bytes[10] = 0xAA;
    bytes[11] = 0x55;
    assert_eq!(Event::from_bytes(&bytes), Some(sample()));
}

#[test]
fn malformed_records_are_refused() {
    let bytes = sample().to_bytes();
    assert_eq!(Event::from_bytes(&bytes[..19]), None);
    assert_eq!(Event::from_bytes(&[]), None);
    let mut longer = bytes.clone();
    longer.push(0);
    assert_eq!(Event::from_bytes(&longer), None);
    let mut bad_tag = bytes.clone();
    bad_tag[0] = 1;
    assert_eq!(Event::from_bytes(&bad_tag), None);
    let mut bad_type = bytes.clone();
    bad_type[12] = 2;
    assert_eq!(Event::from_bytes(&bad_type), None);
    let mut bad_direction = bytes.clone();
    bad_direction[19] = 1;
    assert_eq!(Event::from_bytes(&bad_direction), None);
}
