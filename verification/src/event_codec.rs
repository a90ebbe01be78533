use vstd::prelude::*;
use crate::types::{Event, FlowDirection, LogEvent, PacketType};

verus! {

/// Size of an event record in the ring buffer.
pub const EVENT_LEN: usize = 20;

/// The four little-endian bytes of `x`.
pub open spec fn le32_bytes(x: u32) -> Seq<u8> {
    seq![(x & 0xff) as u8, ((x >> 8u32) & 0xff) as u8, ((x >> 16u32) & 0xff) as u8, ((x >> 24u32) & 0xff) as u8]
}

/// The two little-endian bytes of `x`.
pub open spec fn le16_bytes(x: u16) -> Seq<u8> {
    seq![(x & 0xff) as u8, ((x >> 8u16) & 0xff) as u8]
}

/// The little-endian 32-bit number at `off`.
pub open spec fn read_le32(b: Seq<u8>, off: int) -> u32 {
    (b[off] as u32) | ((b[off + 1] as u32) << 8u32) | ((b[off + 2] as u32) << 16u32) | ((b[off + 3] as u32) << 24u32)
}

/// The little-endian 16-bit number at `off`.
pub open spec fn read_le16(b: Seq<u8>, off: int) -> u16 {
    (b[off] as u16) | ((b[off + 1] as u16) << 8u16)
}

/// The number that stands for a packet type in an event record.
pub open spec fn packet_type_code(t: PacketType) -> u32 {
    match t {
        PacketType::TCP => 0,
        PacketType::UDP => 1,
    }
}

/// The number that stands for a direction in an event record.
pub open spec fn direction_code(d: FlowDirection) -> u32 {
    match d {
        FlowDirection::INGRESS => 0,
        FlowDirection::EGRESS => 1,
    }
}

/// The record of an event as the kernel program writes it: the variant tag,
/// then source address, port, two bytes of padding, packet type and
/// direction, each little-endian.
pub open spec fn event_record(e: Event) -> Seq<u8> {
    match e {
        Event::LogEvent(l) => le32_bytes(0) + le32_bytes(l.src_addr) + le16_bytes(l.port) + seq![0u8, 0u8]
            + le32_bytes(packet_type_code(l.packet_type)) + le32_bytes(direction_code(l.direction)),
    }
}

/// The event a record holds: `None` for a record of the wrong size or with a
/// tag, packet type or direction that no event has. The padding bytes are
/// not read.
pub open spec fn record_event(b: Seq<u8>) -> Option<Event> {
    if b.len() != EVENT_LEN {
        None
    } else if read_le32(b, 0) != 0 {
        None
    } else {
        let t = read_le32(b, 12);
        let d = read_le32(b, 16);
        if t > 1 || d > 1 {
            None
        } else {
            Some(Event::LogEvent(LogEvent {
                src_addr: read_le32(b, 4),
                port: read_le16(b, 8),
                packet_type: if t == 0 { PacketType::TCP } else { PacketType::UDP },
                direction: if d == 0 { FlowDirection::INGRESS } else { FlowDirection::EGRESS },
            }))
        }
    }
}

fn push_le32(v: &mut Vec<u8>, x: u32)
    ensures
        final(v)@ == old(v)@ + le32_bytes(x),
{
    v.push((x & 0xff) as u8);
    v.push(((x >> 8u32) & 0xff) as u8);
    v.push(((x >> 16u32) & 0xff) as u8);
    v.push(((x >> 24u32) & 0xff) as u8);
    assert(final(v)@ =~= old(v)@ + le32_bytes(x));
}

fn get_le32(b: &[u8], off: usize) -> (x: u32)
    requires
        off + 4 <= b@.len(),
    ensures
        x == read_le32(b@, off as int),
{
    (b[off] as u32) | ((b[off + 1] as u32) << 8u32) | ((b[off + 2] as u32) << 16u32) | ((b[off + 3] as u32) << 24u32)
}

impl Event {
    /// The ring-buffer record of this event.
    pub fn to_bytes(&self) -> (bytes: Vec<u8>)
        ensures
            bytes@ == event_record(*self),
    {
        let mut v: Vec<u8> = Vec::new();
        match self {
            Event::LogEvent(l) => {
                push_le32(&mut v, 0);
                push_le32(&mut v, l.src_addr);
                v.push((l.port & 0xff) as u8);
                v.push(((l.port >> 8u16) & 0xff) as u8);
                v.push(0);
                v.push(0);
                let t: u32 = match l.packet_type {
                    PacketType::TCP => 0,
                    PacketType::UDP => 1,
                };
                push_le32(&mut v, t);
                let d: u32 = match l.direction {
                    FlowDirection::INGRESS => 0,
                    FlowDirection::EGRESS => 1,
                };
                push_le32(&mut v, d);
                assert(v@ =~= event_record(*self));
            },
        }
        v
    }

    /// Reads an event from a ring-buffer record.
    pub fn from_bytes(bytes: &[u8]) -> (event: Option<Event>)
        ensures
            event == record_event(bytes@),
    {
        if bytes.len() != EVENT_LEN {
            return None;
        }
        if get_le32(bytes, 0) != 0 {
            return None;
        }
        let t = get_le32(bytes, 12);
        let d = get_le32(bytes, 16);
        if t > 1 || d > 1 {
            return None;
        }
        let port: u16 = (bytes[8] as u16) | ((bytes[9] as u16) << 8u16);
        Some(Event::LogEvent(LogEvent {
            src_addr: get_le32(bytes, 4),
            port,
            packet_type: if t == 0 { PacketType::TCP } else { PacketType::UDP },
            direction: if d == 0 { FlowDirection::INGRESS } else { FlowDirection::EGRESS },
        }))
    }
}

/// Reading back the record of an event gives the event.
pub proof fn lemma_event_record_roundtrip(e: Event)
    ensures
        record_event(event_record(e)) == Some(e),
{
    let b = event_record(e);
    let l = e->LogEvent_0;
    assert forall|x: u32| #![trigger le32_bytes(x)]
        read_le32(le32_bytes(x), 0) == x by {
        let s = le32_bytes(x);
        let (b0, b1, b2, b3) = (s[0], s[1], s[2], s[3]);
        assert(b0 == (x & 0xff) as u8 && b1 == ((x >> 8u32) & 0xff) as u8 && b2 == ((x >> 16u32) & 0xff) as u8 && b3 == ((x >> 24u32) & 0xff) as u8);
        assert((b0 as u32) | ((b1 as u32) << 8u32) | ((b2 as u32) << 16u32) | ((b3 as u32) << 24u32) == x) by (bit_vector)
            requires
                b0 == (x & 0xff) as u8,
                b1 == ((x >> 8u32) & 0xff) as u8,
                b2 == ((x >> 16u32) & 0xff) as u8,
                b3 == ((x >> 24u32) & 0xff) as u8,
        ;
    }
    let p = l.port;
    let (c0, c1) = ((p & 0xff) as u8, ((p >> 8u16) & 0xff) as u8);
    assert((c0 as u16) | ((c1 as u16) << 8u16) == p) by (bit_vector)
        requires
            c0 == (p & 0xff) as u8,
            c1 == ((p >> 8u16) & 0xff) as u8,
    ;
    assert(b.subrange(0, 4) =~= le32_bytes(0));
    assert(b.subrange(4, 8) =~= le32_bytes(l.src_addr));
    assert(b.subrange(12, 16) =~= le32_bytes(packet_type_code(l.packet_type)));
    assert(b.subrange(16, 20) =~= le32_bytes(direction_code(l.direction)));
    assert(read_le32(b, 0) == read_le32(le32_bytes(0), 0));
    assert(read_le32(b, 4) == read_le32(le32_bytes(l.src_addr), 0));
    assert(read_le32(b, 12) == read_le32(le32_bytes(packet_type_code(l.packet_type)), 0));
    assert(read_le32(b, 16) == read_le32(le32_bytes(direction_code(l.direction)), 0));
    assert(read_le16(b, 8) == p);
}

} // verus!
