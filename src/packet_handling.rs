//! Turning packets into frames and frames back into packets.
use crate::errors::Error;
use crate::packet::{
    data_bytes, frame_bytes, header_bytes, opt_data_view, opt_text_bytes, opt_text_view,
    payload_bytes, payload_len, type_code, Data, DataModel, PacketModel, PacketType, TcpPacket,
    HEADER_LEN, PROTOCOL_VERSION,
};
use crate::wire::{
    at, lemma_at_concat, lemma_int_bytes_len, lemma_text_unique, lemma_u32_bytes_injective,
    push_u32, read_text, read_u32, text_bytes,
};
use vstd::bytes::*;
use vstd::prelude::*;

verus! {

/// The frame of `packet`, field by field in declaration order.
pub fn serialize_packet_bytes(packet: &TcpPacket) -> (r: Vec<u8>)
    ensures
        r@ == frame_bytes(packet@),
{
    let mut out: Vec<u8> = Vec::new();
    out.push(packet.version);
    out.push(packet.packet_type.code());
    push_u32(&mut out, packet.seq_num);
    push_u32(&mut out, packet.ack_num);
    out.push(packet.length);
    match &packet.data {
        Some(d) => {
            out.push(1u8);
            let body = d.encode();
            crate::wire::push_bytes(&mut out, body.as_slice());
        },
        None => {
            out.push(0u8);
        },
    }
    proof {
        assert(out@ =~= frame_bytes(packet@));
    }
    out
}

/// At a given position of a buffer that fits in memory, at most one optional
/// text can start.
proof fn lemma_opt_text_unique(b: Seq<u8>, pos: int, s: Option<Seq<char>>, t: Option<Seq<char>>)
    requires
        b.len() <= u64::MAX,
        at(b, pos, opt_text_bytes(s)),
        at(b, pos, opt_text_bytes(t)),
    ensures
        s == t,
{
    match (s, t) {
        (Some(x), Some(y)) => {
            lemma_at_concat(b, pos, seq![1u8], text_bytes(x));
            lemma_at_concat(b, pos, seq![1u8], text_bytes(y));
            lemma_text_unique(b, pos + 1, x, y);
        },
        (Some(x), None) => {
            assert(b.subrange(pos, pos + 1)[0] == b[pos]);
            assert(opt_text_bytes(s)[0] == 1u8);
        },
        (None, Some(y)) => {
            assert(b.subrange(pos, pos + 1)[0] == b[pos]);
            assert(opt_text_bytes(t)[0] == 1u8);
        },
        (None, None) => {},
    }
}

/// At a given position of a buffer that fits in memory, at most one payload
/// encoding can start.
proof fn lemma_data_unique(b: Seq<u8>, pos: int, d: DataModel, e: DataModel)
    requires
        b.len() <= u64::MAX,
        at(b, pos, data_bytes(d)),
        at(b, pos, data_bytes(e)),
    ensures
        d == e,
{
    let d1 = opt_text_bytes(d.content);
    let d2 = text_bytes(d.source_addr);
    let d3 = text_bytes(d.target_addr);
    let e1 = opt_text_bytes(e.content);
    let e2 = text_bytes(e.source_addr);
    let e3 = text_bytes(e.target_addr);
    lemma_at_concat(b, pos, d1 + d2, d3);
    lemma_at_concat(b, pos, d1, d2);
    lemma_at_concat(b, pos, e1 + e2, e3);
    lemma_at_concat(b, pos, e1, e2);
    lemma_opt_text_unique(b, pos, d.content, e.content);
    lemma_text_unique(b, pos + d1.len(), d.source_addr, e.source_addr);
    lemma_text_unique(b, pos + d1.len() + d2.len(), d.target_addr, e.target_addr);
}

/// At a given position of a buffer that fits in memory, at most one payload
/// slot can start.
proof fn lemma_payload_unique(b: Seq<u8>, pos: int, d: Option<DataModel>, e: Option<DataModel>)
    requires
        b.len() <= u64::MAX,
        at(b, pos, payload_bytes(d)),
        at(b, pos, payload_bytes(e)),
    ensures
        d == e,
{
    match (d, e) {
        (Some(x), Some(y)) => {
            lemma_at_concat(b, pos, seq![1u8], data_bytes(x));
            lemma_at_concat(b, pos, seq![1u8], data_bytes(y));
            lemma_data_unique(b, pos + 1, x, y);
        },
        (Some(x), None) => {
            assert(b.subrange(pos, pos + 1)[0] == b[pos]);
            assert(payload_bytes(d)[0] == 1u8);
        },
        (None, Some(y)) => {
            assert(b.subrange(pos, pos + 1)[0] == b[pos]);
            assert(payload_bytes(e)[0] == 1u8);
        },
        (None, None) => {},
    }
}

/// Where each field of a frame stands.
proof fn lemma_frame_parts(p: PacketModel)
    ensures
        header_bytes(p).len() == HEADER_LEN,
        frame_bytes(p).len() == HEADER_LEN + payload_bytes(p.data).len(),
        frame_bytes(p)[0] == p.version,
        frame_bytes(p)[1] == type_code(p.packet_type),
        at(frame_bytes(p), 2, spec_u32_to_le_bytes(p.seq_num)),
        at(frame_bytes(p), 6, spec_u32_to_le_bytes(p.ack_num)),
        frame_bytes(p)[10] == p.length,
        at(frame_bytes(p), HEADER_LEN as int, payload_bytes(p.data)),
{
    lemma_int_bytes_len(p.seq_num, 0);
    lemma_int_bytes_len(p.ack_num, 0);
    let f = frame_bytes(p);
    assert(f.subrange(2, 6) =~= spec_u32_to_le_bytes(p.seq_num));
    assert(f.subrange(6, 10) =~= spec_u32_to_le_bytes(p.ack_num));
    assert(f.subrange(11, 11 + payload_bytes(p.data).len() as int) =~= payload_bytes(p.data));
}

/// Frames of packets tell the packets apart.
proof fn lemma_frame_injective(p: PacketModel, q: PacketModel)
    requires
        frame_bytes(p).len() <= u64::MAX,
        frame_bytes(p) == frame_bytes(q),
    ensures
        p == q,
{
    let f = frame_bytes(p);
    lemma_frame_parts(p);
    lemma_frame_parts(q);
    lemma_int_bytes_len(p.seq_num, 0);
    lemma_int_bytes_len(q.seq_num, 0);
    lemma_int_bytes_len(p.ack_num, 0);
    lemma_int_bytes_len(q.ack_num, 0);
    assert(f.subrange(2, 6) == spec_u32_to_le_bytes(p.seq_num));
    assert(f.subrange(2, 6) == spec_u32_to_le_bytes(q.seq_num));
    lemma_u32_bytes_injective(p.seq_num, q.seq_num);
    assert(f.subrange(6, 10) == spec_u32_to_le_bytes(p.ack_num));
    assert(f.subrange(6, 10) == spec_u32_to_le_bytes(q.ack_num));
    lemma_u32_bytes_injective(p.ack_num, q.ack_num);
    lemma_payload_unique(f, HEADER_LEN as int, p.data, q.data);
    assert(type_code(p.packet_type) == type_code(q.packet_type));
}

/// Reads the optional text that starts at `pos`.
fn read_opt_text(b: &[u8], pos: usize) -> (r: Option<(Option<String>, usize)>)
    requires
        pos <= b@.len(),
    ensures
        match r {
            Some((o, end)) => end == pos + opt_text_bytes(opt_text_view(o)).len() && at(
                b@,
                pos as int,
                opt_text_bytes(opt_text_view(o)),
            ),
            None => forall|o: Option<Seq<char>>| !at(b@, pos as int, #[trigger] opt_text_bytes(o)),
        },
{
    if pos >= b.len() {
        return None;
    }
    let tag = b[pos];
    if tag == 0 {
        proof {
            assert(b@.subrange(pos as int, pos + 1) =~= seq![0u8]);
        }
        Some((None, pos + 1))
    } else if tag == 1 {
        match read_text(b, pos + 1) {
            Some((s, end)) => {
                proof {
                    assert(b@.subrange(pos as int, pos + 1) =~= seq![1u8]);
                    lemma_at_concat(b@, pos as int, seq![1u8], text_bytes(s@));
                }
                Some((Some(s), end))
            },
            None => {
                proof {
                    assert forall|o: Option<Seq<char>>| !at(b@, pos as int, #[trigger] opt_text_bytes(o)) by {
                        if let Some(x) = o {
                            lemma_at_concat(b@, pos as int, seq![1u8], text_bytes(x));
                        } else {
                            assert(b@.subrange(pos as int, pos + 1)[0] == b@[pos as int]);
                        }
                    }
                }
                None
            },
        }
    } else {
        proof {
            assert forall|o: Option<Seq<char>>| !at(b@, pos as int, #[trigger] opt_text_bytes(o)) by {
                assert(opt_text_bytes(o)[0] == 0u8 || opt_text_bytes(o)[0] == 1u8);
                assert(b@.subrange(pos as int, pos + 1)[0] == b@[pos as int]);
            }
        }
        None
    }
}

/// Reads the payload encoding that starts at `pos`.
fn read_data(b: &[u8], pos: usize) -> (r: Option<(Data, usize)>)
    requires
        pos <= b@.len(),
    ensures
        match r {
            Some((d, end)) => end == pos + data_bytes(d@).len() && at(b@, pos as int, data_bytes(d@)),
            None => b@.len() > u64::MAX || forall|d: DataModel| !at(b@, pos as int, #[trigger] data_bytes(d)),
        },
{
    let (content, end1) = match read_opt_text(b, pos) {
        Some(x) => x,
        None => {
            proof {
                assert forall|d: DataModel| !at(b@, pos as int, #[trigger] data_bytes(d)) by {
                    let d1 = opt_text_bytes(d.content);
                    let d2 = text_bytes(d.source_addr);
                    let d3 = text_bytes(d.target_addr);
                    lemma_at_concat(b@, pos as int, d1 + d2, d3);
                    lemma_at_concat(b@, pos as int, d1, d2);
                }
            }
            return None;
        },
    };
    let (source_addr, end2) = match read_text(b, end1) {
        Some(x) => x,
        None => {
            proof {
                assert forall|d: DataModel| b@.len() <= u64::MAX implies !at(b@, pos as int, #[trigger] data_bytes(d)) by {
                    let d1 = opt_text_bytes(d.content);
                    let d2 = text_bytes(d.source_addr);
                    let d3 = text_bytes(d.target_addr);
                    lemma_at_concat(b@, pos as int, d1 + d2, d3);
                    lemma_at_concat(b@, pos as int, d1, d2);
                    if at(b@, pos as int, data_bytes(d)) {
                        lemma_opt_text_unique(b@, pos as int, d.content, opt_text_view(content));
                    }
                }
            }
            return None;
        },
    };
    let (target_addr, end3) = match read_text(b, end2) {
        Some(x) => x,
        None => {
            proof {
                assert forall|d: DataModel| b@.len() <= u64::MAX implies !at(b@, pos as int, #[trigger] data_bytes(d)) by {
                    let d1 = opt_text_bytes(d.content);
                    let d2 = text_bytes(d.source_addr);
                    let d3 = text_bytes(d.target_addr);
                    lemma_at_concat(b@, pos as int, d1 + d2, d3);
                    lemma_at_concat(b@, pos as int, d1, d2);
                    if at(b@, pos as int, data_bytes(d)) {
                        lemma_opt_text_unique(b@, pos as int, d.content, opt_text_view(content));
                        lemma_text_unique(b@, end1 as int, d.source_addr, source_addr@);
                    }
                }
            }
            return None;
        },
    };
    let d = Data { content, source_addr, target_addr };
    proof {
        let d1 = opt_text_bytes(d@.content);
        let d2 = text_bytes(d@.source_addr);
        let d3 = text_bytes(d@.target_addr);
        lemma_at_concat(b@, pos as int, d1, d2);
        lemma_at_concat(b@, pos as int, d1 + d2, d3);
    }
    Some((d, end3))
}

/// Reads the payload slot that starts at `pos`.
fn read_payload(b: &[u8], pos: usize) -> (r: Option<(Option<Data>, usize)>)
    requires
        pos <= b@.len(),
    ensures
        match r {
            Some((o, end)) => end == pos + payload_bytes(opt_data_view(o)).len() && at(
                b@,
                pos as int,
                payload_bytes(opt_data_view(o)),
            ),
            None => b@.len() > u64::MAX || forall|o: Option<DataModel>| !at(b@, pos as int, #[trigger] payload_bytes(o)),
        },
{
    if pos >= b.len() {
        return None;
    }
    let tag = b[pos];
    if tag == 0 {
        proof {
            assert(b@.subrange(pos as int, pos + 1) =~= seq![0u8]);
        }
        Some((None, pos + 1))
    } else if tag == 1 {
        match read_data(b, pos + 1) {
            Some((d, end)) => {
                proof {
                    assert(b@.subrange(pos as int, pos + 1) =~= seq![1u8]);
                    lemma_at_concat(b@, pos as int, seq![1u8], data_bytes(d@));
                }
                Some((Some(d), end))
            },
            None => {
                proof {
                    assert forall|o: Option<DataModel>| b@.len() <= u64::MAX implies !at(b@, pos as int, #[trigger] payload_bytes(o)) by {
                        if let Some(x) = o {
                            lemma_at_concat(b@, pos as int, seq![1u8], data_bytes(x));
                        } else {
                            assert(b@.subrange(pos as int, pos + 1)[0] == b@[pos as int]);
                        }
                    }
                }
                None
            },
        }
    } else {
        proof {
            assert forall|o: Option<DataModel>| !at(b@, pos as int, #[trigger] payload_bytes(o)) by {
                assert(payload_bytes(o)[0] == 0u8 || payload_bytes(o)[0] == 1u8);
                assert(b@.subrange(pos as int, pos + 1)[0] == b@[pos as int]);
            }
        }
        None
    }
}


/// A piece that stands inside a frame at the front of `b` stands in `b`.
proof fn lemma_at_inside(b: Seq<u8>, f: Seq<u8>, k: int, x: Seq<u8>)
    requires
        at(b, 0, f),
        at(f, k, x),
    ensures
        at(b, k, x),
{
    assert(b.subrange(k, k + x.len()) =~= f.subrange(k, k + x.len()));
}

/// Where each field of a frame at the front of `b` stands in `b`.
proof fn lemma_frame_prefix_parts(b: Seq<u8>, q: PacketModel)
    requires
        at(b, 0, frame_bytes(q)),
    ensures
        b.len() >= frame_bytes(q).len(),
        b.len() >= HEADER_LEN,
        b[0] == q.version,
        b[1] == type_code(q.packet_type),
        at(b, 2, spec_u32_to_le_bytes(q.seq_num)),
        at(b, 6, spec_u32_to_le_bytes(q.ack_num)),
        b[10] == q.length,
        at(b, HEADER_LEN as int, payload_bytes(q.data)),
{
    let f = frame_bytes(q);
    lemma_frame_parts(q);
    assert(b.subrange(0, f.len() as int)[0] == b[0]);
    assert(b.subrange(0, f.len() as int)[1] == b[1]);
    assert(b.subrange(0, f.len() as int)[10] == b[10]);
    lemma_at_inside(b, f, 2, spec_u32_to_le_bytes(q.seq_num));
    lemma_at_inside(b, f, 6, spec_u32_to_le_bytes(q.ack_num));
    lemma_at_inside(b, f, HEADER_LEN as int, payload_bytes(q.data));
}

/// The frame at the front of a buffer is determined: two packets whose frames
/// both start a buffer that fits in memory are the same packet.
pub proof fn lemma_frame_prefix_unique(b: Seq<u8>, p: PacketModel, q: PacketModel)
    requires
        b.len() <= usize::MAX,
        at(b, 0, frame_bytes(p)),
        at(b, 0, frame_bytes(q)),
    ensures
        p == q,
{
    lemma_frame_prefix_parts(b, p);
    lemma_frame_prefix_parts(b, q);
    lemma_int_bytes_len(p.seq_num, 0);
    lemma_int_bytes_len(q.seq_num, 0);
    lemma_int_bytes_len(p.ack_num, 0);
    lemma_int_bytes_len(q.ack_num, 0);
    assert(b.subrange(2, 6) == spec_u32_to_le_bytes(p.seq_num));
    assert(b.subrange(2, 6) == spec_u32_to_le_bytes(q.seq_num));
    lemma_u32_bytes_injective(p.seq_num, q.seq_num);
    assert(b.subrange(6, 10) == spec_u32_to_le_bytes(p.ack_num));
    assert(b.subrange(6, 10) == spec_u32_to_le_bytes(q.ack_num));
    lemma_u32_bytes_injective(p.ack_num, q.ack_num);
    lemma_payload_unique(b, HEADER_LEN as int, p.data, q.data);
    assert(type_code(p.packet_type) == type_code(q.packet_type));
}

/// Reads the frame at the front of `b`, whatever its version and length field
/// say, with the number of bytes it takes.
fn parse_frame_prefix(b: &[u8]) -> (r: Option<(TcpPacket, usize)>)
    ensures
        match r {
            Some((p, n)) => n == frame_bytes(p@).len() && at(b@, 0, frame_bytes(p@)),
            None => forall|q: PacketModel| !at(b@, 0, #[trigger] frame_bytes(q)),
        },
{
    let n = b.len();
    if n < HEADER_LEN {
        proof {
            assert forall|q: PacketModel| !at(b@, 0, #[trigger] frame_bytes(q)) by {
                if at(b@, 0, frame_bytes(q)) {
                    lemma_frame_prefix_parts(b@, q);
                }
            }
        }
        return None;
    }
    let version = b[0];
    let packet_type = match PacketType::from_code(b[1]) {
        Some(t) => t,
        None => {
            proof {
                assert forall|q: PacketModel| !at(b@, 0, #[trigger] frame_bytes(q)) by {
                    if at(b@, 0, frame_bytes(q)) {
                        lemma_frame_prefix_parts(b@, q);
                    }
                }
            }
            return None;
        },
    };
    let seq_num = match read_u32(b, 2) {
        Some(x) => x,
        None => {
            return None;
        },
    };
    let ack_num = match read_u32(b, 6) {
        Some(x) => x,
        None => {
            return None;
        },
    };
    let length = b[10];
    let (data, end) = match read_payload(b, HEADER_LEN) {
        Some(x) => x,
        None => {
            proof {
                assert forall|q: PacketModel| !at(b@, 0, #[trigger] frame_bytes(q)) by {
                    if at(b@, 0, frame_bytes(q)) {
                        lemma_frame_prefix_parts(b@, q);
                    }
                }
            }
            return None;
        },
    };
    let p = TcpPacket { version, packet_type, seq_num, ack_num, length, data };
    proof {
        let pm = p@;
        lemma_int_bytes_len(seq_num, 0);
        lemma_int_bytes_len(ack_num, 0);
        let h0 = seq![version, type_code(packet_type)];
        let h1 = spec_u32_to_le_bytes(seq_num);
        let h2 = spec_u32_to_le_bytes(ack_num);
        let h3 = seq![length];
        assert(b@.subrange(0, 2) =~= h0);
        assert(b@.subrange(10, 11) =~= h3);
        lemma_at_concat(b@, 0, h0, h1);
        lemma_at_concat(b@, 0, h0 + h1, h2);
        lemma_at_concat(b@, 0, h0 + h1 + h2, h3);
        assert(header_bytes(pm) == h0 + h1 + h2 + h3);
        lemma_at_concat(b@, 0, header_bytes(pm), payload_bytes(pm.data));
    }
    Some((p, end))
}

/// Decodes the frame at the front of `buf`, returning the packet and the
/// number of bytes that its frame takes; the bytes after it are left alone.
/// It succeeds exactly when the frame of a well-formed packet starts `buf`
/// (current version, length field equal to the size of the encoded payload);
/// all else is `MalformedPacket`.
pub fn decode_frame(buf: &[u8]) -> (r: Result<(TcpPacket, usize), Error>)
    ensures
        match r {
            Ok((p, n)) => p@.well_formed() && n == frame_bytes(p@).len() && at(
                buf@,
                0,
                frame_bytes(p@),
            ),
            Err(e) => e == Error::MalformedPacket && forall|q: PacketModel|
                #[trigger] q.well_formed() ==> !at(buf@, 0, frame_bytes(q)),
        },
{
    // the length of a slice fits in usize, which the uniqueness lemma needs
    let _len = buf.len();
    match parse_frame_prefix(buf) {
        None => Err(Error::MalformedPacket),
        Some((p, n)) => {
            let expected: usize = match &p.data {
                None => 0,
                Some(d) => d.encode().len(),
            };
            if p.version != PROTOCOL_VERSION || p.length as usize != expected {
                proof {
                    assert forall|q: PacketModel| #[trigger] q.well_formed() implies !at(buf@, 0, frame_bytes(q)) by {
                        if at(buf@, 0, frame_bytes(q)) {
                            lemma_frame_prefix_unique(buf@, p@, q);
                        }
                    }
                }
                Err(Error::MalformedPacket)
            } else {
                Ok((p, n))
            }
        },
    }
}

/// Decodes one frame into a packet. Exactly the frames of well-formed packets
/// are accepted (current version, length field equal to the size of the
/// encoded payload, no bytes before or after); all else is `MalformedPacket`.
pub fn deserialize_packet_bytes(buf: &[u8]) -> (r: Result<TcpPacket, Error>)
    ensures
        match r {
            Ok(p) => p@.well_formed() && frame_bytes(p@) == buf@,
            Err(e) => e == Error::MalformedPacket && forall|q: PacketModel|
                #[trigger] q.well_formed() ==> frame_bytes(q) != buf@,
        },
{
    let len = buf.len();
    proof {
        assert(buf@.subrange(0, buf@.len() as int) =~= buf@);
    }
    match decode_frame(buf) {
        Ok((p, n)) => {
            if n == len {
                Ok(p)
            } else {
                proof {
                    assert forall|q: PacketModel| #[trigger] q.well_formed() implies frame_bytes(q) != buf@ by {
                        if frame_bytes(q) == buf@ {
                            lemma_frame_prefix_unique(buf@, p@, q);
                        }
                    }
                }
                Err(Error::MalformedPacket)
            }
        },
        Err(e) => Err(e),
    }
}

/// Round trip: the frame of a well-formed packet decodes to that packet and to
/// no other, since well-formed packets with equal frames are equal.
pub proof fn lemma_round_trip(p: PacketModel)
    requires
        p.well_formed(),
    ensures
        forall|q: PacketModel| #[trigger] q.well_formed() && frame_bytes(q) == frame_bytes(p) <==> q == p,
{
    lemma_frame_parts(p);
    assert forall|q: PacketModel| #[trigger] q.well_formed() && frame_bytes(q) == frame_bytes(p) implies q == p by {
        lemma_frame_injective(p, q);
    }
}

/// Length check: a frame whose length field differs from the size of its
/// payload is the frame of no well-formed packet, so decoding rejects it.
pub proof fn lemma_length_mismatch_rejected(p: PacketModel)
    requires
        p.length as nat != payload_len(p.data),
        frame_bytes(p).len() <= usize::MAX,
    ensures
        forall|q: PacketModel| #[trigger] q.well_formed() ==> frame_bytes(q) != frame_bytes(p),
{
    assert forall|q: PacketModel| #[trigger] q.well_formed() implies frame_bytes(q) != frame_bytes(p) by {
        if frame_bytes(q) == frame_bytes(p) {
            lemma_frame_injective(p, q);
        }
    }
}

/// Version gate: bytes that start with another version than this
/// implementation's are the frame of no well-formed packet, so decoding
/// rejects them.
pub proof fn lemma_version_gate(b: Seq<u8>)
    requires
        b.len() > 0,
        b[0] != PROTOCOL_VERSION,
    ensures
        forall|q: PacketModel| #[trigger] q.well_formed() ==> frame_bytes(q) != b,
{
    assert forall|q: PacketModel| #[trigger] q.well_formed() implies frame_bytes(q) != b by {
        lemma_frame_parts(q);
    }
}

} // verus!
