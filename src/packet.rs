use crate::errors::Error;
use crate::wire::{push_text, text_bytes};
use vstd::bytes::*;
use vstd::prelude::*;

verus! {

/// The kind of a frame. Handshake frames (`Syn`, `SynAck`, `Ack`, `Fin`) and
/// keepalive frames (`Echo`, `Data`, `Disconnect`) share one set.
#[derive(Debug, Clone, Copy, PartialEq, Eq, Structural)]
pub enum PacketType {
    Echo,
    Data,
    Disconnect,
    Dummy,
    Syn,
    SynAck,
    Ack,
    Fin,
}

/// The byte that stands for a packet type on the wire.
pub open spec fn type_code(t: PacketType) -> u8 {
    match t {
        PacketType::Echo => 0,
        PacketType::Data => 1,
        PacketType::Disconnect => 2,
        PacketType::Dummy => 3,
        PacketType::Syn => 4,
        PacketType::SynAck => 5,
        PacketType::Ack => 6,
        PacketType::Fin => 7,
    }
}

impl PacketType {
    /// The wire byte of this packet type.
    pub fn code(&self) -> (r: u8)
        ensures
            r == type_code(*self),
    {
        match self {
            PacketType::Echo => 0,
            PacketType::Data => 1,
            PacketType::Disconnect => 2,
            PacketType::Dummy => 3,
            PacketType::Syn => 4,
            PacketType::SynAck => 5,
            PacketType::Ack => 6,
            PacketType::Fin => 7,
        }
    }

    /// The packet type whose wire byte is `c`, if any.
    pub fn from_code(c: u8) -> (r: Option<PacketType>)
        ensures
            match r {
                Some(t) => type_code(t) == c,
                None => forall|t: PacketType| type_code(t) != c,
            },
    {
        match c {
            0 => Some(PacketType::Echo),
            1 => Some(PacketType::Data),
            2 => Some(PacketType::Disconnect),
            3 => Some(PacketType::Dummy),
            4 => Some(PacketType::Syn),
            5 => Some(PacketType::SynAck),
            6 => Some(PacketType::Ack),
            7 => Some(PacketType::Fin),
            _ => None,
        }
    }
}


/// The protocol version that this implementation speaks.
pub const PROTOCOL_VERSION: u8 = 1;

/// The largest payload, in bytes, that the one-byte length field can declare.
pub const MAX_PAYLOAD_LEN: usize = 255;

/// Application data carried by a `Data` packet: optional text and the labels
/// of its sender and its destination.
#[derive(Debug, Clone, PartialEq, Eq)]
pub struct Data {
    pub content: Option<String>,
    pub source_addr: String,
    pub target_addr: String,
}

/// What a [`Data`] value is: its texts as character sequences.
pub struct DataModel {
    pub content: Option<Seq<char>>,
    pub source_addr: Seq<char>,
    pub target_addr: Seq<char>,
}

/// An optional text as an optional character sequence.
pub open spec fn opt_text_view(o: Option<String>) -> Option<Seq<char>> {
    match o {
        Some(s) => Some(s@),
        None => None,
    }
}

impl View for Data {
    type V = DataModel;

    open spec fn view(&self) -> DataModel {
        DataModel {
            content: opt_text_view(self.content),
            source_addr: self.source_addr@,
            target_addr: self.target_addr@,
        }
    }
}

/// One frame of the protocol.
#[derive(Debug, Clone, PartialEq, Eq)]
pub struct TcpPacket {
    pub version: u8,
    pub packet_type: PacketType,
    pub seq_num: u32,
    pub ack_num: u32,
    /// Byte length of the encoded payload (zero without one).
    pub length: u8,
    pub data: Option<Data>,
}

/// What a [`TcpPacket`] is, with its payload as a [`DataModel`].
pub struct PacketModel {
    pub version: u8,
    pub packet_type: PacketType,
    pub seq_num: u32,
    pub ack_num: u32,
    pub length: u8,
    pub data: Option<DataModel>,
}

/// An optional payload as an optional [`DataModel`].
pub open spec fn opt_data_view(o: Option<Data>) -> Option<DataModel> {
    match o {
        Some(d) => Some(d@),
        None => None,
    }
}

impl View for TcpPacket {
    type V = PacketModel;

    open spec fn view(&self) -> PacketModel {
        PacketModel {
            version: self.version,
            packet_type: self.packet_type,
            seq_num: self.seq_num,
            ack_num: self.ack_num,
            length: self.length,
            data: opt_data_view(self.data),
        }
    }
}

/// An optional text: a presence byte (0 or 1), then the text field if present.
pub open spec fn opt_text_bytes(o: Option<Seq<char>>) -> Seq<u8> {
    match o {
        None => seq![0u8],
        Some(s) => seq![1u8] + text_bytes(s),
    }
}

/// The encoding of a payload: its three fields in order.
pub open spec fn data_bytes(d: DataModel) -> Seq<u8> {
    opt_text_bytes(d.content) + text_bytes(d.source_addr) + text_bytes(d.target_addr)
}

/// The payload slot of a frame: a presence byte, then the payload if present.
pub open spec fn payload_bytes(o: Option<DataModel>) -> Seq<u8> {
    match o {
        None => seq![0u8],
        Some(d) => seq![1u8] + data_bytes(d),
    }
}

/// The size that the length field must declare for a payload slot.
pub open spec fn payload_len(o: Option<DataModel>) -> nat {
    match o {
        None => 0,
        Some(d) => data_bytes(d).len(),
    }
}

/// The fixed header: version, type, sequence and acknowledgment numbers, length.
pub open spec fn header_bytes(p: PacketModel) -> Seq<u8> {
    seq![p.version, type_code(p.packet_type)] + spec_u32_to_le_bytes(p.seq_num)
        + spec_u32_to_le_bytes(p.ack_num) + seq![p.length]
}

/// The frame of a packet: its header, then its payload slot.
pub open spec fn frame_bytes(p: PacketModel) -> Seq<u8> {
    header_bytes(p) + payload_bytes(p.data)
}

/// The number of header bytes before the payload slot.
pub const HEADER_LEN: usize = 11;

impl PacketModel {
    /// A packet that a peer of this version accepts: the current version, and a
    /// length field that equals the size of the encoded payload.
    pub open spec fn well_formed(self) -> bool {
        self.version == PROTOCOL_VERSION && self.length as nat == payload_len(self.data)
    }
}

impl Data {
    /// A payload with the given content and labels.
    pub fn new(content: Option<&str>, source_addr: &str, target_addr: &str) -> (r: Data)
        ensures
            r@.content == match content {
                Some(c) => Some(c@),
                None => None::<Seq<char>>,
            },
            r@.source_addr == source_addr@,
            r@.target_addr == target_addr@,
    {
        let content = match content {
            Some(c) => Some(c.to_owned()),
            None => None,
        };
        Data { content, source_addr: source_addr.to_owned(), target_addr: target_addr.to_owned() }
    }

    /// The encoding of this payload.
    pub fn encode(&self) -> (r: Vec<u8>)
        ensures
            r@ == data_bytes(self@),
    {
        let mut out: Vec<u8> = Vec::new();
        match &self.content {
            Some(c) => {
                out.push(1u8);
                push_text(&mut out, c.as_str());
            },
            None => {
                out.push(0u8);
            },
        }
        push_text(&mut out, self.source_addr.as_str());
        push_text(&mut out, self.target_addr.as_str());
        proof {
            assert(out@ =~= data_bytes(self@));
        }
        out
    }
}


impl Default for TcpPacket {
    /// A placeholder frame of the current version that carries nothing.
    fn default() -> (r: TcpPacket)
        ensures
            r@ == (PacketModel {
                version: PROTOCOL_VERSION,
                packet_type: PacketType::Dummy,
                seq_num: 0,
                ack_num: 0,
                length: 0,
                data: None,
            }),
    {
        TcpPacket::bare(PROTOCOL_VERSION, PacketType::Dummy, 0, 0)
    }
}

impl TcpPacket {
    /// A frame of the given version, type and numbers, without payload.
    pub fn bare(version: u8, packet_type: PacketType, seq_num: u32, ack_num: u32) -> (r: TcpPacket)
        ensures
            r@ == (PacketModel { version, packet_type, seq_num, ack_num, length: 0, data: None }),
    {
        TcpPacket { version, packet_type, seq_num, ack_num, length: 0, data: None }
    }

    /// A keepalive probe (or its reply) of version `v`.
    pub fn echo_packet(v: u8) -> (r: TcpPacket)
        ensures
            r@ == (PacketModel {
                version: v,
                packet_type: PacketType::Echo,
                seq_num: 0,
                ack_num: 0,
                length: 0,
                data: None,
            }),
    {
        TcpPacket::bare(v, PacketType::Echo, 0, 0)
    }

    /// A `Data` packet of version `v` carrying `data`, its length field computed
    /// from the encoded payload. Fails without a payload, or with one too large
    /// for the length field.
    pub fn with_data(v: u8, data: Option<Data>) -> (r: Result<TcpPacket, Error>)
        ensures
            match data {
                None => r == Err::<TcpPacket, Error>(Error::MissingPayload),
                Some(d) => if data_bytes(d@).len() <= MAX_PAYLOAD_LEN {
                    r matches Ok(p) && p@ == (PacketModel {
                        version: v,
                        packet_type: PacketType::Data,
                        seq_num: 0,
                        ack_num: 0,
                        length: data_bytes(d@).len() as u8,
                        data: Some(d@),
                    })
                } else {
                    r == Err::<TcpPacket, Error>(Error::SerializationError)
                },
            },
    {
        match data {
            None => Err(Error::MissingPayload),
            Some(d) => {
                let n = d.encode().len();
                if n > MAX_PAYLOAD_LEN {
                    Err(Error::SerializationError)
                } else {
                    Ok(
                        TcpPacket {
                            version: v,
                            packet_type: PacketType::Data,
                            seq_num: 0,
                            ack_num: 0,
                            length: n as u8,
                            data: Some(d),
                        },
                    )
                }
            },
        }
    }

    /// The frame that ends a connection.
    pub fn disconnect_packet() -> (r: TcpPacket)
        ensures
            r@ == (PacketModel {
                version: PROTOCOL_VERSION,
                packet_type: PacketType::Disconnect,
                seq_num: 0,
                ack_num: 0,
                length: 0,
                data: None,
            }),
    {
        TcpPacket::bare(PROTOCOL_VERSION, PacketType::Disconnect, 0, 0)
    }

    /// The client's opening frame, announcing its initial sequence number.
    pub fn syn_packet(seq: u32) -> (r: TcpPacket)
        ensures
            r@ == (PacketModel {
                version: PROTOCOL_VERSION,
                packet_type: PacketType::Syn,
                seq_num: seq,
                ack_num: 0,
                length: 0,
                data: None,
            }),
    {
        TcpPacket::bare(PROTOCOL_VERSION, PacketType::Syn, seq, 0)
    }

    /// The server's answer to a `Syn`.
    pub fn syn_ack_packet(seq: u32, ack: u32) -> (r: TcpPacket)
        ensures
            r@ == (PacketModel {
                version: PROTOCOL_VERSION,
                packet_type: PacketType::SynAck,
                seq_num: seq,
                ack_num: ack,
                length: 0,
                data: None,
            }),
    {
        TcpPacket::bare(PROTOCOL_VERSION, PacketType::SynAck, seq, ack)
    }

    /// The client's acknowledgment that completes the handshake.
    pub fn ack_packet(seq: u32, ack: u32) -> (r: TcpPacket)
        ensures
            r@ == (PacketModel {
                version: PROTOCOL_VERSION,
                packet_type: PacketType::Ack,
                seq_num: seq,
                ack_num: ack,
                length: 0,
                data: None,
            }),
    {
        TcpPacket::bare(PROTOCOL_VERSION, PacketType::Ack, seq, ack)
    }
}

} // verus!
