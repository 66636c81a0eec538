use vstd::prelude::*;
use crate::consts::{MESSAGE_HEADER_SIZE, PROTOCOL_VERSION};

verus! {

/// Big-endian encoding of a 32-bit integer.
pub open spec fn be32(x: u32) -> Seq<u8> {
    seq![(x >> 24u32) as u8, (x >> 16u32) as u8, (x >> 8u32) as u8, x as u8]
}

/// The 32-bit integer whose big-endian encoding is `b0 b1 b2 b3`.
pub open spec fn be32_value(b0: u8, b1: u8, b2: u8, b3: u8) -> u32 {
    ((b0 as u32) << 24u32) | ((b1 as u32) << 16u32) | ((b2 as u32) << 8u32) | (b3 as u32)
}

/// The fixed 20-byte header that starts every frame.
#[derive(Debug, Clone, Copy, PartialEq, Eq, Structural)]
pub struct MessageHeader {
    /// Protocol version.
    pub version: u8,
    /// Frame kind: START, DATA, END, ACK, ERROR or ALL_END.
    pub msg_type: u8,
    /// Identifier of the stream that the frame belongs to.
    pub message_id: u32,
    /// Declared size of the whole payload of the stream.
    pub total_size: u32,
    /// Index of this chunk, from 0.
    pub chunk_index: u32,
    /// Number of chunks of the stream.
    pub chunk_count: u32,
    /// Carries the command code on START frames.
    pub reserved: u8,
    /// 8-bit wrapping sum of the body bytes.
    pub checksum: u8,
}

/// The wire image of a header: its fields in order, integers big-endian.
pub open spec fn header_bytes(h: MessageHeader) -> Seq<u8> {
    seq![h.version, h.msg_type] + be32(h.message_id) + be32(h.total_size) + be32(h.chunk_index)
        + be32(h.chunk_count) + seq![h.reserved, h.checksum]
}

/// The header that the first 20 bytes of `b` describe.
pub open spec fn header_from(b: Seq<u8>) -> MessageHeader
    recommends
        b.len() >= 20,
{
    MessageHeader {
        version: b[0],
        msg_type: b[1],
        message_id: be32_value(b[2], b[3], b[4], b[5]),
        total_size: be32_value(b[6], b[7], b[8], b[9]),
        chunk_index: be32_value(b[10], b[11], b[12], b[13]),
        chunk_count: be32_value(b[14], b[15], b[16], b[17]),
        reserved: b[18],
        checksum: b[19],
    }
}

proof fn lemma_be32_decode_encode(x: u32)
    ensures
        be32_value((x >> 24u32) as u8, (x >> 16u32) as u8, (x >> 8u32) as u8, x as u8) == x,
{
    assert((((((x >> 24u32) as u8) as u32) << 24u32) | ((((x >> 16u32) as u8) as u32) << 16u32)
        | ((((x >> 8u32) as u8) as u32) << 8u32) | ((x as u8) as u32)) == x) by (bit_vector);
}

proof fn lemma_be32_encode_decode(b0: u8, b1: u8, b2: u8, b3: u8)
    ensures
        be32(be32_value(b0, b1, b2, b3)) == seq![b0, b1, b2, b3],
{
    let x = be32_value(b0, b1, b2, b3);
    assert(x == ((b0 as u32) << 24u32) | ((b1 as u32) << 16u32) | ((b2 as u32) << 8u32) | (
    b3 as u32));
    assert((x >> 24u32) as u8 == b0 && (x >> 16u32) as u8 == b1 && (x >> 8u32) as u8 == b2
        && x as u8 == b3) by (bit_vector)
        requires
            x == ((b0 as u32) << 24u32) | ((b1 as u32) << 16u32) | ((b2 as u32) << 8u32) | (
            b3 as u32),
    ;
    assert(be32(x) =~= seq![b0, b1, b2, b3]);
}

/// Decoding the encoding of any header gives that header back.
pub proof fn lemma_header_round_trip(h: MessageHeader)
    ensures
        header_bytes(h).len() == 20,
        header_from(header_bytes(h)) == h,
{
    lemma_be32_decode_encode(h.message_id);
    lemma_be32_decode_encode(h.total_size);
    lemma_be32_decode_encode(h.chunk_index);
    lemma_be32_decode_encode(h.chunk_count);
    let b = header_bytes(h);
    assert(b[2] == (h.message_id >> 24u32) as u8);
    assert(b[6] == (h.total_size >> 24u32) as u8);
    assert(b[10] == (h.chunk_index >> 24u32) as u8);
    assert(b[14] == (h.chunk_count >> 24u32) as u8);
}

/// Encoding the header read from at least 20 bytes gives those 20 bytes back.
pub proof fn lemma_bytes_round_trip(b: Seq<u8>)
    requires
        b.len() >= 20,
    ensures
        header_bytes(header_from(b)) == b.subrange(0, 20),
{
    lemma_be32_encode_decode(b[2], b[3], b[4], b[5]);
    lemma_be32_encode_decode(b[6], b[7], b[8], b[9]);
    lemma_be32_encode_decode(b[10], b[11], b[12], b[13]);
    lemma_be32_encode_decode(b[14], b[15], b[16], b[17]);
    assert(header_bytes(header_from(b)) =~= b.subrange(0, 20));
}

fn push_be32(out: &mut Vec<u8>, x: u32)
    ensures
        final(out)@ == old(out)@ + be32(x),
{
    out.push((x >> 24u32) as u8);
    out.push((x >> 16u32) as u8);
    out.push((x >> 8u32) as u8);
    out.push(x as u8);
    assert(out@ =~= old(out)@ + be32(x));
}

impl MessageHeader {
    /// The header that `new` builds.
    pub open spec fn new_spec(msg_type: u8, total_size: u32, chunk_index: u32, chunk_count: u32) -> MessageHeader {
        MessageHeader {
            version: PROTOCOL_VERSION,
            msg_type,
            message_id: 0,
            total_size,
            chunk_index,
            chunk_count,
            reserved: 0,
            checksum: 0,
        }
    }

    /// A header of the current version, with message id, reserved byte and
    /// checksum zero.
    pub fn new(msg_type: u8, total_size: u32, chunk_index: u32, chunk_count: u32) -> (r: Self)
        ensures
            r == Self::new_spec(msg_type, total_size, chunk_index, chunk_count),
    {
        MessageHeader {
            version: PROTOCOL_VERSION,
            msg_type,
            message_id: 0,
            total_size,
            chunk_index,
            chunk_count,
            reserved: 0,
            checksum: 0,
        }
    }

    /// The 20-byte wire image of the header.
    pub fn to_bytes(&self) -> (r: Vec<u8>)
        ensures
            r@ == header_bytes(*self),
            r@.len() == MESSAGE_HEADER_SIZE,
    {
        let mut bytes: Vec<u8> = Vec::with_capacity(MESSAGE_HEADER_SIZE);
        bytes.push(self.version);
        bytes.push(self.msg_type);
        push_be32(&mut bytes, self.message_id);
        push_be32(&mut bytes, self.total_size);
        push_be32(&mut bytes, self.chunk_index);
        push_be32(&mut bytes, self.chunk_count);
        bytes.push(self.reserved);
        bytes.push(self.checksum);
        assert(bytes@ =~= header_bytes(*self));
        bytes
    }

    /// Reads a header from the first 20 bytes; `None` when fewer are given.
    pub fn from_bytes(bytes: &[u8]) -> (r: Option<Self>)
        ensures
            r is None <==> bytes@.len() < MESSAGE_HEADER_SIZE,
            r matches Some(h) ==> h == header_from(bytes@),
    {
        if bytes.len() < MESSAGE_HEADER_SIZE {
            return None;
        }
        Some(
            MessageHeader {
                version: bytes[0],
                msg_type: bytes[1],
                message_id: read_be32(bytes, 2),
                total_size: read_be32(bytes, 6),
                chunk_index: read_be32(bytes, 10),
                chunk_count: read_be32(bytes, 14),
                reserved: bytes[18],
                checksum: bytes[19],
            },
        )
    }

    pub fn set_message_id(&mut self, msg_id: u32)
        ensures
            *final(self) == (MessageHeader { message_id: msg_id, ..*old(self) }),
    {
        self.message_id = msg_id;
    }

    pub fn set_reserved(&mut self, reserved: u8)
        ensures
            *final(self) == (MessageHeader { reserved, ..*old(self) }),
    {
        self.reserved = reserved;
    }
}

fn read_be32(bytes: &[u8], at: usize) -> (r: u32)
    requires
        at + 4 <= bytes@.len(),
    ensures
        r == be32_value(bytes@[at as int], bytes@[at + 1], bytes@[at + 2], bytes@[at + 3]),
{
    ((bytes[at] as u32) << 24u32) | ((bytes[at + 1] as u32) << 16u32) | ((bytes[at + 2] as u32)
        << 8u32) | (bytes[at + 3] as u32)
}

} // verus!
