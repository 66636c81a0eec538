use vstd::prelude::*;
use crate::checksum::{calculate_checksum, checksum_of};
use crate::consts::{MAX_MESSAGE_BODY_SIZE, MESSAGE_HEADER_SIZE};
use crate::error::TransferError;
use crate::header::{header_bytes, header_from, MessageHeader};

verus! {

/// One frame: a header and a body of zero or more bytes.
#[derive(Clone)]
pub struct MessagePacket {
    /// The fixed 20-byte header.
    pub header: MessageHeader,
    /// The body; present on DATA frames only.
    pub body: Vec<u8>,
}

/// The wire image of a frame: header bytes, then the body bytes verbatim.
pub open spec fn packet_bytes(header: MessageHeader, body: Seq<u8>) -> Seq<u8> {
    header_bytes(header) + body
}

/// Reading back the wire image of a frame gives its header and body.
pub proof fn lemma_packet_round_trip(header: MessageHeader, body: Seq<u8>)
    ensures
        packet_bytes(header, body).len() >= MESSAGE_HEADER_SIZE,
        header_from(packet_bytes(header, body)) == header,
        packet_bytes(header, body).subrange(20, packet_bytes(header, body).len() as int) == body,
{
    let b = packet_bytes(header, body);
    crate::header::lemma_header_round_trip(header);
    assert(b.subrange(0, 20) =~= header_bytes(header));
    assert(header_from(b) == header_from(b.subrange(0, 20)));
    assert(b.subrange(20, b.len() as int) =~= body);
}

/// The smaller of two integers.
pub open spec fn min_int(a: int, b: int) -> int {
    if a <= b {
        a
    } else {
        b
    }
}

/// Copies `src[start..end]` into a fresh vector.
fn copy_range(src: &[u8], start: usize, end: usize) -> (r: Vec<u8>)
    requires
        start <= end <= src@.len(),
    ensures
        r@ == src@.subrange(start as int, end as int),
{
    let mut out: Vec<u8> = Vec::with_capacity(end - start);
    let mut i: usize = start;
    while i < end
        invariant
            start <= i <= end <= src@.len(),
            out@ == src@.subrange(start as int, i as int),
        decreases end - i,
    {
        out.push(src[i]);
        i = i + 1;
        assert(out@ =~= src@.subrange(start as int, i as int));
    }
    out
}

impl MessagePacket {
    /// A header-only frame of the given kind and chunk fields.
    pub fn new(msg_type: u8, total_size: u32, chunk_index: u32, chunk_count: u32) -> (r: Self)
        ensures
            r.header == MessageHeader::new_spec(msg_type, total_size, chunk_index, chunk_count),
            r.body@ == Seq::<u8>::empty(),
    {
        MessagePacket {
            header: MessageHeader::new(msg_type, total_size, chunk_index, chunk_count),
            body: Vec::new(),
        }
    }

    /// Sets the body to the chunk of `src` that starts at `start` and holds
    /// at most `max_body` bytes, and stamps the header with its checksum.
    pub fn from_slice_bounded(&mut self, src: &[u8], start: usize, max_body: usize)
        requires
            start <= src@.len(),
        ensures
            final(self).body@ == src@.subrange(
                start as int,
                min_int(start + max_body, src@.len() as int),
            ),
            final(self).header == (MessageHeader {
                checksum: checksum_of(final(self).body@),
                ..old(self).header
            }),
    {
        let end = if src.len() - start > max_body {
            start + max_body
        } else {
            src.len()
        };
        self.body = copy_range(src, start, end);
        self.header.checksum = calculate_checksum(self.body.as_slice());
    }

    /// Sets the body to the chunk of `src` that starts at `start` and holds
    /// at most one full body of bytes, and stamps the header with its checksum.
    pub fn from_slice(&mut self, src: &[u8], start: usize)
        requires
            start <= src@.len(),
        ensures
            final(self).body@ == src@.subrange(
                start as int,
                min_int(start + MAX_MESSAGE_BODY_SIZE, src@.len() as int),
            ),
            final(self).header == (MessageHeader {
                checksum: checksum_of(final(self).body@),
                ..old(self).header
            }),
    {
        self.from_slice_bounded(src, start, MAX_MESSAGE_BODY_SIZE);
    }

    /// The wire image: the header bytes followed by the body, which adds
    /// nothing when empty.
    pub fn to_bytes(&self) -> (r: Vec<u8>)
        ensures
            r@ == packet_bytes(self.header, self.body@),
    {
        let mut bytes = self.header.to_bytes();
        if self.body.len() == 0 {
            assert(bytes@ =~= packet_bytes(self.header, self.body@));
            return bytes;
        }
        bytes.extend_from_slice(self.body.as_slice());
        assert(bytes@ =~= packet_bytes(self.header, self.body@));
        bytes
    }

    /// Reads a frame: the header from the first 20 bytes and every further
    /// byte as the body, unchecked against the header's fields. Fails with
    /// `DecodeError` on fewer than 20 bytes.
    pub fn from_bytes(bytes: &[u8]) -> (r: Result<Self, TransferError>)
        ensures
            bytes@.len() < MESSAGE_HEADER_SIZE ==> r == Err::<Self, TransferError>(
                TransferError::DecodeError,
            ),
            bytes@.len() >= MESSAGE_HEADER_SIZE ==> (r matches Ok(p) && p.header == header_from(
                bytes@,
            ) && p.body@ == bytes@.subrange(20, bytes@.len() as int)),
    {
        let header = match MessageHeader::from_bytes(bytes) {
            Some(h) => h,
            None => {
                return Err(TransferError::DecodeError);
            },
        };
        if bytes.len() == MESSAGE_HEADER_SIZE {
            assert(bytes@.subrange(20, 20) =~= Seq::<u8>::empty());
            return Ok(MessagePacket { header, body: Vec::new() });
        }
        let body = copy_range(bytes, MESSAGE_HEADER_SIZE, bytes.len());
        Ok(MessagePacket { header, body })
    }

    /// Length of the wire image: 20 header bytes plus the body.
    pub fn get_len(&self) -> (r: usize)
        requires
            self.body@.len() + MESSAGE_HEADER_SIZE <= usize::MAX,
        ensures
            r == MESSAGE_HEADER_SIZE + self.body@.len(),
            r == packet_bytes(self.header, self.body@).len(),
    {
        proof {
            crate::header::lemma_header_round_trip(self.header);
        }
        MESSAGE_HEADER_SIZE + self.body.len()
    }
}

} // verus!
