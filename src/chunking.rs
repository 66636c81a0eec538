use vstd::prelude::*;
use crate::checksum::checksum_of;
use crate::consts::{MAX_MESSAGE_BODY_SIZE, MSG_TYPE_DATA, PROTOCOL_VERSION};
use crate::header::MessageHeader;
use crate::packet::{min_int, MessagePacket};

verus! {

/// Number of chunks of at most `m` bytes that `len` bytes split into:
/// `len / m` rounded up.
pub open spec fn ceil_div(len: int, m: int) -> int
    recommends
        m > 0,
{
    (len + m - 1) / m
}

/// The bytes that chunk `i` of `data` carries when chunks hold `m` bytes.
pub open spec fn chunk_body(data: Seq<u8>, m: int, i: int) -> Seq<u8> {
    data.subrange(i * m, min_int((i + 1) * m, data.len() as int))
}

/// The header of chunk `i` of `data` when it splits into `count` chunks.
pub open spec fn chunk_header(data: Seq<u8>, i: int, count: int, body: Seq<u8>) -> MessageHeader {
    MessageHeader {
        version: PROTOCOL_VERSION,
        msg_type: MSG_TYPE_DATA,
        message_id: 0,
        total_size: data.len() as u32,
        chunk_index: i as u32,
        chunk_count: count as u32,
        reserved: 0,
        checksum: checksum_of(body),
    }
}

/// `packets` is the ordered DATA chunk sequence of `data` for bodies of at
/// most `m` bytes: `ceil(len / m)` frames, frame `i` carrying bytes
/// `[i*m, min((i+1)*m, len))` with its own checksum, and every frame declaring
/// the same total size and chunk count.
pub open spec fn is_split_of(packets: Seq<MessagePacket>, data: Seq<u8>, m: int) -> bool {
    &&& packets.len() == ceil_div(data.len() as int, m)
    &&& forall|i: int|
        0 <= i < packets.len() ==> {
            &&& (#[trigger] packets[i]).body@ == chunk_body(data, m, i)
            &&& packets[i].header == chunk_header(data, i, packets.len() as int, packets[i].body@)
        }
}

/// The bodies of `packets` concatenated in sequence order.
pub open spec fn combined_bodies(packets: Seq<MessagePacket>) -> Seq<u8>
    decreases packets.len(),
{
    if packets.len() == 0 {
        Seq::empty()
    } else {
        combined_bodies(packets.drop_last()) + packets.last().body@
    }
}

/// Chunk `k` starts inside the data exactly when `k` is below the chunk count.
proof fn lemma_chunk_start(len: int, m: int, k: int)
    requires
        m > 0,
        len >= 0,
        k >= 0,
    ensures
        k < ceil_div(len, m) <==> k * m < len,
        ceil_div(len, m) * m >= len,
        ceil_div(len, m) >= 0,
{
    let q = (len + m - 1) / m;
    let r = (len + m - 1) % m;
    vstd::arithmetic::div_mod::lemma_fundamental_div_mod(len + m - 1, m);
    assert(0 <= r < m) by {
        vstd::arithmetic::div_mod::lemma_mod_bound(len + m - 1, m);
    }
    assert(len + m - 1 == m * q + r);
    assert(q >= 0) by {
        vstd::arithmetic::div_mod::lemma_div_pos_is_pos(len + m - 1, m);
    }
    assert(k < q ==> k * m < len) by (nonlinear_arith)
        requires
            len + m - 1 == m * q + r,
            0 <= r < m,
            m > 0,
    ;
    assert(k >= q ==> k * m >= len) by (nonlinear_arith)
        requires
            len + m - 1 == m * q + r,
            0 <= r < m,
            m > 0,
    ;
    assert(q * m >= len) by (nonlinear_arith)
        requires
            len + m - 1 == m * q + r,
            0 <= r < m,
    ;
}

/// `len / m` rounded up, computed without overflow.
proof fn lemma_ceil_div_exec(len: int, m: int)
    requires
        m > 0,
        len >= 0,
    ensures
        ceil_div(len, m) == len / m + if len % m == 0 {
            0int
        } else {
            1int
        },
{
    let q = len / m;
    let r = len % m;
    vstd::arithmetic::div_mod::lemma_fundamental_div_mod(len, m);
    vstd::arithmetic::div_mod::lemma_mod_bound(len, m);
    if r == 0 {
        assert(len + m - 1 == q * m + (m - 1)) by (nonlinear_arith)
            requires
                len == m * q + r,
                r == 0,
        ;
        assert((len + m - 1) / m == q) by {
            vstd::arithmetic::div_mod::lemma_fundamental_div_mod_converse(len + m - 1, m, q, m - 1);
        }
    } else {
        assert(len + m - 1 == (q + 1) * m + (r - 1)) by (nonlinear_arith)
            requires
                len == m * q + r,
        ;
        assert((len + m - 1) / m == q + 1) by {
            vstd::arithmetic::div_mod::lemma_fundamental_div_mod_converse(
                len + m - 1,
                m,
                q + 1,
                r - 1,
            );
        }
    }
}

/// Splits `data` into its ordered DATA chunk sequence with bodies of at most
/// `max_body` bytes. Message ids are left zero for the session to stamp.
pub fn split_payload(data: &[u8], max_body: usize) -> (r: Vec<MessagePacket>)
    requires
        max_body > 0,
        data@.len() <= u32::MAX,
    ensures
        is_split_of(r@, data@, max_body as int),
{
    let total_len: usize = data.len();
    let whole: usize = total_len / max_body;
    let rest: usize = total_len % max_body;
    proof {
        lemma_ceil_div_exec(total_len as int, max_body as int);
        vstd::arithmetic::div_mod::lemma_fundamental_div_mod(total_len as int, max_body as int);
        assert(rest == 0 ==> whole <= total_len) by (nonlinear_arith)
            requires
                total_len == max_body * whole + rest,
                max_body >= 1,
        ;
        assert(rest > 0 ==> whole < total_len) by (nonlinear_arith)
            requires
                total_len == max_body * whole + rest,
                max_body >= 1,
        ;
    }
    let chunk_count: usize = if rest == 0 {
        whole
    } else {
        whole + 1
    };
    let mut packets: Vec<MessagePacket> = Vec::new();
    let mut i: usize = 0;
    while i < chunk_count
        invariant
            max_body > 0,
            total_len == data@.len() <= u32::MAX,
            chunk_count == ceil_div(total_len as int, max_body as int),
            chunk_count <= total_len,
            i <= chunk_count,
            packets@.len() == i,
            forall|j: int|
                0 <= j < i ==> {
                    &&& (#[trigger] packets@[j]).body@ == chunk_body(data@, max_body as int, j)
                    &&& packets@[j].header == chunk_header(
                        data@,
                        j,
                        chunk_count as int,
                        packets@[j].body@,
                    )
                },
        decreases chunk_count - i,
    {
        proof {
            lemma_chunk_start(total_len as int, max_body as int, i as int);
        }
        let start: usize = i * max_body;
        let mut packet = MessagePacket::new(
            MSG_TYPE_DATA,
            total_len as u32,
            i as u32,
            chunk_count as u32,
        );
        packet.from_slice_bounded(data, start, max_body);
        proof {
            assert((i + 1) * max_body == i * max_body + max_body) by (nonlinear_arith);
        }
        packets.push(packet);
        i = i + 1;
    }
    packets
}

/// Splits a compressed payload into its ordered DATA chunk sequence with
/// bodies of at most one full frame body each.
pub fn wrap_message_packets(data: Vec<u8>) -> (r: Vec<MessagePacket>)
    requires
        data@.len() <= u32::MAX,
    ensures
        is_split_of(r@, data@, MAX_MESSAGE_BODY_SIZE as int),
{
    split_payload(data.as_slice(), MAX_MESSAGE_BODY_SIZE)
}

/// Concatenates the bodies of `packets` in the order given.
pub fn combine_message_bodies(packets: &[MessagePacket]) -> (r: Vec<u8>)
    ensures
        r@ == combined_bodies(packets@),
{
    let mut combined: Vec<u8> = Vec::new();
    let mut i: usize = 0;
    while i < packets.len()
        invariant
            i <= packets@.len(),
            combined@ == combined_bodies(packets@.subrange(0, i as int)),
        decreases packets@.len() - i,
    {
        proof {
            let next = packets@.subrange(0, i + 1);
            assert(next.drop_last() =~= packets@.subrange(0, i as int));
        }
        combined.extend_from_slice(packets[i].body.as_slice());
        proof {
            assert(combined@ =~= combined_bodies(packets@.subrange(0, i as int))
                + packets@[i as int].body@);
        }
        i = i + 1;
    }
    assert(packets@.subrange(0, packets@.len() as int) =~= packets@);
    combined
}

/// The first `k` chunks of a split combine to the first `min(k*m, len)` bytes.
proof fn lemma_split_prefix(packets: Seq<MessagePacket>, data: Seq<u8>, m: int, k: int)
    requires
        m > 0,
        is_split_of(packets, data, m),
        0 <= k <= packets.len(),
    ensures
        combined_bodies(packets.subrange(0, k)) == data.subrange(
            0,
            min_int(k * m, data.len() as int),
        ),
    decreases k,
{
    let len = data.len() as int;
    if k == 0 {
        assert(packets.subrange(0, 0) =~= Seq::<MessagePacket>::empty());
        assert(data.subrange(0, 0) =~= Seq::<u8>::empty());
    } else {
        lemma_split_prefix(packets, data, m, k - 1);
        lemma_chunk_start(len, m, k - 1);
        let next = packets.subrange(0, k);
        assert(next.drop_last() =~= packets.subrange(0, k - 1));
        assert(next.last() == packets[k - 1]);
        assert((k - 1) * m < len);
        assert(min_int((k - 1) * m, len) == (k - 1) * m);
        assert(packets[k - 1].body@ == chunk_body(data, m, k - 1));
        assert(combined_bodies(next) == combined_bodies(packets.subrange(0, k - 1))
            + packets[k - 1].body@);
        assert(k * m == (k - 1) * m + m) by (nonlinear_arith);
        assert(data.subrange(0, (k - 1) * m) + chunk_body(data, m, k - 1) =~= data.subrange(
            0,
            min_int(k * m, len),
        ));
    }
}

/// Splitting then combining gives the data back, and the split has
/// `ceil(len / m)` frames with strictly increasing chunk indexes and one
/// shared chunk count and total size.
pub proof fn lemma_split_combine(packets: Seq<MessagePacket>, data: Seq<u8>, m: int)
    requires
        m > 0,
        data.len() <= u32::MAX,
        is_split_of(packets, data, m),
    ensures
        combined_bodies(packets) == data,
        packets.len() == ceil_div(data.len() as int, m),
        forall|i: int, j: int|
            0 <= i < j < packets.len() ==> packets[i].header.chunk_index
                < packets[j].header.chunk_index,
        forall|i: int|
            0 <= i < packets.len() ==> (#[trigger] packets[i]).header.chunk_count == packets.len()
                && packets[i].header.total_size == data.len(),
{
    let len = data.len() as int;
    let n = packets.len() as int;
    lemma_chunk_start(len, m, 0);
    lemma_chunk_start(len, m, n);
    assert(n <= len || n == 0) by {
        if n > 0 {
            lemma_chunk_start(len, m, n - 1);
            assert((n - 1) * m < len);
            assert(n - 1 <= (n - 1) * m) by (nonlinear_arith)
                requires
                    n >= 1,
                    m >= 1,
            ;
        }
    }
    lemma_split_prefix(packets, data, m, n);
    assert(packets.subrange(0, n) =~= packets);
    assert(data.subrange(0, len) =~= data);
    assert forall|i: int| 0 <= i < packets.len() implies (#[trigger] packets[i]).header.chunk_count
        == packets.len() && packets[i].header.total_size == data.len() by {}
    assert forall|i: int, j: int| 0 <= i < j < packets.len() implies packets[i].header.chunk_index
        < packets[j].header.chunk_index by {
        assert(packets[i].header.chunk_index == i as u32);
        assert(packets[j].header.chunk_index == j as u32);
    }
}

} // verus!
