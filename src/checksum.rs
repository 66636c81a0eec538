use vstd::prelude::*;

verus! {

/// Sum of all bytes, as an unbounded integer.
pub open spec fn byte_sum(s: Seq<u8>) -> nat
    decreases s.len(),
{
    if s.len() == 0 {
        0
    } else {
        byte_sum(s.drop_last()) + s.last() as nat
    }
}

/// The frame checksum: the byte sum reduced modulo 256.
pub open spec fn checksum_of(s: Seq<u8>) -> u8 {
    (byte_sum(s) % 256) as u8
}

/// 8-bit wrapping sum of all bytes of `data`; 0 for an empty slice.
pub fn calculate_checksum(data: &[u8]) -> (r: u8)
    ensures
        r == checksum_of(data@),
{
    let mut acc: u8 = 0;
    let mut i: usize = 0;
    while i < data.len()
        invariant
            i <= data@.len(),
            acc == checksum_of(data@.subrange(0, i as int)),
        decreases data@.len() - i,
    {
        proof {
            let pre = data@.subrange(0, i as int);
            let next = data@.subrange(0, i + 1);
            assert(next.drop_last() =~= pre);
            assert(next.last() == data@[i as int]);
        }
        acc = acc.wrapping_add(data[i]);
        i = i + 1;
    }
    assert(data@.subrange(0, data@.len() as int) =~= data@);
    acc
}

/// The byte sum of a concatenation is the sum of the byte sums.
pub proof fn lemma_byte_sum_concat(a: Seq<u8>, b: Seq<u8>)
    ensures
        byte_sum(a + b) == byte_sum(a) + byte_sum(b),
    decreases b.len(),
{
    if b.len() == 0 {
        assert(a + b =~= a);
    } else {
        lemma_byte_sum_concat(a, b.drop_last());
        assert((a + b).drop_last() =~= a + b.drop_last());
    }
}

/// Removing the byte at index `i` lowers the byte sum by exactly that byte.
pub proof fn lemma_byte_sum_remove(s: Seq<u8>, i: int)
    requires
        0 <= i < s.len(),
    ensures
        byte_sum(s) == byte_sum(s.remove(i)) + s[i],
{
    let pre = s.subrange(0, i);
    let post = s.subrange(i + 1, s.len() as int);
    let single = seq![s[i]];
    assert(single.drop_last() =~= Seq::<u8>::empty());
    assert(byte_sum(Seq::<u8>::empty()) == 0);
    assert(byte_sum(single) == byte_sum(single.drop_last()) + single.last());
    assert(s =~= pre + seq![s[i]] + post);
    assert(s.remove(i) =~= pre + post);
    lemma_byte_sum_concat(pre + seq![s[i]], post);
    lemma_byte_sum_concat(pre, seq![s[i]]);
    lemma_byte_sum_concat(pre, post);
}

/// Two byte sequences holding the same bytes, in any order, have the same byte sum.
pub proof fn lemma_byte_sum_multiset(a: Seq<u8>, b: Seq<u8>)
    requires
        a.to_multiset() == b.to_multiset(),
    ensures
        byte_sum(a) == byte_sum(b),
    decreases a.len(),
{
    broadcast use vstd::seq_lib::to_multiset_len, vstd::seq_lib::to_multiset_contains,
        vstd::seq_lib::to_multiset_remove;

    assert(a.len() == a.to_multiset().len());
    assert(b.len() == b.to_multiset().len());
    if a.len() > 0 {
        let x = a.last();
        let k = a.len() - 1;
        assert(a.to_multiset().count(x) > 0) by {
            assert(a[k] == x);
        }
        assert(b.to_multiset().count(x) > 0);
        assert(b.contains(x));
        let j = choose|j: int| 0 <= j < b.len() && b[j] == x;
        assert(a.remove(k) =~= a.drop_last());
        assert(a.remove(k).to_multiset() == a.to_multiset().remove(x));
        assert(b.remove(j).to_multiset() == b.to_multiset().remove(x));
        lemma_byte_sum_multiset(a.drop_last(), b.remove(j));
        lemma_byte_sum_remove(b, j);
    }
}

/// The checksum is additive: the checksum of a concatenation is the wrapping
/// sum of the parts' checksums.
pub proof fn lemma_checksum_additive(a: Seq<u8>, b: Seq<u8>)
    ensures
        checksum_of(a + b) == ((checksum_of(a) + checksum_of(b)) % 256) as u8,
{
    lemma_byte_sum_concat(a, b);
    let x = byte_sum(a) as int;
    let y = byte_sum(b) as int;
    assert((x + y) % 256 == ((x % 256) + (y % 256)) % 256) by (nonlinear_arith);
}

/// The checksum does not depend on the order of the bytes: any two sequences
/// with the same multiset of bytes have the same checksum.
pub proof fn lemma_checksum_order_insensitive(a: Seq<u8>, b: Seq<u8>)
    requires
        a.to_multiset() == b.to_multiset(),
    ensures
        checksum_of(a) == checksum_of(b),
{
    lemma_byte_sum_multiset(a, b);
}

/// Replacing one byte by a different value always changes the checksum.
pub proof fn lemma_checksum_detects_single_byte_change(s: Seq<u8>, i: int, v: u8)
    requires
        0 <= i < s.len(),
        v != s[i],
    ensures
        checksum_of(s.update(i, v)) != checksum_of(s),
{
    let t = s.update(i, v);
    lemma_byte_sum_remove(s, i);
    lemma_byte_sum_remove(t, i);
    assert(t.remove(i) =~= s.remove(i));
    let rest = byte_sum(s.remove(i)) as int;
    let a = s[i] as int;
    let b = v as int;
    assert((rest + a) % 256 != (rest + b) % 256) by (nonlinear_arith)
        requires
            0 <= a < 256,
            0 <= b < 256,
            a != b,
            rest >= 0,
    {
        if (rest + a) % 256 == (rest + b) % 256 {
            assert((rest + a) - (rest + b) == a - b);
        }
    }
}

} // verus!
