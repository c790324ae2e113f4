//! Small helpers on byte strings shared by the other modules.

use vstd::prelude::*;

verus! {

/// Compares two byte strings for equality.
pub fn bytes_equal(a: &[u8], b: &[u8]) -> (same: bool)
    ensures
        same == (a@ == b@),
{
    if a.len() != b.len() {
        return false;
    }
    let mut i: usize = 0;
    while i < a.len()
        invariant
            i <= a.len(),
            a.len() == b.len(),
            forall|j: int| 0 <= j < i ==> a@[j] == b@[j],
        decreases a.len() - i,
    {
        if a[i] != b[i] {
            return false;
        }
        i += 1;
    }
    assert(a@ =~= b@);
    true
}

/// Appends every byte of `tail` to `buf`.
pub fn append_bytes(buf: &mut Vec<u8>, tail: &[u8])
    ensures
        final(buf)@ == old(buf)@ + tail@,
{
    let mut i: usize = 0;
    while i < tail.len()
        invariant
            i <= tail.len(),
            buf@ == old(buf)@ + tail@.take(i as int),
        decreases tail.len() - i,
    {
        buf.push(tail[i]);
        i += 1;
        assert(buf@ =~= old(buf)@ + tail@.take(i as int));
    }
    assert(tail@.take(tail.len() as int) =~= tail@);
}

/// The number a byte string stands for, most significant byte first.
pub open spec fn be_value(bytes: Seq<u8>) -> nat
    decreases bytes.len(),
{
    if bytes.len() == 0 {
        0
    } else {
        be_value(bytes.drop_last()) * 256 + bytes.last() as nat
    }
}

/// The eight bytes of `value`, most significant first.
pub open spec fn be_bytes(value: u64) -> Seq<u8> {
    seq![
        (value / 0x100_0000_0000_0000) as u8,
        (value / 0x1_0000_0000_0000 % 256) as u8,
        (value / 0x100_0000_0000 % 256) as u8,
        (value / 0x1_0000_0000 % 256) as u8,
        (value / 0x100_0000 % 256) as u8,
        (value / 0x1_0000 % 256) as u8,
        (value / 0x100 % 256) as u8,
        (value % 256) as u8,
    ]
}

/// Appending a byte multiplies the number by 256 and adds the byte.
pub proof fn lemma_be_value_push(bytes: Seq<u8>, last: u8)
    ensures
        be_value(bytes.push(last)) == be_value(bytes) * 256 + last,
{
    assert(bytes.push(last).drop_last() =~= bytes);
}

/// The number that eight bytes stand for, written out.
pub proof fn lemma_be_value_eight(bytes: Seq<u8>)
    requires
        bytes.len() == 8,
    ensures
        be_value(bytes) == bytes[0] * 0x100_0000_0000_0000 + bytes[1] * 0x1_0000_0000_0000
            + bytes[2] * 0x100_0000_0000 + bytes[3] * 0x1_0000_0000 + bytes[4] * 0x100_0000
            + bytes[5] * 0x1_0000 + bytes[6] * 0x100 + bytes[7],
{
    let part0 = Seq::<u8>::empty();
    let part1 = part0.push(bytes[0]);
    let part2 = part1.push(bytes[1]);
    let part3 = part2.push(bytes[2]);
    let part4 = part3.push(bytes[3]);
    let part5 = part4.push(bytes[4]);
    let part6 = part5.push(bytes[5]);
    let part7 = part6.push(bytes[6]);
    let part8 = part7.push(bytes[7]);
    assert(part8 =~= bytes);
    assert(be_value(part0) == 0);
    lemma_be_value_push(part0, bytes[0]);
    lemma_be_value_push(part1, bytes[1]);
    lemma_be_value_push(part2, bytes[2]);
    lemma_be_value_push(part3, bytes[3]);
    lemma_be_value_push(part4, bytes[4]);
    lemma_be_value_push(part5, bytes[5]);
    lemma_be_value_push(part6, bytes[6]);
    lemma_be_value_push(part7, bytes[7]);
}

/// Eight bytes stand for the number they were cut from.
pub proof fn lemma_be_bytes_value(value: u64)
    ensures
        be_value(be_bytes(value)) == value,
{
    let b = be_bytes(value);
    lemma_be_value_eight(b);
    assert(value == (value / 0x100_0000_0000_0000) * 0x100_0000_0000_0000 + (value
        / 0x1_0000_0000_0000 % 256) * 0x1_0000_0000_0000 + (value / 0x100_0000_0000 % 256)
        * 0x100_0000_0000 + (value / 0x1_0000_0000 % 256) * 0x1_0000_0000 + (value / 0x100_0000
        % 256) * 0x100_0000 + (value / 0x1_0000 % 256) * 0x1_0000 + (value / 0x100 % 256) * 0x100
        + (value % 256)) by (bit_vector);
    assert(value / 0x100_0000_0000_0000 < 256) by (bit_vector);
}

/// Zero bytes in front do not change the number.
pub proof fn lemma_be_value_leading_zeros(zeros: Seq<u8>, rest: Seq<u8>)
    requires
        forall|i: int| 0 <= i < zeros.len() ==> zeros[i] == 0,
    ensures
        be_value(zeros + rest) == be_value(rest),
    decreases rest.len(),
{
    if rest.len() == 0 {
        assert(zeros + rest =~= zeros);
        lemma_be_value_zeros(zeros);
    } else {
        assert((zeros + rest).drop_last() =~= zeros + rest.drop_last());
        lemma_be_value_leading_zeros(zeros, rest.drop_last());
    }
}

/// A string of zero bytes stands for 0.
pub proof fn lemma_be_value_zeros(zeros: Seq<u8>)
    requires
        forall|i: int| 0 <= i < zeros.len() ==> zeros[i] == 0,
    ensures
        be_value(zeros) == 0,
    decreases zeros.len(),
{
    if zeros.len() > 0 {
        lemma_be_value_zeros(zeros.drop_last());
    }
}

/// Of two byte strings of one length that agree up to a byte, the one with
/// the smaller byte there stands for the smaller number.
pub proof fn lemma_be_value_first_difference(a: Seq<u8>, b: Seq<u8>, at: int)
    requires
        a.len() == b.len(),
        0 <= at < a.len(),
        forall|j: int| 0 <= j < at ==> a[j] == b[j],
        a[at] < b[at],
    ensures
        be_value(a) < be_value(b),
    decreases a.len(),
{
    if at == a.len() - 1 {
        assert(a.drop_last() =~= b.drop_last());
    } else {
        lemma_be_value_first_difference(a.drop_last(), b.drop_last(), at);
    }
}

/// Appends the eight bytes of `value`, most significant first.
pub fn push_be_u64(buf: &mut Vec<u8>, value: u64)
    ensures
        final(buf)@ == old(buf)@ + be_bytes(value),
{
    buf.push((value / 0x100_0000_0000_0000) as u8);
    buf.push((value / 0x1_0000_0000_0000 % 256) as u8);
    buf.push((value / 0x100_0000_0000 % 256) as u8);
    buf.push((value / 0x1_0000_0000 % 256) as u8);
    buf.push((value / 0x100_0000 % 256) as u8);
    buf.push((value / 0x1_0000 % 256) as u8);
    buf.push((value / 0x100 % 256) as u8);
    buf.push((value % 256) as u8);
    assert(buf@ =~= old(buf)@ + be_bytes(value));
}

/// Copies a byte string into a new vector.
pub fn to_vec(bytes: &[u8]) -> (copy: Vec<u8>)
    ensures
        copy@ == bytes@,
{
    let mut copy: Vec<u8> = Vec::new();
    append_bytes(&mut copy, bytes);
    assert(copy@ =~= bytes@);
    copy
}

/// The four bytes of `value`, least significant first.
pub open spec fn le_bytes(value: u32) -> Seq<u8> {
    seq![
        (value % 256) as u8,
        (value / 0x100 % 256) as u8,
        (value / 0x1_0000 % 256) as u8,
        (value / 0x100_0000) as u8,
    ]
}

/// The number that four bytes stand for, least significant first.
pub open spec fn le_value(bytes: Seq<u8>) -> nat {
    (bytes[0] + bytes[1] * 0x100 + bytes[2] * 0x1_0000 + bytes[3] * 0x100_0000) as nat
}

/// Four bytes stand for the number they were cut from, and the other way
/// round.
pub proof fn lemma_le_round_trip(value: u32, bytes: Seq<u8>)
    requires
        bytes.len() == 4,
    ensures
        le_value(le_bytes(value)) == value,
        le_value(bytes) <= u32::MAX,
        le_bytes(le_value(bytes) as u32) == bytes,
{
    assert(value == (value % 256) + (value / 0x100 % 256) * 0x100 + (value / 0x1_0000 % 256)
        * 0x1_0000 + (value / 0x100_0000) * 0x100_0000) by (bit_vector);
    assert(value / 0x100_0000 < 256) by (bit_vector);
    let a: u8 = bytes[0];
    let b: u8 = bytes[1];
    let c: u8 = bytes[2];
    let d: u8 = bytes[3];
    let whole: u32 = (a as u32 + (b as u32) * 0x100 + (c as u32) * 0x1_0000 + (d as u32)
        * 0x100_0000) as u32;
    assert(whole == le_value(bytes));
    assert(whole % 256 == a as u32) by (bit_vector)
        requires
            whole == a as u32 + (b as u32) * 0x100 + (c as u32) * 0x1_0000 + (d as u32)
                * 0x100_0000,
    ;
    assert(whole / 0x100 % 256 == b as u32) by (bit_vector)
        requires
            whole == a as u32 + (b as u32) * 0x100 + (c as u32) * 0x1_0000 + (d as u32)
                * 0x100_0000,
    ;
    assert(whole / 0x1_0000 % 256 == c as u32) by (bit_vector)
        requires
            whole == a as u32 + (b as u32) * 0x100 + (c as u32) * 0x1_0000 + (d as u32)
                * 0x100_0000,
    ;
    assert(whole / 0x100_0000 == d as u32) by (bit_vector)
        requires
            whole == a as u32 + (b as u32) * 0x100 + (c as u32) * 0x1_0000 + (d as u32)
                * 0x100_0000,
    ;
    assert(le_bytes(whole) =~= bytes);
}

/// Appends the four bytes of `value`, least significant first.
pub fn push_le_u32(buf: &mut Vec<u8>, value: u32)
    ensures
        final(buf)@ == old(buf)@ + le_bytes(value),
{
    buf.push((value % 256) as u8);
    buf.push((value / 0x100 % 256) as u8);
    buf.push((value / 0x1_0000 % 256) as u8);
    buf.push((value / 0x100_0000) as u8);
    assert(buf@ =~= old(buf)@ + le_bytes(value));
}

/// Reads the number that the four bytes from `at` on stand for, least
/// significant first.
pub fn read_le_u32(bytes: &[u8], at: usize) -> (value: u32)
    requires
        at + 4 <= bytes@.len(),
    ensures
        value == le_value(bytes@.subrange(at as int, at + 4)),
{
    let value: u64 = bytes[at] as u64 + bytes[at + 1] as u64 * 0x100 + bytes[at + 2] as u64
        * 0x1_0000 + bytes[at + 3] as u64 * 0x100_0000;
    value as u32
}

} // verus!
