//! Big-endian integers on the wire.

use vstd::prelude::*;

use byteorder::{BigEndian, ByteOrder, WriteBytesExt};

verus! {

/// The number that `s` spells, most significant byte first.
pub open spec fn be_value(s: Seq<u8>) -> nat
    decreases s.len(),
{
    if s.len() == 0 {
        0
    } else {
        be_value(s.drop_last()) * 256 + s.last() as nat
    }
}

/// The `k` low bytes of `n`, most significant byte first.
pub open spec fn be_bytes(n: nat, k: nat) -> Seq<u8>
    decreases k,
{
    if k == 0 {
        Seq::empty()
    } else {
        be_bytes(n / 256, (k - 1) as nat).push((n % 256) as u8)
    }
}

/// `256` to the power `k`: how many numbers `k` bytes can spell.
pub open spec fn byte_range(k: nat) -> nat
    decreases k,
{
    if k == 0 {
        1
    } else {
        256 * byte_range((k - 1) as nat)
    }
}

/// `be_bytes` yields exactly as many bytes as it was asked for.
pub proof fn lemma_be_bytes_len(n: nat, k: nat)
    ensures
        be_bytes(n, k).len() == k,
    decreases k,
{
    if k > 0 {
        lemma_be_bytes_len(n / 256, (k - 1) as nat);
    }
}

/// Reading back what was written gives the number, if it fits in `k` bytes.
pub proof fn law_be_read_of_write(n: nat, k: nat)
    requires
        n < byte_range(k),
    ensures
        be_value(be_bytes(n, k)) == n,
    decreases k,
{
    if k > 0 {
        let rest = be_bytes(n / 256, (k - 1) as nat);
        assert(n / 256 < byte_range((k - 1) as nat));
        law_be_read_of_write(n / 256, (k - 1) as nat);
        assert(be_bytes(n, k).drop_last() =~= rest);
    }
}

/// Writing what was read gives the bytes back.
pub proof fn law_be_write_of_read(s: Seq<u8>)
    ensures
        be_bytes(be_value(s), s.len()) == s,
        be_value(s) < byte_range(s.len()),
    decreases s.len(),
{
    if s.len() > 0 {
        law_be_write_of_read(s.drop_last());
        assert(be_value(s) / 256 == be_value(s.drop_last()));
        assert(be_value(s) % 256 == s.last());
        assert(be_bytes(be_value(s), s.len()) =~= s);
    } else {
        assert(be_bytes(be_value(s), s.len()) =~= s);
    }
}

/// Calls `byteorder::WriteBytesExt::write_u32` in big-endian order on a vector:
/// the four bytes of `n` are appended, and such a write cannot fail.
#[verifier::external_body]
pub(crate) fn write_u32(out: &mut Vec<u8>, n: u32)
    ensures
        final(out)@ == old(out)@ + be_bytes(n as nat, 4),
{
    out.write_u32::<BigEndian>(n).unwrap()
}

/// Calls `byteorder::WriteBytesExt::write_u64` in big-endian order on a vector:
/// the eight bytes of `n` are appended, and such a write cannot fail.
#[verifier::external_body]
pub(crate) fn write_u64(out: &mut Vec<u8>, n: u64)
    ensures
        final(out)@ == old(out)@ + be_bytes(n as nat, 8),
{
    out.write_u64::<BigEndian>(n).unwrap()
}

/// Calls `byteorder::BigEndian::read_u32`: the value of the first four bytes.
#[verifier::external_body]
pub(crate) fn read_u32(data: &[u8]) -> (n: u32)
    requires
        data@.len() >= 4,
    ensures
        n == be_value(data@.take(4)),
{
    BigEndian::read_u32(data)
}

/// Calls `byteorder::BigEndian::read_u64`: the value of the first eight bytes.
#[verifier::external_body]
pub(crate) fn read_u64(data: &[u8]) -> (n: u64)
    requires
        data@.len() >= 8,
    ensures
        n == be_value(data@.take(8)),
{
    BigEndian::read_u64(data)
}

/// Appends a 16-bit number.
pub(crate) fn write_u16(out: &mut Vec<u8>, n: u16)
    ensures
        final(out)@ == old(out)@ + be_bytes(n as nat, 2),
{
    out.push((n / 256) as u8);
    out.push((n % 256) as u8);
    proof {
        reveal_with_fuel(be_bytes, 3);
        assert(out@ =~= old(out)@ + be_bytes(n as nat, 2));
    }
}

/// Two, four and eight bytes spell a number in base 256, the first byte counting most.
pub proof fn law_be_value_in_base_256(s: Seq<u8>)
    ensures
        s.len() == 2 ==> be_value(s) == 0x100 * s[0] + s[1],
        s.len() == 4 ==> be_value(s) == 0x100_0000 * s[0] + 0x1_0000 * s[1] + 0x100 * s[2] + s[3],
        s.len() == 8 ==> be_value(s) == 0x100_0000_0000_0000 * s[0] + 0x1_0000_0000_0000 * s[1]
            + 0x100_0000_0000 * s[2] + 0x1_0000_0000 * s[3] + 0x100_0000 * s[4] + 0x1_0000 * s[5]
            + 0x100 * s[6] + s[7],
{
    reveal_with_fuel(be_value, 9);
    let t1 = s.drop_last();
    let t2 = t1.drop_last();
    let t3 = t2.drop_last();
    let t4 = t3.drop_last();
    let t5 = t4.drop_last();
    let t6 = t5.drop_last();
    let t7 = t6.drop_last();
    assert(be_value(t7.drop_last()) == 0 || t7.drop_last().len() > 0);
}

} // verus!
