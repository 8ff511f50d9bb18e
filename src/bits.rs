//! The bit-vector that backs every bitmap, `bitvec::vec::BitVec<u8, Lsb0>`,
//! and what this library relies on of it.
//!
//! A `BitVec<u8, Lsb0>` keeps bit `i` in backing byte `i / 8`, at bit
//! position `i % 8` counted from the least significant bit.
use vstd::prelude::*;
use bitvec::order::Lsb0;
use bitvec::vec::BitVec;

verus! {

/// A bit-vector of `u8` bytes, least significant bit first. Verus does not
/// take `BitVec`'s own declaration (its parameters are bound by traits of
/// `bitvec`), so the vector sits in the private field of this type, and what
/// it holds is known through `bits_of` and `raw_of`.
#[verifier::external_body]
pub struct Bits {
    inner: BitVec<u8, Lsb0>,
}

/// The bits that a bit-vector holds, in index order.
pub uninterp spec fn bits_of(b: Bits) -> Seq<bool>;

/// The bytes that back a bit-vector.
pub uninterp spec fn raw_of(b: Bits) -> Seq<u8>;

/// Most bits a bitmap of this library holds.
pub const MAX_BITS: usize = 0x1000_0000;

/// Number of bytes that hold `n` bits.
pub open spec fn byte_len(n: nat) -> nat {
    (n + 7) / 8
}

/// Bit `i` of a packed byte sequence, least significant bit first.
pub open spec fn raw_bit(raw: Seq<u8>, i: int) -> bool {
    (raw[i / 8] >> ((i % 8) as u8)) & 1u8 == 1u8
}

/// The first `n` bits of a packed byte sequence.
pub open spec fn unpack_bits(raw: Seq<u8>, n: nat) -> Seq<bool> {
    Seq::new(n, |i: int| raw_bit(raw, i))
}

/// The bit-vector starts at bit 0 of its first byte, and spans just the
/// bytes that its bits need.
pub open spec fn packed(b: Bits) -> bool {
    &&& raw_of(b).len() == byte_len(bits_of(b).len())
    &&& bits_of(b) == unpack_bits(raw_of(b), bits_of(b).len())
}

/// Relies on `BitVec::repeat`: `n` cleared bits, over backing bytes that are
/// all zero.
#[verifier::external_body]
pub(crate) fn zeroed_bits(n: usize) -> (r: Bits)
    requires
        n <= MAX_BITS,
    ensures
        bits_of(r) == Seq::new(n as nat, |i: int| false),
        raw_of(r) == Seq::new(byte_len(n as nat), |i: int| 0u8),
        packed(r),
{
    Bits { inner: BitVec::repeat(false, n) }
}

/// Relies on `BitVec::len`: the number of bits held.
#[verifier::external_body]
pub(crate) fn bit_count(b: &Bits) -> (r: usize)
    ensures
        r == bits_of(*b).len(),
{
    b.inner.len()
}

/// Relies on `BitSlice::set`: writes one bit and leaves the layout as it was.
#[verifier::external_body]
pub(crate) fn set_bit(b: &mut Bits, i: usize, v: bool)
    requires
        packed(*old(b)),
        i < bits_of(*old(b)).len(),
    ensures
        bits_of(*final(b)) == bits_of(*old(b)).update(i as int, v),
        packed(*final(b)),
{
    b.inner.set(i, v)
}

/// Relies on `BitSlice`'s indexing: reads one bit.
#[verifier::external_body]
pub(crate) fn get_bit(b: &Bits, i: usize) -> (r: bool)
    requires
        i < bits_of(*b).len(),
    ensures
        r == bits_of(*b)[i as int],
{
    b.inner[i]
}

/// Relies on `BitSlice::all`: whether every bit is set (true when empty).
#[verifier::external_body]
pub(crate) fn all_set(b: &Bits) -> (r: bool)
    ensures
        r == (forall|j: int| 0 <= j < bits_of(*b).len() ==> #[trigger] bits_of(*b)[j]),
{
    b.inner.all()
}

/// Relies on `BitSlice::first_zero`: the lowest index of a cleared bit.
#[verifier::external_body]
pub(crate) fn first_zero(b: &Bits) -> (r: Option<usize>)
    ensures
        match r {
            Some(i) => i < bits_of(*b).len() && !bits_of(*b)[i as int] && forall|j: int|
                0 <= j < i ==> #[trigger] bits_of(*b)[j],
            None => forall|j: int| 0 <= j < bits_of(*b).len() ==> #[trigger] bits_of(*b)[j],
        },
{
    b.inner.first_zero()
}

/// Relies on `BitVec::as_raw_slice`: a copy of the backing bytes.
#[verifier::external_body]
pub(crate) fn raw_bytes(b: &Bits) -> (r: Vec<u8>)
    ensures
        r@ == raw_of(*b),
{
    b.inner.as_raw_slice().to_vec()
}

/// Relies on `BitVec::as_raw_mut_slice`: overwrites one backing byte, which
/// changes the bits it holds and nothing else.
#[verifier::external_body]
pub(crate) fn store_raw_byte(b: &mut Bits, idx: usize, byte: u8)
    requires
        packed(*old(b)),
        idx < raw_of(*old(b)).len(),
    ensures
        raw_of(*final(b)) == raw_of(*old(b)).update(idx as int, byte),
        bits_of(*final(b)).len() == bits_of(*old(b)).len(),
        packed(*final(b)),
{
    b.inner.as_raw_mut_slice()[idx] = byte;
}

} // verus!
