//! The set of reserved lock identities, kept in a bit array of the `bitvec` crate.

use bitvec::array::BitArray;
use bitvec::order::Lsb0;
use crate::model::LOCK_SLOTS;
use vstd::prelude::*;

verus! {

/// One bit per lock identity, least significant bit of the first word first.
/// The array is private; what it holds is named by [`reserved_bits`].
#[verifier::external_body]
pub struct ReservedBits {
    bits: BitArray<[u64; 4], Lsb0>,
}

/// The bits that a reservation array holds, in index order.
pub uninterp spec fn reserved_bits(b: ReservedBits) -> Seq<bool>;

/// Relies on `BitArray::ZERO`: every bit of the array is cleared.
#[verifier::external_body]
pub(crate) fn cleared_bits() -> (r: ReservedBits)
    ensures
        reserved_bits(r) == Seq::new(LOCK_SLOTS as nat, |i: int| false),
{
    ReservedBits { bits: BitArray::ZERO }
}

/// Relies on `BitSlice::first_zero`: the index of the first cleared bit, if any.
#[verifier::external_body]
pub(crate) fn first_cleared(b: &ReservedBits) -> (r: Option<usize>)
    requires
        reserved_bits(*b).len() == LOCK_SLOTS,
    ensures
        match r {
            Some(i) => i < LOCK_SLOTS && !reserved_bits(*b)[i as int] && forall|j: int|
                0 <= j < i ==> reserved_bits(*b)[j],
            None => forall|j: int| 0 <= j < LOCK_SLOTS ==> reserved_bits(*b)[j],
        },
{
    b.bits.first_zero()
}

/// Relies on `BitSlice::set`: writes one bit, which must be in bounds.
#[verifier::external_body]
pub(crate) fn set_bit(b: &mut ReservedBits, index: usize, value: bool)
    requires
        reserved_bits(*old(b)).len() == LOCK_SLOTS,
        index < LOCK_SLOTS,
    ensures
        reserved_bits(*final(b)) == reserved_bits(*old(b)).update(index as int, value),
{
    b.bits.set(index, value)
}

} // verus!
