use vstd::prelude::*;

use crate::private::Sealed;

use crate::internal::{
    lemma_and_le, lemma_shr_mask, low_mask, BitSized, Bits, Storage,
};

verus! {

/// An unsigned integer of `BITS` bits, held in the low bits of a `T`.
///
/// `1 <= BITS <= T`'s width, and the value is below `2^BITS`.
#[derive(Clone, Copy, Debug)]
pub struct UInt<T: Bits, const BITS: usize> {
    value: T,
}

impl<T: Bits, const BITS: usize> UInt<T, BITS> {
    /// The value as a `T`.
    pub closed spec fn spec_value(self) -> T {
        self.value
    }

    /// Makes the integer `value`, which must fit in `BITS` bits.
    pub fn new(value: T) -> (r: Self)
        requires
            1 <= BITS <= T::spec_width(),
            value.val() <= low_mask(BITS as nat),
        ensures
            r.wf(),
            r.spec_value() == value,
    {
        UInt { value }
    }

    /// The value as a `T`.
    pub fn value(self) -> (r: T)
        ensures
            r == self.spec_value(),
    {
        self.value
    }

    /// The low `BITS` bits of `value`.
    pub fn masked_new(value: T) -> (r: Self)
        requires
            1 <= BITS <= T::spec_width(),
        ensures
            r.wf(),
            r.spec_value().val() == value.val() & low_mask(BITS as nat),
    {
        let w = T::width();
        let ones = T::ones();
        proof {
            ones.lemma_val_bounded();
            lemma_shr_mask(w as u128, BITS as u128);
            vstd::arithmetic::div_mod::lemma_small_mod((w - BITS) as nat, w as nat);
        }
        let mask = ones.wrapping_shr(w - BITS as u32);
        let v = value.bit_and(mask);
        proof {
            lemma_and_le(value.val(), mask.val());
        }
        UInt { value: v }
    }
}

impl<T: Bits, const BITS: usize> Sealed for UInt<T, BITS> {}

impl<T: Bits, const BITS: usize> BitSized for UInt<T, BITS> {
    type Bits = T;

    open spec fn spec_bits() -> nat {
        BITS as nat
    }

    open spec fn wf(self) -> bool {
        &&& 1 <= BITS <= T::spec_width()
        &&& self.spec_value().val() <= low_mask(BITS as nat)
    }

    open spec fn spec_into_bits(self) -> T {
        self.spec_value()
    }

    fn bits() -> (r: usize) {
        BITS
    }

    fn from_bits(bits: T) -> (r: Self) {
        Self::masked_new(bits)
    }

    fn into_bits(self) -> (r: T) {
        self.value
    }

    proof fn lemma_into_bits(self, other: Self) {
        self.value.lemma_val_injective(other.value);
    }
}

impl<T: Bits, const BITS: usize> Storage for UInt<T, BITS> {
    fn empty() -> (r: Self) {
        let r = UInt { value: T::zero() };
        r
    }

    fn max_bits() -> (r: T) {
        let w = T::width();
        let ones = T::ones();
        proof {
            ones.lemma_val_bounded();
            lemma_shr_mask(w as u128, BITS as u128);
            vstd::arithmetic::div_mod::lemma_small_mod((w - BITS) as nat, w as nat);
        }
        ones.wrapping_shr(w - BITS as u32)
    }
}

} // verus!
