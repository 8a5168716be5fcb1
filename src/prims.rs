use vstd::prelude::*;

use crate::private::Sealed;

use crate::internal::{low_mask, BitSized, Bits, Storage, Widen};

verus! {

/// A pattern at most `low_mask(b)` is kept whole by masking with it.
pub proof fn lemma_low_mask_and(x: u128, b: nat)
    requires
        1 <= b <= 128,
        x <= low_mask(b),
    ensures
        x & low_mask(b) == x,
{
    let bb = b as u128;
    assert(x & (u128::MAX >> ((128 - bb) as u128)) == x) by (bit_vector)
        requires
            1 <= bb <= 128,
            x <= u128::MAX >> ((128 - bb) as u128),
    ;
}

proof fn lemma_u8_ops(x: u8, n: u32)
    requires
        n < 8,
    ensures
        x as u128 <= u128::MAX >> 120u128,
        (u8::MAX) as u128 == u128::MAX >> 120u128,
        (!x) as u128 == !(x as u128) & (u128::MAX >> 120u128),
        (x << n) as u128 == ((x as u128) << (n as u128)) & (u128::MAX >> 120u128),
        (x >> n) as u128 == (x as u128) >> (n as u128),
{
    assert({
        &&& x as u128 <= u128::MAX >> 120u128
        &&& (u8::MAX) as u128 == u128::MAX >> 120u128
        &&& (!x) as u128 == !(x as u128) & (u128::MAX >> 120u128)
        &&& (x << n) as u128 == ((x as u128) << (n as u128)) & (u128::MAX >> 120u128)
        &&& (x >> n) as u128 == (x as u128) >> (n as u128)
    }) by (bit_vector)
        requires
            n < 8,
    ;
}

impl Sealed for u8 {}

impl Bits for u8 {
    open spec fn spec_width() -> nat {
        8
    }

    open spec fn val(self) -> u128 {
        self as u128
    }

    proof fn lemma_val_bounded(self) {
        lemma_u8_ops(self, 0);
    }

    proof fn lemma_val_injective(self, other: Self) {
    }

    fn width() -> (r: u32) {
        8
    }

    fn zero() -> (r: Self) {
        0
    }

    fn ones() -> (r: Self) {
        let r = u8::MAX;
        proof {
            lemma_u8_ops(r, 0);
        }
        r
    }

    fn bit_and(self, rhs: Self) -> (r: Self) {
        self & rhs
    }

    fn bit_or(self, rhs: Self) -> (r: Self) {
        self | rhs
    }

    fn bit_xor(self, rhs: Self) -> (r: Self) {
        self ^ rhs
    }

    fn bit_not(self) -> (r: Self) {
        proof {
            lemma_u8_ops(self, 0);
        }
        !self
    }

    fn wrapping_shl(self, n: u32) -> (r: Self) {
        proof {
            lemma_u8_ops(self, n % 8);
        }
        u8::wrapping_shl(self, n)
    }

    fn wrapping_shr(self, n: u32) -> (r: Self) {
        proof {
            lemma_u8_ops(self, n % 8);
        }
        u8::wrapping_shr(self, n)
    }
}

impl BitSized for u8 {
    type Bits = u8;

    open spec fn spec_bits() -> nat {
        8
    }

    open spec fn wf(self) -> bool {
        true
    }

    open spec fn spec_into_bits(self) -> u8 {
        self
    }

    fn bits() -> (r: usize) {
        8
    }

    fn from_bits(bits: u8) -> (r: Self) {
        proof {
            bits.lemma_val_bounded();
            lemma_low_mask_and(bits.val(), 8);
        }
        bits
    }

    fn into_bits(self) -> (r: u8) {
        self
    }

    proof fn lemma_into_bits(self, other: Self) {
        self.lemma_val_bounded();
    }
}

impl Storage for u8 {
    fn empty() -> (r: Self) {
        0
    }

    fn max_bits() -> (r: u8) {
        Self::ones()
    }
}

proof fn lemma_u16_ops(x: u16, n: u32)
    requires
        n < 16,
    ensures
        x as u128 <= u128::MAX >> 112u128,
        (u16::MAX) as u128 == u128::MAX >> 112u128,
        (!x) as u128 == !(x as u128) & (u128::MAX >> 112u128),
        (x << n) as u128 == ((x as u128) << (n as u128)) & (u128::MAX >> 112u128),
        (x >> n) as u128 == (x as u128) >> (n as u128),
{
    assert({
        &&& x as u128 <= u128::MAX >> 112u128
        &&& (u16::MAX) as u128 == u128::MAX >> 112u128
        &&& (!x) as u128 == !(x as u128) & (u128::MAX >> 112u128)
        &&& (x << n) as u128 == ((x as u128) << (n as u128)) & (u128::MAX >> 112u128)
        &&& (x >> n) as u128 == (x as u128) >> (n as u128)
    }) by (bit_vector)
        requires
            n < 16,
    ;
}

impl Sealed for u16 {}

impl Bits for u16 {
    open spec fn spec_width() -> nat {
        16
    }

    open spec fn val(self) -> u128 {
        self as u128
    }

    proof fn lemma_val_bounded(self) {
        lemma_u16_ops(self, 0);
    }

    proof fn lemma_val_injective(self, other: Self) {
    }

    fn width() -> (r: u32) {
        16
    }

    fn zero() -> (r: Self) {
        0
    }

    fn ones() -> (r: Self) {
        let r = u16::MAX;
        proof {
            lemma_u16_ops(r, 0);
        }
        r
    }

    fn bit_and(self, rhs: Self) -> (r: Self) {
        self & rhs
    }

    fn bit_or(self, rhs: Self) -> (r: Self) {
        self | rhs
    }

    fn bit_xor(self, rhs: Self) -> (r: Self) {
        self ^ rhs
    }

    fn bit_not(self) -> (r: Self) {
        proof {
            lemma_u16_ops(self, 0);
        }
        !self
    }

    fn wrapping_shl(self, n: u32) -> (r: Self) {
        proof {
            lemma_u16_ops(self, n % 16);
        }
        u16::wrapping_shl(self, n)
    }

    fn wrapping_shr(self, n: u32) -> (r: Self) {
        proof {
            lemma_u16_ops(self, n % 16);
        }
        u16::wrapping_shr(self, n)
    }
}

impl BitSized for u16 {
    type Bits = u16;

    open spec fn spec_bits() -> nat {
        16
    }

    open spec fn wf(self) -> bool {
        true
    }

    open spec fn spec_into_bits(self) -> u16 {
        self
    }

    fn bits() -> (r: usize) {
        16
    }

    fn from_bits(bits: u16) -> (r: Self) {
        proof {
            bits.lemma_val_bounded();
            lemma_low_mask_and(bits.val(), 16);
        }
        bits
    }

    fn into_bits(self) -> (r: u16) {
        self
    }

    proof fn lemma_into_bits(self, other: Self) {
        self.lemma_val_bounded();
    }
}

impl Storage for u16 {
    fn empty() -> (r: Self) {
        0
    }

    fn max_bits() -> (r: u16) {
        Self::ones()
    }
}

proof fn lemma_u32_ops(x: u32, n: u32)
    requires
        n < 32,
    ensures
        x as u128 <= u128::MAX >> 96u128,
        (u32::MAX) as u128 == u128::MAX >> 96u128,
        (!x) as u128 == !(x as u128) & (u128::MAX >> 96u128),
        (x << n) as u128 == ((x as u128) << (n as u128)) & (u128::MAX >> 96u128),
        (x >> n) as u128 == (x as u128) >> (n as u128),
{
    assert({
        &&& x as u128 <= u128::MAX >> 96u128
        &&& (u32::MAX) as u128 == u128::MAX >> 96u128
        &&& (!x) as u128 == !(x as u128) & (u128::MAX >> 96u128)
        &&& (x << n) as u128 == ((x as u128) << (n as u128)) & (u128::MAX >> 96u128)
        &&& (x >> n) as u128 == (x as u128) >> (n as u128)
    }) by (bit_vector)
        requires
            n < 32,
    ;
}

impl Sealed for u32 {}

impl Bits for u32 {
    open spec fn spec_width() -> nat {
        32
    }

    open spec fn val(self) -> u128 {
        self as u128
    }

    proof fn lemma_val_bounded(self) {
        lemma_u32_ops(self, 0);
    }

    proof fn lemma_val_injective(self, other: Self) {
    }

    fn width() -> (r: u32) {
        32
    }

    fn zero() -> (r: Self) {
        0
    }

    fn ones() -> (r: Self) {
        let r = u32::MAX;
        proof {
            lemma_u32_ops(r, 0);
        }
        r
    }

    fn bit_and(self, rhs: Self) -> (r: Self) {
        self & rhs
    }

    fn bit_or(self, rhs: Self) -> (r: Self) {
        self | rhs
    }

    fn bit_xor(self, rhs: Self) -> (r: Self) {
        self ^ rhs
    }

    fn bit_not(self) -> (r: Self) {
        proof {
            lemma_u32_ops(self, 0);
        }
        !self
    }

    fn wrapping_shl(self, n: u32) -> (r: Self) {
        proof {
            lemma_u32_ops(self, n % 32);
        }
        u32::wrapping_shl(self, n)
    }

    fn wrapping_shr(self, n: u32) -> (r: Self) {
        proof {
            lemma_u32_ops(self, n % 32);
        }
        u32::wrapping_shr(self, n)
    }
}

impl BitSized for u32 {
    type Bits = u32;

    open spec fn spec_bits() -> nat {
        32
    }

    open spec fn wf(self) -> bool {
        true
    }

    open spec fn spec_into_bits(self) -> u32 {
        self
    }

    fn bits() -> (r: usize) {
        32
    }

    fn from_bits(bits: u32) -> (r: Self) {
        proof {
            bits.lemma_val_bounded();
            lemma_low_mask_and(bits.val(), 32);
        }
        bits
    }

    fn into_bits(self) -> (r: u32) {
        self
    }

    proof fn lemma_into_bits(self, other: Self) {
        self.lemma_val_bounded();
    }
}

impl Storage for u32 {
    fn empty() -> (r: Self) {
        0
    }

    fn max_bits() -> (r: u32) {
        Self::ones()
    }
}

proof fn lemma_u64_ops(x: u64, n: u32)
    requires
        n < 64,
    ensures
        x as u128 <= u128::MAX >> 64u128,
        (u64::MAX) as u128 == u128::MAX >> 64u128,
        (!x) as u128 == !(x as u128) & (u128::MAX >> 64u128),
        (x << n) as u128 == ((x as u128) << (n as u128)) & (u128::MAX >> 64u128),
        (x >> n) as u128 == (x as u128) >> (n as u128),
{
    assert({
        &&& x as u128 <= u128::MAX >> 64u128
        &&& (u64::MAX) as u128 == u128::MAX >> 64u128
        &&& (!x) as u128 == !(x as u128) & (u128::MAX >> 64u128)
        &&& (x << n) as u128 == ((x as u128) << (n as u128)) & (u128::MAX >> 64u128)
        &&& (x >> n) as u128 == (x as u128) >> (n as u128)
    }) by (bit_vector)
        requires
            n < 64,
    ;
}

impl Sealed for u64 {}

impl Bits for u64 {
    open spec fn spec_width() -> nat {
        64
    }

    open spec fn val(self) -> u128 {
        self as u128
    }

    proof fn lemma_val_bounded(self) {
        lemma_u64_ops(self, 0);
    }

    proof fn lemma_val_injective(self, other: Self) {
    }

    fn width() -> (r: u32) {
        64
    }

    fn zero() -> (r: Self) {
        0
    }

    fn ones() -> (r: Self) {
        let r = u64::MAX;
        proof {
            lemma_u64_ops(r, 0);
        }
        r
    }

    fn bit_and(self, rhs: Self) -> (r: Self) {
        self & rhs
    }

    fn bit_or(self, rhs: Self) -> (r: Self) {
        self | rhs
    }

    fn bit_xor(self, rhs: Self) -> (r: Self) {
        self ^ rhs
    }

    fn bit_not(self) -> (r: Self) {
        proof {
            lemma_u64_ops(self, 0);
        }
        !self
    }

    fn wrapping_shl(self, n: u32) -> (r: Self) {
        proof {
            lemma_u64_ops(self, n % 64);
        }
        u64::wrapping_shl(self, n)
    }

    fn wrapping_shr(self, n: u32) -> (r: Self) {
        proof {
            lemma_u64_ops(self, n % 64);
        }
        u64::wrapping_shr(self, n)
    }
}

impl BitSized for u64 {
    type Bits = u64;

    open spec fn spec_bits() -> nat {
        64
    }

    open spec fn wf(self) -> bool {
        true
    }

    open spec fn spec_into_bits(self) -> u64 {
        self
    }

    fn bits() -> (r: usize) {
        64
    }

    fn from_bits(bits: u64) -> (r: Self) {
        proof {
            bits.lemma_val_bounded();
            lemma_low_mask_and(bits.val(), 64);
        }
        bits
    }

    fn into_bits(self) -> (r: u64) {
        self
    }

    proof fn lemma_into_bits(self, other: Self) {
        self.lemma_val_bounded();
    }
}

impl Storage for u64 {
    fn empty() -> (r: Self) {
        0
    }

    fn max_bits() -> (r: u64) {
        Self::ones()
    }
}

proof fn lemma_u128_ops(x: u128, n: u32)
    requires
        n < 128,
    ensures
        x as u128 <= u128::MAX >> 0u128,
        (u128::MAX) as u128 == u128::MAX >> 0u128,
        (!x) as u128 == !(x as u128) & (u128::MAX >> 0u128),
        (x << n) as u128 == ((x as u128) << (n as u128)) & (u128::MAX >> 0u128),
        (x >> n) as u128 == (x as u128) >> (n as u128),
{
    assert({
        &&& x as u128 <= u128::MAX >> 0u128
        &&& (u128::MAX) as u128 == u128::MAX >> 0u128
        &&& (!x) as u128 == !(x as u128) & (u128::MAX >> 0u128)
        &&& (x << n) as u128 == ((x as u128) << (n as u128)) & (u128::MAX >> 0u128)
        &&& (x >> n) as u128 == (x as u128) >> (n as u128)
    }) by (bit_vector)
        requires
            n < 128,
    ;
}

impl Sealed for u128 {}

impl Bits for u128 {
    open spec fn spec_width() -> nat {
        128
    }

    open spec fn val(self) -> u128 {
        self as u128
    }

    proof fn lemma_val_bounded(self) {
        lemma_u128_ops(self, 0);
    }

    proof fn lemma_val_injective(self, other: Self) {
    }

    fn width() -> (r: u32) {
        128
    }

    fn zero() -> (r: Self) {
        0
    }

    fn ones() -> (r: Self) {
        let r = u128::MAX;
        proof {
            lemma_u128_ops(r, 0);
        }
        r
    }

    fn bit_and(self, rhs: Self) -> (r: Self) {
        self & rhs
    }

    fn bit_or(self, rhs: Self) -> (r: Self) {
        self | rhs
    }

    fn bit_xor(self, rhs: Self) -> (r: Self) {
        self ^ rhs
    }

    fn bit_not(self) -> (r: Self) {
        proof {
            lemma_u128_ops(self, 0);
        }
        !self
    }

    fn wrapping_shl(self, n: u32) -> (r: Self) {
        proof {
            lemma_u128_ops(self, n % 128);
        }
        u128::wrapping_shl(self, n)
    }

    fn wrapping_shr(self, n: u32) -> (r: Self) {
        proof {
            lemma_u128_ops(self, n % 128);
        }
        u128::wrapping_shr(self, n)
    }
}

impl BitSized for u128 {
    type Bits = u128;

    open spec fn spec_bits() -> nat {
        128
    }

    open spec fn wf(self) -> bool {
        true
    }

    open spec fn spec_into_bits(self) -> u128 {
        self
    }

    fn bits() -> (r: usize) {
        128
    }

    fn from_bits(bits: u128) -> (r: Self) {
        proof {
            bits.lemma_val_bounded();
            lemma_low_mask_and(bits.val(), 128);
        }
        bits
    }

    fn into_bits(self) -> (r: u128) {
        self
    }

    proof fn lemma_into_bits(self, other: Self) {
        self.lemma_val_bounded();
    }
}

impl Storage for u128 {
    fn empty() -> (r: Self) {
        0
    }

    fn max_bits() -> (r: u128) {
        Self::ones()
    }
}

impl Widen<u16> for u8 {
    proof fn lemma_not_wider() {
    }

    fn widen(self) -> (r: u16) {
        self as u16
    }

    fn narrow(wide: u16) -> (r: Self) {
        proof {
            lemma_narrow_to_u8(wide as u128);
        }
        wide as u8
    }
}

impl Widen<u32> for u8 {
    proof fn lemma_not_wider() {
    }

    fn widen(self) -> (r: u32) {
        self as u32
    }

    fn narrow(wide: u32) -> (r: Self) {
        proof {
            lemma_narrow_to_u8(wide as u128);
        }
        wide as u8
    }
}

impl Widen<u64> for u8 {
    proof fn lemma_not_wider() {
    }

    fn widen(self) -> (r: u64) {
        self as u64
    }

    fn narrow(wide: u64) -> (r: Self) {
        proof {
            lemma_narrow_to_u8(wide as u128);
        }
        wide as u8
    }
}

impl Widen<u128> for u8 {
    proof fn lemma_not_wider() {
    }

    fn widen(self) -> (r: u128) {
        self as u128
    }

    fn narrow(wide: u128) -> (r: Self) {
        proof {
            lemma_narrow_to_u8(wide as u128);
        }
        wide as u8
    }
}

impl Widen<u32> for u16 {
    proof fn lemma_not_wider() {
    }

    fn widen(self) -> (r: u32) {
        self as u32
    }

    fn narrow(wide: u32) -> (r: Self) {
        proof {
            lemma_narrow_to_u16(wide as u128);
        }
        wide as u16
    }
}

impl Widen<u64> for u16 {
    proof fn lemma_not_wider() {
    }

    fn widen(self) -> (r: u64) {
        self as u64
    }

    fn narrow(wide: u64) -> (r: Self) {
        proof {
            lemma_narrow_to_u16(wide as u128);
        }
        wide as u16
    }
}

impl Widen<u128> for u16 {
    proof fn lemma_not_wider() {
    }

    fn widen(self) -> (r: u128) {
        self as u128
    }

    fn narrow(wide: u128) -> (r: Self) {
        proof {
            lemma_narrow_to_u16(wide as u128);
        }
        wide as u16
    }
}

impl Widen<u64> for u32 {
    proof fn lemma_not_wider() {
    }

    fn widen(self) -> (r: u64) {
        self as u64
    }

    fn narrow(wide: u64) -> (r: Self) {
        proof {
            lemma_narrow_to_u32(wide as u128);
        }
        wide as u32
    }
}

impl Widen<u128> for u32 {
    proof fn lemma_not_wider() {
    }

    fn widen(self) -> (r: u128) {
        self as u128
    }

    fn narrow(wide: u128) -> (r: Self) {
        proof {
            lemma_narrow_to_u32(wide as u128);
        }
        wide as u32
    }
}

impl Widen<u128> for u64 {
    proof fn lemma_not_wider() {
    }

    fn widen(self) -> (r: u128) {
        self as u128
    }

    fn narrow(wide: u128) -> (r: Self) {
        proof {
            lemma_narrow_to_u64(wide as u128);
        }
        wide as u64
    }
}

proof fn lemma_narrow_to_u8(y: u128)
    ensures
        (y as u8) as u128 == y & (u128::MAX >> 120u128),
{
    assert((y as u8) as u128 == y & (u128::MAX >> 120u128)) by (bit_vector);
}

proof fn lemma_narrow_to_u16(y: u128)
    ensures
        (y as u16) as u128 == y & (u128::MAX >> 112u128),
{
    assert((y as u16) as u128 == y & (u128::MAX >> 112u128)) by (bit_vector);
}

proof fn lemma_narrow_to_u32(y: u128)
    ensures
        (y as u32) as u128 == y & (u128::MAX >> 96u128),
{
    assert((y as u32) as u128 == y & (u128::MAX >> 96u128)) by (bit_vector);
}

proof fn lemma_narrow_to_u64(y: u128)
    ensures
        (y as u64) as u128 == y & (u128::MAX >> 64u128),
{
    assert((y as u64) as u128 == y & (u128::MAX >> 64u128)) by (bit_vector);
}

impl<T: Bits> Widen<T> for T {
    proof fn lemma_not_wider() {
    }

    fn widen(self) -> (r: T) {
        self
    }

    fn narrow(wide: T) -> (r: Self) {
        proof {
            wide.lemma_val_bounded();
            lemma_low_mask_and(wide.val(), T::spec_width());
        }
        wide
    }
}

impl BitSized for bool {
    type Bits = u8;

    open spec fn spec_bits() -> nat {
        1
    }

    open spec fn wf(self) -> bool {
        true
    }

    open spec fn spec_into_bits(self) -> u8 {
        if self {
            1
        } else {
            0
        }
    }

    fn bits() -> (r: usize) {
        1
    }

    /// Only the lowest bit is read.
    fn from_bits(bits: u8) -> (r: Self) {
        let r = (bits & 1) != 0;
        proof {
            assert(((bits & 1) != 0) == ((bits as u128) & (u128::MAX >> 127u128) == 1)) by (bit_vector);
            assert(((bits & 1) == 0) == ((bits as u128) & (u128::MAX >> 127u128) == 0)) by (bit_vector);
        }
        r
    }

    fn into_bits(self) -> (r: u8) {
        if self {
            1
        } else {
            0
        }
    }

    proof fn lemma_into_bits(self, other: Self) {
        assert(1u128 <= u128::MAX >> 127u128) by (bit_vector);
    }
}

} // verus!
