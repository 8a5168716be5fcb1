use vstd::prelude::*;

use crate::private::Sealed;

verus! {

/// The word with exactly the low `b` bits set, for `b <= 128`.
pub open spec fn low_mask(b: nat) -> u128 {
    if b == 0 {
        0
    } else {
        u128::MAX >> ((128 - b) as u128)
    }
}

/// The `b` ones that a field of width `b` at bit `offset` occupies.
pub open spec fn field_mask(offset: nat, b: nat) -> u128 {
    low_mask(b) << (offset as u128)
}

/// The `b`-bit field of `word` that starts at bit `offset`.
pub open spec fn field_of(word: u128, offset: nat, b: nat) -> u128 {
    (word >> (offset as u128)) & low_mask(b)
}

/// `word` with its `b`-bit field at bit `offset` replaced by the low `b` bits of `v`.
pub open spec fn with_field(word: u128, offset: nat, b: nat, v: u128) -> u128 {
    (word & !field_mask(offset, b)) | ((v & low_mask(b)) << (offset as u128))
}

/// Bits which can be operated on: the unsigned integer widths.
///
/// A value is modelled by its bit pattern `val()`, zero-extended to 128 bits.
pub trait Bits: Copy + Sized + Sealed {
    /// The number of bits of the type.
    spec fn spec_width() -> nat;

    /// The value, zero-extended to 128 bits.
    spec fn val(self) -> u128;

    proof fn lemma_val_bounded(self)
        ensures
            8 <= Self::spec_width() <= 128,
            self.val() <= low_mask(Self::spec_width()),
    ;

    proof fn lemma_val_injective(self, other: Self)
        ensures
            self.val() == other.val() ==> self == other,
    ;

    /// The number of bits of the type.
    fn width() -> (r: u32)
        ensures
            r as nat == Self::spec_width(),
    ;

    fn zero() -> (r: Self)
        ensures
            r.val() == 0,
    ;

    fn ones() -> (r: Self)
        ensures
            r.val() == low_mask(Self::spec_width()),
    ;

    fn bit_and(self, rhs: Self) -> (r: Self)
        ensures
            r.val() == self.val() & rhs.val(),
    ;

    fn bit_or(self, rhs: Self) -> (r: Self)
        ensures
            r.val() == self.val() | rhs.val(),
    ;

    fn bit_xor(self, rhs: Self) -> (r: Self)
        ensures
            r.val() == self.val() ^ rhs.val(),
    ;

    fn bit_not(self) -> (r: Self)
        ensures
            r.val() == !self.val() & low_mask(Self::spec_width()),
    ;

    /// Shift left by `n` reduced modulo the width; bits shifted out are lost.
    fn wrapping_shl(self, n: u32) -> (r: Self)
        ensures
            r.val() == (self.val() << ((n as nat % Self::spec_width()) as u128)) & low_mask(
                Self::spec_width(),
            ),
    ;

    /// Shift right by `n` reduced modulo the width.
    fn wrapping_shr(self, n: u32) -> (r: Self)
        ensures
            r.val() == self.val() >> ((n as nat % Self::spec_width()) as u128),
    ;
}

/// Zero-extension to a wider (or equal) width, and truncation back.
pub trait Widen<Wide: Bits>: Bits {
    proof fn lemma_not_wider()
        ensures
            Self::spec_width() <= Wide::spec_width(),
    ;

    fn widen(self) -> (r: Wide)
        ensures
            r.val() == self.val(),
    ;

    fn narrow(wide: Wide) -> (r: Self)
        ensures
            r.val() == wide.val() & low_mask(Self::spec_width()),
    ;
}

/// A type with bit-grained size: `spec_bits()` bits, held in the low bits of
/// a `Bits` word.
pub trait BitSized: Copy + Sized {
    type Bits: Bits;

    /// The number of bits of the type.
    spec fn spec_bits() -> nat;

    /// The representation of a value; its bits from `spec_bits()` up are zero.
    spec fn spec_into_bits(self) -> Self::Bits;

    /// Whether the value is one that the type's operations can produce.
    spec fn wf(self) -> bool;

    /// The number of bits of the type.
    fn bits() -> (r: usize)
        ensures
            r as nat == Self::spec_bits(),
    ;

    /// The value whose representation is the low `spec_bits()` bits of `bits`.
    fn from_bits(bits: Self::Bits) -> (r: Self)
        requires
            1 <= Self::spec_bits() <= <Self::Bits as Bits>::spec_width(),
        ensures
            r.wf(),
            r.spec_into_bits().val() == bits.val() & low_mask(Self::spec_bits()),
    ;

    fn into_bits(self) -> (r: Self::Bits)
        ensures
            r == self.spec_into_bits(),
    ;

    /// A value is determined by its representation, which has no bits set
    /// from `spec_bits()` up.
    proof fn lemma_into_bits(self, other: Self)
        requires
            1 <= Self::spec_bits() <= <Self::Bits as Bits>::spec_width(),
        ensures
            self.wf() ==> self.spec_into_bits().val() <= low_mask(Self::spec_bits()),
            self.spec_into_bits() == other.spec_into_bits() ==> self == other,
    ;
}

/// The width of `T` is at least one bit and fits its backing bits.
pub open spec fn fits<T: BitSized>() -> bool {
    1 <= T::spec_bits() <= <T::Bits as Bits>::spec_width()
}

/// The representation of a bit-sized value, zero-extended to 128 bits.
pub open spec fn bits_of<T: BitSized>(v: T) -> u128 {
    v.spec_into_bits().val()
}

/// Whether a field of type `T` at bit `offset` has room inside storage `S`:
/// it is strictly narrower than `S` and ends within it.
pub open spec fn placement_ok<S: BitSized, T: BitSized>(offset: nat) -> bool {
    &&& T::spec_bits() < S::spec_bits()
    &&& offset + T::spec_bits() <= S::spec_bits()
}

/// Checks that a field of type `T` at bit `offset` has room inside storage `S`.
pub fn check_bits_and_offset<S: Storage, T: BitSized>(offset: u32) -> (ok: bool)
    ensures
        ok == placement_ok::<S, T>(offset as nat),
{
    let s_bits = S::bits();
    let t_bits = T::bits();
    t_bits < s_bits && offset as usize <= s_bits - t_bits
}

/// A type which can be used as the backing storage for a bitfield.
pub trait Storage: BitSized + Sealed {
    /// The storage with all bits clear.
    fn empty() -> (r: Self)
        requires
            fits::<Self>(),
        ensures
            r.wf(),
            bits_of(r) == 0,
    ;

    /// All the bits that the storage can hold, set.
    fn max_bits() -> (r: Self::Bits)
        requires
            fits::<Self>(),
        ensures
            r.val() == low_mask(Self::spec_bits()),
    ;

    /// Reads the field of type `T` that starts at bit `offset`.
    fn extract<T: BitSized>(&self, offset: u32) -> (r: T) where T::Bits: Widen<Self::Bits>
        requires
            fits::<Self>(),
            fits::<T>(),
            placement_ok::<Self, T>(offset as nat),
            self.wf(),
        ensures
            r.wf(),
            bits_of(r) == field_of(bits_of(*self), offset as nat, T::spec_bits()),
    {
        let shifted = self.into_bits().wrapping_shr(offset);
        let narrowed = <T::Bits as Widen<Self::Bits>>::narrow(shifted);
        proof {
            let x = bits_of(*self);
            self.lemma_into_bits(*self);
            <T::Bits as Widen<Self::Bits>>::lemma_not_wider();
            narrowed.lemma_val_bounded();
            shifted.lemma_val_bounded();
            vstd::arithmetic::div_mod::lemma_small_mod(offset as nat, Self::Bits::spec_width());
            lemma_mask_nested(T::spec_bits() as u128, <T::Bits as Bits>::spec_width() as u128);
            assert(((x >> (offset as u128)) & low_mask(<T::Bits as Bits>::spec_width())) & low_mask(
                T::spec_bits(),
            ) == (x >> (offset as u128)) & low_mask(T::spec_bits())) by {
                lemma_and_assoc_mask(
                    x >> (offset as u128),
                    low_mask(<T::Bits as Bits>::spec_width()),
                    low_mask(T::spec_bits()),
                );
            }
        }
        T::from_bits(narrowed)
    }

    /// Replaces the field of type `T` that starts at bit `offset` with `value`,
    /// leaving every other bit as it was.
    fn insert<T: BitSized>(&mut self, offset: u32, value: T) where T::Bits: Widen<Self::Bits>
        requires
            fits::<Self>(),
            fits::<T>(),
            placement_ok::<Self, T>(offset as nat),
            old(self).wf(),
            value.wf(),
        ensures
            final(self).wf(),
            bits_of(*final(self)) == with_field(
                bits_of(*old(self)),
                offset as nat,
                T::spec_bits(),
                bits_of(value),
            ),
    {
        let w = Self::Bits::width();
        let b = T::bits();
        proof {
            self.lemma_into_bits(*self);
            value.lemma_into_bits(value);
            self.spec_into_bits().lemma_val_bounded();
            <T::Bits as Widen<Self::Bits>>::lemma_not_wider();
        }
        let mask = Self::Bits::ones().wrapping_shr(w - b as u32).wrapping_shl(offset);
        let widened = value.into_bits().widen();
        let shifted = widened.wrapping_shl(offset);
        let combined = self.into_bits().bit_and(mask.bit_not()).bit_or(shifted.bit_and(mask));
        proof {
            vstd::arithmetic::div_mod::lemma_small_mod(offset as nat, w as nat);
            vstd::arithmetic::div_mod::lemma_small_mod((w - b) as nat, w as nat);
            lemma_insert_combined(
                bits_of(*self),
                bits_of(value),
                w as u128,
                Self::spec_bits() as u128,
                b as u128,
                offset as u128,
            );
        }
        *self = Self::from_bits(combined);
    }
}

// Facts about bit patterns, proved by the bit-vector solver.

/// Masking never makes a pattern larger than the mask.
pub proof fn lemma_and_le(x: u128, m: u128)
    ensures
        x & m <= m,
        x & m <= x,
{
    assert(x & m <= m && x & m <= x) by (bit_vector);
}

proof fn lemma_mask_nested(a: u128, b: u128)
    requires
        1 <= a <= b <= 128,
    ensures
        (u128::MAX >> ((128 - b) as u128)) & (u128::MAX >> ((128 - a) as u128)) == u128::MAX >> ((
        128 - a) as u128),
{
    assert((u128::MAX >> ((128 - b) as u128)) & (u128::MAX >> ((128 - a) as u128)) == u128::MAX >> ((
    128 - a) as u128)) by (bit_vector)
        requires
            1 <= a <= b <= 128,
    ;
}

proof fn lemma_and_assoc_mask(x: u128, m1: u128, m2: u128)
    ensures
        (x & m1) & m2 == x & (m1 & m2),
{
    assert((x & m1) & m2 == x & (m1 & m2)) by (bit_vector);
}

/// What the mask arithmetic of `Storage::insert` computes, for storage
/// of `s` bits backed by `w` bits, and a field of `b` bits at `off`.
proof fn lemma_insert_combined(x: u128, v: u128, w: u128, s: u128, b: u128, off: u128)
    requires
        1 <= b < s <= w <= 128,
        off + b <= s,
        x <= u128::MAX >> ((128 - s) as u128),
        v <= u128::MAX >> ((128 - b) as u128),
    ensures
        ({
            let mw = u128::MAX >> ((128 - w) as u128);
            let mask = (((mw >> ((w - b) as u128)) << off) & mw);
            let shifted = (v << off) & mw;
            let combined = (x & (!mask & mw)) | (shifted & mask);
            combined & (u128::MAX >> ((128 - s) as u128)) == (x & !((u128::MAX >> ((128 - b) as u128))
                << off)) | ((v & (u128::MAX >> ((128 - b) as u128))) << off)
        }),
{
    let mw = u128::MAX >> ((128 - w) as u128);
    let ms = u128::MAX >> ((128 - s) as u128);
    let mb = u128::MAX >> ((128 - b) as u128);
    lemma_shr_mask(w, b);
    lemma_field_mask_fits(b, off, w);
    let mask = mb << off;
    assert(((mw >> ((w - b) as u128)) << off) & mw == mask);
    lemma_value_in_field(v, b, off, w, s);
    let y = v << off;
    assert((v << off) & mw == y);
    assert(y & mask == y);
    assert(y & ms == y);
    assert(v & mb == v);
    lemma_mask_nested(s, w);
    lemma_below_mask(x, s);
    lemma_merge(x, mask, y, mw, ms);
}

/// Shifting the `w` low ones right by `w - b` leaves the `b` low ones.
pub proof fn lemma_shr_mask(w: u128, b: u128)
    requires
        1 <= b <= w <= 128,
    ensures
        (u128::MAX >> ((128 - w) as u128)) >> ((w - b) as u128) == u128::MAX >> ((128 - b) as u128),
{
    assert((u128::MAX >> ((128 - w) as u128)) >> ((w - b) as u128) == u128::MAX >> ((128 - b) as u128))
        by (bit_vector)
        requires
            1 <= b <= w <= 128,
    ;
}

proof fn lemma_field_mask_fits(b: u128, off: u128, w: u128)
    requires
        1 <= b,
        off + b <= w <= 128,
    ensures
        ((u128::MAX >> ((128 - b) as u128)) << off) & (u128::MAX >> ((128 - w) as u128)) == (u128::MAX
            >> ((128 - b) as u128)) << off,
{
    assert(((u128::MAX >> ((128 - b) as u128)) << off) & (u128::MAX >> ((128 - w) as u128)) == (
    u128::MAX >> ((128 - b) as u128)) << off) by (bit_vector)
        requires
            1 <= b,
            off + b <= w <= 128,
    ;
}

proof fn lemma_value_in_field(v: u128, b: u128, off: u128, w: u128, s: u128)
    requires
        1 <= b,
        off + b <= s <= w <= 128,
        v <= u128::MAX >> ((128 - b) as u128),
    ensures
        (v << off) & (u128::MAX >> ((128 - w) as u128)) == v << off,
        (v << off) & (u128::MAX >> ((128 - s) as u128)) == v << off,
        (v << off) & ((u128::MAX >> ((128 - b) as u128)) << off) == v << off,
        v & (u128::MAX >> ((128 - b) as u128)) == v,
{
    assert({
        &&& (v << off) & (u128::MAX >> ((128 - w) as u128)) == v << off
        &&& (v << off) & (u128::MAX >> ((128 - s) as u128)) == v << off
        &&& (v << off) & ((u128::MAX >> ((128 - b) as u128)) << off) == v << off
        &&& v & (u128::MAX >> ((128 - b) as u128)) == v
    }) by (bit_vector)
        requires
            1 <= b,
            off + b <= s <= w <= 128,
            v <= u128::MAX >> ((128 - b) as u128),
    ;
}

proof fn lemma_below_mask(x: u128, s: u128)
    requires
        1 <= s <= 128,
        x <= u128::MAX >> ((128 - s) as u128),
    ensures
        x & (u128::MAX >> ((128 - s) as u128)) == x,
{
    assert(x & (u128::MAX >> ((128 - s) as u128)) == x) by (bit_vector)
        requires
            1 <= s <= 128,
            x <= u128::MAX >> ((128 - s) as u128),
    ;
}

proof fn lemma_merge(x: u128, mask: u128, y: u128, mw: u128, ms: u128)
    requires
        x & ms == x,
        mw & ms == ms,
        y & mask == y,
        y & ms == y,
    ensures
        ((x & (!mask & mw)) | (y & mask)) & ms == (x & !mask) | y,
{
    assert(((x & (!mask & mw)) | (y & mask)) & ms == (x & !mask) | y) by (bit_vector)
        requires
            x & ms == x,
            mw & ms == ms,
            y & mask == y,
            y & ms == y,
    ;
}

} // verus!
