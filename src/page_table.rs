use vstd::prelude::*;

use crate::internal::{bits_of, field_of, low_mask, with_field, BitSized, Storage};
use crate::uint::UInt;

verus! {

/// Page permissions, packed into three bits.
#[derive(Clone, Copy, Debug)]
pub struct Perm(UInt<u8, 3>);

impl Perm {
    /// The storage word.
    pub closed spec fn storage(self) -> UInt<u8, 3> {
        self.0
    }

    /// A `Perm` with every bit clear.
    pub fn empty() -> (r: Self)
        ensures
            r.wf(),
            bits_of(r) == 0,
    {
        Perm(<UInt<u8, 3> as Storage>::empty())
    }

    /// Whether the page can be read.
    pub fn read(&self) -> (r: bool)
        requires
            self.wf(),
        ensures
            r.wf(),
            bits_of(r) == field_of(bits_of(*self), 0, 1),
    {
        self.0.extract::<bool>(0)
    }

    /// Sets [`Self::read`].
    pub fn set_read(&mut self, value: bool)
        requires
            old(self).wf(),
            value.wf(),
        ensures
            final(self).wf(),
            bits_of(*final(self)) == with_field(bits_of(*old(self)), 0, 1, bits_of(value)),
    {
        self.0.insert::<bool>(0, value);
    }

    /// Returns this bitfield with [`Self::read`] set.
    pub fn with_read(self, value: bool) -> (r: Self)
        requires
            self.wf(),
            value.wf(),
        ensures
            r.wf(),
            bits_of(r) == with_field(bits_of(self), 0, 1, bits_of(value)),
    {
        let mut r = self;
        r.set_read(value);
        r
    }

    /// Whether the page can be written.
    pub fn write(&self) -> (r: bool)
        requires
            self.wf(),
        ensures
            r.wf(),
            bits_of(r) == field_of(bits_of(*self), 1, 1),
    {
        self.0.extract::<bool>(1)
    }

    /// Sets [`Self::write`].
    pub fn set_write(&mut self, value: bool)
        requires
            old(self).wf(),
            value.wf(),
        ensures
            final(self).wf(),
            bits_of(*final(self)) == with_field(bits_of(*old(self)), 1, 1, bits_of(value)),
    {
        self.0.insert::<bool>(1, value);
    }

    /// Returns this bitfield with [`Self::write`] set.
    pub fn with_write(self, value: bool) -> (r: Self)
        requires
            self.wf(),
            value.wf(),
        ensures
            r.wf(),
            bits_of(r) == with_field(bits_of(self), 1, 1, bits_of(value)),
    {
        let mut r = self;
        r.set_write(value);
        r
    }

    /// Whether the page can be executed.
    pub fn execute(&self) -> (r: bool)
        requires
            self.wf(),
        ensures
            r.wf(),
            bits_of(r) == field_of(bits_of(*self), 2, 1),
    {
        self.0.extract::<bool>(2)
    }

    /// Sets [`Self::execute`].
    pub fn set_execute(&mut self, value: bool)
        requires
            old(self).wf(),
            value.wf(),
        ensures
            final(self).wf(),
            bits_of(*final(self)) == with_field(bits_of(*old(self)), 2, 1, bits_of(value)),
    {
        self.0.insert::<bool>(2, value);
    }

    /// Returns this bitfield with [`Self::execute`] set.
    pub fn with_execute(self, value: bool) -> (r: Self)
        requires
            self.wf(),
            value.wf(),
        ensures
            r.wf(),
            bits_of(r) == with_field(bits_of(self), 2, 1, bits_of(value)),
    {
        let mut r = self;
        r.set_execute(value);
        r
    }

    /// The fields fill the storage exactly: no bit is left over or shared.
    pub proof fn lemma_layout()
        ensures
            Self::spec_bits() == 1 + 1 + 1,
            Self::spec_bits() == <UInt<u8, 3> as BitSized>::spec_bits(),
    {
    }
}

impl BitSized for Perm {
    type Bits = <UInt<u8, 3> as BitSized>::Bits;

    open spec fn spec_bits() -> nat {
        1 + 1 + 1
    }

    open spec fn wf(self) -> bool {
        self.storage().wf()
    }

    open spec fn spec_into_bits(self) -> Self::Bits {
        self.storage().spec_into_bits()
    }

    fn bits() -> (r: usize) {
        1 + 1 + 1
    }

    fn from_bits(bits: Self::Bits) -> (r: Self) {
        Perm(<UInt<u8, 3> as BitSized>::from_bits(bits))
    }

    fn into_bits(self) -> (r: Self::Bits) {
        self.0.into_bits()
    }

    proof fn lemma_into_bits(self, other: Self) {
        self.0.lemma_into_bits(other.0);
    }
}

/// Page table entry flags, packed into one byte.
#[derive(Clone, Copy, Debug, PartialEq, Eq, Structural)]
pub struct Flags(u8);

impl Flags {
    /// The storage word.
    pub closed spec fn storage(self) -> u8 {
        self.0
    }

    /// A `Flags` with every bit clear.
    pub fn empty() -> (r: Self)
        ensures
            r.wf(),
            bits_of(r) == 0,
    {
        Flags(<u8 as Storage>::empty())
    }

    /// Whether the page is valid.
    pub fn valid(&self) -> (r: bool)
        requires
            self.wf(),
        ensures
            r.wf(),
            bits_of(r) == field_of(bits_of(*self), 0, 1),
    {
        self.0.extract::<bool>(0)
    }

    /// Sets [`Self::valid`].
    pub fn set_valid(&mut self, value: bool)
        requires
            old(self).wf(),
            value.wf(),
        ensures
            final(self).wf(),
            bits_of(*final(self)) == with_field(bits_of(*old(self)), 0, 1, bits_of(value)),
    {
        self.0.insert::<bool>(0, value);
    }

    /// Returns this bitfield with [`Self::valid`] set.
    pub fn with_valid(self, value: bool) -> (r: Self)
        requires
            self.wf(),
            value.wf(),
        ensures
            r.wf(),
            bits_of(r) == with_field(bits_of(self), 0, 1, bits_of(value)),
    {
        let mut r = self;
        r.set_valid(value);
        r
    }

    /// The page permissions.
    pub fn perms(&self) -> (r: Perm)
        requires
            self.wf(),
        ensures
            r.wf(),
            bits_of(r) == field_of(bits_of(*self), 1, 3),
    {
        self.0.extract::<Perm>(1)
    }

    /// Sets [`Self::perms`].
    pub fn set_perms(&mut self, value: Perm)
        requires
            old(self).wf(),
            value.wf(),
        ensures
            final(self).wf(),
            bits_of(*final(self)) == with_field(bits_of(*old(self)), 1, 3, bits_of(value)),
    {
        self.0.insert::<Perm>(1, value);
    }

    /// Returns this bitfield with [`Self::perms`] set.
    pub fn with_perms(self, value: Perm) -> (r: Self)
        requires
            self.wf(),
            value.wf(),
        ensures
            r.wf(),
            bits_of(r) == with_field(bits_of(self), 1, 3, bits_of(value)),
    {
        let mut r = self;
        r.set_perms(value);
        r
    }

    /// Whether this is a user page.
    pub fn user(&self) -> (r: bool)
        requires
            self.wf(),
        ensures
            r.wf(),
            bits_of(r) == field_of(bits_of(*self), 4, 1),
    {
        self.0.extract::<bool>(4)
    }

    /// Sets [`Self::user`].
    pub fn set_user(&mut self, value: bool)
        requires
            old(self).wf(),
            value.wf(),
        ensures
            final(self).wf(),
            bits_of(*final(self)) == with_field(bits_of(*old(self)), 4, 1, bits_of(value)),
    {
        self.0.insert::<bool>(4, value);
    }

    /// Returns this bitfield with [`Self::user`] set.
    pub fn with_user(self, value: bool) -> (r: Self)
        requires
            self.wf(),
            value.wf(),
        ensures
            r.wf(),
            bits_of(r) == with_field(bits_of(self), 4, 1, bits_of(value)),
    {
        let mut r = self;
        r.set_user(value);
        r
    }

    /// Whether this is a global page.
    pub fn global(&self) -> (r: bool)
        requires
            self.wf(),
        ensures
            r.wf(),
            bits_of(r) == field_of(bits_of(*self), 5, 1),
    {
        self.0.extract::<bool>(5)
    }

    /// Sets [`Self::global`].
    pub fn set_global(&mut self, value: bool)
        requires
            old(self).wf(),
            value.wf(),
        ensures
            final(self).wf(),
            bits_of(*final(self)) == with_field(bits_of(*old(self)), 5, 1, bits_of(value)),
    {
        self.0.insert::<bool>(5, value);
    }

    /// Returns this bitfield with [`Self::global`] set.
    pub fn with_global(self, value: bool) -> (r: Self)
        requires
            self.wf(),
            value.wf(),
        ensures
            r.wf(),
            bits_of(r) == with_field(bits_of(self), 5, 1, bits_of(value)),
    {
        let mut r = self;
        r.set_global(value);
        r
    }

    /// Whether the page has been accessed.
    pub fn accessed(&self) -> (r: bool)
        requires
            self.wf(),
        ensures
            r.wf(),
            bits_of(r) == field_of(bits_of(*self), 6, 1),
    {
        self.0.extract::<bool>(6)
    }

    /// Sets [`Self::accessed`].
    pub fn set_accessed(&mut self, value: bool)
        requires
            old(self).wf(),
            value.wf(),
        ensures
            final(self).wf(),
            bits_of(*final(self)) == with_field(bits_of(*old(self)), 6, 1, bits_of(value)),
    {
        self.0.insert::<bool>(6, value);
    }

    /// Returns this bitfield with [`Self::accessed`] set.
    pub fn with_accessed(self, value: bool) -> (r: Self)
        requires
            self.wf(),
            value.wf(),
        ensures
            r.wf(),
            bits_of(r) == with_field(bits_of(self), 6, 1, bits_of(value)),
    {
        let mut r = self;
        r.set_accessed(value);
        r
    }

    /// Whether the page has been written to.
    pub fn dirty(&self) -> (r: bool)
        requires
            self.wf(),
        ensures
            r.wf(),
            bits_of(r) == field_of(bits_of(*self), 7, 1),
    {
        self.0.extract::<bool>(7)
    }

    /// Sets [`Self::dirty`].
    pub fn set_dirty(&mut self, value: bool)
        requires
            old(self).wf(),
            value.wf(),
        ensures
            final(self).wf(),
            bits_of(*final(self)) == with_field(bits_of(*old(self)), 7, 1, bits_of(value)),
    {
        self.0.insert::<bool>(7, value);
    }

    /// Returns this bitfield with [`Self::dirty`] set.
    pub fn with_dirty(self, value: bool) -> (r: Self)
        requires
            self.wf(),
            value.wf(),
        ensures
            r.wf(),
            bits_of(r) == with_field(bits_of(self), 7, 1, bits_of(value)),
    {
        let mut r = self;
        r.set_dirty(value);
        r
    }

    /// The fields fill the storage exactly: no bit is left over or shared.
    pub proof fn lemma_layout()
        ensures
            Self::spec_bits() == 1 + 3 + 1 + 1 + 1 + 1,
            Self::spec_bits() == <u8 as BitSized>::spec_bits(),
    {
    }
}

impl BitSized for Flags {
    type Bits = <u8 as BitSized>::Bits;

    open spec fn spec_bits() -> nat {
        1 + 3 + 1 + 1 + 1 + 1
    }

    open spec fn wf(self) -> bool {
        self.storage().wf()
    }

    open spec fn spec_into_bits(self) -> Self::Bits {
        self.storage().spec_into_bits()
    }

    fn bits() -> (r: usize) {
        1 + 3 + 1 + 1 + 1 + 1
    }

    fn from_bits(bits: Self::Bits) -> (r: Self) {
        Flags(<u8 as BitSized>::from_bits(bits))
    }

    fn into_bits(self) -> (r: Self::Bits) {
        self.0.into_bits()
    }

    proof fn lemma_into_bits(self, other: Self) {
        self.0.lemma_into_bits(other.0);
    }
}

/// A three-bit tag with a variant for every pattern of its storage.
#[derive(Clone, Copy, Debug, PartialEq, Eq, Structural)]
pub enum Perm2 {
    A,
    B,
    C,
    D,
    E,
    F,
    G,
    H,
}

impl Perm2 {
    /// There is a variant for each of the `2^3` patterns, so decoding never fails.
    pub proof fn lemma_layout()
        ensures
            Self::spec_bits() == <UInt<u8, 3> as BitSized>::spec_bits(),
            low_mask(Self::spec_bits()) == 7,
    {
        assert(u128::MAX >> 125u128 == 7) by (bit_vector);
    }

    /// Every pattern of the storage names a variant.
    pub proof fn lemma_exhaustive(i: u8)
        requires
            i <= 7,
        ensures
            exists|v: Perm2| bits_of(v) == i,
    {
        if i == 0 { assert(bits_of(Perm2::A) == i); }
        if i == 1 { assert(bits_of(Perm2::B) == i); }
        if i == 2 { assert(bits_of(Perm2::C) == i); }
        if i == 3 { assert(bits_of(Perm2::D) == i); }
        if i == 4 { assert(bits_of(Perm2::E) == i); }
        if i == 5 { assert(bits_of(Perm2::F) == i); }
        if i == 6 { assert(bits_of(Perm2::G) == i); }
        if i == 7 { assert(bits_of(Perm2::H) == i); }
    }
}

impl BitSized for Perm2 {
    type Bits = <UInt<u8, 3> as BitSized>::Bits;

    open spec fn spec_bits() -> nat {
        <UInt<u8, 3> as BitSized>::spec_bits()
    }

    open spec fn wf(self) -> bool {
        true
    }

    open spec fn spec_into_bits(self) -> u8 {
        match self {
                Perm2::A => 0,
                Perm2::B => 1,
                Perm2::C => 2,
                Perm2::D => 3,
                Perm2::E => 4,
                Perm2::F => 5,
                Perm2::G => 6,
                Perm2::H => 7,
        }
    }

    fn bits() -> (r: usize) {
        <UInt<u8, 3> as BitSized>::bits()
    }

    fn from_bits(bits: u8) -> (r: Self) {
        let tag = bits & 7;
        proof {
            assert((bits & 7) as u128 == (bits as u128) & (u128::MAX >> 125u128) && bits & 7 <= 7)
                by (bit_vector);
        }
        match tag {
            0 => Perm2::A,
            1 => Perm2::B,
            2 => Perm2::C,
            3 => Perm2::D,
            4 => Perm2::E,
            5 => Perm2::F,
            6 => Perm2::G,
            _ => Perm2::H,
        }
    }

    fn into_bits(self) -> (r: u8) {
        match self {
            Perm2::A => 0,
            Perm2::B => 1,
            Perm2::C => 2,
            Perm2::D => 3,
            Perm2::E => 4,
            Perm2::F => 5,
            Perm2::G => 6,
            Perm2::H => 7,
        }
    }

    proof fn lemma_into_bits(self, other: Self) {
        assert(u128::MAX >> 125u128 == 7) by (bit_vector);
    }
}

} // verus!
