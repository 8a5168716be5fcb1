//! What holds of every bitfield layout and every bit-sized type.
use vstd::prelude::*;

use crate::internal::{bits_of, field_of, fits, low_mask, with_field, BitSized, Bits};
use crate::prims::lemma_low_mask_and;

verus! {

/// Decoding the representation of a value gives the value back: a `r` that
/// `T::from_bits(v.into_bits())` may return is `v`.
pub proof fn lemma_round_trip<T: BitSized>(v: T, r: T)
    requires
        fits::<T>(),
        v.wf(),
        bits_of(r) == bits_of(v) & low_mask(T::spec_bits()),
    ensures
        r == v,
{
    v.spec_into_bits().lemma_val_bounded();
    v.lemma_into_bits(v);
    r.lemma_into_bits(v);
    lemma_low_mask_and(bits_of(v), T::spec_bits());
    v.spec_into_bits().lemma_val_injective(r.spec_into_bits());
}

/// A field reads back what was written into it, cut to its width.
#[verifier::rlimit(100)]
pub proof fn lemma_field_reads_back(word: u128, offset: nat, b: nat, v: u128)
    requires
        1 <= b,
        offset + b <= 128,
    ensures
        field_of(with_field(word, offset, b, v), offset, b) == v & low_mask(b),
{
    let (o, mb) = (offset as u128, low_mask(b));
    lemma_mask_shift_fits(b as u128, o);
    lemma_shr_or(word & !(mb << o), (v & mb) << o, o, mb);
    assert(((word & !(mb << o)) >> o) & mb == 0) by (bit_vector)
        requires
            (mb << o) >> o == mb,
    ;
    assert((((v & mb) << o) >> o) & mb == v & mb) by (bit_vector)
        requires
            (mb << o) >> o == mb,
    ;
    lemma_or_zero(((word & !(mb << o)) >> o) & mb, v & mb);
}

/// Writing one field leaves every field that does not overlap it as it was.
#[verifier::rlimit(100)]
pub proof fn lemma_field_isolated(word: u128, offset: nat, b: nat, v: u128, other: nat, c: nat)
    requires
        1 <= b,
        1 <= c,
        offset + b <= 128,
        other + c <= 128,
        offset + b <= other || other + c <= offset,
    ensures
        field_of(with_field(word, offset, b, v), other, c) == field_of(word, other, c),
{
    let (o, mb, p, mc) = (offset as u128, low_mask(b), other as u128, low_mask(c));
    lemma_mask_shift_fits(b as u128, o);
    lemma_mask_shift_fits(c as u128, p);
    lemma_masks_disjoint(b as u128, o, c as u128, p);
    lemma_shr_or(word & !(mb << o), (v & mb) << o, p, mc);
    assert(((word & !(mb << o)) >> p) & mc == (word >> p) & mc) by (bit_vector)
        requires
            (mc << p) >> p == mc,
            (mb << o) & (mc << p) == 0,
    ;
    lemma_inside_field(v, mb, o);
    lemma_disjoint_sub((v & mb) << o, mb << o, mc << p);
    lemma_outside_field((v & mb) << o, mc, p);
    lemma_or_zero(((v & mb) << o >> p) & mc, (word >> p) & mc);
}

/// Setting a field of a bitfield value leaves what every other field reads:
/// `x` set at the field of width `b` at `offset` is `y`, and `before` and
/// `after` are what a getter of a field of type `G` at `other` returns on `x`
/// and on `y`.
pub proof fn lemma_set_keeps_other_fields<S: BitSized, G: BitSized>(
    x: S,
    y: S,
    offset: nat,
    b: nat,
    v: u128,
    other: nat,
    before: G,
    after: G,
)
    requires
        fits::<G>(),
        1 <= b,
        offset + b <= 128,
        other + G::spec_bits() <= 128,
        offset + b <= other || other + G::spec_bits() <= offset,
        bits_of(y) == with_field(bits_of(x), offset, b, v),
        bits_of(before) == field_of(bits_of(x), other, G::spec_bits()),
        bits_of(after) == field_of(bits_of(y), other, G::spec_bits()),
    ensures
        after == before,
{
    lemma_field_isolated(bits_of(x), offset, b, v, other, G::spec_bits());
    before.spec_into_bits().lemma_val_injective(after.spec_into_bits());
    before.lemma_into_bits(after);
}

/// Writing the same value into a field twice is the same as writing it once.
pub proof fn lemma_field_write_idempotent(word: u128, offset: nat, b: nat, v: u128)
    requires
        1 <= b,
        offset + b <= 128,
    ensures
        with_field(with_field(word, offset, b, v), offset, b, v) == with_field(word, offset, b, v),
{
    let (o, w) = (offset as u128, b as u128);
    let m = (u128::MAX >> ((128 - w) as u128)) << o;
    let y = (v & (u128::MAX >> ((128 - w) as u128))) << o;
    assert((((word & !m) | y) & !m) | y == (word & !m) | y) by (bit_vector);
}

/// Setting a field of a bitfield value twice to the same value gives the
/// value that setting it once gave.
pub proof fn lemma_set_twice<S: BitSized>(x: S, once: S, twice: S, offset: nat, b: nat, v: u128)
    requires
        fits::<S>(),
        1 <= b,
        offset + b <= 128,
        bits_of(once) == with_field(bits_of(x), offset, b, v),
        bits_of(twice) == with_field(bits_of(once), offset, b, v),
    ensures
        twice == once,
{
    lemma_field_write_idempotent(bits_of(x), offset, b, v);
    once.spec_into_bits().lemma_val_injective(twice.spec_into_bits());
    once.lemma_into_bits(twice);
}

/// Every field of the all-zero word is zero.
pub proof fn lemma_empty_fields(offset: nat, b: nat)
    ensures
        field_of(0, offset, b) == 0,
{
    let (o, m) = (offset as u128, low_mask(b));
    assert((0u128 >> o) & m == 0) by (bit_vector);
}

proof fn lemma_mask_shift_fits(b: u128, o: u128)
    requires
        1 <= b,
        o + b <= 128,
    ensures
        ((u128::MAX >> ((128 - b) as u128)) << o) >> o == u128::MAX >> ((128 - b) as u128),
{
    assert(((u128::MAX >> ((128 - b) as u128)) << o) >> o == u128::MAX >> ((128 - b) as u128))
        by (bit_vector)
        requires
            1 <= b,
            o + b <= 128,
    ;
}

proof fn lemma_or_zero(a: u128, z: u128)
    requires
        a == 0,
    ensures
        a | z == z,
        z | a == z,
{
    assert(0u128 | z == z && z | 0u128 == z) by (bit_vector);
}

#[verifier::rlimit(100)]
proof fn lemma_inside_field(v: u128, mb: u128, o: u128)
    ensures
        ((v & mb) << o) & (mb << o) == (v & mb) << o,
{
    assert(((v & mb) << o) & (mb << o) == (v & mb) << o) by (bit_vector);
}

proof fn lemma_disjoint_sub(y: u128, m: u128, n: u128)
    requires
        y & m == y,
        m & n == 0,
    ensures
        y & n == 0,
{
    assert(y & n == 0) by (bit_vector)
        requires
            y & m == y,
            m & n == 0,
    ;
}

#[verifier::rlimit(100)]
proof fn lemma_outside_field(y: u128, mc: u128, p: u128)
    requires
        y & (mc << p) == 0,
        (mc << p) >> p == mc,
    ensures
        (y >> p) & mc == 0,
{
    assert((y >> p) & mc == 0) by (bit_vector)
        requires
            y & (mc << p) == 0,
            (mc << p) >> p == mc,
    ;
}

#[verifier::rlimit(100)]
proof fn lemma_shr_or(x: u128, y: u128, o: u128, m: u128)
    ensures
        ((x | y) >> o) & m == ((x >> o) & m) | ((y >> o) & m),
{
    assert(((x | y) >> o) & m == ((x >> o) & m) | ((y >> o) & m)) by (bit_vector);
}

#[verifier::rlimit(100)]
proof fn lemma_masks_disjoint(b: u128, o: u128, c: u128, p: u128)
    requires
        1 <= b,
        1 <= c,
        o + b <= 128,
        p + c <= 128,
        o + b <= p || p + c <= o,
    ensures
        ((u128::MAX >> ((128 - b) as u128)) << o) & ((u128::MAX >> ((128 - c) as u128)) << p) == 0,
{
    assert(((u128::MAX >> ((128 - b) as u128)) << o) & ((u128::MAX >> ((128 - c) as u128)) << p) == 0)
        by (bit_vector)
        requires
            1 <= b,
            1 <= c,
            o + b <= 128,
            p + c <= 128,
            o + b <= p || p + c <= o,
    ;
}

} // verus!
