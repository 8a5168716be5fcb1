//! The rules that a bitfield declaration must meet before any code is made
//! for it: struct fields fill their storage exactly, and enum variants name
//! every pattern of theirs exactly once.
use vstd::prelude::*;

use crate::internal::low_mask;

verus! {

/// Why the fields of a bitfield struct do not fill its storage.
#[derive(Clone, Copy, Debug, PartialEq, Eq, Structural)]
pub enum LayoutError {
    /// The fields add up to less than the storage size.
    TooFewBits,
    /// The fields add up to more than the storage size.
    TooManyBits,
}

/// The total width of `widths`.
pub open spec fn sum_bits(widths: Seq<usize>) -> int
    decreases widths.len(),
{
    if widths.len() == 0 {
        0
    } else {
        sum_bits(widths.drop_last()) + widths.last()
    }
}

proof fn lemma_sum_bits_prefix(widths: Seq<usize>, j: int)
    requires
        0 <= j <= widths.len(),
    ensures
        sum_bits(widths.take(j)) <= sum_bits(widths),
    decreases widths.len(),
{
    if j < widths.len() {
        assert(widths.drop_last().take(j) == widths.take(j));
        lemma_sum_bits_prefix(widths.drop_last(), j);
    } else {
        assert(widths.take(j) == widths);
    }
}

/// Lays the fields of the given widths out from bit 0 up, each right after the
/// one before, and checks that together they fill `storage_bits` exactly.
/// On success, the offset of each field.
pub fn field_offsets(widths: &Vec<usize>, storage_bits: usize) -> (r: Result<
    Vec<usize>,
    LayoutError,
>)
    ensures
        (r matches Err(LayoutError::TooFewBits)) <==> sum_bits(widths@) < storage_bits,
        (r matches Err(LayoutError::TooManyBits)) <==> sum_bits(widths@) > storage_bits,
        r is Ok ==> ({
            let offsets = r->Ok_0@;
            &&& offsets.len() == widths@.len()
            &&& forall|k: int|
                0 <= k < offsets.len() ==> offsets[k] == sum_bits(#[trigger] widths@.take(k))
        }),
{
    let mut offsets: Vec<usize> = Vec::new();
    let mut acc: usize = 0;
    let mut i: usize = 0;
    while i < widths.len()
        invariant
            i <= widths@.len(),
            acc == sum_bits(widths@.take(i as int)),
            acc <= storage_bits,
            offsets@.len() == i,
            forall|k: int| 0 <= k < i ==> offsets@[k] == sum_bits(#[trigger] widths@.take(k)),
        decreases widths@.len() - i,
    {
        assert(widths@.take(i + 1).drop_last() == widths@.take(i as int));
        if widths[i] > storage_bits - acc {
            proof {
                lemma_sum_bits_prefix(widths@, i + 1);
            }
            return Err(LayoutError::TooManyBits);
        }
        offsets.push(acc);
        acc = acc + widths[i];
        i = i + 1;
    }
    assert(widths@.take(i as int) == widths@);
    if acc < storage_bits {
        Err(LayoutError::TooFewBits)
    } else {
        Ok(offsets)
    }
}

/// Why the variants of a bitfield enum do not name every pattern of its
/// storage exactly once.
#[derive(Clone, Copy, Debug, PartialEq, Eq, Structural)]
pub enum EnumLayoutError {
    /// A discriminant does not fit in the storage.
    OutOfRange,
    /// Two variants have the same discriminant.
    Duplicate,
    /// Some pattern of the storage names no variant.
    NonExhaustive,
}

/// Every discriminant fits in `b` bits.
pub open spec fn all_in_range(discriminants: Seq<u128>, b: nat) -> bool {
    forall|i: int| 0 <= i < discriminants.len() ==> #[trigger] discriminants[i] <= low_mask(b)
}

/// There are `2^b` discriminants.
pub open spec fn count_is_full(discriminants: Seq<u128>, b: nat) -> bool {
    discriminants.len() >= 1 && discriminants.len() - 1 == low_mask(b)
}

/// Checks that the discriminants of an enum stored in `storage_bits` bits fit
/// in them, are distinct, and are `2^storage_bits` in number, so that every
/// pattern names a variant. The first rule broken, in that order, is the
/// error.
pub fn check_discriminants(discriminants: &Vec<u128>, storage_bits: u32) -> (r: Result<
    (),
    EnumLayoutError,
>)
    requires
        1 <= storage_bits <= 128,
    ensures
        (r == Err::<(), EnumLayoutError>(EnumLayoutError::OutOfRange)) <==> !all_in_range(
            discriminants@,
            storage_bits as nat,
        ),
        (r == Err::<(), EnumLayoutError>(EnumLayoutError::Duplicate)) <==> all_in_range(
            discriminants@,
            storage_bits as nat,
        ) && !discriminants@.no_duplicates(),
        (r == Err::<(), EnumLayoutError>(EnumLayoutError::NonExhaustive)) <==> all_in_range(
            discriminants@,
            storage_bits as nat,
        ) && discriminants@.no_duplicates() && !count_is_full(discriminants@, storage_bits as nat),
        r is Ok <==> all_in_range(discriminants@, storage_bits as nat)
            && discriminants@.no_duplicates() && count_is_full(discriminants@, storage_bits as nat),
{
    let max: u128 = u128::MAX >> (128 - storage_bits);
    assert(max == low_mask(storage_bits as nat));
    let mut i: usize = 0;
    while i < discriminants.len()
        invariant
            i <= discriminants@.len(),
            max == low_mask(storage_bits as nat),
            forall|k: int| 0 <= k < i ==> #[trigger] discriminants@[k] <= max,
        decreases discriminants@.len() - i,
    {
        if discriminants[i] > max {
            assert(discriminants@[i as int] > low_mask(storage_bits as nat));
            assert(!all_in_range(discriminants@, storage_bits as nat));
            return Err(EnumLayoutError::OutOfRange);
        }
        i = i + 1;
    }
    assert(all_in_range(discriminants@, storage_bits as nat));
    let mut i: usize = 0;
    while i < discriminants.len()
        invariant
            i <= discriminants@.len(),
            all_in_range(discriminants@, storage_bits as nat),
            forall|k: int, l: int| 0 <= k < i && k < l < discriminants@.len() ==> discriminants@[k] != discriminants@[l],
        decreases discriminants@.len() - i,
    {
        let mut j: usize = i + 1;
        while j < discriminants.len()
            invariant
                i < j <= discriminants@.len(),
                all_in_range(discriminants@, storage_bits as nat),
                forall|k: int, l: int| 0 <= k < i && k < l < discriminants@.len() ==> discriminants@[k] != discriminants@[l],
                forall|l: int| i < l < j ==> discriminants@[i as int] != discriminants@[l],
            decreases discriminants@.len() - j,
        {
            if discriminants[i] == discriminants[j] {
                assert(discriminants@[i as int] == discriminants@[j as int]);
                return Err(EnumLayoutError::Duplicate);
            }
            j = j + 1;
        }
        i = i + 1;
    }
    if discriminants.len() >= 1 && (discriminants.len() - 1) as u128 == max {
        Ok(())
    } else {
        Err(EnumLayoutError::NonExhaustive)
    }
}

/// Discriminants that fit in `b` bits, are distinct and are `2^b` in number
/// name every pattern of `b` bits.
pub proof fn lemma_every_pattern_named(discriminants: Seq<u128>, b: nat, pattern: u128)
    requires
        1 <= b <= 128,
        all_in_range(discriminants, b),
        discriminants.no_duplicates(),
        count_is_full(discriminants, b),
        pattern <= low_mask(b),
    ensures
        discriminants.contains(pattern),
{
    let ds = discriminants;
    let m = low_mask(b) as int;
    let di = ds.map_values(|x: u128| x as int);
    assert(di.no_duplicates()) by {
        assert forall|k: int, l: int| 0 <= k < di.len() && 0 <= l < di.len() && k != l implies di[k]
            != di[l] by {
            assert(ds[k] != ds[l]);
        }
    }
    di.unique_seq_to_set();
    let full = vstd::set_lib::set_int_range(0, m + 1);
    vstd::set_lib::lemma_int_range(0, m + 1);
    assert(di.to_set().subset_of(full)) by {
        assert forall|x: int| di.to_set().contains(x) implies full.contains(x) by {
            let k = choose|k: int| 0 <= k < di.len() && di[k] == x;
            assert(ds[k] <= low_mask(b));
        }
    }
    vstd::set_lib::lemma_subset_equality(di.to_set(), full);
    assert(full.contains(pattern as int));
    assert(di.to_set().contains(pattern as int));
    let k = choose|k: int| 0 <= k < di.len() && di[k] == pattern as int;
    assert(ds[k] == pattern);
}

} // verus!
