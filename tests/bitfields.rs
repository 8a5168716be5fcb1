use bitmacro::{
    check_bits_and_offset, check_discriminants, field_offsets, BitSized, Bits, EnumLayoutError,
    Flags, LayoutError, Perm, Perm2, Storage, UInt, Widen,
};

fn sample_flags() -> Flags {
    let p = Perm::empty().with_read(true).with_execute(true);
    Flags::empty().with_perms(p).with_valid(true)
}

#[test]
fn three_bit_field_packed_in_byte() {
    let f = sample_flags();
    assert_eq!(f.into_bits(), 0b0000_1011);
    assert_eq!(f.into_bits(), 11);
    assert!(f.valid());
    assert!(f.perms().read());
    assert!(!f.perms().write());
    assert!(f.perms().execute());
    assert!(!f.user());
    assert!(!f.global());
    assert!(!f.accessed());
    assert!(!f.dirty());
}

#[test]
fn setting_one_field_keeps_the_others() {
    let mut f = sample_flags();
    f.set_dirty(true);
    assert_eq!(f.into_bits(), 11 | (1 << 7));
    assert_eq!(f.into_bits(), 139);
    assert!(f.dirty());
    assert!(f.valid());
    assert_eq!(f.perms().into_bits(), 0b101);
    assert!(!f.user());
    assert!(!f.global());
    assert!(!f.accessed());
}

#[test]
fn exhaustive_three_bit_enum_round_trips() {
    for i in 0u8..8 {
        assert_eq!(Perm2::from_bits(i).into_bits(), i);
    }
    assert_eq!(Perm2::from_bits(0), Perm2::A);
    assert_eq!(Perm2::from_bits(5), Perm2::F);
    assert_eq!(Perm2::from_bits(7), Perm2::H);
    assert_eq!(Perm2::H.into_bits(), 7);
}

#[test]
fn enum_decoding_reads_only_the_storage_bits() {
    assert_eq!(Perm2::from_bits(0b1111_1010), Perm2::C);
    assert_eq!(Perm2::from_bits(8), Perm2::A);
}

#[test]
fn layout_with_too_few_bits_is_rejected() {
    assert_eq!(field_offsets(&vec![1, 1], 8), Err(LayoutError::TooFewBits));
}

#[test]
fn layout_with_too_many_bits_is_rejected() {
    assert_eq!(field_offsets(&vec![3, 3], 4), Err(LayoutError::TooManyBits));
}

#[test]
fn layout_offsets_accumulate_from_bit_zero() {
    assert_eq!(field_offsets(&vec![1, 3, 1, 1, 1, 1], 8), Ok(vec![0, 1, 4, 5, 6, 7]));
    assert_eq!(field_offsets(&vec![1, 1, 1], 3), Ok(vec![0, 1, 2]));
    assert_eq!(field_offsets(&vec![], 0), Ok(vec![]));
    assert_eq!(field_offsets(&vec![], 8), Err(LayoutError::TooFewBits));
}

#[test]
fn boolean_decoding_reads_only_the_low_bit() {
    assert!(!bool::from_bits(0b1111_1110));
    assert!(bool::from_bits(0b0000_0001));
    assert!(bool::from_bits(0b0000_0011));
    assert_eq!(true.into_bits(), 1);
    assert_eq!(false.into_bits(), 0);
}

#[test]
fn nested_bitfield_is_modified_and_reinserted() {
    let f = sample_flags();
    let p = f.perms().with_write(true);
    assert_eq!(p.into_bits(), 0b111);
    let g = f.with_perms(p);
    assert_eq!(g.into_bits(), 0b0000_1111);
    assert!(g.perms().write());
    assert!(g.valid());
    let h = g.with_perms(g.perms().with_read(false));
    assert_eq!(h.into_bits(), 0b0000_1101);
}

#[test]
fn decoding_an_encoded_value_gives_it_back() {
    let f = sample_flags().with_global(true).with_dirty(true);
    assert_eq!(Flags::from_bits(f.into_bits()), f);
    let p = Perm::empty().with_write(true);
    assert_eq!(Perm::from_bits(p.into_bits()).into_bits(), p.into_bits());
    for i in 0u8..8 {
        let v = Perm2::from_bits(i);
        assert_eq!(Perm2::from_bits(v.into_bits()), v);
    }
    assert_eq!(Flags::from_bits(0xa5).into_bits(), 0xa5);
}

#[test]
fn writing_a_field_leaves_other_fields() {
    let x = Flags::from_bits(0b1010_0110);
    let y = x.with_user(true);
    assert_eq!(y.valid(), x.valid());
    assert_eq!(y.perms().into_bits(), x.perms().into_bits());
    assert_eq!(y.global(), x.global());
    assert_eq!(y.accessed(), x.accessed());
    assert_eq!(y.dirty(), x.dirty());
    assert!(y.user());
    let z = x.with_perms(Perm::from_bits(0b010));
    assert_eq!(z.into_bits(), 0b1010_0100);
}

#[test]
fn writing_a_field_twice_is_writing_it_once() {
    let x = sample_flags();
    assert_eq!(x.with_dirty(true).with_dirty(true), x.with_dirty(true));
    assert_eq!(x.with_valid(false).with_valid(false), x.with_valid(false));
    let p = Perm::from_bits(0b011);
    assert_eq!(x.with_perms(p).with_perms(p), x.with_perms(p));
}

#[test]
fn empty_is_all_zero() {
    let f = Flags::empty();
    assert_eq!(f.into_bits(), 0);
    assert!(!f.valid());
    assert_eq!(f.perms().into_bits(), 0);
    assert!(!f.user());
    assert!(!f.global());
    assert!(!f.accessed());
    assert!(!f.dirty());
    let p = Perm::empty();
    assert_eq!(p.into_bits(), 0);
    assert!(!p.read() && !p.write() && !p.execute());
    assert_eq!(Perm2::from_bits(0), Perm2::A);
    assert_eq!(<u32 as Storage>::empty(), 0);
}

#[test]
fn widths_add_up() {
    assert_eq!(Flags::bits(), 8);
    assert_eq!(Flags::bits(), bool::bits() + Perm::bits() + 4 * bool::bits());
    assert_eq!(Flags::bits(), <u8 as BitSized>::bits());
    assert_eq!(Perm::bits(), 3);
    assert_eq!(Perm2::bits(), <UInt<u8, 3> as BitSized>::bits());
    assert_eq!(<u128 as BitSized>::bits(), 128);
}

#[test]
fn full_distinct_discriminants_are_accepted() {
    assert_eq!(check_discriminants(&vec![0, 1, 2, 3, 4, 5, 6, 7], 3), Ok(()));
    assert_eq!(check_discriminants(&vec![1, 2, 4, 3, 5, 7, 0, 6], 3), Ok(()));
    assert_eq!(check_discriminants(&vec![1, 0], 1), Ok(()));
}

#[test]
fn missing_discriminant_is_rejected() {
    assert_eq!(
        check_discriminants(&vec![0, 1, 2, 3, 4, 5, 6], 3),
        Err(EnumLayoutError::NonExhaustive)
    );
    assert_eq!(check_discriminants(&vec![], 1), Err(EnumLayoutError::NonExhaustive));
}

#[test]
fn duplicate_discriminant_is_rejected() {
    assert_eq!(
        check_discriminants(&vec![0, 1, 2, 3, 4, 5, 6, 6], 3),
        Err(EnumLayoutError::Duplicate)
    );
}

#[test]
fn out_of_range_discriminant_is_rejected() {
    assert_eq!(
        check_discriminants(&vec![0, 1, 2, 3, 4, 5, 6, 8], 3),
        Err(EnumLayoutError::OutOfRange)
    );
    assert_eq!(check_discriminants(&vec![2, 2], 1), Err(EnumLayoutError::OutOfRange));
}

#[test]
fn placement_check() {
    assert!(check_bits_and_offset::<u8, bool>(7));
    assert!(!check_bits_and_offset::<u8, bool>(8));
    assert!(!check_bits_and_offset::<u8, u8>(0));
    assert!(check_bits_and_offset::<u16, u8>(8));
    assert!(!check_bits_and_offset::<u16, u8>(9));
    assert!(check_bits_and_offset::<UInt<u8, 3>, bool>(2));
    assert!(!check_bits_and_offset::<UInt<u8, 3>, bool>(3));
}

#[test]
fn extract_and_insert_on_a_word() {
    let x: u16 = 0xabcd;
    assert_eq!(x.extract::<u8>(4), 0xbc);
    assert_eq!(x.extract::<u8>(8), 0xab);
    assert!(x.extract::<bool>(0));
    assert!(!x.extract::<bool>(1));
    let mut y = x;
    y.insert::<u8>(4, 0x12);
    assert_eq!(y, 0xa12d);
    y.insert::<bool>(15, false);
    assert_eq!(y, 0x212d);
    let mut w: u128 = u128::MAX;
    w.insert::<u64>(64, 0);
    assert_eq!(w, u64::MAX as u128);
    assert_eq!(w.extract::<u64>(0), u64::MAX);
}

#[test]
fn storage_on_a_narrow_integer() {
    let mut s = <UInt<u8, 3> as Storage>::empty();
    s.insert::<bool>(1, true);
    assert_eq!(s.value(), 0b010);
    s.insert::<bool>(2, true);
    s.insert::<bool>(0, true);
    assert_eq!(s.value(), 0b111);
    s.insert::<bool>(1, false);
    assert_eq!(s.value(), 0b101);
    assert_eq!(<UInt<u8, 3> as Storage>::max_bits(), 0b111);
    assert_eq!(<u16 as Storage>::max_bits(), u16::MAX);
}

#[test]
fn narrow_integers_mask_their_input() {
    assert_eq!(UInt::<u8, 3>::masked_new(0xff).value(), 7);
    assert_eq!(UInt::<u8, 3>::from_bits(0b1010).value(), 0b010);
    assert_eq!(UInt::<u16, 12>::from_bits(0xffff).into_bits(), 0x0fff);
    assert_eq!(UInt::<u8, 5>::new(17).value(), 17);
}

#[test]
fn bit_operations() {
    assert_eq!(<u8 as Bits>::wrapping_shl(0b1000_0001, 9), 0b0000_0010);
    assert_eq!(<u8 as Bits>::wrapping_shr(0b1000_0001, 15), 0b0000_0001);
    assert_eq!(<u32 as Bits>::bit_not(0), u32::MAX);
    assert_eq!(<u16 as Bits>::bit_xor(0xff00, 0x0ff0), 0xf0f0);
    assert_eq!(<u64 as Bits>::bit_and(0b1100, 0b1010), 0b1000);
    assert_eq!(<u64 as Bits>::bit_or(0b1100, 0b1010), 0b1110);
    assert_eq!(<u128 as Bits>::ones(), u128::MAX);
    assert_eq!(<u8 as Bits>::zero(), 0);
    assert_eq!(<u64 as Bits>::width(), 64);
}

#[test]
fn widen_and_narrow() {
    assert_eq!(<u8 as Widen<u32>>::widen(0xab), 0xab_u32);
    assert_eq!(<u8 as Widen<u16>>::narrow(0x1234), 0x34);
    assert_eq!(<u32 as Widen<u128>>::narrow(0x1_2345_6789), 0x2345_6789);
    assert_eq!(<u16 as Widen<u16>>::narrow(0xbeef), 0xbeef);
}
