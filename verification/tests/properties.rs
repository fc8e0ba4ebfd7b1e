use metroid_password::errors::BitOutOfBoundsError;
use metroid_password::errors::ByteOutOfBoundsError;
use metroid_password::password::byte_index_of;
use metroid_password::password::intra_byte_position;
use metroid_password::password::shift_for_position;
use metroid_password::password::Password;

fn bit_at(bytes: &[u8], bit: usize) -> u8 {
    (bytes[bit / 8] >> (7 - bit % 8)) & 1
}

fn patterned_password() -> Password {
    let mut pass = Password::new();
    let mut b: usize = 0;
    while b < 144 {
        pass.set_bit(b).unwrap();
        b += 3;
    }
    pass
}

#[test]
fn set_bit_reads_one_and_preserves_all_other_bits() {
    for b in 0..144usize {
        let mut pass = patterned_password();
        let before = pass.get_raw_bytes().clone();
        pass.set_bit(b).unwrap();
        let after = pass.get_raw_bytes();
        assert_eq!(bit_at(after, b), 1);
        for other in 0..144usize {
            if other != b {
                assert_eq!(bit_at(after, other), bit_at(&before, other));
            }
        }
    }
}

#[test]
fn clear_bit_reads_zero_and_preserves_all_other_bits() {
    for b in 0..144usize {
        let mut pass = patterned_password();
        let before = pass.get_raw_bytes().clone();
        pass.clear_bit(b).unwrap();
        let after = pass.get_raw_bytes();
        assert_eq!(bit_at(after, b), 0);
        for other in 0..144usize {
            if other != b {
                assert_eq!(bit_at(after, other), bit_at(&before, other));
            }
        }
    }
}

#[test]
fn clear_mask_regression_for_nonzero_shift() {
    let mut pass = Password::new();
    pass.set_bit(120).unwrap();
    pass.set_bit(127).unwrap();
    pass.clear_bit(127).unwrap();
    let bytes = pass.get_raw_bytes();
    assert_eq!(bit_at(bytes, 120), 1);
    assert_eq!(bit_at(bytes, 127), 0);
}

#[test]
fn out_of_bounds_bit_operations_fail_and_leave_buffer_unchanged() {
    let mut pass = patterned_password();
    let before = pass.get_raw_bytes().clone();
    for b in [144usize, 145, 200, usize::MAX] {
        let set_result = pass.set_bit(b);
        assert!(matches!(set_result, Err(BitOutOfBoundsError)));
        assert!(pass.get_raw_bytes().iter().eq(before.iter()));
        let clear_result = pass.clear_bit(b);
        assert!(matches!(clear_result, Err(BitOutOfBoundsError)));
        assert!(pass.get_raw_bytes().iter().eq(before.iter()));
    }
}

#[test]
fn out_of_bounds_byte_write_fails_and_leaves_buffer_unchanged() {
    let mut pass = patterned_password();
    let before = pass.get_raw_bytes().clone();
    for i in [18usize, 19, 1000, usize::MAX] {
        let result = pass.set_byte_value(i, 0xAB);
        assert!(matches!(result, Err(ByteOutOfBoundsError)));
        assert!(pass.get_raw_bytes().iter().eq(before.iter()));
    }
}

#[test]
fn set_bit_twice_equals_set_bit_once() {
    for b in 0..144usize {
        let mut once = patterned_password();
        once.set_bit(b).unwrap();
        let mut twice = patterned_password();
        twice.set_bit(b).unwrap();
        twice.set_bit(b).unwrap();
        assert!(once.get_raw_bytes().iter().eq(twice.get_raw_bytes().iter()));
    }
}

#[test]
fn clear_bit_twice_equals_clear_bit_once() {
    for b in 0..144usize {
        let mut once = patterned_password();
        once.clear_bit(b).unwrap();
        let mut twice = patterned_password();
        twice.clear_bit(b).unwrap();
        twice.clear_bit(b).unwrap();
        assert!(once.get_raw_bytes().iter().eq(twice.get_raw_bytes().iter()));
    }
}

#[test]
fn checksum_is_zero_for_all_zero_buffer() {
    let pass = Password::new();
    assert_eq!(pass.calculate_checksum(), 0);
}

#[test]
fn checksum_adds_first_two_bytes() {
    let mut pass = Password::new();
    pass.set_byte_value(0, 25).unwrap();
    pass.set_byte_value(1, 25).unwrap();
    assert_eq!(pass.calculate_checksum(), 50);
    assert_eq!(pass.calculate_checksum(), 0b00110010);
}

#[test]
fn checksum_truncates_to_low_eight_bits() {
    let mut pass = Password::new();
    for i in 0..17usize {
        pass.set_byte_value(i, 0xFF).unwrap();
    }
    // 17 * 255 = 4335 = 0x10EF, so the checksum byte is 0xEF.
    assert_eq!(pass.calculate_checksum(), 0xEF);
}

#[test]
fn checksum_excludes_reserved_byte_seventeen() {
    let mut pass = Password::new();
    pass.set_byte_value(17, 0xFF).unwrap();
    assert_eq!(pass.calculate_checksum(), 0);
}

#[test]
fn scenario_set_and_clear_bits_of_byte_fifteen() {
    let mut pass = Password::new();
    pass.set_bit(127).unwrap();
    pass.set_bit(120).unwrap();
    assert_eq!(pass.get_raw_bytes()[15], 0b10000001);
    pass.clear_bit(120).unwrap();
    pass.clear_bit(127).unwrap();
    assert_eq!(pass.get_raw_bytes()[15], 0);
}

#[test]
fn scenario_byte_write_touches_only_that_byte() {
    let mut pass = Password::new();
    pass.set_byte_value(2, 0x0F).unwrap();
    let bytes = pass.get_raw_bytes();
    assert_eq!(bytes[2], 0x0F);
    for i in 0..18usize {
        if i != 2 {
            assert_eq!(bytes[i], 0);
        }
    }
}

#[test]
fn scenario_bit_address_mapping() {
    assert_eq!(byte_index_of(10), 1);
    assert_eq!(intra_byte_position(10), 2);
    assert_eq!(shift_for_position(2), 5);

    assert_eq!(byte_index_of(19), 2);
    assert_eq!(intra_byte_position(19), 3);
    assert_eq!(shift_for_position(3), 4);

    assert_eq!(byte_index_of(23), 2);
    assert_eq!(intra_byte_position(23), 7);
    assert_eq!(shift_for_position(7), 0);
}

#[test]
fn error_messages_describe_the_bound() {
    assert_eq!(BitOutOfBoundsError.message(), "Bit index is out of bounds");
    assert_eq!(ByteOutOfBoundsError.message(), "Byte index is out of bounds");
}
