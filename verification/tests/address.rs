use svm::address::Address;
use svm::le_bytes::{u32_to_le_array, u64_to_le_array};

#[test]
fn address_from_u32_is_little_endian() {
    let addr = Address::from(0x44_33_22_11 as u32);
    let mut expected = [0u8; 32];
    expected[0] = 0x11;
    expected[1] = 0x22;
    expected[2] = 0x33;
    expected[3] = 0x44;
    assert_eq!(expected, addr.bytes());
}

#[test]
fn address_from_u64_is_little_endian() {
    let addr = Address::from(0x88_77_66_55_44_33_22_11u64);
    let mut expected = [0u8; 32];
    for i in 0..8 {
        expected[i] = 0x11 * (i as u8 + 1);
    }
    assert_eq!(expected, addr.bytes());
}

#[test]
fn address_from_i32_reads_its_bits_as_u32() {
    assert_eq!(Address::from(-1i32), Address::from(0xffff_ffffu32));
    assert_eq!(Address::from(5i32), Address::from(5u32));
}

#[test]
fn address_from_slice_as_slice_round_trip() {
    let bytes: Vec<u8> = (0..32).collect();
    let addr = Address::from_slice(&bytes);
    assert_eq!(bytes.as_slice(), addr.as_slice());
    assert_eq!(addr, Address::from_slice(addr.as_slice()));
    assert_eq!(32, Address::len());
    assert_eq!(Address::len(), addr.as_slice().len());
}

#[test]
fn address_equality_compares_all_bytes() {
    let mut a = [0u8; 32];
    let b = a;
    a[31] = 1;
    assert_ne!(Address::from_slice(&a), Address::from_slice(&b));
    assert_eq!(Address::from_slice(&b), Address::from(0u32));
}

#[test]
fn address_add_small() {
    let sum = Address::from(0x44_33_22_11u32).add(3);
    let mut expected = [0u8; 33];
    expected[0] = 0x14;
    expected[1] = 0x22;
    expected[2] = 0x33;
    expected[3] = 0x44;
    assert_eq!(expected, sum);
}

#[test]
fn address_add_carries_through_bytes() {
    let sum = Address::from(0xffff_ffffu32).add(1);
    let mut expected = [0u8; 33];
    expected[4] = 1;
    assert_eq!(expected, sum);
}

#[test]
fn address_add_carries_into_the_extra_byte() {
    let max = Address::from_slice(&[0xff; 32]);
    let sum = max.add(0xffff_ffff);
    // 2^256 - 1 + 2^32 - 1 = 2^256 + (2^32 - 2)
    let mut expected = [0u8; 33];
    expected[0] = 0xfe;
    expected[1] = 0xff;
    expected[2] = 0xff;
    expected[3] = 0xff;
    expected[32] = 1;
    assert_eq!(expected, sum);
}

#[test]
fn address_add_zero_keeps_bytes() {
    let bytes: Vec<u8> = (100..132).collect();
    let sum = Address::from_slice(&bytes).add(0);
    assert_eq!(&bytes[..], &sum[..32]);
    assert_eq!(0, sum[32]);
}

#[test]
fn le_arrays() {
    assert_eq!([0x78, 0x56, 0x34, 0x12], u32_to_le_array(0x1234_5678));
    assert_eq!([0xff, 0xff, 0xff, 0xff], u32_to_le_array(u32::MAX));
    assert_eq!(
        [0xef, 0xcd, 0xab, 0x89, 0x67, 0x45, 0x23, 0x01],
        u64_to_le_array(0x0123_4567_89ab_cdef)
    );
    assert_eq!(0x0123_4567_89ab_cdefu64.to_le_bytes(), u64_to_le_array(0x0123_4567_89ab_cdef));
}
