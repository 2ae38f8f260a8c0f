use laranja_kernel::bits::BitField;

#[test]
fn test_u32_set() {
    let mut data: u32 = 0;
    data.set_bit(4, true);
    assert_eq!(data, 0b10000);
}

#[test]
fn test_u8_set() {
    let mut data2: u8 = 0;
    data2.set_bit(5, true);
    assert_eq!(data2, 0b100000);
}

#[test]
fn test_u32_get() {
    let data: u32 = 0b1111_0101_1011_1000_0001_0100_1100_0111;
    assert!(data.get_bit(7));
    assert!(!data.get_bit(11));
}

#[test]
fn test_u8_get() {
    let data2: u8 = 0b1010_0111;
    assert!(data2.get_bit(7));
    assert!(!data2.get_bit(3));
}

#[test]
fn test_u16_set_and_get() {
    let mut data: u16 = 0x8001;
    data.set_bit(15, false);
    assert_eq!(data, 0x0001);
    data.set_bit(8, true);
    assert_eq!(data, 0x0101);
    assert!(data.get_bit(8));
    assert!(data.get_bit(0));
    assert!(!data.get_bit(15));
}

#[test]
fn test_u64_set_and_get() {
    let mut data: u64 = 0;
    data.set_bit(63, true);
    assert_eq!(data, 0x8000_0000_0000_0000);
    data.set_bit(32, true);
    assert_eq!(data, 0x8000_0001_0000_0000);
    assert!(data.get_bit(63));
    assert!(data.get_bit(32));
    assert!(!data.get_bit(31));
    data.set_bit(63, false);
    assert_eq!(data, 0x0000_0001_0000_0000);
}

#[test]
fn test_u32_set_then_clear() {
    let mut data: u32 = 0;
    data.set_bit(4, true);
    assert_eq!(data, 0b10000);
    data.set_bit(4, false);
    assert_eq!(data, 0);
}

#[test]
fn setting_a_bit_leaves_the_others() {
    for bit in 0..32u32 {
        let mut data: u32 = 0xa5a5_5a5a;
        let was = data.get_bit(bit);
        data.set_bit(bit, !was);
        assert_eq!(data ^ 0xa5a5_5a5a, 1 << bit);
        for other in 0..32u32 {
            let expected = if other == bit { !was } else { 0xa5a5_5a5au32 >> other & 1 == 1 };
            assert_eq!(data.get_bit(other), expected);
        }
        data.set_bit(bit, was);
        assert_eq!(data, 0xa5a5_5a5a);
    }
}

#[test]
fn writing_a_bit_twice_is_writing_it_once() {
    let mut data: u8 = 0b0101_0101;
    data.set_bit(1, true);
    data.set_bit(1, true);
    assert_eq!(data, 0b0101_0111);
    data.set_bit(0, false);
    data.set_bit(0, false);
    assert_eq!(data, 0b0101_0110);
}
