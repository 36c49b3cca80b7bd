use pico_bridge::codec::{
    combine_u16_to_u32, combine_u8_to_u32, encode_smi_read, encode_smi_write, reverse_bits,
    reverse_first_16_bit, sum_checksum,
};

/// Independent reversal of the low five bits, for checking the encoders.
fn rev5(v: u8) -> u8 {
    let mut r = 0u8;
    for i in 0..5 {
        r |= ((v >> i) & 1) << (4 - i);
    }
    r
}

#[test]
fn reverse_bits_exact() {
    assert_eq!(reverse_bits(0b0000_0001), 0b1000_0000);
    assert_eq!(reverse_bits(0b1000_0000), 0b0000_0001);
    assert_eq!(reverse_bits(0xA5), 0xA5);
    assert_eq!(reverse_bits(0), 0);
    assert_eq!(reverse_bits(0xFF), 0xFF);
    assert_eq!(reverse_bits(0b0001_0110), 0b0110_1000);
}

#[test]
fn reverse_first_16_bit_reverses_all_32() {
    assert_eq!(reverse_first_16_bit(1), 0x8000_0000);
    assert_eq!(reverse_first_16_bit(0x8000_0000), 1);
    assert_eq!(reverse_first_16_bit(0), 0);
    assert_eq!(reverse_first_16_bit(0xFFFF_FFFF), 0xFFFF_FFFF);
    assert_eq!(reverse_first_16_bit(0x0000_0002), 0x4000_0000);
}

#[test]
fn smi_read_layout() {
    let w = encode_smi_read(0, 2);
    assert_eq!(w & 0b11, 2);
    assert_eq!((w >> 2) & 0b11111, rev5(0) as u32);
    assert_eq!((w >> 7) & 0b11111, rev5(2) as u32);
    assert_eq!(w >> 12, 0);
    assert_eq!(w, 2 | ((rev5(2) as u32) << 7));
}

#[test]
fn smi_read_round_trip_all_addresses() {
    for phy in 0..32u8 {
        for reg in 0..32u8 {
            let w = encode_smi_read(phy, reg);
            assert_eq!(w & 0b11, 2);
            assert_eq!(rev5(((w >> 2) & 0b11111) as u8), phy);
            assert_eq!(rev5(((w >> 7) & 0b11111) as u8), reg);
        }
    }
}

#[test]
fn smi_write_layout() {
    let w = encode_smi_write(0, 2, 255);
    assert_eq!(w & 0b11, 1);
    assert_eq!((w >> 2) & 0b11111, 0);
    assert_eq!((w >> 7) & 0b11111, rev5(2) as u32);
    assert_eq!((w >> 12) & 0xFFFF, 255);
    let w2 = encode_smi_write(31, 17, 0xBEEF);
    assert_eq!(w2 & 0b11, 1);
    assert_eq!((w2 >> 2) & 0b11111, rev5(31) as u32);
    assert_eq!((w2 >> 7) & 0b11111, rev5(17) as u32);
    assert_eq!((w2 >> 12) & 0xFFFF, 0xBEEF);
}

#[test]
fn combine_u16_packs_low_word_first() {
    let r = combine_u16_to_u32(&[0x2211, 0x4433]);
    assert_eq!(r, [0x4433_2211, 0, 0, 0]);
    let r = combine_u16_to_u32(&[1, 2, 3, 4, 5, 6, 7, 8]);
    assert_eq!(r, [0x0002_0001, 0x0004_0003, 0x0006_0005, 0x0008_0007]);
    let r = combine_u16_to_u32(&[]);
    assert_eq!(r, [0, 0, 0, 0]);
}

#[test]
fn combine_u8_packs_earliest_byte_lowest() {
    let r = combine_u8_to_u32(&[1, 2, 3, 4, 5, 6, 7, 8]);
    assert_eq!(r[0], 0x0403_0201);
    assert_eq!(r[1], 0x0807_0605);
    assert_eq!(r[2], 0);
    assert_eq!(r[3], 0);
}

#[test]
fn checksum_exact_values() {
    assert_eq!(sum_checksum(&[]), 0);
    assert_eq!(sum_checksum(&[1, 2, 3]), 6);
    assert_eq!(sum_checksum(&[200, 100]), 44);
    assert_eq!(sum_checksum(&[255, 1]), 0);
}

#[test]
fn checksum_concat_is_wrapping_sum_of_parts() {
    let a = [13u8, 200, 77, 250];
    let b = [99u8, 3, 180];
    let mut ab = Vec::new();
    ab.extend_from_slice(&a);
    ab.extend_from_slice(&b);
    assert_eq!(
        sum_checksum(&ab),
        sum_checksum(&a).wrapping_add(sum_checksum(&b))
    );
}

#[test]
fn checksum_repeated_calls_agree() {
    let data = [7u8, 14, 21, 28, 255];
    assert_eq!(sum_checksum(&data), sum_checksum(&data));
}
