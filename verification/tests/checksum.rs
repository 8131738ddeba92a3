use kernel_core::net::checksum::{
    complement, fold_len, fold_step, fold_u32, folded_pseudo_sum, folded_sum, hi_byte,
    internet_checksum, join_halves, lo_byte, lower_half, u16_from_be, u32_from_be, upper_half,
};

#[test]
fn checksum_of_nothing_is_all_ones() {
    assert_eq!(internet_checksum(&[]), 0xFFFF);
}

#[test]
fn checksum_of_known_header() {
    let header: [u8; 20] = [
        0x45, 0x00, 0x00, 0x73, 0x00, 0x00, 0x40, 0x00, 0x40, 0x11, 0x00, 0x00, 0xc0, 0xa8, 0x00,
        0x01, 0xc0, 0xa8, 0x00, 0xc7,
    ];
    assert_eq!(internet_checksum(&header), 0xb861);
}

#[test]
fn checksum_of_textbook_words() {
    assert_eq!(internet_checksum(&[0x00, 0x01, 0xf2, 0x03, 0xf4, 0xf5, 0xf6, 0xf7]), 0x220d);
}

#[test]
fn checksum_pads_an_odd_byte_with_zero() {
    assert_eq!(internet_checksum(&[1, 2, 3]), 0xfbfd);
    assert_eq!(internet_checksum(&[1, 2, 3]), internet_checksum(&[1, 2, 3, 0]));
}

#[test]
fn checksum_over_data_with_its_checksum_is_zero() {
    let mut data = vec![0x12u8, 0x34, 0x00, 0x00, 0x56, 0x78, 0x9a, 0xbc];
    let c = internet_checksum(&data);
    data[2] = (c >> 8) as u8;
    data[3] = (c & 0xff) as u8;
    assert_eq!(internet_checksum(&data), 0);
}

#[test]
fn folding_adds_the_carry_back() {
    assert_eq!(fold_step(0x1FFFE), 0xFFFF);
    assert_eq!(fold_step(0x10000), 1);
    assert_eq!(fold_step(0xFFFF), 0xFFFF);
    assert_eq!(fold_step(0), 0);
    assert_eq!(fold_u32(0xFFFF_FFFF), 0xFFFF);
    assert_eq!(fold_u32(0x0003_0002), 5);
    assert_eq!(fold_u32(0x0001_FFFF), 1);
}

#[test]
fn folded_length_is_the_length_modulo_all_ones() {
    assert_eq!(fold_len(0), 0);
    assert_eq!(fold_len(0xFFFF), 0xFFFF);
    assert_eq!(fold_len(0x10000), 1);
    assert_eq!(fold_len(20), 20);
}

#[test]
fn folded_sum_starts_from_its_initial_value() {
    assert_eq!(folded_sum(0, &[0x00, 0x01, 0x00, 0x02]), 3);
    assert_eq!(folded_sum(0xFFFF, &[0x00, 0x01]), 1);
    assert_eq!(folded_sum(5, &[]), 5);
    assert_eq!(folded_sum(0, &[0xFF, 0xFF, 0x00, 0x01]), 1);
}

#[test]
fn complement_is_distance_to_all_ones() {
    assert_eq!(complement(0), 0xFFFF);
    assert_eq!(complement(0xFFFF), 0);
    assert_eq!(complement(0x1234), 0xEDCB);
}

#[test]
fn pseudo_header_sum_counts_addresses_protocol_and_length() {
    let sum = folded_pseudo_sum(&[10, 0, 0, 1], &[10, 0, 0, 2], 17, 10);
    assert_eq!(sum, 0x0a00 + 0x0001 + 0x0a00 + 0x0002 + 17 + 10);
    let wrapped = folded_pseudo_sum(&[255, 255, 255, 255], &[255, 255, 255, 255], 17, 8);
    assert_eq!(wrapped, 25);
}

#[test]
fn big_endian_words_and_bytes() {
    assert_eq!(u16_from_be(0x12, 0x34), 0x1234);
    assert_eq!(u32_from_be(0x12, 0x34, 0x56, 0x78), 0x12345678);
    assert_eq!(hi_byte(0xABCD), 0xAB);
    assert_eq!(lo_byte(0xABCD), 0xCD);
    assert_eq!(join_halves(0x1234, 0x5678), 0x12345678);
    assert_eq!(upper_half(0x12345678), 0x1234);
    assert_eq!(lower_half(0x12345678), 0x5678);
}
