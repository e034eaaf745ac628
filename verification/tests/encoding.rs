use android_mic::encode::{encode_block, encode_sample, native_order, HostOrder};

#[test]
fn sample_encodes_low_byte_first() {
    assert_eq!(encode_sample(0x1234), (0x34, 0x12));
    assert_eq!(encode_sample(1), (1, 0));
    assert_eq!(encode_sample(258), (2, 1));
}

#[test]
fn negative_samples_encode_twos_complement() {
    assert_eq!(encode_sample(-1), (0xff, 0xff));
    assert_eq!(encode_sample(-2), (0xfe, 0xff));
    assert_eq!(encode_sample(i16::MIN), (0x00, 0x80));
    assert_eq!(encode_sample(i16::MAX), (0xff, 0x7f));
}

#[test]
fn blocks_encode_flat_and_in_order() {
    assert_eq!(encode_block(&[]), Vec::<u8>::new());
    assert_eq!(encode_block(&[1, -2, 258]), vec![1, 0, 0xfe, 0xff, 2, 1]);
    assert_eq!(encode_block(&[0; 3]), vec![0; 6]);
}

#[test]
fn block_encoding_matches_std_little_endian() {
    let samples = [0x1234, -17, 0, i16::MIN, i16::MAX, 42];
    let encoded = encode_block(&samples);
    let expected: Vec<u8> = samples.iter().flat_map(|s| s.to_le_bytes()).collect();
    assert_eq!(encoded, expected);
}

#[test]
fn native_order_matches_how_the_machine_stores_integers() {
    let expected = if 0x0102u16.to_ne_bytes() == [0x02, 0x01] {
        HostOrder::Little
    } else {
        HostOrder::Big
    };
    assert_eq!(native_order(), expected);
}
