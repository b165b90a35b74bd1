use jlink::bits::{
    bits_to_byte, pack_bits, parity, push_bits, push_data_bits, push_repeated, push_value_bits,
};

#[test]
fn bits_to_byte_is_little_endian() {
    assert_eq!(bits_to_byte(&[]), 0);
    assert_eq!(bits_to_byte(&[true]), 1);
    assert_eq!(bits_to_byte(&[false, true]), 2);
    assert_eq!(bits_to_byte(&[true, false, true, true]), 0b1101);
    assert_eq!(bits_to_byte(&[true; 8]), 0xff);
    assert_eq!(bits_to_byte(&[true; 32]), 0xffff_ffff);
}

#[test]
fn bits_to_byte_ignores_bits_after_the_first_32() {
    let mut bits = vec![false; 32];
    bits.push(true);
    bits.push(true);
    assert_eq!(bits_to_byte(&bits), 0);
    bits[31] = true;
    assert_eq!(bits_to_byte(&bits), 0x8000_0000);
}

#[test]
fn value_bits_and_bits_to_byte_are_inverse() {
    for value in [0u32, 1, 0x2ba0_1477, 0x8000_0001, 0xffff_ffff] {
        let mut bits = Vec::new();
        push_value_bits(&mut bits, value);
        assert_eq!(bits.len(), 32);
        assert_eq!(bits_to_byte(&bits), value);
    }
}

#[test]
fn parity_counts_set_bits() {
    assert!(!parity(&[]));
    assert!(parity(&[true]));
    assert!(!parity(&[true, true]));
    assert!(parity(&[true, false, true, true]));
    assert!(!parity(&[false; 40]));
}

#[test]
fn flipping_a_bit_flips_the_parity() {
    let bits = vec![true, false, false, true, true];
    for i in 0..bits.len() {
        let mut flipped = bits.clone();
        flipped[i] = !flipped[i];
        assert_eq!(parity(&flipped), !parity(&bits));
    }
}

#[test]
fn pack_bits_fills_whole_bytes_first() {
    assert_eq!(pack_bits(&[]), Vec::<u8>::new());
    assert_eq!(pack_bits(&[true]), vec![0x01]);
    assert_eq!(pack_bits(&[true; 8]), vec![0xff]);
    assert_eq!(pack_bits(&[true; 9]), vec![0xff, 0x01]);
    assert_eq!(pack_bits(&[true; 15]), vec![0xff, 0x7f]);
    let mut bits = vec![false; 16];
    bits[4] = true;
    bits[15] = true;
    assert_eq!(pack_bits(&bits), vec![0x10, 0x80]);
}

#[test]
fn packing_data_bits_gives_the_data_cut_off() {
    let data = [0xa5u8, 0x3c, 0xff];
    let mut all = Vec::new();
    push_data_bits(&mut all, &data, 24);
    assert_eq!(pack_bits(&all), vec![0xa5, 0x3c, 0xff]);
    let mut some = Vec::new();
    push_data_bits(&mut some, &data, 19);
    assert_eq!(pack_bits(&some), vec![0xa5, 0x3c, 0x07]);
    let mut few = Vec::new();
    push_data_bits(&mut few, &data, 5);
    assert_eq!(few, vec![true, false, true, false, false]);
    assert_eq!(pack_bits(&few), vec![0x05]);
}

#[test]
fn pushing_appends() {
    let mut bits = vec![true];
    push_repeated(&mut bits, false, 2);
    push_bits(&mut bits, &[true, true]);
    push_repeated(&mut bits, true, 0);
    push_data_bits(&mut bits, &[], 0);
    assert_eq!(bits, vec![true, false, false, true, true]);
}
