use jlink::error::DebugProbeError;
use jlink::swd::{
    decode_read, init_directions, init_sequence, read_directions, read_sequence, write_directions,
    write_sequence,
};

/// The bits of a request byte, in the order in which they are sent.
fn request_bits(byte: u8) -> Vec<bool> {
    (0..8).map(|i| (byte >> i) & 1 == 1).collect()
}

fn response(value: u32, parity: bool) -> Vec<bool> {
    let mut bits = vec![true; 10];
    bits.extend([true, false, false]);
    bits.extend((0..32).map(|i| (value >> i) & 1 == 1));
    bits.push(parity);
    bits.push(false);
    bits
}

#[test]
fn read_requests() {
    // Identification, status and read buffer of the debug port.
    for (ap, address, request) in [
        (false, 0x00, 0xa5u8),
        (false, 0x04, 0x8d),
        (false, 0x0c, 0xbd),
        (true, 0x00, 0x87),
        (true, 0x0c, 0x9f),
    ] {
        let swdio = read_sequence(ap, address);
        assert_eq!(swdio.len(), 47);
        assert_eq!(swdio[..2], [false, false]);
        assert_eq!(swdio[2..10], request_bits(request)[..]);
        assert!(swdio[10..].iter().all(|bit| !bit));
    }
}

#[test]
fn write_requests() {
    for (ap, address, request) in [
        (false, 0x00, 0x81u8),
        (false, 0x04, 0xa9),
        (false, 0x08, 0xb1),
        (true, 0x04, 0x8b),
        (true, 0x0c, 0xbb),
    ] {
        let swdio = write_sequence(ap, address, 0xdead_beef);
        assert_eq!(swdio.len(), 48);
        assert_eq!(swdio[..2], [false, false]);
        assert_eq!(swdio[2..10], request_bits(request)[..]);
        assert_eq!(swdio[10..15], [false; 5]);
    }
}

#[test]
fn write_data_and_parity() {
    for (value, odd) in [(0u32, false), (1, true), (3, false), (0x8000_0000, true)] {
        let swdio = write_sequence(false, 4, value);
        for i in 0..32 {
            assert_eq!(swdio[15 + i], (value >> i) & 1 == 1);
        }
        assert_eq!(swdio[47], odd);
    }
}

#[test]
fn request_has_even_parity() {
    for ap in [false, true] {
        for address in 0..16 {
            for swdio in [read_sequence(ap, address), write_sequence(ap, address, 7)] {
                let set = swdio[3..8].iter().filter(|bit| **bit).count();
                assert_eq!(set % 2, 0);
            }
        }
    }
}

#[test]
fn only_address_bits_two_and_three_matter() {
    assert_eq!(read_sequence(true, 0x04), read_sequence(true, 0xfff7));
    assert_eq!(read_sequence(false, 0x08), read_sequence(false, 0x0b));
    assert_eq!(write_sequence(true, 0x0c, 5), write_sequence(true, 0x10f, 5));
    assert!(read_sequence(false, 0x04) != read_sequence(false, 0x08));
}

#[test]
fn directions() {
    let read = read_directions();
    assert_eq!(read.len(), 47);
    assert!(read[..10].iter().all(|bit| *bit));
    assert!(read[10..].iter().all(|bit| !bit));
    let write = write_directions();
    assert_eq!(write.len(), 48);
    assert!(write[..10].iter().all(|bit| *bit));
    assert!(write[10..15].iter().all(|bit| !bit));
    assert!(write[15..].iter().all(|bit| *bit));
}

#[test]
fn read_values() {
    assert_eq!(decode_read(&response(0, false)).unwrap(), 0);
    assert_eq!(decode_read(&response(1, true)).unwrap(), 1);
    // An odd and an even number of set bits.
    assert_eq!(decode_read(&response(0x2ba0_1477, false)).unwrap(), 0x2ba0_1477);
    assert_eq!(decode_read(&response(0xf000_0001, true)).unwrap(), 0xf000_0001);
}

#[test]
fn wrong_or_missing_parity() {
    assert!(matches!(decode_read(&response(0, true)), Err(DebugProbeError::Unknown)));
    assert!(matches!(decode_read(&response(1, false)), Err(DebugProbeError::Unknown)));
    let short = &response(0, false)[..45];
    assert!(matches!(decode_read(short), Err(DebugProbeError::Unknown)));
    let exact = &response(0, false)[..46];
    assert_eq!(decode_read(exact).unwrap(), 0);
}

#[test]
fn any_single_wrong_bit_is_noticed() {
    let good = response(0x1234_5678, true);
    assert_eq!(decode_read(&good).unwrap(), 0x1234_5678);
    for i in 13..46 {
        let mut broken = good.clone();
        broken[i] = !broken[i];
        assert!(matches!(decode_read(&broken), Err(DebugProbeError::Unknown)));
    }
}

#[test]
fn what_is_written_reads_back() {
    for value in [0u32, 0x5555_5555, 0x8000_0001, 0xffff_fffe] {
        let sent = write_sequence(true, 0x0c, value);
        let mut answer = vec![false; 13];
        answer.extend(&sent[15..48]);
        assert_eq!(decode_read(&answer).unwrap(), value);
    }
}

#[test]
fn init_switches_from_jtag_to_swd() {
    let swdio = init_sequence();
    let direction = init_directions();
    assert_eq!(swdio.len(), 154);
    assert_eq!(direction, vec![true; 154]);
    assert!(swdio[..64].iter().all(|bit| *bit));
    // The switch is the well known 0xE79E, least significant bit first.
    let mut switch = request_bits(0x9e);
    switch.extend(request_bits(0xe7));
    assert_eq!(swdio[64..80], switch[..]);
    assert!(swdio[80..144].iter().all(|bit| *bit));
    assert!(swdio[144..].iter().all(|bit| !bit));
}
