use jlink::jtag::{decode_dr, reset_chain, scan_dr_read, scan_dr_write, scan_ir_write};
use jlink::link::Command;

/// `text` as bits, one character each.
fn bits(text: &str) -> Vec<bool> {
    text.chars().filter(|c| *c != ' ').map(|c| c == '1').collect()
}

fn lines(command: Command) -> (Vec<bool>, Vec<bool>) {
    match command {
        Command::JtagIo { tms, tdi } => (tms, tdi),
        _ => panic!("not a scan"),
    }
}

#[test]
fn data_register_read() {
    let (tms, tdi) = lines(scan_dr_read(4, 0));
    assert_eq!(tms, bits("100 000 110"));
    assert_eq!(tdi, vec![false; 9]);
    let (tms, tdi) = lines(scan_dr_read(1, 2));
    assert_eq!(tms, bits("100 110 00"));
    assert_eq!(tdi, vec![false; 8]);
}

#[test]
fn data_register_write() {
    let (tms, tdi) = lines(scan_dr_write(&[0x0d, 0x01], 9, 3));
    assert_eq!(tms, bits("100 00000000 110 000"));
    assert_eq!(tdi, bits("000 10110000 1 00 000"));
    assert_eq!(tms.len(), tdi.len());
}

#[test]
fn instruction_register_write() {
    let (tms, tdi) = lines(scan_ir_write(&[0x11], 5));
    assert_eq!(tms, bits("1100 0000 110"));
    assert_eq!(tdi, bits("0000 10001 00"));
}

#[test]
fn instruction_register_write_cuts_the_data_off() {
    let (_, tdi) = lines(scan_ir_write(&[0xff, 0x00], 11));
    assert_eq!(tdi, bits("0000 11111111 000 00"));
    let (_, tdi) = lines(scan_ir_write(&[0xff], 3));
    assert_eq!(tdi, bits("0000 111 00"));
}

#[test]
fn chain_reset() {
    let (tms, tdi) = lines(reset_chain());
    assert_eq!(tms, bits("111110"));
    assert_eq!(tdi, vec![false; 6]);
}

#[test]
fn contents_start_after_three_bits() {
    let response = bits("111 10110000 1 00");
    assert_eq!(decode_dr(&response, 9), vec![0x0d, 0x01]);
    assert_eq!(decode_dr(&response, 8), vec![0x0d]);
    assert_eq!(decode_dr(&response, 2), vec![0x01]);
}

#[test]
fn idcode_bytes() {
    let mut response = vec![false; 3];
    response.extend((0..32).map(|i| (0x2ba0_1477u32 >> i) & 1 == 1));
    response.extend(vec![true; 5]);
    assert_eq!(decode_dr(&response, 32), vec![0x77, 0x14, 0xa0, 0x2b]);
}

#[test]
fn loopback_gives_the_data_cut_off() {
    let data = [0xa5, 0x5a, 0xff];
    for (n, expected) in [
        (24, vec![0xa5, 0x5a, 0xff]),
        (17, vec![0xa5, 0x5a, 0x01]),
        (3, vec![0x05]),
    ] {
        let (_, mut tdi) = lines(scan_dr_write(&data, n, 4));
        tdi.extend([true; 3]);
        assert_eq!(decode_dr(&tdi, n), expected);
    }
}

/// The states of the TAP controller by number, and where a clock with TMS low or
/// high leads from each.
const TEST_LOGIC_RESET: usize = 0;
const IDLE: usize = 1;
const SHIFT_DR: usize = 4;
const SHIFT_IR: usize = 11;
const NEXT: [[usize; 2]; 16] = [
    // Test-Logic-Reset, Run-Test/Idle.
    [1, 0],
    [1, 2],
    // Select-DR-Scan, Capture-DR, Shift-DR, Exit1-DR, Pause-DR, Exit2-DR, Update-DR.
    [3, 9],
    [4, 5],
    [4, 5],
    [6, 8],
    [6, 7],
    [4, 8],
    [1, 2],
    // Select-IR-Scan, Capture-IR, Shift-IR, Exit1-IR, Pause-IR, Exit2-IR, Update-IR.
    [10, 0],
    [11, 12],
    [11, 12],
    [13, 15],
    [13, 14],
    [11, 15],
    [1, 2],
];

/// Where the clocks of `tms` lead from `state`.
fn walk(state: usize, tms: &[bool]) -> usize {
    tms.iter().fold(state, |state, tms| NEXT[state][usize::from(*tms)])
}

/// What a register takes in during a scan that starts and ends in the idle state.
fn shifted(tms: &[bool], tdi: &[bool], shift: usize) -> Vec<bool> {
    let mut taken = Vec::new();
    for i in 0..tms.len() {
        if walk(IDLE, &tms[..i]) == shift {
            taken.push(tdi[i]);
        }
    }
    assert_eq!(walk(IDLE, tms), IDLE);
    taken
}

#[test]
fn scans_walk_the_tap_controller() {
    let (tms, tdi) = lines(scan_dr_write(&[0x35, 0x02], 10, 7));
    assert_eq!(shifted(&tms, &tdi, SHIFT_DR), bits("10101100 01"));
    assert_eq!(shifted(&tms, &tdi, SHIFT_IR), Vec::<bool>::new());
    let (tms, tdi) = lines(scan_dr_read(12, 0));
    assert_eq!(shifted(&tms, &tdi, SHIFT_DR), vec![false; 12]);
    for address in 0..32u8 {
        let (tms, tdi) = lines(scan_ir_write(&[address], 5));
        let expected: Vec<bool> = (0..5).map(|i| (address >> i) & 1 == 1).collect();
        assert_eq!(shifted(&tms, &tdi, SHIFT_IR), expected);
        assert_eq!(shifted(&tms, &tdi, SHIFT_DR), Vec::<bool>::new());
    }
}

#[test]
fn reset_leads_to_idle_from_everywhere() {
    let (reset, _) = lines(reset_chain());
    let (scan, _) = lines(scan_dr_read(32, 3));
    for state in 0..NEXT.len() {
        assert_eq!(walk(state, &reset[..5]), TEST_LOGIC_RESET);
        assert_eq!(walk(state, &reset), IDLE);
        assert_eq!(walk(walk(state, &reset), &scan), IDLE);
    }
    // Rounding a transfer up with TMS low stays there.
    assert_eq!(walk(IDLE, &[false; 7]), IDLE);
}
