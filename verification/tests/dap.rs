use jlink::dap::{DAPAccess, DapRead, DapWrite};
use jlink::discovery::{DebugProbeSelector, DeviceStrings, UsbDevice};
use jlink::error::{DapError, DebugProbeError};
use jlink::link::{Command, Reply, Step};
use jlink::probe::JLink;
use jlink::swd::{read_directions, read_sequence, write_directions, write_sequence, PortType};

fn answer(ack: [bool; 3], value: u32, parity: bool) -> Reply {
    let mut bits = vec![true; 10];
    bits.extend(ack);
    bits.extend((0..32).map(|i| (value >> i) & 1 == 1));
    bits.push(parity);
    bits.push(false);
    Reply::Bits(bits)
}

fn ok(value: u32) -> Reply {
    answer([true, false, false], value, value.count_ones() % 2 == 1)
}

fn wait() -> Reply {
    answer([false, true, false], 0, false)
}

fn fault() -> Reply {
    answer([false, false, true], 0, false)
}

fn read_request<S, T>(step: Step<S, T>, ap: bool, address: u16) -> S {
    match step {
        Step::Perform(Command::SwdIo { direction, swdio }, state) => {
            assert_eq!(direction, read_directions());
            assert_eq!(swdio, read_sequence(ap, address));
            state
        }
        _ => panic!("not a transfer"),
    }
}

fn write_request(step: Step<DapWrite, ()>, ap: bool, address: u16, value: u32) -> DapWrite {
    match step {
        Step::Perform(Command::SwdIo { direction, swdio }, state) => {
            assert_eq!(direction, write_directions());
            assert_eq!(swdio, write_sequence(ap, address, value));
            state
        }
        _ => panic!("not a transfer"),
    }
}

fn result<S, T>(step: Step<S, T>) -> Result<T, DebugProbeError> {
    match step {
        Step::Finished(result) => result,
        _ => panic!("not finished"),
    }
}

fn probe() -> JLink {
    let selector = DebugProbeSelector {
        vendor_id: 0x1366,
        product_id: 0x0101,
        serial_number: None,
    };
    let devices = vec![UsbDevice {
        vendor_id: 0x1366,
        product_id: 0x0101,
        opened: Some(DeviceStrings { serial: String::new(), product: String::new() }),
    }];
    match JLink::new_from_selector(&selector, &devices) {
        Step::Perform(Command::ReadCapabilities, setup) => {
            result(setup.resume(Reply::Capabilities { select_if: false })).unwrap()
        }
        _ => panic!("no probe"),
    }
}

#[test]
fn debug_port_read_gives_the_value() {
    let read = read_request(DapRead::start(PortType::DebugPort, 0x00), false, 0x00);
    assert_eq!(result(read.resume(ok(0x2ba0_1477))).unwrap(), 0x2ba0_1477);
}

#[test]
fn access_port_read_takes_the_value_from_rdbuff() {
    let read = read_request(DapRead::start(PortType::AccessPort(0), 0x0c), true, 0x0c);
    let read = read_request(read.resume(ok(0xffff_ffff)), false, 0x0c);
    assert_eq!(result(read.resume(ok(0x0477_0031))).unwrap(), 0x0477_0031);
}

#[test]
fn access_port_read_ignores_the_parity_of_the_first_response() {
    let read = read_request(DapRead::start(PortType::AccessPort(1), 0x04), true, 0x04);
    let read = read_request(read.resume(answer([true, false, false], 1, false)), false, 0x0c);
    assert_eq!(result(read.resume(ok(5))).unwrap(), 5);
}

#[test]
fn read_with_wrong_parity_fails() {
    let read = read_request(DapRead::start(PortType::DebugPort, 0x08), false, 0x08);
    let step = read.resume(answer([true, false, false], 1, false));
    assert!(matches!(result(step), Err(DebugProbeError::Unknown)));
}

#[test]
fn read_is_repeated_while_the_target_waits() {
    let mut read = read_request(DapRead::start(PortType::DebugPort, 0x04), false, 0x04);
    for _ in 0..4 {
        read = read_request(read.resume(wait()), false, 0x04);
    }
    assert_eq!(result(read.resume(ok(7))).unwrap(), 7);
}

#[test]
fn read_times_out_after_five_waits() {
    let mut read = read_request(DapRead::start(PortType::AccessPort(0), 0x00), true, 0x00);
    for _ in 0..4 {
        read = read_request(read.resume(wait()), true, 0x00);
    }
    assert!(matches!(result(read.resume(wait())), Err(DebugProbeError::Timeout)));
}

#[test]
fn wait_takes_precedence_over_fault() {
    let read = read_request(DapRead::start(PortType::DebugPort, 0x00), false, 0x00);
    read_request(read.resume(answer([true, true, true], 0, false)), false, 0x00);
}

#[test]
fn rdbuff_read_has_attempts_of_its_own() {
    let mut read = read_request(DapRead::start(PortType::AccessPort(0), 0x00), true, 0x00);
    for _ in 0..4 {
        read = read_request(read.resume(wait()), true, 0x00);
    }
    read = read_request(read.resume(ok(0)), false, 0x0c);
    for _ in 0..4 {
        read = read_request(read.resume(wait()), false, 0x0c);
    }
    assert_eq!(result(read.resume(ok(3))).unwrap(), 3);
}

#[test]
fn faulting_read_reads_the_status_and_fails() {
    let read = read_request(DapRead::start(PortType::AccessPort(0), 0x00), true, 0x00);
    let read = read_request(read.resume(fault()), false, 0x04);
    assert!(matches!(
        result(read.resume(ok(0x20))),
        Err(DebugProbeError::ArchitectureSpecific(DapError::FaultResponse))
    ));
}

#[test]
fn error_of_the_status_read_wins() {
    let read = read_request(DapRead::start(PortType::DebugPort, 0x08), false, 0x08);
    let mut read = read_request(read.resume(fault()), false, 0x04);
    let garbled = read.resume(answer([true, false, false], 1, false));
    assert!(matches!(result(garbled), Err(DebugProbeError::Unknown)));
    for _ in 0..4 {
        read = read_request(read.resume(wait()), false, 0x04);
    }
    assert!(matches!(result(read.resume(wait())), Err(DebugProbeError::Timeout)));
}

#[test]
fn repeated_faults_never_become_a_success() {
    let mut read = read_request(DapRead::start(PortType::DebugPort, 0x00), false, 0x00);
    for _ in 0..20 {
        read = read_request(read.resume(fault()), false, 0x04);
    }
    assert!(matches!(
        result(read.resume(ok(0))),
        Err(DebugProbeError::ArchitectureSpecific(DapError::FaultResponse))
    ));
}

#[test]
fn no_acknowledgement_at_all_counts_as_granted() {
    let read = read_request(DapRead::start(PortType::DebugPort, 0x00), false, 0x00);
    assert_eq!(result(read.resume(answer([false; 3], 0, false))).unwrap(), 0);
}

#[test]
fn write_succeeds_when_granted() {
    let write = write_request(
        DapWrite::start(PortType::DebugPort, 0x08, 0x0100_00f0),
        false,
        0x08,
        0x0100_00f0,
    );
    assert!(result(write.resume(ok(0))).is_ok());
}

#[test]
fn write_takes_the_acknowledgement_only() {
    let write = write_request(DapWrite::start(PortType::AccessPort(0), 0, 1), true, 0, 1);
    let mut bits = vec![false; 13];
    bits[10] = true;
    assert!(result(write.resume(Reply::Bits(bits))).is_ok());
}

#[test]
fn write_is_repeated_and_times_out() {
    let mut write = write_request(DapWrite::start(PortType::AccessPort(0), 4, 9), true, 4, 9);
    for _ in 0..4 {
        write = write_request(write.resume(wait()), true, 4, 9);
    }
    assert!(result(write.resume(ok(0))).is_ok());
    assert!(matches!(result(write.resume(wait())), Err(DebugProbeError::Timeout)));
}

#[test]
fn faulting_write_reads_the_status_and_fails() {
    let write = write_request(DapWrite::start(PortType::AccessPort(0), 4, 9), true, 4, 9);
    let write = read_request(write.resume(fault()), false, 0x04);
    assert!(matches!(result(write.resume(ok(0x20))), Err(DebugProbeError::Unknown)));
}

#[test]
fn waits_around_a_fault_leave_no_trace() {
    let mut read = read_request(DapRead::start(PortType::AccessPort(0), 0x0c), true, 0x0c);
    for _ in 0..4 {
        read = read_request(read.resume(wait()), true, 0x0c);
    }
    read = read_request(read.resume(fault()), false, 0x04);
    for _ in 0..4 {
        read = read_request(read.resume(wait()), false, 0x04);
    }
    assert!(matches!(
        result(read.resume(ok(0x20))),
        Err(DebugProbeError::ArchitectureSpecific(DapError::FaultResponse))
    ));
    let mut write = write_request(DapWrite::start(PortType::DebugPort, 8, 9), false, 8, 9);
    for _ in 0..4 {
        write = write_request(write.resume(wait()), false, 8, 9);
    }
    write = read_request(write.resume(fault()), false, 0x04);
    for _ in 0..4 {
        write = read_request(write.resume(wait()), false, 0x04);
    }
    assert!(matches!(result(write.resume(ok(0x20))), Err(DebugProbeError::Unknown)));
}

#[test]
fn error_of_the_status_read_of_a_write_wins() {
    let write = write_request(DapWrite::start(PortType::DebugPort, 8, 9), false, 8, 9);
    let mut write = read_request(write.resume(fault()), false, 0x04);
    let garbled = write.resume(answer([true, false, false], 1, false));
    assert!(matches!(result(garbled), Err(DebugProbeError::Unknown)));
    for _ in 0..4 {
        write = read_request(write.resume(wait()), false, 0x04);
    }
    assert!(matches!(result(write.resume(wait())), Err(DebugProbeError::Timeout)));
}

#[test]
fn faults_of_the_status_read_of_a_write() {
    let write = write_request(DapWrite::start(PortType::DebugPort, 4, 9), false, 4, 9);
    let write = read_request(write.resume(fault()), false, 0x04);
    let write = read_request(write.resume(fault()), false, 0x04);
    assert!(matches!(
        result(write.resume(ok(0))),
        Err(DebugProbeError::ArchitectureSpecific(DapError::FaultResponse))
    ));
}

#[test]
fn probe_starts_register_accesses() {
    let probe = probe();
    let read = DAPAccess::read_register(&probe, PortType::AccessPort(3), 0x0c);
    read_request(read, true, 0x0c);
    let write = DAPAccess::write_register(&probe, PortType::DebugPort, 0x08, 0xf0);
    write_request(write, false, 0x08, 0xf0);
}
