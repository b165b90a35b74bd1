use jlink::discovery::{DebugProbeSelector, DeviceStrings, UsbDevice};
use jlink::error::DebugProbeError;
use jlink::link::{Command, Reply, Speeds, Step};
use jlink::probe::{Attach, JLink, JTAGAccess, RegisterScan};
use jlink::protocol::{TargetInterface, WireProtocol};
use jlink::swd::{init_directions, init_sequence};

fn bits(text: &str) -> Vec<bool> {
    text.chars().filter(|c| *c != ' ').map(|c| c == '1').collect()
}

/// A probe with these interfaces.
fn probe(interfaces: Vec<TargetInterface>) -> JLink {
    let selector = DebugProbeSelector {
        vendor_id: 0x1366,
        product_id: 0x0101,
        serial_number: None,
    };
    let devices = vec![UsbDevice {
        vendor_id: 0x1366,
        product_id: 0x0101,
        opened: Some(DeviceStrings { serial: String::new(), product: String::new() }),
    }];
    let setup = match JLink::new_from_selector(&selector, &devices) {
        Step::Perform(Command::ReadCapabilities, setup) => setup,
        _ => panic!("no probe"),
    };
    let setup = match setup.resume(Reply::Capabilities { select_if: true }) {
        Step::Perform(Command::ReadAvailableInterfaces, setup) => setup,
        _ => panic!("interfaces are not read"),
    };
    match setup.resume(Reply::Interfaces(interfaces)) {
        Step::Finished(Ok(probe)) => probe,
        _ => panic!("not set up"),
    }
}

fn both() -> JLink {
    probe(vec![TargetInterface::Jtag, TargetInterface::Swd])
}

fn scan<S, T>(step: Step<S, T>, tms: &str, tdi: &str) -> S {
    match step {
        Step::Perform(Command::JtagIo { tms: sent_tms, tdi: sent_tdi }, state) => {
            assert_eq!(sent_tms, bits(tms));
            assert_eq!(sent_tdi, bits(tdi));
            state
        }
        _ => panic!("not a scan"),
    }
}

fn contents(step: Step<RegisterScan, Vec<u8>>) -> Vec<u8> {
    match step {
        Step::Finished(Ok(contents)) => contents,
        _ => panic!("not finished"),
    }
}

#[test]
fn new_probe_has_defaults() {
    let probe = both();
    assert_eq!(probe.get_name(), "J-Link");
    assert_eq!(probe.speed(), 0);
    assert_eq!(probe.idle_cycles(), 0);
    assert!(probe.dedicated_memory_interface::<u8>().is_none());
}

#[test]
fn interfaces_of_the_probe() {
    let mut swd = probe(vec![TargetInterface::Swd]);
    assert!(swd.get_interface_dap().is_some());
    assert!(swd.get_interface_dap_mut().is_some());
    assert!(swd.get_interface_jtag().is_none());
    assert!(swd.get_interface_jtag_mut().is_none());
    let mut jtag = probe(vec![TargetInterface::Jtag]);
    assert!(jtag.get_interface_dap().is_none());
    assert!(jtag.get_interface_dap_mut().is_none());
    assert!(jtag.get_interface_jtag().is_some());
    jtag.get_interface_jtag_mut().unwrap().set_idle_cycles(3);
    assert_eq!(jtag.idle_cycles(), 3);
    assert_eq!(jtag.get_interface_jtag().unwrap().idle_cycles(), 3);
}

#[test]
fn target_reset_is_not_implemented() {
    assert!(matches!(
        both().target_reset(),
        Err(DebugProbeError::NotImplemented("target_reset"))
    ));
}

#[test]
fn reset_lines_are_set_one_after_the_other() {
    let probe = both();
    for (step, level) in [
        (probe.target_reset_assert(), false),
        (probe.target_reset_deassert(), true),
    ] {
        let change = match step {
            Step::Perform(Command::SetReset(set), change) => {
                assert_eq!(set, level);
                change
            }
            _ => panic!("reset is not set"),
        };
        let change = match change.resume(Reply::Done) {
            Step::Perform(Command::SetTrst(set), change) => {
                assert_eq!(set, level);
                change
            }
            _ => panic!("trst is not set"),
        };
        assert!(matches!(change.resume(Reply::Done), Step::Finished(Ok(()))));
    }
}

#[test]
fn data_register_scans() {
    let mut probe = both();
    let read = scan(probe.read_dr(3), "100 00 110", "00000000");
    assert_eq!(read.finish(Reply::Bits(bits("000 101 11"))).unwrap(), vec![0x05]);
    probe.set_idle_cycles(2);
    let write = scan(probe.write_dr(&[0x06], 3), "100 00 110 00", "000 011 00 00");
    assert_eq!(write.finish(Reply::Bits(bits("111 110 11 00"))).unwrap(), vec![0x03]);
}

#[test]
fn instruction_register_needs_enough_data() {
    let probe = both();
    for (data, len) in [(vec![], 1), (vec![], 8), (vec![0xffu8], 9), (vec![1, 2], 17)] {
        match probe.write_ir(&data, len) {
            Step::Finished(Err(DebugProbeError::IncorrectLength(wanted))) => {
                assert_eq!(wanted, len)
            }
            _ => panic!("not refused"),
        }
    }
}

#[test]
fn instruction_register_write_is_remembered() {
    let mut probe = both();
    let write = scan(probe.write_ir(&[0x10, 0xff], 5), "1100 0000 110", "0000 00001 00");
    assert!(probe.finish_write_ir(write, Reply::Bits(vec![false; 16])).is_ok());
    // The register at this address is selected now.
    scan(
        JTAGAccess::read_register(&probe, 0x10, 2),
        "100 0 110",
        "0000000",
    );
}

#[test]
fn register_read_selects_the_register_once() {
    let mut probe = both();
    probe.set_idle_cycles(1);
    let access = scan(
        JTAGAccess::read_register(&probe, 0x11, 4),
        "1100 0000 110",
        "0000 10001 00",
    );
    let step = probe.resume_register(access, Reply::Bits(vec![true; 16]));
    let access = scan(step, "100 000 110 0", "0000000000");
    let step = probe.resume_register(access, Reply::Bits(bits("000 1101 000 000000")));
    assert_eq!(contents(step), vec![0x0b]);
    // Another access to the same register does without.
    let access = scan(
        JTAGAccess::write_register(&probe, 0x11, &[0x05], 4),
        "100 000 110 0",
        "000 1010 00 0",
    );
    let step = probe.resume_register(access, Reply::Bits(bits("000 0011 000 000000")));
    assert_eq!(contents(step), vec![0x0c]);
    // One to another register does not.
    scan(
        JTAGAccess::write_register(&probe, 0x10, &[0x05], 4),
        "1100 0000 110",
        "0000 00001 00",
    );
}

#[test]
fn new_probe_has_register_one_selected() {
    let probe = both();
    scan(JTAGAccess::read_register(&probe, 1, 1), "100 110", "000000");
    scan(JTAGAccess::read_register(&probe, 0, 1), "1100 0000 110", "0000 00000 00");
}

#[test]
fn register_write_cuts_the_data_off() {
    let probe = both();
    scan(
        JTAGAccess::write_register(&probe, 1, &[0xff, 0xff], 9),
        "100 00000000 110",
        "000 11111111 1 00",
    );
}

fn select(probe: &mut JLink, protocol: WireProtocol, interfaces: Vec<TargetInterface>) -> bool {
    let mut step = probe.select_protocol(protocol);
    let mut interfaces = Some(interfaces);
    loop {
        match step {
            Step::Perform(command, selection) => {
                let reply = match command {
                    Command::ReadCapabilities => Reply::Capabilities { select_if: true },
                    Command::ReadAvailableInterfaces => {
                        Reply::Interfaces(interfaces.take().unwrap())
                    }
                    Command::SelectInterface(_) => Reply::Done,
                    _ => panic!("unexpected command"),
                };
                step = probe.resume_select_protocol(selection, reply);
            }
            Step::Finished(Ok(())) => return true,
            Step::Finished(Err(DebugProbeError::UnsupportedProtocol(refused))) => {
                assert_eq!(refused, protocol);
                return false;
            }
            _ => panic!("unexpected error"),
        }
    }
}

/// The first command of attaching after the interface was selected.
fn attached(probe: &JLink) -> (Command, Attach) {
    let mut step = probe.attach();
    loop {
        match step {
            Step::Perform(command, attach) => {
                let reply = match command {
                    Command::ReadCapabilities => Reply::Capabilities { select_if: true },
                    Command::ReadAvailableInterfaces => {
                        Reply::Interfaces(vec![TargetInterface::Jtag, TargetInterface::Swd])
                    }
                    Command::SelectInterface(_) => Reply::Done,
                    other => return (other, attach),
                };
                step = probe.resume_attach(attach, reply);
            }
            Step::Finished(_) => panic!("finished too early"),
        }
    }
}

#[test]
fn selected_protocol_is_used_to_attach() {
    let mut probe = both();
    assert!(select(&mut probe, WireProtocol::Jtag, vec![TargetInterface::Jtag]));
    assert!(matches!(attached(&probe), (Command::ReadTargetVoltage, _)));
    // A selection that fails changes nothing.
    assert!(!select(&mut probe, WireProtocol::Swd, vec![TargetInterface::Jtag]));
    assert!(matches!(attached(&probe), (Command::ReadTargetVoltage, _)));
    assert!(select(&mut probe, WireProtocol::Swd, vec![TargetInterface::Swd]));
    assert!(matches!(attached(&probe), (Command::SwdIo { .. }, _)));
}

#[test]
fn wrong_selection_is_noticed() {
    let mut probe = both();
    let result = probe.finish_select_protocol(WireProtocol::Swd, Ok(WireProtocol::Jtag));
    assert!(matches!(
        result,
        Err(DebugProbeError::UnsupportedProtocol(WireProtocol::Swd))
    ));
    assert!(matches!(attached(&probe), (Command::ReadTargetVoltage, _)));
    let failed = probe.finish_select_protocol(WireProtocol::Swd, Err(DebugProbeError::Timeout));
    assert!(matches!(failed, Err(DebugProbeError::Timeout)));
    assert!(matches!(attached(&probe), (Command::ReadTargetVoltage, _)));
}

#[test]
fn probe_without_protocols_cannot_attach() {
    assert!(both().can_attach());
    let mut none = probe(vec![]);
    assert!(!none.can_attach());
    assert!(select(&mut none, WireProtocol::Swd, vec![TargetInterface::Swd]));
    assert!(none.can_attach());
}

#[test]
fn swd_is_the_default() {
    assert!(matches!(attached(&both()), (Command::SwdIo { .. }, _)));
    let jtag_only = probe(vec![TargetInterface::Jtag]);
    assert!(matches!(attached(&jtag_only), (Command::ReadTargetVoltage, _)));
}

#[test]
fn attaching_over_swd() {
    let probe = both();
    match attached(&probe) {
        (Command::SwdIo { direction, swdio }, attach) => {
            assert_eq!(direction, init_directions());
            assert_eq!(swdio, init_sequence());
            let step = probe.resume_attach(attach, Reply::Bits(vec![false; 154]));
            assert!(matches!(step, Step::Finished(Ok(()))));
        }
        _ => panic!("not over SWD"),
    }
}

#[test]
fn attaching_over_jtag() {
    let mut probe = probe(vec![TargetInterface::Jtag]);
    probe.set_idle_cycles(2);
    let (command, attach) = attached(&probe);
    assert!(matches!(command, Command::ReadTargetVoltage));
    let attach = match probe.resume_attach(attach, Reply::TargetVoltage(3300)) {
        Step::Perform(Command::ResetTrst, attach) => attach,
        _ => panic!("no reset"),
    };
    let attach = scan(probe.resume_attach(attach, Reply::Done), "111110", "000000");
    let step = probe.resume_attach(attach, Reply::Bits(vec![false; 8]));
    let attach = match step {
        Step::Perform(Command::JtagIo { tms, tdi }, attach) => {
            let mut expected = bits("100");
            expected.extend(vec![false; 31]);
            expected.extend(bits("110 00"));
            assert_eq!(tms, expected);
            assert_eq!(tdi, vec![false; 39]);
            attach
        }
        _ => panic!("no scan"),
    };
    let step = probe.resume_attach(attach, Reply::Bits(vec![true; 40]));
    assert!(matches!(step, Step::Finished(Ok(()))));
}

#[test]
fn whole_first_byte_of_an_instruction_is_remembered() {
    let mut probe = probe(vec![TargetInterface::Jtag]);
    let write = match probe.write_ir(&[0xe5], 5) {
        Step::Perform(Command::JtagIo { .. }, write) => write,
        _ => panic!("nothing is written"),
    };
    assert!(probe.finish_write_ir(write, Reply::Bits(vec![false; 16])).is_ok());
    // The register holds 0x05, but the driver remembers 0xe5.
    assert!(matches!(
        JTAGAccess::read_register(&probe, 0x05, 8),
        Step::Perform(_, RegisterScan::Instruction { .. })
    ));
    let write = match probe.write_ir(&[0x05], 5) {
        Step::Perform(Command::JtagIo { .. }, write) => write,
        _ => panic!("nothing is written"),
    };
    assert!(probe.finish_write_ir(write, Reply::Bits(vec![false; 16])).is_ok());
    assert!(matches!(
        JTAGAccess::read_register(&probe, 0x05, 8),
        Step::Perform(_, RegisterScan::Data(_))
    ));
}

#[test]
fn attaching_over_a_fixed_interface() {
    let probe = probe(vec![TargetInterface::Jtag]);
    let attach = match probe.attach() {
        Step::Perform(Command::ReadCapabilities, attach) => attach,
        _ => panic!("capabilities are not read"),
    };
    let step = probe.resume_attach(attach, Reply::Capabilities { select_if: false });
    let attach = match step {
        Step::Perform(Command::ReadTargetVoltage, attach) => attach,
        _ => panic!("voltage is not read"),
    };
    let attach = match probe.resume_attach(attach, Reply::TargetVoltage(0)) {
        Step::Perform(Command::ResetTrst, attach) => attach,
        _ => panic!("no reset"),
    };
    let attach = scan(probe.resume_attach(attach, Reply::Done), "111110", "000000");
    let attach = match probe.resume_attach(attach, Reply::Bits(vec![false; 6])) {
        Step::Perform(Command::JtagIo { .. }, attach) => attach,
        _ => panic!("no scan"),
    };
    let step = probe.resume_attach(attach, Reply::Bits(vec![false; 37]));
    assert!(matches!(step, Step::Finished(Ok(()))));
}

#[test]
fn attaching_fails_without_the_interface() {
    let probe = both();
    let step = probe.attach();
    let selection = match step {
        Step::Perform(Command::ReadCapabilities, selection) => selection,
        _ => panic!("capabilities are not read"),
    };
    let step = probe.resume_attach(selection, Reply::Capabilities { select_if: false });
    assert!(matches!(
        step,
        Step::Finished(Err(DebugProbeError::UnsupportedProtocol(WireProtocol::Swd)))
    ));
}

#[test]
fn speed_is_remembered() {
    let mut probe = both();
    let change = match probe.set_speed(4000) {
        Step::Perform(Command::ReadSpeeds, change) => change,
        _ => panic!("speeds are not read"),
    };
    let speeds = Speeds { base_freq: 12_000_000, min_div: 4 };
    let step = probe.resume_set_speed(change, Reply::Speeds(speeds));
    assert_eq!(probe.speed(), 0);
    let change = match step {
        Step::Perform(Command::SetSpeed(speed), change) => {
            assert_eq!(format!("{:?}", speed), "CommunicationSpeed { raw: 3000 }");
            change
        }
        _ => panic!("no speed is set"),
    };
    let step = probe.resume_set_speed(change, Reply::Done);
    assert!(matches!(step, Step::Finished(Ok(3000))));
    assert_eq!(probe.speed(), 3000);
    assert!(matches!(
        probe.set_speed(0),
        Step::Finished(Err(DebugProbeError::UnsupportedSpeed(0)))
    ));
    assert_eq!(probe.speed(), 3000);
}
