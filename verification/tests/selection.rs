use jlink::error::DebugProbeError;
use jlink::link::{Command, Reply, Step};
use jlink::protocol::{supported_protocols, JlinkError, TargetInterface, WireProtocol};
use jlink::selection::InterfaceSelection;

/// Stands for an interface without a protocol. `jaylink` has no value for one, so
/// another has to take its place. The driver does not look at which it is, and a
/// probe's JTAG interface is never given to it in this way.
fn unknown() -> TargetInterface {
    TargetInterface::Other(jaylink::Interface::Jtag)
}

fn capabilities(
    protocol: Option<WireProtocol>,
    select_if: bool,
) -> Step<InterfaceSelection, WireProtocol> {
    match InterfaceSelection::start(protocol) {
        Step::Perform(Command::ReadCapabilities, selection) => {
            selection.resume(Reply::Capabilities { select_if })
        }
        _ => panic!("capabilities are not read"),
    }
}

fn available(
    protocol: WireProtocol,
    interfaces: Vec<TargetInterface>,
) -> Step<InterfaceSelection, WireProtocol> {
    match capabilities(Some(protocol), true) {
        Step::Perform(Command::ReadAvailableInterfaces, selection) => {
            selection.resume(Reply::Interfaces(interfaces))
        }
        _ => panic!("interfaces are not read"),
    }
}

#[test]
fn protocols_of_interfaces() {
    assert_eq!(WireProtocol::try_from(TargetInterface::Jtag).unwrap(), WireProtocol::Jtag);
    assert_eq!(WireProtocol::try_from(TargetInterface::Swd).unwrap(), WireProtocol::Swd);
    assert!(matches!(WireProtocol::Swd.interface(), TargetInterface::Swd));
    assert!(matches!(WireProtocol::Jtag.interface(), TargetInterface::Jtag));
}

#[test]
fn unknown_interface_has_no_protocol() {
    assert!(matches!(
        WireProtocol::try_from(unknown()),
        Err(JlinkError::UnknownInterface(_))
    ));
}

#[test]
fn unknown_interfaces_are_not_supported() {
    let interfaces = vec![
        unknown(),
        TargetInterface::Jtag,
        unknown(),
        TargetInterface::Swd,
    ];
    assert_eq!(
        supported_protocols(&interfaces),
        vec![WireProtocol::Jtag, WireProtocol::Swd]
    );
    assert_eq!(supported_protocols(&vec![unknown()]), Vec::<WireProtocol>::new());
}

#[test]
fn available_interface_is_selected() {
    let step = available(
        WireProtocol::Swd,
        vec![TargetInterface::Jtag, TargetInterface::Swd],
    );
    match step {
        Step::Perform(Command::SelectInterface(TargetInterface::Swd), selection) => {
            match selection.resume(Reply::Done) {
                Step::Finished(Ok(protocol)) => assert_eq!(protocol, WireProtocol::Swd),
                _ => panic!("not selected"),
            }
        }
        _ => panic!("not selecting"),
    }
    assert!(matches!(
        available(WireProtocol::Jtag, vec![TargetInterface::Jtag]),
        Step::Perform(Command::SelectInterface(TargetInterface::Jtag), _)
    ));
}

#[test]
fn missing_interface_is_not_selected() {
    for interfaces in [vec![], vec![TargetInterface::Jtag], vec![unknown()]] {
        assert!(matches!(
            available(WireProtocol::Swd, interfaces),
            Step::Finished(Err(DebugProbeError::UnsupportedProtocol(WireProtocol::Swd)))
        ));
    }
}

#[test]
fn probe_with_a_fixed_interface_speaks_jtag() {
    assert!(matches!(
        capabilities(Some(WireProtocol::Jtag), false),
        Step::Finished(Ok(WireProtocol::Jtag))
    ));
    assert!(matches!(capabilities(None, false), Step::Finished(Ok(WireProtocol::Jtag))));
    assert!(matches!(
        capabilities(Some(WireProtocol::Swd), false),
        Step::Finished(Err(DebugProbeError::UnsupportedProtocol(WireProtocol::Swd)))
    ));
}

#[test]
fn selected_interface_is_found_out() {
    for (interface, protocol) in [
        (TargetInterface::Swd, WireProtocol::Swd),
        (TargetInterface::Jtag, WireProtocol::Jtag),
    ] {
        match capabilities(None, true) {
            Step::Perform(Command::ReadCurrentInterface, selection) => {
                match selection.resume(Reply::CurrentInterface(interface)) {
                    Step::Finished(Ok(current)) => assert_eq!(current, protocol),
                    _ => panic!("not found out"),
                }
            }
            _ => panic!("interface is not read"),
        }
    }
}
