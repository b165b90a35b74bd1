use jlink::discovery::{
    list_jlink_devices, probe_info, DebugProbeSelector, DebugProbeType, DeviceStrings, ProbeSetup,
    UsbDevice,
};
use jlink::error::{DebugProbeError, ProbeCreationError};
use jlink::link::{Command, Reply, Step};
use jlink::probe::JLink;
use jlink::protocol::TargetInterface;

fn device(product_id: u16, serial: &str, product: &str) -> UsbDevice {
    UsbDevice {
        vendor_id: 0x1366,
        product_id,
        opened: Some(DeviceStrings {
            serial: serial.to_string(),
            product: product.to_string(),
        }),
    }
}

fn closed(product_id: u16) -> UsbDevice {
    UsbDevice { vendor_id: 0x1366, product_id, opened: None }
}

fn selector(product_id: u16, serial: Option<&str>) -> DebugProbeSelector {
    DebugProbeSelector {
        vendor_id: 0x1366,
        product_id,
        serial_number: serial.map(|serial| serial.to_string()),
    }
}

fn chosen(selector: &DebugProbeSelector, devices: &Vec<UsbDevice>) -> Option<usize> {
    match JLink::new_from_selector(selector, devices) {
        Step::Perform(Command::ReadCapabilities, setup) => Some(setup.device()),
        Step::Finished(Err(DebugProbeError::ProbeCouldNotBeCreated(
            ProbeCreationError::NotFound,
        ))) => None,
        _ => panic!("unexpected step"),
    }
}

#[test]
fn device_is_chosen_by_identifiers_and_serial() {
    let devices = vec![
        device(0x0101, "1", ""),
        device(0x0102, "2", ""),
        device(0x0101, "2", ""),
        device(0x0101, "3", ""),
        closed(0x0101),
    ];
    assert_eq!(chosen(&selector(0x0101, Some("1")), &devices), Some(0));
    assert_eq!(chosen(&selector(0x0101, Some("2")), &devices), Some(2));
    assert_eq!(chosen(&selector(0x0102, Some("2")), &devices), Some(1));
    assert_eq!(chosen(&selector(0x0102, Some("3")), &devices), None);
    assert_eq!(chosen(&selector(0x0103, Some("1")), &devices), None);
}

#[test]
fn no_serial_means_an_empty_one() {
    let devices = vec![device(0x0101, "1", ""), device(0x0101, "", "")];
    assert_eq!(chosen(&selector(0x0101, None), &devices), Some(1));
    assert_eq!(chosen(&selector(0x0101, Some("")), &devices), Some(1));
    assert_eq!(chosen(&selector(0x0101, None), &vec![device(0x0101, "1", "")]), None);
}

#[test]
fn first_of_several_devices_is_chosen() {
    let devices = vec![
        device(0x0101, "1", "a"),
        device(0x0101, "1", "b"),
        closed(0x0101),
    ];
    assert_eq!(chosen(&selector(0x0101, Some("1")), &devices), Some(0));
    let devices = vec![
        closed(0x0101),
        device(0x0102, "1", "a"),
        device(0x0101, "1", "b"),
        device(0x0101, "2", "c"),
        device(0x0101, "1", "d"),
    ];
    assert_eq!(chosen(&selector(0x0101, Some("1")), &devices), Some(2));
}

#[test]
fn selected_devices() {
    let asked = selector(0x0101, Some("1"));
    assert!(asked.selects(&device(0x0101, "1", "a")));
    assert!(!asked.selects(&device(0x0101, "2", "a")));
    assert!(!asked.selects(&device(0x0101, "", "a")));
    assert!(!asked.selects(&device(0x0102, "1", "a")));
    assert!(!asked.selects(&closed(0x0101)));
    let without_serial = selector(0x0101, None);
    assert!(without_serial.selects(&device(0x0101, "", "a")));
    assert!(!without_serial.selects(&device(0x0101, "1", "a")));
}

#[test]
fn no_device_fits() {
    assert_eq!(chosen(&selector(0x0101, None), &vec![]), None);
    assert_eq!(chosen(&selector(0x0101, None), &vec![closed(0x0101)]), None);
    let mut other = device(0x0101, "1", "");
    other.vendor_id = 0x1367;
    assert_eq!(chosen(&selector(0x0101, Some("1")), &vec![other]), None);
}

#[test]
fn only_fitting_identifiers_are_worth_opening() {
    let selector = selector(0x0101, Some("1"));
    assert!(selector.may_fit(0x1366, 0x0101));
    assert!(!selector.may_fit(0x1366, 0x0102));
    assert!(!selector.may_fit(0x1367, 0x0101));
}

#[test]
fn probe_with_a_fixed_interface_is_set_up_for_jtag() {
    match ProbeSetup::Capabilities(3).resume(Reply::Capabilities { select_if: false }) {
        Step::Finished(Ok(probe)) => {
            assert!(probe.get_interface_jtag().is_some());
            assert!(probe.get_interface_dap().is_none());
        }
        _ => panic!("not set up"),
    }
}

#[test]
fn probe_is_set_up_for_its_interfaces() {
    let setup = match ProbeSetup::Capabilities(3).resume(Reply::Capabilities { select_if: true }) {
        Step::Perform(Command::ReadAvailableInterfaces, setup) => setup,
        _ => panic!("interfaces are not read"),
    };
    assert_eq!(setup.device(), 3);
    match setup.resume(Reply::Interfaces(vec![TargetInterface::Swd])) {
        Step::Finished(Ok(probe)) => {
            assert!(probe.get_interface_dap().is_some());
            assert!(probe.get_interface_jtag().is_none());
        }
        _ => panic!("not set up"),
    }
}

#[test]
fn probe_infos() {
    let info = probe_info(&device(0x0105, "000123", "J-Link OB"));
    assert_eq!(info.identifier, "J-Link (J-Link OB)");
    assert_eq!(info.vendor_id, 0x1366);
    assert_eq!(info.product_id, 0x0105);
    assert_eq!(info.serial_number, Some("000123".to_string()));
    assert_eq!(info.probe_type, DebugProbeType::JLink);
    let info = probe_info(&device(0x0105, "", ""));
    assert_eq!(info.identifier, "J-Link");
    assert_eq!(info.serial_number, None);
    let info = probe_info(&closed(0x0101));
    assert_eq!(info.identifier, "J-Link");
    assert_eq!(info.product_id, 0x0101);
    assert_eq!(info.serial_number, None);
}

#[test]
fn devices_are_listed_in_order() {
    let infos = list_jlink_devices(&vec![
        device(0x0101, "1", ""),
        closed(0x0102),
        device(0x0103, "", "x"),
    ]);
    let ids: Vec<u16> = infos.iter().map(|info| info.product_id).collect();
    assert_eq!(ids, vec![0x0101, 0x0102, 0x0103]);
    assert_eq!(infos[0].serial_number, Some("1".to_string()));
    assert_eq!(infos[2].identifier, "J-Link (x)");
    assert!(list_jlink_devices(&vec![]).is_empty());
}
