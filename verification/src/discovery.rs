//! Finding probes among the USB devices, and setting one up.
use crate::error::{DebugProbeError, ProbeCreationError};
use crate::link;
use crate::link::{Command, CommandView, Reply, ReplyView, Step, StepView};
use crate::probe::{JLink, ProbeState};
use crate::protocol;
use crate::protocol::{TargetInterface, WireProtocol};
use vstd::prelude::*;
use vstd::string::*;

verus! {

/// Says which probe to use.
#[derive(Debug)]
pub struct DebugProbeSelector {
    pub vendor_id: u16,
    pub product_id: u16,
    pub serial_number: Option<String>,
}

/// A J-Link among the USB devices.
#[derive(Debug)]
pub struct UsbDevice {
    pub vendor_id: u16,
    pub product_id: u16,
    /// What the device tells about itself, if it could be opened.
    pub opened: Option<DeviceStrings>,
}

/// What a device tells about itself. Either string may be empty.
#[derive(Debug)]
pub struct DeviceStrings {
    pub serial: String,
    pub product: String,
}

/// The kind of a probe.
#[derive(Debug, Clone, Copy, PartialEq, Eq, Structural)]
pub enum DebugProbeType {
    JLink,
}

/// What is known of a probe that can be used.
#[derive(Debug)]
pub struct DebugProbeInfo {
    pub identifier: String,
    pub vendor_id: u16,
    pub product_id: u16,
    pub serial_number: Option<String>,
    pub probe_type: DebugProbeType,
}

/// A [`DebugProbeInfo`] with sequences in place of strings.
pub struct DebugProbeInfoView {
    pub identifier: Seq<char>,
    pub vendor_id: u16,
    pub product_id: u16,
    pub serial_number: Option<Seq<char>>,
    pub probe_type: DebugProbeType,
}

impl View for DebugProbeInfo {
    type V = DebugProbeInfoView;

    open spec fn view(&self) -> DebugProbeInfoView {
        DebugProbeInfoView {
            identifier: self.identifier@,
            vendor_id: self.vendor_id,
            product_id: self.product_id,
            serial_number: match self.serial_number {
                Some(serial) => Some(serial@),
                None => None,
            },
            probe_type: self.probe_type,
        }
    }
}

impl DebugProbeSelector {
    /// The serial number that a device has to have. A selector without one asks
    /// for a device whose serial number is empty.
    pub open spec fn wanted_serial(self) -> Seq<char> {
        match self.serial_number {
            Some(serial) => serial@,
            None => Seq::empty(),
        }
    }

    /// Whether a device with these identifiers may be the one.
    pub open spec fn fits_ids(self, vendor_id: u16, product_id: u16) -> bool {
        vendor_id == self.vendor_id && product_id == self.product_id
    }

    /// Whether `device` is one that this selector asks for.
    pub open spec fn fits(self, device: UsbDevice) -> bool {
        &&& self.fits_ids(device.vendor_id, device.product_id)
        &&& device.opened matches Some(strings) && strings.serial@ == self.wanted_serial()
    }

    /// Whether this selector asks for none of `devices`.
    pub open spec fn fits_none(self, devices: Seq<UsbDevice>) -> bool {
        forall|i: int| 0 <= i < devices.len() ==> !self.fits(#[trigger] devices[i])
    }

    /// Whether device `i` is the first of `devices` that this selector asks for.
    pub open spec fn fits_first(self, devices: Seq<UsbDevice>, i: int) -> bool {
        &&& 0 <= i < devices.len()
        &&& self.fits(devices[i])
        &&& self.fits_none(devices.take(i))
    }

    /// Whether a device with these identifiers has to be opened to find out if it
    /// is the one.
    pub fn may_fit(&self, vendor_id: u16, product_id: u16) -> (may_fit: bool)
        ensures
            may_fit == self.fits_ids(vendor_id, product_id),
    {
        vendor_id == self.vendor_id && product_id == self.product_id
    }

    /// Whether `device` is one that this selector asks for.
    pub fn selects(&self, device: &UsbDevice) -> (selected: bool)
        ensures
            selected == self.fits(*device),
    {
        if !self.may_fit(device.vendor_id, device.product_id) {
            return false;
        }
        match &device.opened {
            Some(strings) => match &self.serial_number {
                Some(serial) => strings.serial == *serial,
                None => {
                    let empty = strings.serial.as_str().is_empty();
                    assert(empty ==> strings.serial@ =~= Seq::empty());
                    empty
                },
            },
            None => false,
        }
    }
}

/// A probe that is being set up and waits for a reply. It holds which of the
/// devices the probe is.
#[derive(Debug, Clone, Copy)]
pub enum ProbeSetup {
    /// The probe was asked what it can do.
    Capabilities(usize),
    /// The probe was asked which interfaces it has.
    Interfaces(usize),
}

impl View for ProbeSetup {
    type V = ProbeSetup;

    open spec fn view(&self) -> ProbeSetup {
        *self
    }
}

impl ProbeSetup {
    /// Which of the devices the probe is.
    pub open spec fn device_index(self) -> usize {
        match self {
            ProbeSetup::Capabilities(device) => device,
            ProbeSetup::Interfaces(device) => device,
        }
    }

    /// Whether `reply` can be the answer that the setup waits for.
    pub open spec fn accepts(self, reply: ReplyView) -> bool {
        match self {
            ProbeSetup::Capabilities(_) => reply is Failed || reply is Capabilities,
            ProbeSetup::Interfaces(_) => reply is Failed || reply is Interfaces,
        }
    }

    /// What follows when the probe answers with `reply`. A probe that can switch
    /// between interfaces is asked which ones it has, and interfaces without a
    /// protocol are left out. One that cannot is taken to have JTAG.
    pub open spec fn next(self, reply: ReplyView) -> StepView<ProbeSetup, ProbeState> {
        match (self, reply) {
            (_, ReplyView::Failed(error)) => link::probe_failure(error),
            (ProbeSetup::Capabilities(device), ReplyView::Capabilities { select_if }) => {
                if select_if {
                    StepView::Perform(
                        CommandView::ReadAvailableInterfaces,
                        ProbeSetup::Interfaces(device),
                    )
                } else {
                    StepView::Finished(Ok(ProbeState::fresh(seq![WireProtocol::Jtag])))
                }
            },
            (ProbeSetup::Interfaces(_), ReplyView::Interfaces(interfaces)) => StepView::Finished(
                Ok(ProbeState::fresh(protocol::known_protocols(interfaces))),
            ),
            _ => arbitrary(),
        }
    }

    /// Which of the devices the probe is.
    pub fn device(&self) -> (device: usize)
        ensures
            device == self.device_index(),
    {
        match *self {
            ProbeSetup::Capabilities(device) => device,
            ProbeSetup::Interfaces(device) => device,
        }
    }

    /// Goes on with the reply of the probe.
    pub fn resume(self, reply: Reply) -> (step: Step<ProbeSetup, JLink>)
        requires
            self.accepts(reply@),
        ensures
            step@ == self.next(reply@),
    {
        match (self, reply) {
            (_, Reply::Failed(error)) => Step::Finished(Err(DebugProbeError::from(error))),
            (ProbeSetup::Capabilities(device), Reply::Capabilities { select_if }) => {
                if select_if {
                    Step::Perform(Command::ReadAvailableInterfaces, ProbeSetup::Interfaces(device))
                } else {
                    let jtag: Vec<WireProtocol> = vec![WireProtocol::Jtag];
                    assert(jtag@ =~= seq![WireProtocol::Jtag]);
                    Step::Finished(Ok(JLink::fresh(jtag)))
                }
            },
            (ProbeSetup::Interfaces(_), Reply::Interfaces(interfaces)) => Step::Finished(
                Ok(JLink::fresh(protocol::supported_protocols(&interfaces))),
            ),
            _ => vstd::pervasive::unreached(),
        }
    }
}

impl JLink {
    /// Starts setting up the first of `devices` that `selector` asks for. Devices
    /// that `selector` cannot ask for need not have been opened.
    pub fn new_from_selector(selector: &DebugProbeSelector, devices: &Vec<UsbDevice>) -> (step:
        Step<ProbeSetup, JLink>)
        ensures
            selector.fits_none(devices@) ==> step@ == StepView::<ProbeSetup, ProbeState>::Finished(
                Err(DebugProbeError::ProbeCouldNotBeCreated(ProbeCreationError::NotFound)),
            ),
            !selector.fits_none(devices@) ==> (step@ matches StepView::Perform(command, setup)
                && command == CommandView::ReadCapabilities && setup is Capabilities
                && selector.fits_first(devices@, setup.device_index() as int)),
    {
        let mut device: usize = 0;
        while device < devices.len()
            invariant
                device <= devices.len(),
                selector.fits_none(devices@.take(device as int)),
            decreases devices.len() - device,
        {
            if selector.selects(&devices[device]) {
                return Step::Perform(Command::ReadCapabilities, ProbeSetup::Capabilities(device));
            }
            proof {
                let seen = devices@.take(device as int);
                let next = devices@.take(device + 1);
                assert forall|i: int| 0 <= i < next.len() implies !selector.fits(
                    #[trigger] next[i],
                ) by {
                    if i < device {
                        assert(next[i] == seen[i]);
                    }
                }
            }
            device += 1;
        }
        assert(devices@.take(device as int) =~= devices@);
        Step::Finished(
            Err(DebugProbeError::ProbeCouldNotBeCreated(ProbeCreationError::NotFound)),
        )
    }
}

/// `text`, if there is any.
pub open spec fn non_empty(text: Seq<char>) -> Option<Seq<char>> {
    if text.len() == 0 {
        None
    } else {
        Some(text)
    }
}

/// The name of a probe, with the name of the product if it is known.
pub open spec fn identifier_of(product: Option<Seq<char>>) -> Seq<char> {
    match product {
        Some(product) => "J-Link"@ + " ("@ + product + ")"@,
        None => "J-Link"@,
    }
}

/// What is known of the probe that `device` is. A device that could not be opened,
/// or that has an empty string, tells nothing.
pub open spec fn info_of(device: UsbDevice) -> DebugProbeInfoView {
    DebugProbeInfoView {
        identifier: identifier_of(
            match device.opened {
                Some(strings) => non_empty(strings.product@),
                None => None,
            },
        ),
        vendor_id: device.vendor_id,
        product_id: device.product_id,
        serial_number: match device.opened {
            Some(strings) => non_empty(strings.serial@),
            None => None,
        },
        probe_type: DebugProbeType::JLink,
    }
}

/// What is known of the probe that `device` is.
pub fn probe_info(device: &UsbDevice) -> (info: DebugProbeInfo)
    ensures
        info@ == info_of(*device),
{
    let mut identifier: String = "J-Link".to_owned();
    let mut serial_number: Option<String> = None;
    if let Some(strings) = &device.opened {
        if !strings.serial.as_str().is_empty() {
            serial_number = Some(strings.serial.as_str().to_owned());
        }
        if !strings.product.as_str().is_empty() {
            identifier.append(" (");
            identifier.append(strings.product.as_str());
            identifier.append(")");
        }
    }
    DebugProbeInfo {
        identifier,
        vendor_id: device.vendor_id,
        product_id: device.product_id,
        serial_number,
        probe_type: DebugProbeType::JLink,
    }
}

/// What is known of the probes that `devices` are, in their order.
pub fn list_jlink_devices(devices: &Vec<UsbDevice>) -> (infos: Vec<DebugProbeInfo>)
    ensures
        infos@.len() == devices@.len(),
        forall|i: int| 0 <= i < infos@.len() ==> (#[trigger] infos@[i])@ == info_of(devices@[i]),
{
    let mut infos: Vec<DebugProbeInfo> = Vec::new();
    let mut index: usize = 0;
    while index < devices.len()
        invariant
            index <= devices.len(),
            infos@.len() == index,
            forall|i: int|
                0 <= i < infos@.len() ==> (#[trigger] infos@[i])@ == info_of(devices@[i]),
        decreases devices.len() - index,
    {
        infos.push(probe_info(&devices[index]));
        index += 1;
    }
    infos
}

/// There is at most one first device that a selector asks for, so the choice is
/// unique.
pub proof fn law_choice_is_unique(
    selector: DebugProbeSelector,
    devices: Seq<UsbDevice>,
    i: int,
    j: int,
)
    requires
        selector.fits_first(devices, i),
        selector.fits_first(devices, j),
    ensures
        i == j,
{
    if i < j {
        assert(devices.take(j)[i] == devices[i]);
    }
    if j < i {
        assert(devices.take(i)[j] == devices[j]);
    }
}

/// A probe whose interfaces are `interfaces` supports exactly the protocols that
/// go over them.
pub proof fn law_new_probe_supports(
    device: usize,
    interfaces: Seq<TargetInterface>,
    protocol: WireProtocol,
)
    ensures
        ProbeSetup::Interfaces(device).next(ReplyView::Interfaces(interfaces)) matches
            StepView::Finished(Ok(probe)) && (probe.supports(protocol) <==> interfaces.contains(
            protocol::interface_of(protocol),
        )),
        ProbeSetup::Capabilities(device).next(
            ReplyView::Capabilities { select_if: false },
        ) matches StepView::Finished(Ok(probe)) && (probe.supports(protocol) <==> protocol
            == WireProtocol::Jtag),
{
    protocol::law_known_protocols(interfaces, protocol);
    assert(seq![WireProtocol::Jtag][0] == WireProtocol::Jtag);
}

/// A new probe has a protocol to attach with if it has any interface that the
/// driver has a protocol for, or if it cannot switch between interfaces.
pub proof fn law_new_probe_is_attachable(
    device: usize,
    interfaces: Seq<TargetInterface>,
    protocol: WireProtocol,
)
    requires
        interfaces.contains(protocol::interface_of(protocol)),
    ensures
        ProbeSetup::Interfaces(device).next(ReplyView::Interfaces(interfaces)) matches
            StepView::Finished(Ok(probe)) && probe.attachable(),
        ProbeSetup::Capabilities(device).next(
            ReplyView::Capabilities { select_if: false },
        ) matches StepView::Finished(Ok(probe)) && probe.attachable(),
{
    protocol::law_known_protocols(interfaces, protocol);
}

/// A selector asks for a device exactly if vendor and product are the same, the
/// device was opened, and its serial number is the one of the selector, or empty if
/// the selector has none.
pub proof fn law_selector(selector: DebugProbeSelector, device: UsbDevice)
    ensures
        selector.fits(device) <==> {
            &&& device.vendor_id == selector.vendor_id
            &&& device.product_id == selector.product_id
            &&& device.opened is Some
            &&& match selector.serial_number {
                Some(serial) => device.opened->0.serial@ == serial@,
                None => device.opened->0.serial@.len() == 0,
            }
        },
        selector.fits_ids(device.vendor_id, device.product_id) <==> device.vendor_id
            == selector.vendor_id && device.product_id == selector.product_id,
{
    if selector.serial_number is None && device.opened is Some {
        let serial = device.opened->0.serial@;
        if serial.len() == 0 {
            assert(serial =~= Seq::<char>::empty());
        }
    }
}

/// The first device that a selector asks for has none before it that the selector
/// asks for too, and there is one unless the selector asks for no device at all.
pub proof fn law_first_device(selector: DebugProbeSelector, devices: Seq<UsbDevice>, i: int)
    ensures
        selector.fits_first(devices, i) <==> {
            &&& 0 <= i < devices.len()
            &&& selector.fits(devices[i])
            &&& forall|j: int| 0 <= j < i ==> !selector.fits(#[trigger] devices[j])
        },
        selector.fits_none(devices) <==> forall|j: int|
            0 <= j < devices.len() ==> !selector.fits(#[trigger] devices[j]),
{
    if 0 <= i < devices.len() {
        let before = devices.take(i);
        if selector.fits_none(before) {
            assert forall|j: int| 0 <= j < i implies !selector.fits(#[trigger] devices[j]) by {
                assert(before[j] == devices[j]);
            }
        }
        if forall|j: int| 0 <= j < i ==> !selector.fits(#[trigger] devices[j]) {
            assert forall|j: int| 0 <= j < before.len() implies !selector.fits(
                #[trigger] before[j],
            ) by {
                assert(before[j] == devices[j]);
            }
        }
    }
}

/// The device that was chosen is kept while it is set up, and a failure of the
/// probe ends the setup with that failure.
pub proof fn law_setup(device: usize, setup: ProbeSetup, error: jaylink::Error)
    ensures
        ProbeSetup::Capabilities(device).device_index() == device,
        ProbeSetup::Interfaces(device).device_index() == device,
        ProbeSetup::Capabilities(device).next(ReplyView::Capabilities { select_if: true })
            == StepView::<ProbeSetup, ProbeState>::Perform(
            CommandView::ReadAvailableInterfaces,
            ProbeSetup::Interfaces(device),
        ),
        setup.accepts(ReplyView::Failed(error)),
        setup.next(ReplyView::Failed(error)) == StepView::<ProbeSetup, ProbeState>::Finished(
            Err(DebugProbeError::ProbeSpecific(error)),
        ),
        setup@ == setup,
{
}

/// A probe that was set up has no protocol selected, no idle clocks and no speed,
/// and its instruction register is taken to hold one. It has the protocols of its
/// interfaces, or JTAG if it cannot switch between interfaces.
pub proof fn law_new_probe(device: usize, interfaces: Seq<TargetInterface>)
    ensures
        ProbeSetup::Interfaces(device).accepts(ReplyView::Interfaces(interfaces)),
        ProbeSetup::Interfaces(device).next(ReplyView::Interfaces(interfaces)) == StepView::<
            ProbeSetup,
            ProbeState,
        >::Finished(
            Ok(
                ProbeState {
                    jtag_idle_cycles: 0,
                    protocol: None,
                    supported_protocols: protocol::known_protocols(interfaces),
                    current_ir_reg: 1,
                    speed_khz: 0,
                },
            ),
        ),
        ProbeSetup::Capabilities(device).accepts(ReplyView::Capabilities { select_if: true }),
        ProbeSetup::Capabilities(device).accepts(ReplyView::Capabilities { select_if: false }),
        ProbeSetup::Capabilities(device).next(ReplyView::Capabilities { select_if: false })
            == StepView::<ProbeSetup, ProbeState>::Finished(
            Ok(
                ProbeState {
                    jtag_idle_cycles: 0,
                    protocol: None,
                    supported_protocols: seq![WireProtocol::Jtag],
                    current_ir_reg: 1,
                    speed_khz: 0,
                },
            ),
        ),
{
}

/// What is listed of a device: its identifiers as they are, its serial number if
/// there is one, and a name that has the product in brackets if that is known.
/// Nothing but the identifiers is known of a device that could not be opened.
pub proof fn law_listed(device: UsbDevice)
    ensures
        info_of(device).vendor_id == device.vendor_id,
        info_of(device).product_id == device.product_id,
        info_of(device).probe_type == DebugProbeType::JLink,
        device.opened is None ==> info_of(device).serial_number is None && info_of(
            device,
        ).identifier == "J-Link"@,
        device.opened matches Some(strings) ==> {
            &&& strings.serial@.len() == 0 ==> info_of(device).serial_number is None
            &&& strings.serial@.len() > 0 ==> info_of(device).serial_number == Some(strings.serial@)
            &&& strings.product@.len() == 0 ==> info_of(device).identifier == "J-Link"@
            &&& strings.product@.len() > 0 ==> info_of(device).identifier == "J-Link ("@
                + strings.product@ + ")"@
        },
{
    reveal_strlit("J-Link");
    reveal_strlit(" (");
    reveal_strlit("J-Link (");
    if let Some(strings) = device.opened {
        assert("J-Link"@ + " ("@ =~= "J-Link ("@);
    }
}

/// Nothing of what is listed is hidden.
pub proof fn law_info_is_seen(info: DebugProbeInfo)
    ensures
        info@.identifier == info.identifier@,
        info@.vendor_id == info.vendor_id,
        info@.product_id == info.product_id,
        info@.serial_number is Some <==> info.serial_number is Some,
        info.serial_number matches Some(serial) ==> info@.serial_number == Some(serial@),
        info@.probe_type == info.probe_type,
{
}

/// Among `devices`, a selector finds the first one with its vendor, product and
/// serial number, and only that is set up; a device that was not opened, or is
/// another one, is passed over.
pub proof fn law_device_is_found(
    selector: &DebugProbeSelector,
    devices: &Vec<UsbDevice>,
    step: Step<ProbeSetup, JLink>,
    j: int,
)
    requires
        call_ensures(JLink::new_from_selector, (selector, devices), step),
        0 <= j < devices@.len(),
        devices@[j].vendor_id == selector.vendor_id,
        devices@[j].product_id == selector.product_id,
        devices@[j].opened is Some,
        selector.serial_number matches Some(serial) ==> devices@[j].opened->0.serial@ == serial@,
        selector.serial_number is None ==> devices@[j].opened->0.serial@.len() == 0,
    ensures
        step@ matches StepView::Perform(command, ProbeSetup::Capabilities(i)) && {
            &&& command == CommandView::ReadCapabilities
            &&& i <= j
            &&& devices@[i as int].vendor_id == selector.vendor_id
            &&& devices@[i as int].product_id == selector.product_id
            &&& devices@[i as int].opened is Some
            &&& match selector.serial_number {
                Some(serial) => devices@[i as int].opened->0.serial@ == serial@,
                None => devices@[i as int].opened->0.serial@.len() == 0,
            }
        },
{
    law_selector(*selector, devices@[j]);
    assert(!selector.fits_none(devices@));
    let i = step@->Perform_1.device_index() as int;
    law_first_device(*selector, devices@, i);
    law_selector(*selector, devices@[i]);
}

} // verus!
