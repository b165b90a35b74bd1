//! The wire protocols that the driver speaks, and the target interfaces of a
//! probe that carry them.
use vstd::prelude::*;

verus! {

/// A target interface as `jaylink` names it. Only interfaces that the driver
/// has no protocol for are carried as such values; nothing looks inside them.
#[verifier::external_type_specification]
#[verifier::external_body]
pub struct ExJaylinkInterface(jaylink::Interface);

/// A protocol to talk to the target with.
#[derive(Debug, Clone, Copy, PartialEq, Eq, Structural)]
pub enum WireProtocol {
    Swd,
    Jtag,
}

impl View for WireProtocol {
    type V = WireProtocol;

    open spec fn view(&self) -> WireProtocol {
        *self
    }
}

/// A target interface of a probe.
#[derive(Debug, Clone, Copy)]
pub enum TargetInterface {
    Jtag,
    Swd,
    /// An interface that the driver has no protocol for. It is never looked into:
    /// JTAG and SWD have variants of their own.
    Other(jaylink::Interface),
}

/// What a probe reported that the driver cannot handle.
#[derive(Debug, Clone, Copy)]
pub enum JlinkError {
    UnknownInterface(jaylink::Interface),
}

/// The protocol that is spoken over `interface`.
pub open spec fn protocol_of(interface: TargetInterface) -> Result<WireProtocol, JlinkError> {
    match interface {
        TargetInterface::Jtag => Ok(WireProtocol::Jtag),
        TargetInterface::Swd => Ok(WireProtocol::Swd),
        TargetInterface::Other(unknown) => Err(JlinkError::UnknownInterface(unknown)),
    }
}

/// The interface that carries `protocol`.
pub open spec fn interface_of(protocol: WireProtocol) -> TargetInterface {
    match protocol {
        WireProtocol::Swd => TargetInterface::Swd,
        WireProtocol::Jtag => TargetInterface::Jtag,
    }
}

/// The protocols of those of `interfaces` that have one, in their order.
pub open spec fn known_protocols(interfaces: Seq<TargetInterface>) -> Seq<WireProtocol>
    decreases interfaces.len(),
{
    if interfaces.len() == 0 {
        Seq::empty()
    } else {
        let before = known_protocols(interfaces.drop_last());
        match protocol_of(interfaces.last()) {
            Ok(protocol) => before.push(protocol),
            Err(_) => before,
        }
    }
}

/// The interface of a protocol has that protocol, and no other interface has.
pub proof fn law_interface_has_protocol(protocol: WireProtocol, interface: TargetInterface)
    ensures
        protocol_of(interface) == Ok::<WireProtocol, JlinkError>(protocol) <==> interface
            == interface_of(protocol),
{
}

/// A protocol is among the known ones exactly if its interface is available.
pub proof fn law_known_protocols(interfaces: Seq<TargetInterface>, protocol: WireProtocol)
    ensures
        known_protocols(interfaces).contains(protocol) <==> interfaces.contains(
            interface_of(protocol),
        ),
        known_protocols(interfaces).len() <= interfaces.len(),
    decreases interfaces.len(),
{
    if interfaces.len() > 0 {
        let before = interfaces.drop_last();
        let known = known_protocols(before);
        law_known_protocols(before, protocol);
        if interfaces.contains(interface_of(protocol)) {
            let i = choose|i: int|
                0 <= i < interfaces.len() && interfaces[i] == interface_of(protocol);
            if i < before.len() {
                assert(before[i] == interface_of(protocol));
                let j = choose|j: int| 0 <= j < known.len() && known[j] == protocol;
                assert(known_protocols(interfaces)[j] == protocol);
            } else {
                assert(known_protocols(interfaces).last() == protocol);
            }
        }
        if known_protocols(interfaces).contains(protocol) {
            let j = choose|j: int|
                0 <= j < known_protocols(interfaces).len() && known_protocols(interfaces)[j]
                    == protocol;
            if j < known.len() {
                assert(known[j] == protocol);
                let i = choose|i: int|
                    0 <= i < before.len() && before[i] == interface_of(protocol);
                assert(interfaces[i] == interface_of(protocol));
            } else {
                assert(interfaces.last() == interface_of(protocol));
            }
        }
    }
}

impl TryFrom<TargetInterface> for WireProtocol {
    type Error = JlinkError;

    fn try_from(interface: TargetInterface) -> Result<WireProtocol, JlinkError> {
        match interface {
            TargetInterface::Jtag => Ok(WireProtocol::Jtag),
            TargetInterface::Swd => Ok(WireProtocol::Swd),
            TargetInterface::Other(unknown) => Err(JlinkError::UnknownInterface(unknown)),
        }
    }
}

impl vstd::std_specs::convert::TryFromSpecImpl<TargetInterface> for WireProtocol {
    open spec fn obeys_try_from_spec() -> bool {
        true
    }

    open spec fn try_from_spec(interface: TargetInterface) -> Result<WireProtocol, JlinkError> {
        protocol_of(interface)
    }
}

impl WireProtocol {
    /// The interface that carries this protocol.
    pub fn interface(self) -> (interface: TargetInterface)
        ensures
            interface == interface_of(self),
    {
        match self {
            WireProtocol::Swd => TargetInterface::Swd,
            WireProtocol::Jtag => TargetInterface::Jtag,
        }
    }
}

/// The protocols of those of `interfaces` that have one, in their order.
pub fn supported_protocols(interfaces: &Vec<TargetInterface>) -> (protocols: Vec<WireProtocol>)
    ensures
        protocols@ == known_protocols(interfaces@),
{
    let mut protocols: Vec<WireProtocol> = Vec::new();
    let mut index: usize = 0;
    while index < interfaces.len()
        invariant
            index <= interfaces.len(),
            protocols@ == known_protocols(interfaces@.take(index as int)),
        decreases interfaces.len() - index,
    {
        assert(interfaces@.take(index + 1).drop_last() =~= interfaces@.take(index as int));
        match WireProtocol::try_from(interfaces[index]) {
            Ok(protocol) => {
                protocols.push(protocol);
            },
            Err(_) => {
                // Interfaces without a protocol are not offered.
            },
        }
        index += 1;
    }
    assert(interfaces@.take(index as int) =~= interfaces@);
    protocols
}

/// JTAG goes over the JTAG interface and SWD over the SWD interface; there is no
/// protocol for any other, and such an interface is named in the error.
pub proof fn law_protocols(unknown: jaylink::Interface)
    ensures
        protocol_of(TargetInterface::Jtag) == Ok::<WireProtocol, JlinkError>(WireProtocol::Jtag),
        protocol_of(TargetInterface::Swd) == Ok::<WireProtocol, JlinkError>(WireProtocol::Swd),
        protocol_of(TargetInterface::Other(unknown)) == Err::<WireProtocol, JlinkError>(
            JlinkError::UnknownInterface(unknown),
        ),
        interface_of(WireProtocol::Jtag) == TargetInterface::Jtag,
        interface_of(WireProtocol::Swd) == TargetInterface::Swd,
{
}

/// The protocols of interfaces are found one interface after the other: JTAG and
/// SWD bring theirs, in their order and as often as they are there, and the others
/// bring none.
pub proof fn law_known_protocols_in_order(
    interfaces: Seq<TargetInterface>,
    unknown: jaylink::Interface,
)
    ensures
        known_protocols(Seq::<TargetInterface>::empty()) == Seq::<WireProtocol>::empty(),
        known_protocols(interfaces.push(TargetInterface::Jtag)) == known_protocols(interfaces).push(
            WireProtocol::Jtag,
        ),
        known_protocols(interfaces.push(TargetInterface::Swd)) == known_protocols(interfaces).push(
            WireProtocol::Swd,
        ),
        known_protocols(interfaces.push(TargetInterface::Other(unknown))) == known_protocols(
            interfaces,
        ),
{
    assert(interfaces.push(TargetInterface::Jtag).drop_last() =~= interfaces);
    assert(interfaces.push(TargetInterface::Swd).drop_last() =~= interfaces);
    assert(interfaces.push(TargetInterface::Other(unknown)).drop_last() =~= interfaces);
}

/// A conversion from an interface gives its protocol.
pub proof fn law_conversion(interface: TargetInterface)
    ensures
        <WireProtocol as vstd::std_specs::convert::TryFromSpec<
            TargetInterface,
        >>::obeys_try_from_spec(),
        <WireProtocol as vstd::std_specs::convert::TryFromSpec<TargetInterface>>::try_from_spec(
            interface,
        ) == protocol_of(interface),
{
}

/// Nothing of a protocol is hidden.
pub proof fn law_protocol_is_seen(protocol: WireProtocol)
    ensures
        protocol@ == protocol,
{
}

} // verus!
