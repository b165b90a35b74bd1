//! The errors that probe operations end with.
use crate::protocol::WireProtocol;
use vstd::prelude::*;

verus! {

/// The error that `jaylink` reports when talking to the probe fails. The
/// library carries such a value through to its caller and never looks inside.
#[verifier::external_type_specification]
#[verifier::external_body]
pub struct ExJaylinkError(jaylink::Error);

/// Why no probe could be opened.
#[derive(Debug, Clone, Copy, PartialEq, Eq)]
pub enum ProbeCreationError {
    /// No connected device fits the selector.
    NotFound,
}

/// A failure that the debug port of the target reported.
#[derive(Debug, Clone, Copy, PartialEq, Eq)]
pub enum DapError {
    /// The target answered a request with FAULT.
    FaultResponse,
}

/// How a probe operation can fail.
#[derive(Debug)]
pub enum DebugProbeError {
    /// Talking to the probe itself failed.
    ProbeSpecific(jaylink::Error),
    /// An error that the target gives no further details about.
    Unknown,
    /// No probe could be opened.
    ProbeCouldNotBeCreated(ProbeCreationError),
    /// The probe does not support this protocol.
    UnsupportedProtocol(WireProtocol),
    /// The probe cannot be set to this speed, in kHz.
    UnsupportedSpeed(u32),
    /// The target kept asking to wait.
    Timeout,
    /// An error specific to the architecture of the target.
    ArchitectureSpecific(DapError),
    /// The probe has no implementation of this operation.
    NotImplemented(&'static str),
    /// There are fewer bits of data than the register has, which is this many.
    IncorrectLength(usize),
}

impl From<jaylink::Error> for DebugProbeError {
    fn from(e: jaylink::Error) -> DebugProbeError {
        DebugProbeError::ProbeSpecific(e)
    }
}

impl vstd::std_specs::convert::FromSpecImpl<jaylink::Error> for DebugProbeError {
    open spec fn obeys_from_spec() -> bool {
        true
    }

    open spec fn from_spec(e: jaylink::Error) -> DebugProbeError {
        DebugProbeError::ProbeSpecific(e)
    }
}

/// A failure of the probe is passed on as it is.
pub proof fn law_failure_is_passed_on(error: jaylink::Error)
    ensures
        <DebugProbeError as vstd::std_specs::convert::FromSpec<jaylink::Error>>::obeys_from_spec(),
        <DebugProbeError as vstd::std_specs::convert::FromSpec<jaylink::Error>>::from_spec(error)
            == DebugProbeError::ProbeSpecific(error),
{
}

} // verus!
