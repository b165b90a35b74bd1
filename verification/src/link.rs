//! What a running operation asks of the probe, and what the probe answers.
//!
//! An operation never talks to the probe by itself. It ends in a [`Step`]: either
//! it is finished, or it wants a [`Command`] to be performed and goes on when it
//! is handed the [`Reply`].
use crate::error::DebugProbeError;
use crate::protocol::TargetInterface;
use vstd::prelude::*;

verus! {

/// A setting for the clock of the target interface, made by `jaylink`.
#[verifier::external_type_specification]
#[verifier::external_body]
pub struct ExCommunicationSpeed(jaylink::CommunicationSpeed);

/// What `jaylink::CommunicationSpeed::khz` makes of a speed in kHz.
pub uninterp spec fn communication_speed(khz: u16) -> Option<jaylink::CommunicationSpeed>;

/// `jaylink::CommunicationSpeed::khz` wraps a speed in kHz into a setting, which
/// depends on that speed alone. It refuses `0xFFFF`, the code for adaptive
/// clocking, and nothing else.
pub assume_specification[ jaylink::CommunicationSpeed::khz ](khz: u16) -> (setting: Option<
    jaylink::CommunicationSpeed,
>)
    ensures
        setting == communication_speed(khz),
        setting is Some <==> khz != 0xFFFF,
;

/// The clock that a probe derives its interface speeds from.
#[derive(Debug, Clone, Copy)]
pub struct Speeds {
    /// The base frequency in Hz.
    pub base_freq: u32,
    /// The smallest divider of the base frequency.
    pub min_div: u16,
}

/// Something that the probe is asked to do.
#[derive(Debug)]
pub enum Command {
    ReadCapabilities,
    ReadAvailableInterfaces,
    ReadCurrentInterface,
    SelectInterface(TargetInterface),
    ReadSpeeds,
    SetSpeed(jaylink::CommunicationSpeed),
    ReadTargetVoltage,
    ResetTrst,
    SetReset(bool),
    SetTrst(bool),
    /// Shift out `tms` and `tdi`, bit by bit, and report what comes back.
    JtagIo { tms: Vec<bool>, tdi: Vec<bool> },
    /// Shift through SWDIO: where `direction` is set, the bit of `swdio` is
    /// sent; where it is not, a bit of the target is read.
    SwdIo { direction: Vec<bool>, swdio: Vec<bool> },
}

/// A [`Command`] with sequences in place of vectors.
pub enum CommandView {
    ReadCapabilities,
    ReadAvailableInterfaces,
    ReadCurrentInterface,
    SelectInterface(TargetInterface),
    ReadSpeeds,
    SetSpeed(jaylink::CommunicationSpeed),
    ReadTargetVoltage,
    ResetTrst,
    SetReset(bool),
    SetTrst(bool),
    JtagIo { tms: Seq<bool>, tdi: Seq<bool> },
    SwdIo { direction: Seq<bool>, swdio: Seq<bool> },
}

impl View for Command {
    type V = CommandView;

    open spec fn view(&self) -> CommandView {
        match *self {
            Command::ReadCapabilities => CommandView::ReadCapabilities,
            Command::ReadAvailableInterfaces => CommandView::ReadAvailableInterfaces,
            Command::ReadCurrentInterface => CommandView::ReadCurrentInterface,
            Command::SelectInterface(interface) => CommandView::SelectInterface(interface),
            Command::ReadSpeeds => CommandView::ReadSpeeds,
            Command::SetSpeed(speed) => CommandView::SetSpeed(speed),
            Command::ReadTargetVoltage => CommandView::ReadTargetVoltage,
            Command::ResetTrst => CommandView::ResetTrst,
            Command::SetReset(level) => CommandView::SetReset(level),
            Command::SetTrst(level) => CommandView::SetTrst(level),
            Command::JtagIo { tms, tdi } => CommandView::JtagIo { tms: tms@, tdi: tdi@ },
            Command::SwdIo { direction, swdio } => CommandView::SwdIo {
                direction: direction@,
                swdio: swdio@,
            },
        }
    }
}

/// What came of a [`Command`].
#[derive(Debug)]
pub enum Reply {
    /// It was carried out, and there is nothing to report.
    Done,
    /// Whether the probe is able to switch between target interfaces.
    Capabilities { select_if: bool },
    /// The target interfaces that can be selected.
    Interfaces(Vec<TargetInterface>),
    /// The target interface that is selected.
    CurrentInterface(TargetInterface),
    Speeds(Speeds),
    /// The voltage at the target in millivolts.
    TargetVoltage(u16),
    /// The bits that were on the line during a transfer.
    Bits(Vec<bool>),
    /// It failed.
    Failed(jaylink::Error),
}

/// A [`Reply`] with sequences in place of vectors.
pub enum ReplyView {
    Done,
    Capabilities { select_if: bool },
    Interfaces(Seq<TargetInterface>),
    CurrentInterface(TargetInterface),
    Speeds(Speeds),
    TargetVoltage(u16),
    Bits(Seq<bool>),
    Failed(jaylink::Error),
}

impl View for Reply {
    type V = ReplyView;

    open spec fn view(&self) -> ReplyView {
        match *self {
            Reply::Done => ReplyView::Done,
            Reply::Capabilities { select_if } => ReplyView::Capabilities { select_if },
            Reply::Interfaces(interfaces) => ReplyView::Interfaces(interfaces@),
            Reply::CurrentInterface(interface) => ReplyView::CurrentInterface(interface),
            Reply::Speeds(speeds) => ReplyView::Speeds(speeds),
            Reply::TargetVoltage(millivolts) => ReplyView::TargetVoltage(millivolts),
            Reply::Bits(bits) => ReplyView::Bits(bits@),
            Reply::Failed(error) => ReplyView::Failed(error),
        }
    }
}

/// How far an operation has come.
#[derive(Debug)]
pub enum Step<S, T> {
    /// The command has to be performed; the operation is then in the given
    /// state and waits for the reply.
    Perform(Command, S),
    /// The operation is over.
    Finished(Result<T, DebugProbeError>),
}

/// A [`Step`] with the views of what it holds.
pub enum StepView<S, T> {
    Perform(CommandView, S),
    Finished(Result<T, DebugProbeError>),
}

impl<S: View, T: View> View for Step<S, T> {
    type V = StepView<S::V, T::V>;

    open spec fn view(&self) -> StepView<S::V, T::V> {
        match *self {
            Step::Perform(command, state) => StepView::Perform(command@, state@),
            Step::Finished(Ok(value)) => StepView::Finished(Ok(value@)),
            Step::Finished(Err(error)) => StepView::Finished(Err(error)),
        }
    }
}

/// The step that ends an operation because the probe failed.
pub open spec fn probe_failure<S, T>(error: jaylink::Error) -> StepView<S, T> {
    StepView::Finished(Err(DebugProbeError::ProbeSpecific(error)))
}

/// A view of a command shows all of it, and nothing else.
pub proof fn law_command_is_seen(
    interface: TargetInterface,
    setting: jaylink::CommunicationSpeed,
    level: bool,
    a: Vec<bool>,
    b: Vec<bool>,
)
    ensures
        Command::ReadCapabilities@ == CommandView::ReadCapabilities,
        Command::ReadAvailableInterfaces@ == CommandView::ReadAvailableInterfaces,
        Command::ReadCurrentInterface@ == CommandView::ReadCurrentInterface,
        Command::SelectInterface(interface)@ == CommandView::SelectInterface(interface),
        Command::ReadSpeeds@ == CommandView::ReadSpeeds,
        Command::SetSpeed(setting)@ == CommandView::SetSpeed(setting),
        Command::ReadTargetVoltage@ == CommandView::ReadTargetVoltage,
        Command::ResetTrst@ == CommandView::ResetTrst,
        Command::SetReset(level)@ == CommandView::SetReset(level),
        Command::SetTrst(level)@ == CommandView::SetTrst(level),
        (Command::JtagIo { tms: a, tdi: b })@ == (CommandView::JtagIo { tms: a@, tdi: b@ }),
        (Command::SwdIo { direction: a, swdio: b })@ == (CommandView::SwdIo {
            direction: a@,
            swdio: b@,
        }),
{
}

/// A view of a reply shows all of it, and nothing else.
pub proof fn law_reply_is_seen(
    select_if: bool,
    interfaces: Vec<TargetInterface>,
    interface: TargetInterface,
    speeds: Speeds,
    millivolts: u16,
    response: Vec<bool>,
    error: jaylink::Error,
)
    ensures
        Reply::Done@ == ReplyView::Done,
        (Reply::Capabilities { select_if })@ == (ReplyView::Capabilities { select_if }),
        Reply::Interfaces(interfaces)@ == ReplyView::Interfaces(interfaces@),
        Reply::CurrentInterface(interface)@ == ReplyView::CurrentInterface(interface),
        Reply::Speeds(speeds)@ == ReplyView::Speeds(speeds),
        Reply::TargetVoltage(millivolts)@ == ReplyView::TargetVoltage(millivolts),
        Reply::Bits(response)@ == ReplyView::Bits(response@),
        Reply::Failed(error)@ == ReplyView::Failed(error),
{
}

/// A view of a step shows the command and the state, or how the operation ended.
pub proof fn law_step_is_seen<S: View, T: View>(
    command: Command,
    state: S,
    value: T,
    error: DebugProbeError,
)
    ensures
        Step::<S, T>::Perform(command, state)@ == StepView::<S::V, T::V>::Perform(command@, state@),
        Step::<S, T>::Finished(Ok(value))@ == StepView::<S::V, T::V>::Finished(Ok(value@)),
        Step::<S, T>::Finished(Err(error))@ == StepView::<S::V, T::V>::Finished(Err(error)),
{
}

} // verus!
