//! The driver of a single probe.
use crate::bits;
use crate::error::DebugProbeError;
use crate::jtag;
use crate::jtag::TapState;
use crate::link;
use crate::link::{Command, CommandView, Reply, ReplyView, Step, StepView};
use crate::protocol;
use crate::protocol::{TargetInterface, WireProtocol};
use crate::selection;
use crate::selection::InterfaceSelection;
use crate::speed;
use crate::speed::SpeedChange;
use crate::swd;
use vstd::prelude::*;

verus! {

/// What the driver knows about a probe.
#[derive(Debug)]
pub struct JLink {
    /// Idle cycles necessary between consecutive accesses to the DMI register.
    jtag_idle_cycles: u8,
    /// The protocol that was selected, if any.
    protocol: Option<WireProtocol>,
    /// The protocols that the probe supports.
    supported_protocols: Vec<WireProtocol>,
    /// The first byte of the data that was last written to the instruction register
    /// of the target. It is kept whole, though only as many of its bits are sent as
    /// the register has.
    current_ir_reg: u32,
    /// The speed of the target interface in kHz.
    speed_khz: u32,
}

/// A [`JLink`] with sequences in place of vectors.
pub struct ProbeState {
    pub jtag_idle_cycles: u8,
    pub protocol: Option<WireProtocol>,
    pub supported_protocols: Seq<WireProtocol>,
    pub current_ir_reg: u32,
    pub speed_khz: u32,
}

impl View for JLink {
    type V = ProbeState;

    closed spec fn view(&self) -> ProbeState {
        ProbeState {
            jtag_idle_cycles: self.jtag_idle_cycles,
            protocol: self.protocol,
            supported_protocols: self.supported_protocols@,
            current_ir_reg: self.current_ir_reg,
            speed_khz: self.speed_khz,
        }
    }
}

impl ProbeState {
    /// A probe that nothing was done with yet.
    pub open spec fn fresh(supported_protocols: Seq<WireProtocol>) -> ProbeState {
        ProbeState {
            jtag_idle_cycles: 0,
            protocol: None,
            supported_protocols,
            current_ir_reg: 1,
            speed_khz: 0,
        }
    }

    pub open spec fn supports(self, protocol: WireProtocol) -> bool {
        self.supported_protocols.contains(protocol)
    }

    /// Whether there is a protocol to attach with.
    pub open spec fn attachable(self) -> bool {
        self.protocol is Some || self.supported_protocols.len() > 0
    }

    /// The protocol to attach with: the one that was selected. If none was, SWD if
    /// the probe supports it, and otherwise the first one that it supports.
    pub open spec fn configured_protocol(self) -> WireProtocol {
        match self.protocol {
            Some(protocol) => protocol,
            None => if self.supports(WireProtocol::Swd) {
                WireProtocol::Swd
            } else {
                self.supported_protocols[0]
            },
        }
    }
}

/// A scan of a data register that waits for the response.
#[derive(Debug, Clone, Copy)]
pub struct DrScan {
    /// The number of bits of the register.
    pub register_bits: usize,
}

impl View for DrScan {
    type V = DrScan;

    open spec fn view(&self) -> DrScan {
        *self
    }
}

impl DrScan {
    /// Whether `reply` can be the answer that this scan waits for: a failure, or
    /// enough bits to hold the contents of the register.
    pub open spec fn accepts(self, reply: ReplyView) -> bool {
        match reply {
            ReplyView::Failed(_) => true,
            ReplyView::Bits(response) => response.len() >= 3 + self.register_bits,
            _ => false,
        }
    }

    /// What the scan ends with when the probe answers with `reply`.
    pub open spec fn outcome(self, reply: ReplyView) -> Result<Seq<u8>, DebugProbeError> {
        match reply {
            ReplyView::Failed(error) => Err(DebugProbeError::ProbeSpecific(error)),
            ReplyView::Bits(response) => Ok(
                jtag::dr_contents(response, self.register_bits as nat),
            ),
            _ => arbitrary(),
        }
    }

    /// Ends the scan with the reply of the probe.
    pub fn finish(self, reply: Reply) -> (contents: Result<Vec<u8>, DebugProbeError>)
        requires
            self.accepts(reply@),
        ensures
            match contents {
                Ok(bytes) => self.outcome(reply@) == Ok::<Seq<u8>, DebugProbeError>(bytes@),
                Err(error) => self.outcome(reply@) == Err::<Seq<u8>, DebugProbeError>(error),
            },
    {
        match reply {
            Reply::Failed(error) => Err(DebugProbeError::from(error)),
            Reply::Bits(response) => Ok(
                jtag::decode_dr(response.as_slice(), self.register_bits),
            ),
            _ => vstd::pervasive::unreached(),
        }
    }
}

/// A write of the instruction register that waits for the response.
#[derive(Debug, Clone, Copy)]
pub struct IrWrite {
    /// The first byte of the data, with the bits that are not sent.
    pub instruction: u32,
}

impl View for IrWrite {
    type V = IrWrite;

    open spec fn view(&self) -> IrWrite {
        *self
    }
}

impl IrWrite {
    /// Whether `reply` can be the answer that this write waits for.
    pub open spec fn accepts(self, reply: ReplyView) -> bool {
        reply is Failed || reply is Bits
    }

    /// What the write ends with when the probe answers with `reply`. What came
    /// out of the register is of no interest.
    pub open spec fn outcome(self, reply: ReplyView) -> Result<(), DebugProbeError> {
        match reply {
            ReplyView::Failed(error) => Err(DebugProbeError::ProbeSpecific(error)),
            _ => Ok(()),
        }
    }

    /// What the driver knows of the probe after the answer `reply`.
    pub open spec fn effect(self, probe: ProbeState, reply: ReplyView) -> ProbeState {
        if reply is Failed {
            probe
        } else {
            ProbeState { current_ir_reg: self.instruction, ..probe }
        }
    }
}

/// An access to a register of the target over JTAG that waits for a response.
#[derive(Debug)]
pub enum RegisterScan {
    /// The register is being selected. Then the data register is scanned.
    Instruction { write: IrWrite, then: Command, scan: DrScan },
    /// The data register is being scanned.
    Data(DrScan),
}

/// A [`RegisterScan`] with sequences in place of vectors.
pub enum RegisterScanView {
    Instruction { write: IrWrite, then: CommandView, scan: DrScan },
    Data(DrScan),
}

impl View for RegisterScan {
    type V = RegisterScanView;

    open spec fn view(&self) -> RegisterScanView {
        match *self {
            RegisterScan::Instruction { write, then, scan } => RegisterScanView::Instruction {
                write,
                then: then@,
                scan,
            },
            RegisterScan::Data(scan) => RegisterScanView::Data(scan),
        }
    }
}

impl RegisterScanView {
    /// The first step of an access to the register at `address` with the scan
    /// `then`. The register only has to be selected if another one is.
    pub open spec fn first(
        probe: ProbeState,
        address: u32,
        then: CommandView,
        scan: DrScan,
    ) -> StepView<RegisterScanView, Seq<u8>> {
        if probe.current_ir_reg != address {
            StepView::Perform(
                jtag::ir_write(seq![address as u8], 5),
                RegisterScanView::Instruction {
                    write: IrWrite { instruction: address },
                    then,
                    scan,
                },
            )
        } else {
            StepView::Perform(then, RegisterScanView::Data(scan))
        }
    }

    /// Whether `reply` can be the answer that this access waits for.
    pub open spec fn accepts(self, reply: ReplyView) -> bool {
        match self {
            RegisterScanView::Instruction { write, .. } => write.accepts(reply),
            RegisterScanView::Data(scan) => scan.accepts(reply),
        }
    }

    /// What follows when the probe answers with `reply`.
    pub open spec fn next(self, reply: ReplyView) -> StepView<RegisterScanView, Seq<u8>> {
        match self {
            RegisterScanView::Instruction { write, then, scan } => match write.outcome(reply) {
                Ok(_) => StepView::Perform(then, RegisterScanView::Data(scan)),
                Err(error) => StepView::Finished(Err(error)),
            },
            RegisterScanView::Data(scan) => StepView::Finished(scan.outcome(reply)),
        }
    }

    /// What the driver knows of the probe after the answer `reply`.
    pub open spec fn effect(self, probe: ProbeState, reply: ReplyView) -> ProbeState {
        match self {
            RegisterScanView::Instruction { write, .. } => write.effect(probe, reply),
            RegisterScanView::Data(_) => probe,
        }
    }
}

/// A selection of a protocol that waits for a reply.
#[derive(Debug, Clone, Copy)]
pub struct ProtocolSelection {
    pub requested: WireProtocol,
    pub selection: InterfaceSelection,
}

impl View for ProtocolSelection {
    type V = ProtocolSelection;

    open spec fn view(&self) -> ProtocolSelection {
        *self
    }
}

impl ProtocolSelection {
    /// The step of the selection that `step` of the selection of the interface
    /// amounts to.
    pub open spec fn passed_on(
        requested: WireProtocol,
        step: StepView<InterfaceSelection, WireProtocol>,
    ) -> StepView<ProtocolSelection, ()> {
        match step {
            StepView::Perform(command, selection) => StepView::Perform(
                command,
                ProtocolSelection { requested, selection },
            ),
            StepView::Finished(Ok(actual)) => if actual == requested {
                StepView::Finished(Ok(()))
            } else {
                StepView::Finished(Err(DebugProbeError::UnsupportedProtocol(requested)))
            },
            StepView::Finished(Err(error)) => StepView::Finished(Err(error)),
        }
    }

    /// What the driver knows of the probe after `step` of the selection of the
    /// interface.
    pub open spec fn effect(
        probe: ProbeState,
        step: StepView<InterfaceSelection, WireProtocol>,
    ) -> ProbeState {
        match step {
            StepView::Finished(Ok(actual)) => ProbeState { protocol: Some(actual), ..probe },
            _ => probe,
        }
    }
}

/// What the driver knows of the probe after `step` of a change of the speed.
pub open spec fn speed_effect(probe: ProbeState, step: StepView<SpeedChange, u32>) -> ProbeState {
    match step {
        StepView::Finished(Ok(actual_khz)) => ProbeState { speed_khz: actual_khz, ..probe },
        _ => probe,
    }
}

/// A change of the reset lines that waits for a reply.
#[derive(Debug, Clone, Copy)]
pub enum ResetChange {
    /// The reset line of the target is being set to this level.
    Reset(bool),
    /// The reset line of the TAP controller is being set to this level.
    Trst(bool),
}

impl View for ResetChange {
    type V = ResetChange;

    open spec fn view(&self) -> ResetChange {
        *self
    }
}

impl ResetChange {
    /// The first step of setting both reset lines to `level`.
    pub open spec fn first(level: bool) -> StepView<ResetChange, ()> {
        StepView::Perform(CommandView::SetReset(level), ResetChange::Reset(level))
    }

    /// Whether `reply` can be the answer that this change waits for.
    pub open spec fn accepts(self, reply: ReplyView) -> bool {
        reply is Failed || reply is Done
    }

    /// What follows when the probe answers with `reply`.
    pub open spec fn next(self, reply: ReplyView) -> StepView<ResetChange, ()> {
        match (self, reply) {
            (_, ReplyView::Failed(error)) => link::probe_failure(error),
            (ResetChange::Reset(level), _) => StepView::Perform(
                CommandView::SetTrst(level),
                ResetChange::Trst(level),
            ),
            (ResetChange::Trst(_), _) => StepView::Finished(Ok(())),
        }
    }

    /// Goes on with the reply of the probe.
    pub fn resume(self, reply: Reply) -> (step: Step<ResetChange, ()>)
        requires
            self.accepts(reply@),
        ensures
            step@ == self.next(reply@),
    {
        match (self, reply) {
            (_, Reply::Failed(error)) => Step::Finished(Err(DebugProbeError::from(error))),
            (ResetChange::Reset(level), _) => Step::Perform(
                Command::SetTrst(level),
                ResetChange::Trst(level),
            ),
            (ResetChange::Trst(_), _) => Step::Finished(Ok(())),
        }
    }
}

/// An attempt to attach that waits for a reply.
#[derive(Debug, Clone, Copy)]
pub enum Attach {
    /// The interface is being selected.
    Selecting(InterfaceSelection),
    /// JTAG: the voltage at the target is being read.
    TargetVoltage,
    /// JTAG: the TAP controller is being reset through its reset line.
    ResetTrst,
    /// JTAG: the TAP controller is being reset through TMS.
    ResetChain,
    /// JTAG: the identification of the target is being read.
    Idcode(DrScan),
    /// SWD: the target is being brought into SWD mode.
    SwitchToSwd,
}

impl View for Attach {
    type V = Attach;

    open spec fn view(&self) -> Attach {
        *self
    }
}

/// The number of bits of the identification register of a target.
pub const IDCODE_BITS: usize = 32;

impl Attach {
    /// The first step of attaching with `protocol`.
    pub open spec fn first(protocol: WireProtocol) -> StepView<Attach, ()> {
        Attach::selected(InterfaceSelection::Capabilities(Some(protocol)).send())
    }

    /// The step of attaching that `step` of the selection of the interface amounts
    /// to. With JTAG the voltage is read next, with SWD the target is switched.
    pub open spec fn selected(step: StepView<InterfaceSelection, WireProtocol>) -> StepView<
        Attach,
        (),
    > {
        match step {
            StepView::Perform(command, selection) => StepView::Perform(
                command,
                Attach::Selecting(selection),
            ),
            StepView::Finished(Ok(WireProtocol::Jtag)) => StepView::Perform(
                CommandView::ReadTargetVoltage,
                Attach::TargetVoltage,
            ),
            StepView::Finished(Ok(WireProtocol::Swd)) => StepView::Perform(
                CommandView::SwdIo { direction: swd::init_direction(), swdio: swd::init_swdio() },
                Attach::SwitchToSwd,
            ),
            StepView::Finished(Err(error)) => StepView::Finished(Err(error)),
        }
    }

    /// Whether `reply` can be the answer that this attempt waits for.
    pub open spec fn accepts(self, reply: ReplyView) -> bool {
        match self {
            Attach::Selecting(selection) => selection.accepts(reply),
            Attach::TargetVoltage => reply is Failed || reply is TargetVoltage,
            Attach::ResetTrst => reply is Failed || reply is Done,
            Attach::ResetChain => reply is Failed || reply is Bits,
            Attach::Idcode(scan) => scan.accepts(reply),
            Attach::SwitchToSwd => reply is Failed || reply is Bits,
        }
    }

    /// What follows when the probe answers with `reply`, where scans end with
    /// `idle` idle clocks. None of the answers matters, except that a failure ends
    /// the attempt.
    pub open spec fn next(self, idle: nat, reply: ReplyView) -> StepView<Attach, ()> {
        match (self, reply) {
            (Attach::Selecting(selection), _) => Attach::selected(selection.next(reply)),
            (_, ReplyView::Failed(error)) => link::probe_failure(error),
            (Attach::TargetVoltage, _) => StepView::Perform(
                CommandView::ResetTrst,
                Attach::ResetTrst,
            ),
            (Attach::ResetTrst, _) => StepView::Perform(jtag::chain_reset(), Attach::ResetChain),
            (Attach::ResetChain, _) => StepView::Perform(
                jtag::dr_read(IDCODE_BITS as nat, idle),
                Attach::Idcode(DrScan { register_bits: IDCODE_BITS }),
            ),
            (Attach::Idcode(_), _) => StepView::Finished(Ok(())),
            (Attach::SwitchToSwd, _) => StepView::Finished(Ok(())),
        }
    }

    /// Passes on a step of the selection of the interface.
    fn after_selection(step: Step<InterfaceSelection, WireProtocol>) -> (passed_on: Step<
        Attach,
        (),
    >)
        ensures
            passed_on@ == Attach::selected(step@),
    {
        match step {
            Step::Perform(command, selection) => Step::Perform(
                command,
                Attach::Selecting(selection),
            ),
            Step::Finished(Ok(WireProtocol::Jtag)) => Step::Perform(
                Command::ReadTargetVoltage,
                Attach::TargetVoltage,
            ),
            Step::Finished(Ok(WireProtocol::Swd)) => {
                let direction = swd::init_directions();
                let swdio = swd::init_sequence();
                Step::Perform(Command::SwdIo { direction, swdio }, Attach::SwitchToSwd)
            },
            Step::Finished(Err(error)) => Step::Finished(Err(error)),
        }
    }
}

/// Access to the registers of a target over JTAG.
pub trait JTAGAccess {
    /// The number of idle clocks at the end of a scan.
    spec fn idle_clocks(&self) -> nat;

    /// Starts reading the data register at `address`, which has `len` bits.
    fn read_register(&self, address: u32, len: u32) -> (step: Step<RegisterScan, Vec<u8>>)
        requires
            address <= 0x1f,
            jtag::scan_fits(len as nat, self.idle_clocks()),
    ;

    /// Starts writing the first `len` bits of `data` to the data register at
    /// `address`, which has as many bits. The access gives what was in it before.
    fn write_register(&self, address: u32, data: &[u8], len: u32) -> (step: Step<
        RegisterScan,
        Vec<u8>,
    >)
        requires
            address <= 0x1f,
            jtag::scan_fits(len as nat, self.idle_clocks()),
            len <= 8 * data@.len(),
    ;

    /// Sets the number of idle clocks at the end of a scan.
    fn set_idle_cycles(&mut self, idle_cycles: u8)
        ensures
            final(self).idle_clocks() == idle_cycles,
    ;
}

impl JLink {
    /// A probe that nothing was done with yet.
    pub(crate) fn fresh(supported_protocols: Vec<WireProtocol>) -> (probe: JLink)
        ensures
            probe@ == ProbeState::fresh(supported_protocols@),
    {
        JLink {
            jtag_idle_cycles: 0,
            protocol: None,
            supported_protocols,
            current_ir_reg: 1,
            speed_khz: 0,
        }
    }

    /// The number of idle clocks at the end of a scan.
    pub fn idle_cycles(&self) -> (idle_cycles: u8)
        ensures
            idle_cycles == self@.jtag_idle_cycles,
    {
        self.jtag_idle_cycles
    }

    /// Starts selecting the interface of `protocol`, or, without one, finding out
    /// which one is selected.
    pub fn select_interface(&self, protocol: Option<WireProtocol>) -> (step: Step<
        InterfaceSelection,
        WireProtocol,
    >)
        ensures
            step@ == InterfaceSelection::Capabilities(protocol).send(),
    {
        InterfaceSelection::start(protocol)
    }

    /// Starts reading a data register of `register_bits` bits.
    pub fn read_dr(&self, register_bits: usize) -> (step: Step<DrScan, Vec<u8>>)
        requires
            jtag::scan_fits(register_bits as nat, self@.jtag_idle_cycles as nat),
        ensures
            step@ == StepView::<DrScan, Seq<u8>>::Perform(
                jtag::dr_read(register_bits as nat, self@.jtag_idle_cycles as nat),
                DrScan { register_bits },
            ),
    {
        Step::Perform(
            jtag::scan_dr_read(register_bits, self.jtag_idle_cycles),
            DrScan { register_bits },
        )
    }

    /// Starts writing the first `register_bits` bits of `data` to a data register,
    /// which has as many bits.
    pub fn write_dr(&self, data: &[u8], register_bits: usize) -> (step: Step<DrScan, Vec<u8>>)
        requires
            jtag::scan_fits(register_bits as nat, self@.jtag_idle_cycles as nat),
            register_bits <= 8 * data@.len(),
        ensures
            step@ == StepView::<DrScan, Seq<u8>>::Perform(
                jtag::dr_write(data@, register_bits as nat, self@.jtag_idle_cycles as nat),
                DrScan { register_bits },
            ),
    {
        Step::Perform(
            jtag::scan_dr_write(data, register_bits, self.jtag_idle_cycles),
            DrScan { register_bits },
        )
    }

    /// Starts writing the first `len` bits of `data` to the instruction register.
    /// Data of fewer bits is an error. Registers of eight bits and more are not
    /// supported. Once written, the whole first byte of `data` is remembered.
    pub fn write_ir(&self, data: &[u8], len: usize) -> (step: Step<IrWrite, ()>)
        requires
            len >= 1,
            len < 8 || len > 8 * data@.len(),
        ensures
            step@ == (if len > 8 * data@.len() {
                StepView::Finished(Err(DebugProbeError::IncorrectLength(len)))
            } else {
                StepView::<IrWrite, ()>::Perform(
                    jtag::ir_write(data@, len as nat),
                    IrWrite { instruction: data@[0] as u32 },
                )
            }),
    {
        // As many whole bytes as the register has, and one more for the rest.
        if data.len() < len / 8 || (data.len() == len / 8 && len % 8 > 0) {
            return Step::Finished(Err(DebugProbeError::IncorrectLength(len)));
        }
        Step::Perform(
            jtag::scan_ir_write(data, len),
            IrWrite { instruction: data[0] as u32 },
        )
    }

    /// Ends a write of the instruction register with the reply of the probe.
    pub fn finish_write_ir(&mut self, write: IrWrite, reply: Reply) -> (written: Result<
        (),
        DebugProbeError,
    >)
        requires
            write.accepts(reply@),
        ensures
            written == write.outcome(reply@),
            final(self)@ == write.effect(old(self)@, reply@),
    {
        match reply {
            Reply::Failed(error) => Err(DebugProbeError::from(error)),
            _ => {
                self.current_ir_reg = write.instruction;
                Ok(())
            },
        }
    }

    /// Starts an access to the register at `address` with the scan `then`.
    fn access_register(&self, address: u32, then: Command, scan: DrScan) -> (step: Step<
        RegisterScan,
        Vec<u8>,
    >)
        requires
            address <= 0x1f,
        ensures
            step@ == RegisterScanView::first(self@, address, then@, scan),
    {
        if self.current_ir_reg != address {
            let address_bits: [u8; 1] = [address as u8];
            assert(address_bits@ =~= seq![address as u8]);
            match self.write_ir(&address_bits, 5) {
                Step::Perform(command, write) => Step::Perform(
                    command,
                    RegisterScan::Instruction { write, then, scan },
                ),
                Step::Finished(_) => vstd::pervasive::unreached(),
            }
        } else {
            Step::Perform(then, RegisterScan::Data(scan))
        }
    }

    /// Goes on with an access to a register over JTAG.
    pub fn resume_register(&mut self, access: RegisterScan, reply: Reply) -> (step: Step<
        RegisterScan,
        Vec<u8>,
    >)
        requires
            access@.accepts(reply@),
        ensures
            step@ == access@.next(reply@),
            final(self)@ == access@.effect(old(self)@, reply@),
    {
        match access {
            RegisterScan::Instruction { write, then, scan } => {
                match self.finish_write_ir(write, reply) {
                    Ok(_) => Step::Perform(then, RegisterScan::Data(scan)),
                    Err(error) => Step::Finished(Err(error)),
                }
            },
            RegisterScan::Data(scan) => Step::Finished(scan.finish(reply)),
        }
    }

    /// Starts selecting `protocol`.
    pub fn select_protocol(&self, protocol: WireProtocol) -> (step: Step<ProtocolSelection, ()>)
        ensures
            step@ == ProtocolSelection::passed_on(
                protocol,
                InterfaceSelection::Capabilities(Some(protocol)).send(),
            ),
    {
        match self.select_interface(Some(protocol)) {
            Step::Perform(command, selection) => Step::Perform(
                command,
                ProtocolSelection { requested: protocol, selection },
            ),
            Step::Finished(_) => vstd::pervasive::unreached(),
        }
    }

    /// Takes note of how the selection of an interface ended that was to select
    /// `protocol`.
    pub fn finish_select_protocol(
        &mut self,
        protocol: WireProtocol,
        selected: Result<WireProtocol, DebugProbeError>,
    ) -> (result: Result<(), DebugProbeError>)
        ensures
            selected matches Ok(actual) ==> {
                &&& final(self)@ == (ProbeState { protocol: Some(actual), ..old(self)@ })
                &&& result == (if actual == protocol {
                    Ok(())
                } else {
                    Err(DebugProbeError::UnsupportedProtocol(protocol))
                })
            },
            selected matches Err(error) ==> {
                &&& final(self)@ == old(self)@
                &&& result == Err::<(), DebugProbeError>(error)
            },
    {
        match selected {
            Ok(actual) => {
                self.protocol = Some(actual);
                if actual == protocol {
                    Ok(())
                } else {
                    Err(DebugProbeError::UnsupportedProtocol(protocol))
                }
            },
            Err(error) => Err(error),
        }
    }

    /// Goes on with the selection of a protocol.
    pub fn resume_select_protocol(&mut self, selection: ProtocolSelection, reply: Reply) -> (step:
        Step<ProtocolSelection, ()>)
        requires
            selection.selection.accepts(reply@),
        ensures
            step@ == ProtocolSelection::passed_on(
                selection.requested,
                selection.selection.next(reply@),
            ),
            final(self)@ == ProtocolSelection::effect(
                old(self)@,
                selection.selection.next(reply@),
            ),
    {
        let requested = selection.requested;
        match selection.selection.resume(reply) {
            Step::Perform(command, selection) => Step::Perform(
                command,
                ProtocolSelection { requested, selection },
            ),
            Step::Finished(selected) => Step::Finished(
                self.finish_select_protocol(requested, selected),
            ),
        }
    }

    /// The name of this kind of probe.
    pub fn get_name(&self) -> (name: &'static str)
        ensures
            name@ == "J-Link"@,
    {
        "J-Link"
    }

    /// The speed of the target interface in kHz.
    pub fn speed(&self) -> (speed_khz: u32)
        ensures
            speed_khz == self@.speed_khz,
    {
        self.speed_khz
    }

    /// Starts setting the speed of the target interface.
    pub fn set_speed(&self, speed_khz: u32) -> (step: Step<SpeedChange, u32>)
        ensures
            step@ == SpeedChange::first(speed_khz),
            step matches Step::Perform(_, change) ==> change.wf(),
    {
        SpeedChange::start(speed_khz)
    }

    /// Goes on with setting the speed of the target interface.
    pub fn resume_set_speed(&mut self, change: SpeedChange, reply: Reply) -> (step: Step<
        SpeedChange,
        u32,
    >)
        requires
            change.wf(),
            change.accepts(reply@),
        ensures
            step@ == change.next(reply@),
            step matches Step::Perform(_, change) ==> change.wf(),
            step matches Step::Perform(command, SpeedChange::Applying(actual_khz)) ==> (
            command matches Command::SetSpeed(setting) && link::communication_speed(
                actual_khz as u16,
            ) == Some(setting)),
            final(self)@ == speed_effect(old(self)@, change.next(reply@)),
    {
        let step = change.resume(reply);
        if let Step::Finished(Ok(actual_khz)) = &step {
            self.speed_khz = *actual_khz;
        }
        step
    }

    /// Whether the probe supports `protocol`.
    fn supports(&self, protocol: WireProtocol) -> (supported: bool)
        ensures
            supported == self@.supports(protocol),
    {
        let mut index: usize = 0;
        while index < self.supported_protocols.len()
            invariant
                index <= self.supported_protocols.len(),
                forall|i: int| 0 <= i < index ==> self.supported_protocols@[i] != protocol,
            decreases self.supported_protocols.len() - index,
        {
            if self.supported_protocols[index] == protocol {
                return true;
            }
            index += 1;
        }
        false
    }

    /// Whether there is a protocol to attach with.
    pub fn can_attach(&self) -> (can_attach: bool)
        ensures
            can_attach == self@.attachable(),
    {
        self.protocol.is_some() || self.supported_protocols.len() > 0
    }

    /// Starts attaching to the target.
    pub fn attach(&self) -> (step: Step<Attach, ()>)
        requires
            self@.attachable(),
        ensures
            step@ == Attach::first(self@.configured_protocol()),
    {
        let configured_protocol = match self.protocol {
            Some(protocol) => protocol,
            None => {
                if self.supports(WireProtocol::Swd) {
                    WireProtocol::Swd
                } else {
                    self.supported_protocols[0]
                }
            },
        };
        Attach::after_selection(self.select_interface(Some(configured_protocol)))
    }

    /// Goes on with attaching to the target.
    pub fn resume_attach(&self, attach: Attach, reply: Reply) -> (step: Step<Attach, ()>)
        requires
            attach.accepts(reply@),
        ensures
            step@ == attach.next(self@.jtag_idle_cycles as nat, reply@),
    {
        match (attach, reply) {
            (Attach::Selecting(selection), reply) => Attach::after_selection(
                selection.resume(reply),
            ),
            (_, Reply::Failed(error)) => Step::Finished(Err(DebugProbeError::from(error))),
            (Attach::TargetVoltage, _) => Step::Perform(Command::ResetTrst, Attach::ResetTrst),
            (Attach::ResetTrst, _) => Step::Perform(jtag::reset_chain(), Attach::ResetChain),
            (Attach::ResetChain, _) => Step::Perform(
                jtag::scan_dr_read(IDCODE_BITS, self.jtag_idle_cycles),
                Attach::Idcode(DrScan { register_bits: IDCODE_BITS }),
            ),
            (Attach::Idcode(_), _) => Step::Finished(Ok(())),
            (Attach::SwitchToSwd, _) => Step::Finished(Ok(())),
        }
    }

    /// Resets the target. Probes of this kind cannot do that in one go.
    pub fn target_reset(&self) -> (result: Result<(), DebugProbeError>)
        ensures
            result matches Err(DebugProbeError::NotImplemented(operation)) && operation@
                == "target_reset"@,
    {
        Err(DebugProbeError::NotImplemented("target_reset"))
    }

    /// Starts pulling both reset lines low.
    pub fn target_reset_assert(&self) -> (step: Step<ResetChange, ()>)
        ensures
            step@ == ResetChange::first(false),
    {
        Step::Perform(Command::SetReset(false), ResetChange::Reset(false))
    }

    /// Starts releasing both reset lines.
    pub fn target_reset_deassert(&self) -> (step: Step<ResetChange, ()>)
        ensures
            step@ == ResetChange::first(true),
    {
        Step::Perform(Command::SetReset(true), ResetChange::Reset(true))
    }

    /// The memory interface of the probe itself, which it does not have.
    pub fn dedicated_memory_interface<M>(&self) -> (memory: Option<M>)
        ensures
            memory is None,
    {
        None
    }

    /// The probe as something to access the debug port with, which takes SWD.
    pub fn get_interface_dap(&self) -> (interface: Option<&JLink>)
        ensures
            interface == (if self@.supports(WireProtocol::Swd) {
                Some(self)
            } else {
                None
            }),
    {
        if self.supports(WireProtocol::Swd) {
            Some(self)
        } else {
            None
        }
    }

    /// The probe as something to access the debug port with, which takes SWD.
    pub fn get_interface_dap_mut(&mut self) -> (interface: Option<&mut JLink>)
        ensures
            old(self)@.supports(WireProtocol::Swd) ==> (interface matches Some(probe) && *probe
                == *old(self) && *final(self) == *final(probe)),
            !old(self)@.supports(WireProtocol::Swd) ==> interface is None && *final(self) == *old(
                self,
            ),
    {
        if self.supports(WireProtocol::Swd) {
            Some(self)
        } else {
            None
        }
    }

    /// The probe as something to access JTAG registers with.
    pub fn get_interface_jtag(&self) -> (interface: Option<&JLink>)
        ensures
            interface == (if self@.supports(WireProtocol::Jtag) {
                Some(self)
            } else {
                None
            }),
    {
        if self.supports(WireProtocol::Jtag) {
            Some(self)
        } else {
            None
        }
    }

    /// The probe as something to access JTAG registers with.
    pub fn get_interface_jtag_mut(&mut self) -> (interface: Option<&mut JLink>)
        ensures
            old(self)@.supports(WireProtocol::Jtag) ==> (interface matches Some(probe) && *probe
                == *old(self) && *final(self) == *final(probe)),
            !old(self)@.supports(WireProtocol::Jtag) ==> interface is None && *final(self) == *old(
                self,
            ),
    {
        if self.supports(WireProtocol::Jtag) {
            Some(self)
        } else {
            None
        }
    }
}

impl JTAGAccess for JLink {
    open spec fn idle_clocks(&self) -> nat {
        self@.jtag_idle_cycles as nat
    }

    fn read_register(&self, address: u32, len: u32) -> (step: Step<RegisterScan, Vec<u8>>)
        ensures
            step@ == RegisterScanView::first(
                self@,
                address,
                jtag::dr_read(len as nat, self@.jtag_idle_cycles as nat),
                DrScan { register_bits: len as usize },
            ),
    {
        let register_bits: usize = len as usize;
        let then = jtag::scan_dr_read(register_bits, self.jtag_idle_cycles);
        self.access_register(address, then, DrScan { register_bits })
    }

    fn write_register(&self, address: u32, data: &[u8], len: u32) -> (step: Step<
        RegisterScan,
        Vec<u8>,
    >)
        ensures
            step@ == RegisterScanView::first(
                self@,
                address,
                jtag::dr_write(data@, len as nat, self@.jtag_idle_cycles as nat),
                DrScan { register_bits: len as usize },
            ),
    {
        let register_bits: usize = len as usize;
        let then = jtag::scan_dr_write(data, register_bits, self.jtag_idle_cycles);
        self.access_register(address, then, DrScan { register_bits })
    }

    fn set_idle_cycles(&mut self, idle_cycles: u8)
        ensures
            final(self)@ == (ProbeState { jtag_idle_cycles: idle_cycles, ..old(self)@ }),
    {
        self.jtag_idle_cycles = idle_cycles;
    }
}

/// Where an access to a register, and the knowledge of the probe, are after the
/// probe has answered with `replies`, one after the other.
pub open spec fn register_run(
    probe: ProbeState,
    step: StepView<RegisterScanView, Seq<u8>>,
    replies: Seq<ReplyView>,
) -> (ProbeState, StepView<RegisterScanView, Seq<u8>>)
    decreases replies.len(),
{
    if replies.len() == 0 {
        (probe, step)
    } else {
        match step {
            StepView::Perform(_, access) => register_run(
                access.effect(probe, replies[0]),
                access.next(replies[0]),
                replies.skip(1),
            ),
            finished => (probe, finished),
        }
    }
}

/// Whatever the probe answers during an access to the register at `address`, the
/// driver forgets nothing but which register is selected. By the time that the
/// data register is scanned, and when the access has succeeded, it is `address`;
/// until then it is the one from before.
pub proof fn law_register_access(
    probe: ProbeState,
    address: u32,
    then: CommandView,
    scan: DrScan,
    replies: Seq<ReplyView>,
)
    ensures
        ({
            let (after, step) = register_run(
                probe,
                RegisterScanView::first(probe, address, then, scan),
                replies,
            );
            &&& after.current_ir_reg == probe.current_ir_reg || after.current_ir_reg == address
            &&& after == ProbeState { current_ir_reg: after.current_ir_reg, ..probe }
            &&& step matches StepView::Perform(command, RegisterScanView::Data(_)) ==> {
                &&& command == then
                &&& after.current_ir_reg == address
            }
            &&& step matches StepView::Finished(Ok(_)) ==> after.current_ir_reg == address
        }),
{
    let first = RegisterScanView::first(probe, address, then, scan);
    if replies.len() > 0 {
        let access = first->Perform_1;
        let probe1 = access.effect(probe, replies[0]);
        let step1 = access.next(replies[0]);
        assert(register_run(probe, first, replies) == register_run(
            probe1,
            step1,
            replies.skip(1),
        ));
        if replies.skip(1).len() > 0 {
            if let StepView::Perform(_, access1) = step1 {
                let reply = replies.skip(1)[0];
                let step2 = access1.next(reply);
                assert(register_run(probe1, step1, replies.skip(1)) == register_run(
                    access1.effect(probe1, reply),
                    step2,
                    replies.skip(1).skip(1),
                ));
                assert(register_run(probe1, step2, replies.skip(1).skip(1)) == (probe1, step2));
            }
        }
    }
}

/// An access to a register that is not selected is a write of the instruction
/// register and a scan, and gives what came out during the scan.
pub proof fn law_register_access_completes(
    probe: ProbeState,
    address: u32,
    then: CommandView,
    scan: DrScan,
    selected: Seq<bool>,
    response: ReplyView,
)
    requires
        probe.current_ir_reg != address,
    ensures
        register_run(
            probe,
            RegisterScanView::first(probe, address, then, scan),
            seq![ReplyView::Bits(selected), response],
        ) == (
            ProbeState { current_ir_reg: address, ..probe },
            StepView::<RegisterScanView, Seq<u8>>::Finished(scan.outcome(response)),
        ),
{
    let replies = seq![ReplyView::Bits(selected), response];
    let first = RegisterScanView::first(probe, address, then, scan);
    let probe1 = ProbeState { current_ir_reg: address, ..probe };
    let step1 = StepView::<RegisterScanView, Seq<u8>>::Perform(then, RegisterScanView::Data(scan));
    let step2 = StepView::<RegisterScanView, Seq<u8>>::Finished(scan.outcome(response));
    assert(replies.skip(1) =~= seq![response]);
    assert(replies.skip(1)[0] == response);
    assert(register_run(probe, first, replies) == register_run(probe1, step1, replies.skip(1)));
    assert(register_run(probe1, step1, replies.skip(1)) == register_run(
        probe1,
        step2,
        replies.skip(1).skip(1),
    ));
}

/// After an access has succeeded, the next one to the same register does without
/// selecting it.
pub proof fn law_selected_register_is_remembered(
    probe: ProbeState,
    address: u32,
    then: CommandView,
    scan: DrScan,
    replies: Seq<ReplyView>,
    again: CommandView,
    next_scan: DrScan,
)
    requires
        register_run(
            probe,
            RegisterScanView::first(probe, address, then, scan),
            replies,
        ).1 matches StepView::Finished(Ok(_)),
    ensures
        RegisterScanView::first(
            register_run(
                probe,
                RegisterScanView::first(probe, address, then, scan),
                replies,
            ).0,
            address,
            again,
            next_scan,
        ) == StepView::<RegisterScanView, Seq<u8>>::Perform(
            again,
            RegisterScanView::Data(next_scan),
        ),
{
    law_register_access(probe, address, then, scan, replies);
}

/// Where a selection of a protocol, and the knowledge of the probe, are after the
/// probe has answered with `replies`, one after the other.
pub open spec fn protocol_run(
    probe: ProbeState,
    state: ProtocolSelection,
    replies: Seq<ReplyView>,
) -> (ProbeState, StepView<ProtocolSelection, ()>)
    decreases replies.len(),
{
    if replies.len() == 0 {
        (probe, ProtocolSelection::passed_on(state.requested, state.selection.send()))
    } else {
        let step = state.selection.next(replies[0]);
        let probe = ProtocolSelection::effect(probe, step);
        match ProtocolSelection::passed_on(state.requested, step) {
            StepView::Perform(_, state) => protocol_run(probe, state, replies.skip(1)),
            finished => (probe, finished),
        }
    }
}

proof fn lemma_select_protocol(
    probe: ProbeState,
    selection: InterfaceSelection,
    protocol: WireProtocol,
    replies: Seq<ReplyView>,
)
    requires
        selection::selects(selection, protocol),
        selection.accepts_all(replies),
    ensures
        ({
            let (after, step) = protocol_run(
                probe,
                ProtocolSelection { requested: protocol, selection },
                replies,
            );
            if step matches StepView::Finished(Ok(_)) {
                after == (ProbeState { protocol: Some(protocol), ..probe })
            } else {
                after == probe
            }
        }),
    decreases replies.len(),
{
    if replies.len() > 0 {
        if let StepView::Perform(_, after) = selection.next(replies[0]) {
            lemma_select_protocol(probe, after, protocol, replies.skip(1));
        }
    }
}

/// A selection of a protocol that succeeds has selected that protocol; one that
/// fails, or is not over yet, has changed nothing.
pub proof fn law_select_protocol(
    probe: ProbeState,
    protocol: WireProtocol,
    replies: Seq<ReplyView>,
)
    requires
        InterfaceSelection::Capabilities(Some(protocol)).accepts_all(replies),
    ensures
        ({
            let (after, step) = protocol_run(
                probe,
                ProtocolSelection {
                    requested: protocol,
                    selection: InterfaceSelection::Capabilities(Some(protocol)),
                },
                replies,
            );
            if step matches StepView::Finished(Ok(_)) {
                after == (ProbeState { protocol: Some(protocol), ..probe })
            } else {
                after == probe
            }
        }),
{
    lemma_select_protocol(
        probe,
        InterfaceSelection::Capabilities(Some(protocol)),
        protocol,
        replies,
    );
}

/// Where a change of the speed, and the knowledge of the probe, are after the
/// probe has answered with `replies`, one after the other.
pub open spec fn speed_run(
    probe: ProbeState,
    step: StepView<SpeedChange, u32>,
    replies: Seq<ReplyView>,
) -> (ProbeState, StepView<SpeedChange, u32>)
    decreases replies.len(),
{
    if replies.len() == 0 {
        (probe, step)
    } else {
        match step {
            StepView::Perform(_, change) => {
                let step = change.next(replies[0]);
                speed_run(speed_effect(probe, step), step, replies.skip(1))
            },
            finished => (probe, finished),
        }
    }
}

/// Whether each of `replies` can be an answer to the command that a change of the
/// speed has sent by then.
pub open spec fn speed_accepts_all(
    step: StepView<SpeedChange, u32>,
    replies: Seq<ReplyView>,
) -> bool
    decreases replies.len(),
{
    replies.len() > 0 ==> (step matches StepView::Perform(_, change) ==> {
        &&& change.accepts(replies[0])
        &&& speed_accepts_all(change.next(replies[0]), replies.skip(1))
    })
}

/// A change to `speed_khz` that succeeds gives the speed that the probe was set
/// to, which is at most the one that was asked for, and from then on it is the
/// speed of the probe; one that fails, or is not over yet, has changed nothing.
pub proof fn law_set_speed(probe: ProbeState, speed_khz: u32, replies: Seq<ReplyView>)
    requires
        speed_accepts_all(SpeedChange::first(speed_khz), replies),
    ensures
        ({
            let (after, step) = speed_run(probe, SpeedChange::first(speed_khz), replies);
            match step {
                StepView::Finished(Ok(actual_khz)) => {
                    &&& after == ProbeState { speed_khz: actual_khz, ..probe }
                    &&& actual_khz <= speed_khz
                },
                _ => after == probe,
            }
        }),
{
    let first = SpeedChange::first(speed_khz);
    if speed::speed_in_range(speed_khz) && replies.len() > 0 {
        let change = SpeedChange::Speeds(speed_khz);
        if let ReplyView::Speeds(speeds) = replies[0] {
            speed::law_speed_not_exceeded(speeds, speed_khz);
        }
        let step1 = change.next(replies[0]);
        let rest = replies.skip(1);
        assert(speed_run(probe, first, replies) == speed_run(probe, step1, rest));
        if rest.len() > 0 {
            let applying = step1->Perform_1;
            let step2 = applying.next(rest[0]);
            assert(speed_accepts_all(step1, rest));
            assert(applying.accepts(rest[0]));
            assert(speed_run(speed_effect(probe, step2), step2, rest.skip(1)) == (
                speed_effect(probe, step2),
                step2,
            ));
            assert(speed_run(probe, step1, rest) == speed_run(
                speed_effect(probe, step2),
                step2,
                rest.skip(1),
            ));
        }
    }
}

/// Where an attempt to attach is after the probe has answered with `replies`, one
/// after the other.
pub open spec fn attach_run(
    step: StepView<Attach, ()>,
    idle: nat,
    replies: Seq<ReplyView>,
) -> StepView<Attach, ()>
    decreases replies.len(),
{
    if replies.len() == 0 {
        step
    } else {
        match step {
            StepView::Perform(_, attach) => attach_run(
                attach.next(idle, replies[0]),
                idle,
                replies.skip(1),
            ),
            finished => finished,
        }
    }
}

/// Whether each of `replies` can be an answer to the command that an attempt to
/// attach has sent by then.
pub open spec fn attach_accepts_all(
    step: StepView<Attach, ()>,
    idle: nat,
    replies: Seq<ReplyView>,
) -> bool
    decreases replies.len(),
{
    replies.len() > 0 ==> (step matches StepView::Perform(_, attach) ==> {
        &&& attach.accepts(replies[0])
        &&& attach_accepts_all(attach.next(idle, replies[0]), idle, replies.skip(1))
    })
}

/// Whether `step` belongs to an attempt to attach with `protocol`: it is over, or
/// it waits for something that such an attempt asks for, and transfers nothing
/// over the other protocol.
pub open spec fn attaches_with(step: StepView<Attach, ()>, protocol: WireProtocol) -> bool {
    match step {
        StepView::Perform(command, attach) => {
            &&& command is JtagIo ==> protocol == WireProtocol::Jtag
            &&& command is SwdIo ==> protocol == WireProtocol::Swd
            &&& match attach {
                Attach::Selecting(selection) => selection::selects(selection, protocol),
                Attach::SwitchToSwd => protocol == WireProtocol::Swd,
                _ => protocol == WireProtocol::Jtag,
            }
        },
        StepView::Finished(_) => true,
    }
}

proof fn lemma_attach_keeps_protocol(
    step: StepView<Attach, ()>,
    protocol: WireProtocol,
    idle: nat,
    replies: Seq<ReplyView>,
)
    requires
        attaches_with(step, protocol),
        attach_accepts_all(step, idle, replies),
    ensures
        attaches_with(attach_run(step, idle, replies), protocol),
    decreases replies.len(),
{
    if replies.len() > 0 {
        if let StepView::Perform(_, attach) = step {
            lemma_attach_keeps_protocol(
                attach.next(idle, replies[0]),
                protocol,
                idle,
                replies.skip(1),
            );
        }
    }
}

/// An attempt to attach with one protocol never transfers anything over the other
/// one.
pub proof fn law_attach_keeps_protocol(
    protocol: WireProtocol,
    idle: nat,
    replies: Seq<ReplyView>,
)
    requires
        attach_accepts_all(Attach::first(protocol), idle, replies),
    ensures
        attaches_with(attach_run(Attach::first(protocol), idle, replies), protocol),
{
    lemma_attach_keeps_protocol(Attach::first(protocol), protocol, idle, replies);
}

/// Once JTAG is selected, the voltage is read, the TAP controller is reset through
/// its reset line and then through TMS, and last the identification is read. Then
/// the driver is attached.
pub proof fn law_attach_over_jtag(
    idle: nat,
    millivolts: u16,
    during_reset: Seq<bool>,
    idcode: Seq<bool>,
)
    ensures
        Attach::selected(StepView::Finished(Ok(WireProtocol::Jtag))) == StepView::<
            Attach,
            (),
        >::Perform(CommandView::ReadTargetVoltage, Attach::TargetVoltage),
        Attach::TargetVoltage.next(idle, ReplyView::TargetVoltage(millivolts)) == StepView::<
            Attach,
            (),
        >::Perform(CommandView::ResetTrst, Attach::ResetTrst),
        Attach::ResetTrst.next(idle, ReplyView::Done) == StepView::<Attach, ()>::Perform(
            jtag::chain_reset(),
            Attach::ResetChain,
        ),
        Attach::ResetChain.next(idle, ReplyView::Bits(during_reset)) == StepView::<
            Attach,
            (),
        >::Perform(
            jtag::dr_read(32, idle),
            Attach::Idcode(DrScan { register_bits: 32 }),
        ),
        Attach::Idcode(DrScan { register_bits: 32 }).next(idle, ReplyView::Bits(idcode))
            == StepView::<Attach, ()>::Finished(Ok(())),
{
}

/// Once SWD is selected, the target is switched to SWD, and then the driver is
/// attached.
pub proof fn law_attach_over_swd(idle: nat, during_switch: Seq<bool>)
    ensures
        Attach::selected(StepView::Finished(Ok(WireProtocol::Swd))) == StepView::<
            Attach,
            (),
        >::Perform(
            CommandView::SwdIo { direction: swd::init_direction(), swdio: swd::init_swdio() },
            Attach::SwitchToSwd,
        ),
        Attach::SwitchToSwd.next(idle, ReplyView::Bits(during_switch)) == StepView::<
            Attach,
            (),
        >::Finished(Ok(())),
{
}

/// A probe without a selected protocol attaches with SWD if it supports SWD, and
/// in any case with a protocol that it supports.
pub proof fn law_default_protocol_is_supported(probe: ProbeState)
    requires
        probe.attachable(),
        probe.protocol is None,
    ensures
        probe.supports(probe.configured_protocol()),
        probe.supports(WireProtocol::Swd) ==> probe.configured_protocol() == WireProtocol::Swd,
{
}

/// Both reset lines are set to the same level, that of the target first.
pub proof fn law_reset_lines(level: bool)
    ensures
        ResetChange::first(level) == StepView::<ResetChange, ()>::Perform(
            CommandView::SetReset(level),
            ResetChange::Reset(level),
        ),
        ResetChange::Reset(level).next(ReplyView::Done) == StepView::<ResetChange, ()>::Perform(
            CommandView::SetTrst(level),
            ResetChange::Trst(level),
        ),
        ResetChange::Trst(level).next(ReplyView::Done) == StepView::<ResetChange, ()>::Finished(
            Ok(()),
        ),
{
}

/// One more reply before the others.
proof fn lemma_attach_run_first(
    command: CommandView,
    attach: Attach,
    idle: nat,
    reply: ReplyView,
    rest: Seq<ReplyView>,
)
    ensures
        attach_run(StepView::Perform(command, attach), idle, seq![reply] + rest) == attach_run(
            attach.next(idle, reply),
            idle,
            rest,
        ),
{
    assert((seq![reply] + rest)[0] == reply);
    assert((seq![reply] + rest).skip(1) =~= rest);
}

/// A single reply.
proof fn lemma_attach_run_last(command: CommandView, attach: Attach, idle: nat, reply: ReplyView)
    ensures
        attach_run(StepView::Perform(command, attach), idle, seq![reply]) == attach.next(
            idle,
            reply,
        ),
{
    let none = Seq::<ReplyView>::empty();
    assert(seq![reply] + none =~= seq![reply]);
    lemma_attach_run_first(command, attach, idle, reply, none);
}

/// The replies of a probe that can switch between interfaces and has `interfaces`,
/// while one of them is selected, and then `rest`.
pub open spec fn selecting_replies(
    interfaces: Seq<TargetInterface>,
    rest: Seq<ReplyView>,
) -> Seq<ReplyView> {
    seq![ReplyView::Capabilities { select_if: true }] + (seq![ReplyView::Interfaces(interfaces)] + (
    seq![ReplyView::Done] + rest))
}

/// A probe that has the interface of `protocol` gets past the selection.
pub proof fn law_attach_selects(
    protocol: WireProtocol,
    idle: nat,
    interfaces: Seq<TargetInterface>,
    rest: Seq<ReplyView>,
)
    requires
        interfaces.contains(protocol::interface_of(protocol)),
    ensures
        attach_run(Attach::first(protocol), idle, selecting_replies(interfaces, rest))
            == attach_run(Attach::selected(StepView::Finished(Ok(protocol))), idle, rest),
{
    let capabilities = InterfaceSelection::Capabilities(Some(protocol));
    let available = InterfaceSelection::Available(protocol);
    let selecting = InterfaceSelection::Selecting(protocol);
    let last = seq![ReplyView::Done] + rest;
    let middle = seq![ReplyView::Interfaces(interfaces)] + last;
    lemma_attach_run_first(
        capabilities.command(),
        Attach::Selecting(capabilities),
        idle,
        ReplyView::Capabilities { select_if: true },
        middle,
    );
    lemma_attach_run_first(
        available.command(),
        Attach::Selecting(available),
        idle,
        ReplyView::Interfaces(interfaces),
        last,
    );
    lemma_attach_run_first(
        selecting.command(),
        Attach::Selecting(selecting),
        idle,
        ReplyView::Done,
        rest,
    );
}

/// Attaching with SWD succeeds if the probe has an SWD interface and nothing
/// fails.
pub proof fn law_attach_with_swd_succeeds(
    idle: nat,
    interfaces: Seq<TargetInterface>,
    during_switch: Seq<bool>,
)
    requires
        interfaces.contains(TargetInterface::Swd),
    ensures
        attach_run(
            Attach::first(WireProtocol::Swd),
            idle,
            selecting_replies(interfaces, seq![ReplyView::Bits(during_switch)]),
        ) == StepView::<Attach, ()>::Finished(Ok(())),
{
    let rest = seq![ReplyView::Bits(during_switch)];
    law_attach_selects(WireProtocol::Swd, idle, interfaces, rest);
    lemma_attach_run_last(
        CommandView::SwdIo { direction: swd::init_direction(), swdio: swd::init_swdio() },
        Attach::SwitchToSwd,
        idle,
        ReplyView::Bits(during_switch),
    );
}

/// The replies while a probe attaches over its JTAG interface and nothing fails.
pub open spec fn jtag_replies(
    millivolts: u16,
    during_reset: Seq<bool>,
    idcode: Seq<bool>,
) -> Seq<ReplyView> {
    seq![ReplyView::TargetVoltage(millivolts)] + (seq![ReplyView::Done] + (seq![
        ReplyView::Bits(during_reset),
    ] + seq![ReplyView::Bits(idcode)]))
}

/// A probe whose JTAG interface is selected attaches if nothing fails.
proof fn lemma_attach_over_jtag(
    idle: nat,
    millivolts: u16,
    during_reset: Seq<bool>,
    idcode: Seq<bool>,
)
    ensures
        attach_run(
            Attach::selected(StepView::Finished(Ok(WireProtocol::Jtag))),
            idle,
            jtag_replies(millivolts, during_reset, idcode),
        ) == StepView::<Attach, ()>::Finished(Ok(())),
{
    let last = seq![ReplyView::Bits(idcode)];
    let third = seq![ReplyView::Bits(during_reset)] + last;
    let second = seq![ReplyView::Done] + third;
    lemma_attach_run_first(
        CommandView::ReadTargetVoltage,
        Attach::TargetVoltage,
        idle,
        ReplyView::TargetVoltage(millivolts),
        second,
    );
    lemma_attach_run_first(
        CommandView::ResetTrst,
        Attach::ResetTrst,
        idle,
        ReplyView::Done,
        third,
    );
    lemma_attach_run_first(
        jtag::chain_reset(),
        Attach::ResetChain,
        idle,
        ReplyView::Bits(during_reset),
        last,
    );
    lemma_attach_run_last(
        jtag::dr_read(IDCODE_BITS as nat, idle),
        Attach::Idcode(DrScan { register_bits: IDCODE_BITS }),
        idle,
        ReplyView::Bits(idcode),
    );
}

/// Attaching with JTAG succeeds if the probe has a JTAG interface and nothing
/// fails.
pub proof fn law_attach_with_jtag_succeeds(
    idle: nat,
    interfaces: Seq<TargetInterface>,
    millivolts: u16,
    during_reset: Seq<bool>,
    idcode: Seq<bool>,
)
    requires
        interfaces.contains(TargetInterface::Jtag),
    ensures
        attach_run(
            Attach::first(WireProtocol::Jtag),
            idle,
            selecting_replies(interfaces, jtag_replies(millivolts, during_reset, idcode)),
        ) == StepView::<Attach, ()>::Finished(Ok(())),
{
    law_attach_selects(
        WireProtocol::Jtag,
        idle,
        interfaces,
        jtag_replies(millivolts, during_reset, idcode),
    );
    lemma_attach_over_jtag(idle, millivolts, during_reset, idcode);
}

/// Attaching with JTAG also succeeds with a probe that cannot switch between
/// interfaces, if nothing fails.
pub proof fn law_attach_to_fixed_interface_succeeds(
    idle: nat,
    millivolts: u16,
    during_reset: Seq<bool>,
    idcode: Seq<bool>,
)
    ensures
        attach_run(
            Attach::first(WireProtocol::Jtag),
            idle,
            seq![ReplyView::Capabilities { select_if: false }] + jtag_replies(
                millivolts,
                during_reset,
                idcode,
            ),
        ) == StepView::<Attach, ()>::Finished(Ok(())),
{
    let capabilities = InterfaceSelection::Capabilities(Some(WireProtocol::Jtag));
    lemma_attach_run_first(
        capabilities.command(),
        Attach::Selecting(capabilities),
        idle,
        ReplyView::Capabilities { select_if: false },
        jtag_replies(millivolts, during_reset, idcode),
    );
    lemma_attach_over_jtag(idle, millivolts, during_reset, idcode);
}

/// A scan of a register gives all the bits that came out of it: bit `i` of the
/// register is in byte `i / 8` at place `i % 8`. There is no byte too many, and the
/// places that are left over are zero.
pub proof fn law_scan_gives_contents(scan: DrScan, response: Seq<bool>, i: int)
    requires
        response.len() >= 3 + scan.register_bits,
    ensures
        scan.accepts(ReplyView::Bits(response)),
        scan.outcome(ReplyView::Bits(response)) matches Ok(bytes) && {
            &&& bytes.len() == (scan.register_bits + 7) / 8
            &&& 0 <= i < scan.register_bits ==> ((bytes[i / 8] >> ((i % 8) as u8)) & 1 == 1)
                == response[3 + i]
            &&& scan.register_bits <= i < 8 * bytes.len() ==> (bytes[i / 8] >> ((i % 8) as u8)) & 1
                != 1
        },
{
    jtag::law_contents(response, scan.register_bits as nat, i);
}

/// A write of the instruction register succeeds with any response, and the driver
/// then remembers what was written. If the probe fails, so does the write, and
/// nothing is remembered.
pub proof fn law_instruction_is_remembered(
    write: IrWrite,
    probe: ProbeState,
    response: Seq<bool>,
    error: jaylink::Error,
)
    ensures
        write.accepts(ReplyView::Bits(response)),
        write.outcome(ReplyView::Bits(response)) == Ok::<(), DebugProbeError>(()),
        write.effect(probe, ReplyView::Bits(response)) == (ProbeState {
            current_ir_reg: write.instruction,
            ..probe
        }),
        write.accepts(ReplyView::Failed(error)),
        write.outcome(ReplyView::Failed(error)) == Err::<(), DebugProbeError>(
            DebugProbeError::ProbeSpecific(error),
        ),
        write.effect(probe, ReplyView::Failed(error)) == probe,
{
}

/// An access to the register that is selected scans it at once. An access to
/// another one selects that first: the instruction register takes in the five bits
/// of its address, and the data register takes in nothing.
pub proof fn law_register_is_selected(
    probe: ProbeState,
    address: u32,
    then: CommandView,
    scan: DrScan,
)
    requires
        address <= 0x1f,
    ensures
        probe.current_ir_reg == address ==> RegisterScanView::first(probe, address, then, scan)
            == StepView::<RegisterScanView, Seq<u8>>::Perform(then, RegisterScanView::Data(scan)),
        probe.current_ir_reg != address ==> (RegisterScanView::first(
            probe,
            address,
            then,
            scan,
        ) matches StepView::Perform(command, access) && {
            let idle = TapState::RunTestIdle;
            let taken = jtag::shifted_in(idle, TapState::ShiftIr, command->tms, command->tdi);
            &&& command is JtagIo
            &&& command->tms.len() == 11
            &&& command->tdi.len() == 11
            &&& jtag::tap_run(idle, command->tms) == idle
            &&& taken.len() == 5
            &&& bits::bits_value(taken) == address
            &&& jtag::shifted_in(idle, TapState::ShiftDr, command->tms, command->tdi) == Seq::<
                bool,
            >::empty()
            &&& command == jtag::ir_write(seq![address as u8], 5)
            &&& access == (RegisterScanView::Instruction {
                write: IrWrite { instruction: address },
                then,
                scan,
            })
        }),
{
    jtag::law_ir_write_command(seq![address as u8], 5);
    jtag::law_address_reaches_ir(address);
}

/// Each step of an access. Once the register is selected it is scanned, and with the
/// scan the access is over; a failure of the probe ends it at either point. Only a
/// register that was selected is remembered.
pub proof fn law_register_steps(
    probe: ProbeState,
    write: IrWrite,
    then: CommandView,
    scan: DrScan,
    reply: ReplyView,
    response: Seq<bool>,
    error: jaylink::Error,
)
    ensures
        ({
            let selecting = RegisterScanView::Instruction { write, then, scan };
            &&& selecting.accepts(ReplyView::Bits(response))
            &&& selecting.next(ReplyView::Bits(response)) == StepView::<
                RegisterScanView,
                Seq<u8>,
            >::Perform(then, RegisterScanView::Data(scan))
            &&& selecting.effect(probe, ReplyView::Bits(response)) == ProbeState {
                current_ir_reg: write.instruction,
                ..probe
            }
            &&& selecting.accepts(ReplyView::Failed(error))
            &&& selecting.next(ReplyView::Failed(error)) == StepView::<
                RegisterScanView,
                Seq<u8>,
            >::Finished(Err(DebugProbeError::ProbeSpecific(error)))
            &&& selecting.effect(probe, ReplyView::Failed(error)) == probe
        }),
        RegisterScanView::Data(scan).accepts(reply) == scan.accepts(reply),
        RegisterScanView::Data(scan).next(reply) == StepView::<
            RegisterScanView,
            Seq<u8>,
        >::Finished(scan.outcome(reply)),
        RegisterScanView::Data(scan).effect(probe, reply) == probe,
        scan.accepts(ReplyView::Failed(error)),
        scan.outcome(ReplyView::Failed(error)) == Err::<Seq<u8>, DebugProbeError>(
            DebugProbeError::ProbeSpecific(error),
        ),
{
}

/// An access to a register that nothing goes wrong with gives all of its bits,
/// whether it had to be selected or not: `scanned` is the response to the scan, and
/// bit `i` of the register came out on clock `3 + i`. From then on the register is
/// the one that is selected.
pub proof fn law_register_access_gives_contents(
    probe: ProbeState,
    address: u32,
    then: CommandView,
    len: u32,
    selected: Seq<bool>,
    scanned: Seq<bool>,
    i: int,
)
    requires
        scanned.len() >= 3 + len,
    ensures
        ({
            let (after, step) = register_run(
                probe,
                RegisterScanView::first(
                    probe,
                    address,
                    then,
                    DrScan { register_bits: len as usize },
                ),
                if probe.current_ir_reg == address {
                    seq![ReplyView::Bits(scanned)]
                } else {
                    seq![ReplyView::Bits(selected), ReplyView::Bits(scanned)]
                },
            );
            &&& after == ProbeState { current_ir_reg: address, ..probe }
            &&& step matches StepView::Finished(Ok(bytes)) && {
                &&& bytes.len() == (len + 7) / 8
                &&& 0 <= i < len ==> ((bytes[i / 8] >> ((i % 8) as u8)) & 1 == 1) == scanned[3 + i]
                &&& len <= i < 8 * bytes.len() ==> (bytes[i / 8] >> ((i % 8) as u8)) & 1 != 1
            }
        }),
{
    let scan = DrScan { register_bits: len as usize };
    let response = ReplyView::Bits(scanned);
    law_scan_gives_contents(scan, scanned, i);
    if probe.current_ir_reg == address {
        let replies = seq![response];
        let first = RegisterScanView::first(probe, address, then, scan);
        let last = StepView::<RegisterScanView, Seq<u8>>::Finished(scan.outcome(response));
        assert(replies[0] == response);
        assert(replies.skip(1).len() == 0);
        assert(register_run(probe, last, replies.skip(1)) == (probe, last));
        assert(register_run(probe, first, replies) == (probe, last));
        assert(probe == ProbeState { current_ir_reg: address, ..probe });
    } else {
        law_register_access_completes(probe, address, then, scan, selected, response);
    }
}

/// Whatever the probe answers while its speed is changed: when it has been told a
/// speed, it is the speed that the change will report, and not above the one that
/// was asked for.
pub proof fn law_speed_setting(probe: ProbeState, speed_khz: u32, replies: Seq<ReplyView>)
    requires
        speed_accepts_all(SpeedChange::first(speed_khz), replies),
    ensures
        speed_run(probe, SpeedChange::first(speed_khz), replies).1 matches StepView::Perform(
            command,
            SpeedChange::Applying(actual_khz),
        ) ==> {
            &&& actual_khz <= speed_khz < 0xffff
            &&& command == CommandView::SetSpeed(link::communication_speed(actual_khz as u16)->0)
            &&& link::communication_speed(actual_khz as u16) matches Some(setting) ==> command
                == CommandView::SetSpeed(setting)
        },
        speed_run(probe, SpeedChange::first(speed_khz), replies).1 matches StepView::Perform(
            command,
            SpeedChange::Speeds(asked_khz),
        ) ==> asked_khz == speed_khz && command == CommandView::ReadSpeeds,
{
    let first = SpeedChange::first(speed_khz);
    if speed::speed_in_range(speed_khz) && replies.len() > 0 {
        let change = SpeedChange::Speeds(speed_khz);
        if let ReplyView::Speeds(speeds) = replies[0] {
            speed::law_speed_not_exceeded(speeds, speed_khz);
        }
        let step1 = change.next(replies[0]);
        let rest = replies.skip(1);
        assert(speed_run(probe, first, replies) == speed_run(probe, step1, rest));
        if rest.len() > 0 {
            let applying = step1->Perform_1;
            let step2 = applying.next(rest[0]);
            assert(speed_accepts_all(step1, rest));
            assert(applying.accepts(rest[0]));
            assert(speed_run(probe, step1, rest) == speed_run(
                speed_effect(probe, step2),
                step2,
                rest.skip(1),
            ));
        }
    }
}

/// A change of the speed to which the probe answers as asked succeeds, with the
/// speed that the probe was told, and that is then the speed of the probe. A probe
/// that does not tell its clock is told the speed that was asked for.
pub proof fn law_set_speed_succeeds(
    probe: ProbeState,
    speed_khz: u32,
    clock: ReplyView,
    error: jaylink::Error,
)
    requires
        1 <= speed_khz <= 65534,
        SpeedChange::Speeds(speed_khz).accepts(clock),
    ensures
        speed_run(probe, SpeedChange::first(speed_khz), seq![clock]).1 matches StepView::Perform(
            command,
            SpeedChange::Applying(actual_khz),
        ) && {
            &&& command == CommandView::SetSpeed(link::communication_speed(actual_khz as u16)->0)
            &&& clock is Failed ==> actual_khz == speed_khz
            &&& speed_run(
                probe,
                SpeedChange::first(speed_khz),
                seq![clock, ReplyView::Done],
            ) == (
                ProbeState { speed_khz: actual_khz, ..probe },
                StepView::<SpeedChange, u32>::Finished(Ok(actual_khz)),
            )
            &&& speed_run(
                probe,
                SpeedChange::first(speed_khz),
                seq![clock, ReplyView::Failed(error)],
            ) == (
                probe,
                StepView::<SpeedChange, u32>::Finished(
                    Err(DebugProbeError::ProbeSpecific(error)),
                ),
            )
        },
{
    let first = SpeedChange::first(speed_khz);
    let step1 = SpeedChange::Speeds(speed_khz).next(clock);
    let applying = step1->Perform_1;
    assert(seq![clock][0] == clock);
    assert(speed_run(probe, first, seq![clock]) == speed_run(probe, step1, seq![clock].skip(1)));
    let done = seq![clock, ReplyView::Done];
    let failed = seq![clock, ReplyView::Failed(error)];
    assert(done[0] == clock && failed[0] == clock);
    assert(done.skip(1) =~= seq![ReplyView::Done]);
    assert(failed.skip(1) =~= seq![ReplyView::Failed(error)]);
    let step2 = applying.next(ReplyView::Done);
    let step3 = applying.next(ReplyView::Failed(error));
    assert(speed_run(probe, first, done) == speed_run(probe, step1, done.skip(1)));
    assert(speed_run(probe, first, failed) == speed_run(probe, step1, failed.skip(1)));
    assert(done.skip(1)[0] == ReplyView::Done);
    assert(failed.skip(1)[0] == ReplyView::Failed(error));
    assert(speed_run(probe, step1, done.skip(1)) == speed_run(
        speed_effect(probe, step2),
        step2,
        done.skip(1).skip(1),
    ));
    assert(speed_run(probe, step1, failed.skip(1)) == speed_run(
        speed_effect(probe, step3),
        step3,
        failed.skip(1).skip(1),
    ));
}

/// What a change of the speed leaves behind: the speed that it reports once it has
/// succeeded, and nothing before or if it fails.
pub proof fn law_speed_is_remembered(
    probe: ProbeState,
    actual_khz: u32,
    error: DebugProbeError,
    command: CommandView,
    change: SpeedChange,
)
    ensures
        speed_effect(probe, StepView::Finished(Ok(actual_khz))) == (ProbeState {
            speed_khz: actual_khz,
            ..probe
        }),
        speed_effect(probe, StepView::Finished(Err(error))) == probe,
        speed_effect(probe, StepView::Perform(command, change)) == probe,
{
}

/// The protocol to attach with is the one that was selected, whatever the probe
/// supports. If none was, it is SWD if that is among the protocols of the probe, and
/// the first of them otherwise. There has to be one.
pub proof fn law_protocol_to_attach_with(probe: ProbeState, protocol: WireProtocol)
    ensures
        probe.protocol == Some(protocol) ==> probe.configured_protocol() == protocol,
        probe.protocol is None && probe.supported_protocols.contains(WireProtocol::Swd)
            ==> probe.configured_protocol() == WireProtocol::Swd,
        probe.protocol is None && !probe.supported_protocols.contains(WireProtocol::Swd)
            ==> probe.configured_protocol() == probe.supported_protocols[0],
        probe.attachable() <==> probe.protocol is Some || probe.supported_protocols.len() > 0,
        probe.supports(protocol) <==> exists|i: int|
            0 <= i < probe.supported_protocols.len() && #[trigger] probe.supported_protocols[i]
                == protocol,
{
}

/// Attaching starts with the selection of the interface, and goes on as that does.
/// When the selection is over, the voltage is read for JTAG, and the target is
/// switched for SWD. If it fails, attaching fails with the same error.
pub proof fn law_attach_goes_through_selection(
    protocol: WireProtocol,
    selection: InterfaceSelection,
    idle: nat,
    reply: ReplyView,
)
    ensures
        Attach::first(protocol) == StepView::<Attach, ()>::Perform(
            CommandView::ReadCapabilities,
            Attach::Selecting(InterfaceSelection::Capabilities(Some(protocol))),
        ),
        Attach::Selecting(selection).accepts(reply) == selection.accepts(reply),
        match selection.next(reply) {
            StepView::Perform(command, after) => Attach::Selecting(selection).next(idle, reply)
                == StepView::<Attach, ()>::Perform(command, Attach::Selecting(after)),
            StepView::Finished(Ok(WireProtocol::Jtag)) => Attach::Selecting(selection).next(
                idle,
                reply,
            ) == StepView::<Attach, ()>::Perform(
                CommandView::ReadTargetVoltage,
                Attach::TargetVoltage,
            ),
            StepView::Finished(Ok(WireProtocol::Swd)) => Attach::Selecting(selection).next(
                idle,
                reply,
            ) == StepView::<Attach, ()>::Perform(
                CommandView::SwdIo { direction: swd::init_direction(), swdio: swd::init_swdio() },
                Attach::SwitchToSwd,
            ),
            StepView::Finished(Err(error)) => Attach::Selecting(selection).next(idle, reply)
                == StepView::<Attach, ()>::Finished(Err(error)),
        },
{
}

/// A failure of the probe ends an attempt to attach with that failure.
pub proof fn law_attach_fails(attach: Attach, idle: nat, error: jaylink::Error)
    ensures
        attach.accepts(ReplyView::Failed(error)),
        attach.next(idle, ReplyView::Failed(error)) == StepView::<Attach, ()>::Finished(
            Err(DebugProbeError::ProbeSpecific(error)),
        ),
{
}

/// An attempt to attach can go on with every answer to what it has asked for.
pub proof fn law_attach_goes_on(millivolts: u16, response: Seq<bool>)
    ensures
        Attach::TargetVoltage.accepts(ReplyView::TargetVoltage(millivolts)),
        Attach::ResetTrst.accepts(ReplyView::Done),
        Attach::ResetChain.accepts(ReplyView::Bits(response)),
        response.len() >= 35 ==> Attach::Idcode(DrScan { register_bits: 32 }).accepts(
            ReplyView::Bits(response),
        ),
        Attach::SwitchToSwd.accepts(ReplyView::Bits(response)),
{
}

/// What an attempt to attach sends once the interface is selected. For SWD it is the
/// line reset, the code that switches from JTAG to SWD, another line reset and idle
/// bits. For JTAG it is a reset of the TAP controller, which leaves it idle whatever
/// state it was in, and then a scan that takes 32 bits out of the data register.
pub proof fn law_attach_sends(idle: nat, state: TapState, voltage: ReplyView, response: Seq<bool>)
    ensures
        Attach::selected(StepView::Finished(Ok(WireProtocol::Swd))) matches StepView::Perform(
            command,
            Attach::SwitchToSwd,
        ) && {
            &&& command is SwdIo
            &&& command->swdio.len() == 154
            &&& command->direction.len() == 154
            &&& forall|i: int| 0 <= i < 154 ==> #[trigger] command->direction[i]
            &&& forall|i: int| 0 <= i < 64 || 80 <= i < 144 ==> #[trigger] command->swdio[i]
            &&& bits::bits_value(command->swdio.subrange(64, 80)) == 0xE79E
            &&& forall|i: int| 144 <= i < 154 ==> !#[trigger] command->swdio[i]
        },
        Attach::ResetTrst.next(idle, ReplyView::Done) matches StepView::Perform(
            command,
            Attach::ResetChain,
        ) && {
            &&& command is JtagIo
            &&& command->tms == seq![true, true, true, true, true, false]
            &&& command->tdi == seq![false, false, false, false, false, false]
            &&& jtag::tap_run(state, command->tms) == TapState::RunTestIdle
        },
        Attach::ResetChain.next(idle, ReplyView::Bits(response)) matches StepView::Perform(
            command,
            Attach::Idcode(scan),
        ) && {
            &&& scan.register_bits == 32
            &&& command is JtagIo
            &&& command->tms.len() == 37 + idle
            &&& command->tdi.len() == 37 + idle
            &&& jtag::tap_run(TapState::RunTestIdle, command->tms) == TapState::RunTestIdle
            &&& jtag::shifted_in(
                TapState::RunTestIdle,
                TapState::ShiftDr,
                command->tms,
                command->tdi,
            ).len() == 32
        },
        !(voltage is Failed) ==> Attach::TargetVoltage.next(idle, voltage) == StepView::<
            Attach,
            (),
        >::Perform(CommandView::ResetTrst, Attach::ResetTrst),
{
    swd::law_init_line();
    jtag::law_reset_command(state);
    jtag::law_dr_read_command(32, idle);
}

/// A protocol that the probe refuses cannot be attached with: SWD with a probe that
/// cannot switch between interfaces, and any protocol whose interface is missing.
pub proof fn law_attach_is_refused(
    protocol: WireProtocol,
    idle: nat,
    interfaces: Seq<TargetInterface>,
)
    requires
        !interfaces.contains(protocol::interface_of(protocol)),
    ensures
        attach_run(
            Attach::first(WireProtocol::Swd),
            idle,
            seq![ReplyView::Capabilities { select_if: false }],
        ) == StepView::<Attach, ()>::Finished(
            Err(DebugProbeError::UnsupportedProtocol(WireProtocol::Swd)),
        ),
        attach_run(
            Attach::first(protocol),
            idle,
            seq![ReplyView::Capabilities { select_if: true }] + seq![
                ReplyView::Interfaces(interfaces),
            ],
        ) == StepView::<Attach, ()>::Finished(
            Err(DebugProbeError::UnsupportedProtocol(protocol)),
        ),
{
    let swd_asked = InterfaceSelection::Capabilities(Some(WireProtocol::Swd));
    lemma_attach_run_last(
        swd_asked.command(),
        Attach::Selecting(swd_asked),
        idle,
        ReplyView::Capabilities { select_if: false },
    );
    let asked = InterfaceSelection::Capabilities(Some(protocol));
    let available = InterfaceSelection::Available(protocol);
    lemma_attach_run_first(
        asked.command(),
        Attach::Selecting(asked),
        idle,
        ReplyView::Capabilities { select_if: true },
        seq![ReplyView::Interfaces(interfaces)],
    );
    lemma_attach_run_last(
        available.command(),
        Attach::Selecting(available),
        idle,
        ReplyView::Interfaces(interfaces),
    );
}

/// A selection of a protocol goes on as the selection of the interface does, and
/// succeeds when that has given the protocol that was asked for. What was given is
/// then the selected protocol; nothing else changes, and nothing at all before the
/// selection is over or if it fails.
pub proof fn law_protocol_selection(
    probe: ProbeState,
    requested: WireProtocol,
    actual: WireProtocol,
    command: CommandView,
    selection: InterfaceSelection,
    error: DebugProbeError,
)
    ensures
        ProtocolSelection::passed_on(requested, StepView::Perform(command, selection))
            == StepView::<ProtocolSelection, ()>::Perform(
            command,
            ProtocolSelection { requested, selection },
        ),
        ProtocolSelection::effect(probe, StepView::Perform(command, selection)) == probe,
        ProtocolSelection::passed_on(requested, StepView::Finished(Ok(actual))) == StepView::<
            ProtocolSelection,
            (),
        >::Finished(
            if actual == requested {
                Ok(())
            } else {
                Err(DebugProbeError::UnsupportedProtocol(requested))
            },
        ),
        ProtocolSelection::effect(probe, StepView::Finished(Ok(actual))) == (ProbeState {
            protocol: Some(actual),
            ..probe
        }),
        ProtocolSelection::passed_on(requested, StepView::Finished(Err(error))) == StepView::<
            ProtocolSelection,
            (),
        >::Finished(Err(error)),
        ProtocolSelection::effect(probe, StepView::Finished(Err(error))) == probe,
{
}

/// A protocol whose interface the probe has, and is able to switch to, can be
/// selected: the probe is told to select just that interface, and then the protocol
/// is the selected one. Without the interface it is refused, and nothing changes.
pub proof fn law_protocol_is_selected(
    probe: ProbeState,
    protocol: WireProtocol,
    interfaces: Seq<TargetInterface>,
)
    ensures
        ({
            let asked = ProtocolSelection {
                requested: protocol,
                selection: InterfaceSelection::Capabilities(Some(protocol)),
            };
            let answers = seq![
                ReplyView::Capabilities { select_if: true },
                ReplyView::Interfaces(interfaces),
            ];
            let available = match protocol {
                WireProtocol::Swd => interfaces.contains(TargetInterface::Swd),
                WireProtocol::Jtag => interfaces.contains(TargetInterface::Jtag),
            };
            let interface = match protocol {
                WireProtocol::Swd => TargetInterface::Swd,
                WireProtocol::Jtag => TargetInterface::Jtag,
            };
            if available {
                &&& protocol_run(probe, asked, answers) == (
                    probe,
                    StepView::<ProtocolSelection, ()>::Perform(
                        CommandView::SelectInterface(interface),
                        ProtocolSelection {
                            requested: protocol,
                            selection: InterfaceSelection::Selecting(protocol),
                        },
                    ),
                )
                &&& protocol_run(probe, asked, answers.push(ReplyView::Done)) == (
                    ProbeState { protocol: Some(protocol), ..probe },
                    StepView::<ProtocolSelection, ()>::Finished(Ok(())),
                )
            } else {
                protocol_run(probe, asked, answers) == (
                    probe,
                    StepView::<ProtocolSelection, ()>::Finished(
                        Err(DebugProbeError::UnsupportedProtocol(protocol)),
                    ),
                )
            }
        }),
{
    let requested = protocol;
    let asked = ProtocolSelection {
        requested,
        selection: InterfaceSelection::Capabilities(Some(protocol)),
    };
    let listing = ProtocolSelection {
        requested,
        selection: InterfaceSelection::Available(protocol),
    };
    let selecting = ProtocolSelection {
        requested,
        selection: InterfaceSelection::Selecting(protocol),
    };
    let answers = seq![
        ReplyView::Capabilities { select_if: true },
        ReplyView::Interfaces(interfaces),
    ];
    let all = answers.push(ReplyView::Done);
    assert(answers[0] == ReplyView::Capabilities { select_if: true });
    assert(all[0] == answers[0]);
    assert(answers.skip(1)[0] == ReplyView::Interfaces(interfaces));
    assert(all.skip(1)[0] == ReplyView::Interfaces(interfaces));
    assert(all.skip(1).skip(1)[0] == ReplyView::Done);
    assert(protocol_run(probe, asked, answers) == protocol_run(probe, listing, answers.skip(1)));
    assert(protocol_run(probe, asked, all) == protocol_run(probe, listing, all.skip(1)));
    if interfaces.contains(protocol::interface_of(protocol)) {
        assert(protocol_run(probe, listing, answers.skip(1)) == protocol_run(
            probe,
            selecting,
            answers.skip(1).skip(1),
        ));
        assert(protocol_run(probe, listing, all.skip(1)) == protocol_run(
            probe,
            selecting,
            all.skip(1).skip(1),
        ));
    }
}

/// A failure of the probe ends a change of the reset lines with that failure.
pub proof fn law_reset_fails(change: ResetChange, error: jaylink::Error)
    ensures
        change.accepts(ReplyView::Done),
        change.accepts(ReplyView::Failed(error)),
        change.next(ReplyView::Failed(error)) == StepView::<ResetChange, ()>::Finished(
            Err(DebugProbeError::ProbeSpecific(error)),
        ),
{
}

/// Nothing of the states of the operations is hidden.
pub proof fn law_states_are_seen(
    scan: DrScan,
    write: IrWrite,
    then: Command,
    selection: ProtocolSelection,
    change: ResetChange,
    attach: Attach,
)
    ensures
        scan@ == scan,
        write@ == write,
        (RegisterScan::Instruction { write, then, scan })@ == (RegisterScanView::Instruction {
            write,
            then: then@,
            scan,
        }),
        RegisterScan::Data(scan)@ == RegisterScanView::Data(scan),
        selection@ == selection,
        change@ == change,
        attach@ == attach,
{
}

/// The idle clocks at the end of a scan are those that the probe was set to.
pub proof fn law_idle_clocks(probe: JLink)
    ensures
        probe.idle_clocks() == probe@.jtag_idle_cycles as nat,
{
}

/// What a read of the JTAG register at `address` starts with. If the register is
/// selected it is the scan of its `len` bits; if not, the address is written to the
/// instruction register, and that scan is still to come. The scan ends with the idle
/// clocks of the probe.
pub proof fn law_jtag_read_register(
    probe: &JLink,
    address: u32,
    len: u32,
    step: Step<RegisterScan, Vec<u8>>,
)
    requires
        call_ensures(<JLink as JTAGAccess>::read_register, (probe, address, len), step),
        address <= 0x1f,
        len >= 1,
    ensures
        ({
            let idle = probe@.jtag_idle_cycles as nat;
            let then = jtag::dr_read(len as nat, idle);
            let scan = DrScan { register_bits: len as usize };
            &&& then->tms.len() == then->tdi.len() == len + 5 + idle
            &&& probe@.current_ir_reg == address ==> step@ == StepView::<
                RegisterScanView,
                Seq<u8>,
            >::Perform(then, RegisterScanView::Data(scan))
            &&& probe@.current_ir_reg != address ==> step@ == StepView::<
                RegisterScanView,
                Seq<u8>,
            >::Perform(
                jtag::ir_write(seq![address as u8], 5),
                RegisterScanView::Instruction {
                    write: IrWrite { instruction: address },
                    then,
                    scan,
                },
            )
        }),
{
    let idle = probe@.jtag_idle_cycles as nat;
    jtag::law_dr_read_command(len as nat, idle);
    law_register_is_selected(
        probe@,
        address,
        jtag::dr_read(len as nat, idle),
        DrScan { register_bits: len as usize },
    );
}

/// What a write of the JTAG register at `address` starts with. If the register is
/// selected it is the scan that shifts all `len` bits of the data into it; if not,
/// the address is written to the instruction register, and that scan is still to
/// come.
pub proof fn law_jtag_write_register(
    probe: &JLink,
    address: u32,
    data: &[u8],
    len: u32,
    step: Step<RegisterScan, Vec<u8>>,
)
    requires
        call_ensures(<JLink as JTAGAccess>::write_register, (probe, address, data, len), step),
        address <= 0x1f,
        len >= 1,
    ensures
        ({
            let idle = probe@.jtag_idle_cycles as nat;
            let then = jtag::dr_write(data@, len as nat, idle);
            let scan = DrScan { register_bits: len as usize };
            let taken = jtag::shifted_in(
                TapState::RunTestIdle,
                TapState::ShiftDr,
                then->tms,
                then->tdi,
            );
            &&& then->tms.len() == then->tdi.len() == len + 5 + idle
            &&& taken.len() == len
            &&& forall|i: int|
                0 <= i < len ==> #[trigger] taken[i] == ((data@[i / 8] >> ((i % 8) as u8)) & 1 == 1)
            &&& probe@.current_ir_reg == address ==> step@ == StepView::<
                RegisterScanView,
                Seq<u8>,
            >::Perform(then, RegisterScanView::Data(scan))
            &&& probe@.current_ir_reg != address ==> step@ == StepView::<
                RegisterScanView,
                Seq<u8>,
            >::Perform(
                jtag::ir_write(seq![address as u8], 5),
                RegisterScanView::Instruction {
                    write: IrWrite { instruction: address },
                    then,
                    scan,
                },
            )
        }),
{
    let idle = probe@.jtag_idle_cycles as nat;
    jtag::law_dr_write_command(data@, len as nat, idle);
    law_register_is_selected(
        probe@,
        address,
        jtag::dr_write(data@, len as nat, idle),
        DrScan { register_bits: len as usize },
    );
}

/// What a scan ends with, for each bit of the register that came out.
pub proof fn law_scan_finishes(
    scan: DrScan,
    response: Vec<bool>,
    contents: Result<Vec<u8>, DebugProbeError>,
    i: int,
)
    requires
        call_ensures(DrScan::finish, (scan, Reply::Bits(response)), contents),
        response@.len() >= 3 + scan.register_bits,
    ensures
        contents matches Ok(bytes) && {
            &&& bytes@.len() == (scan.register_bits + 7) / 8
            &&& 0 <= i < scan.register_bits ==> ((bytes@[i / 8] >> ((i % 8) as u8)) & 1 == 1)
                == response@[3 + i]
            &&& scan.register_bits <= i < 8 * bytes@.len() ==> (bytes@[i / 8] >> ((i % 8) as u8))
                & 1 != 1
        },
{
    law_scan_gives_contents(scan, response@, i);
}

/// What a write of the instruction register starts with: all `len` bits of the data
/// are shifted into it, and the first byte is what will be remembered. Too little
/// data is an error that names the length.
pub proof fn law_instruction_is_written(
    probe: &JLink,
    data: &[u8],
    len: usize,
    step: Step<IrWrite, ()>,
)
    requires
        call_ensures(JLink::write_ir, (probe, data, len), step),
        len >= 1,
    ensures
        len > 8 * data@.len() ==> step@ == StepView::<IrWrite, ()>::Finished(
            Err(DebugProbeError::IncorrectLength(len)),
        ),
        len <= 8 * data@.len() ==> (step@ matches StepView::Perform(command, write) && {
            let taken = jtag::shifted_in(
                TapState::RunTestIdle,
                TapState::ShiftIr,
                command->tms,
                command->tdi,
            );
            &&& command is JtagIo
            &&& taken.len() == len
            &&& forall|i: int|
                0 <= i < len ==> #[trigger] taken[i] == ((data@[i / 8] >> ((i % 8) as u8)) & 1 == 1)
            &&& jtag::tap_run(TapState::RunTestIdle, command->tms) == TapState::RunTestIdle
            &&& write.instruction == data@[0]
        }),
{
    jtag::law_ir_write_command(data@, len as nat);
}

/// What the driver starts with when it is told to read or write a data register,
/// to attach, to select a protocol, or to change the speed or the reset lines.
pub proof fn law_operations_start(
    probe: &JLink,
    data: &[u8],
    register_bits: usize,
    protocol: WireProtocol,
    speed_khz: u32,
    reading: Step<DrScan, Vec<u8>>,
    writing: Step<DrScan, Vec<u8>>,
    attaching: Step<Attach, ()>,
    selecting: Step<ProtocolSelection, ()>,
    changing: Step<SpeedChange, u32>,
    asserting: Step<ResetChange, ()>,
    releasing: Step<ResetChange, ()>,
)
    requires
        call_ensures(JLink::read_dr, (probe, register_bits), reading),
        call_ensures(JLink::write_dr, (probe, data, register_bits), writing),
        call_ensures(JLink::attach, (probe,), attaching),
        call_ensures(JLink::select_protocol, (probe, protocol), selecting),
        call_ensures(JLink::set_speed, (probe, speed_khz), changing),
        call_ensures(JLink::target_reset_assert, (probe,), asserting),
        call_ensures(JLink::target_reset_deassert, (probe,), releasing),
    ensures
        reading@ == StepView::<DrScan, Seq<u8>>::Perform(
            jtag::dr_read(register_bits as nat, probe@.jtag_idle_cycles as nat),
            DrScan { register_bits },
        ),
        writing@ == StepView::<DrScan, Seq<u8>>::Perform(
            jtag::dr_write(data@, register_bits as nat, probe@.jtag_idle_cycles as nat),
            DrScan { register_bits },
        ),
        attaching@ matches StepView::Perform(
            CommandView::ReadCapabilities,
            Attach::Selecting(InterfaceSelection::Capabilities(Some(wanted))),
        ) && {
            &&& probe@.protocol is Some ==> Some(wanted) == probe@.protocol
            &&& probe@.protocol is None && probe@.supported_protocols.contains(WireProtocol::Swd)
                ==> wanted == WireProtocol::Swd
        },
        selecting@ == StepView::<ProtocolSelection, ()>::Perform(
            CommandView::ReadCapabilities,
            ProtocolSelection {
                requested: protocol,
                selection: InterfaceSelection::Capabilities(Some(protocol)),
            },
        ),
        changing@ == (if 1 <= speed_khz <= 65534 {
            StepView::<SpeedChange, u32>::Perform(
                CommandView::ReadSpeeds,
                SpeedChange::Speeds(speed_khz),
            )
        } else {
            StepView::Finished(Err(DebugProbeError::UnsupportedSpeed(speed_khz)))
        }),
        asserting@ == StepView::<ResetChange, ()>::Perform(
            CommandView::SetReset(false),
            ResetChange::Reset(false),
        ),
        releasing@ == StepView::<ResetChange, ()>::Perform(
            CommandView::SetReset(true),
            ResetChange::Reset(true),
        ),
{
}

} // verus!
