//! Register accesses through the debug port, as conversations with the target
//! over SWD.
use crate::bits;
use crate::error::{DapError, DebugProbeError};
use crate::link;
use crate::link::{Command, CommandView, Reply, ReplyView, Step, StepView};
use crate::probe::JLink;
use crate::swd;
use crate::swd::PortType;
use vstd::prelude::*;

verus! {

/// How often a request is sent as long as the target answers with WAIT.
pub const MAX_ATTEMPTS: u8 = 5;

/// The address of the control and status register of the debug port, which holds
/// the fault flags.
pub const CTRL_STAT: u16 = 0x04;

/// The address of the debug port register that holds the result of the last read
/// from an access port.
pub const RDBUFF: u16 = 0x0C;

/// A read that waits for the response to its request.
#[derive(Debug, Clone, Copy)]
pub struct DapRead {
    /// Whether the request goes to an access port.
    pub access_port: bool,
    pub address: u16,
    /// How often the target has answered this request with WAIT.
    pub retries: u8,
    /// Whether an earlier request of this read ended in a fault. The value of the
    /// current request is then only read for the record.
    pub faulted: bool,
}

impl View for DapRead {
    type V = DapRead;

    open spec fn view(&self) -> DapRead {
        *self
    }
}

/// The command that sends a read request.
pub open spec fn read_command(ap: bool, address: u16) -> CommandView {
    CommandView::SwdIo { direction: swd::read_direction(), swdio: swd::read_swdio(ap, address) }
}

/// The command that sends a write request.
pub open spec fn write_command(ap: bool, address: u16, value: u32) -> CommandView {
    CommandView::SwdIo {
        direction: swd::write_direction(),
        swdio: swd::write_swdio(ap, address, value),
    }
}

impl DapRead {
    /// Whether there are attempts left.
    pub open spec fn wf(self) -> bool {
        self.retries < MAX_ATTEMPTS
    }

    /// A read whose request is yet to be answered.
    pub open spec fn first(ap: bool, address: u16, faulted: bool) -> DapRead {
        DapRead { access_port: ap, address, retries: 0, faulted }
    }

    /// The command whose reply this read waits for.
    pub open spec fn command(self) -> CommandView {
        read_command(self.access_port, self.address)
    }

    /// The step that sends the request of this read.
    pub open spec fn send(self) -> StepView<DapRead, u32> {
        StepView::Perform(self.command(), self)
    }

    /// Whether `reply` can be the answer that this read waits for: a failure, or
    /// enough bits to hold an acknowledgement and, if the value is taken from
    /// this response, the data.
    pub open spec fn accepts(self, reply: ReplyView) -> bool {
        match reply {
            ReplyView::Failed(_) => true,
            ReplyView::Bits(response) => {
                &&& response.len() >= swd::READ_DATA_START
                &&& swd::is_wait(response) || swd::is_fault(response) || self.access_port
                    || response.len() >= swd::READ_PARITY
            },
            _ => false,
        }
    }

    /// What follows when the target answers with `reply`.
    ///
    /// - WAIT: the request is sent again, until all attempts are used up.
    /// - FAULT: the control and status register is read, and then the read fails.
    /// - Otherwise a read from an access port goes on with a read of `RDBUFF`,
    ///   where its value is found; a read from the debug port is done.
    pub open spec fn next(self, reply: ReplyView) -> StepView<DapRead, u32> {
        match reply {
            ReplyView::Failed(error) => link::probe_failure(error),
            ReplyView::Bits(response) => if swd::is_wait(response) {
                if self.retries + 1 < MAX_ATTEMPTS {
                    DapRead { retries: (self.retries + 1) as u8, ..self }.send()
                } else {
                    StepView::Finished(Err(DebugProbeError::Timeout))
                }
            } else if swd::is_fault(response) {
                DapRead::first(false, CTRL_STAT, true).send()
            } else if self.access_port {
                DapRead::first(false, RDBUFF, self.faulted).send()
            } else if swd::read_value(response) is Ok && self.faulted {
                StepView::Finished(
                    Err(DebugProbeError::ArchitectureSpecific(DapError::FaultResponse)),
                )
            } else {
                StepView::Finished(swd::read_value(response))
            },
            _ => arbitrary(),
        }
    }

    /// Where this read is after the target has answered with `replies`, one after
    /// the other.
    pub open spec fn run(self, replies: Seq<ReplyView>) -> StepView<DapRead, u32>
        decreases replies.len(),
    {
        if replies.len() == 0 {
            self.send()
        } else {
            match self.next(replies[0]) {
                StepView::Perform(_, read) => read.run(replies.skip(1)),
                finished => finished,
            }
        }
    }

    /// The step of a read that met a fault that `step` of its read of the status
    /// register amounts to.
    pub open spec fn after_fault(step: StepView<DapRead, u32>) -> StepView<DapRead, u32> {
        match step {
            StepView::Perform(command, read) => StepView::Perform(
                command,
                DapRead { faulted: true, ..read },
            ),
            StepView::Finished(Ok(_)) => StepView::Finished(
                Err(DebugProbeError::ArchitectureSpecific(DapError::FaultResponse)),
            ),
            StepView::Finished(Err(error)) => StepView::Finished(Err(error)),
        }
    }

    /// Starts reading the register at `address` of `port`.
    pub fn start(port: PortType, address: u16) -> (step: Step<DapRead, u32>)
        ensures
            step@ == DapRead::first(swd::apndp(port), address, false).send(),
    {
        let access_port = match port {
            PortType::DebugPort => false,
            PortType::AccessPort(_) => true,
        };
        DapRead { access_port, address, retries: 0, faulted: false }.perform()
    }

    /// Sends the request.
    fn perform(self) -> (step: Step<DapRead, u32>)
        ensures
            step@ == self.send(),
    {
        let direction = swd::read_directions();
        let swdio = swd::read_sequence(self.access_port, self.address);
        Step::Perform(Command::SwdIo { direction, swdio }, self)
    }

    /// Goes on with the reply of the probe.
    pub fn resume(self, reply: Reply) -> (step: Step<DapRead, u32>)
        requires
            self.wf(),
            self.accepts(reply@),
        ensures
            step@ == self.next(reply@),
            step matches Step::Perform(_, read) ==> read.wf(),
    {
        match reply {
            Reply::Failed(error) => Step::Finished(Err(DebugProbeError::from(error))),
            Reply::Bits(response) => {
                if response[swd::ACK_START + 1] {
                    // The target is busy and wants the request again.
                    let retries: u8 = self.retries + 1;
                    if retries < MAX_ATTEMPTS {
                        DapRead { retries, ..self }.perform()
                    } else {
                        Step::Finished(Err(DebugProbeError::Timeout))
                    }
                } else if response[swd::ACK_START + 2] {
                    // The status register has the fault flags.
                    DapRead {
                        access_port: false,
                        address: CTRL_STAT,
                        retries: 0,
                        faulted: true,
                    }.perform()
                } else if self.access_port {
                    // The value comes with the next transaction.
                    DapRead {
                        access_port: false,
                        address: RDBUFF,
                        retries: 0,
                        faulted: self.faulted,
                    }.perform()
                } else {
                    match swd::decode_read(response.as_slice()) {
                        Ok(value) => if self.faulted {
                            Step::Finished(
                                Err(
                                    DebugProbeError::ArchitectureSpecific(
                                        DapError::FaultResponse,
                                    ),
                                ),
                            )
                        } else {
                            Step::Finished(Ok(value))
                        },
                        Err(error) => Step::Finished(Err(error)),
                    }
                }
            },
            _ => vstd::pervasive::unreached(),
        }
    }
}

/// A write that waits for a response.
#[derive(Debug, Clone, Copy)]
pub enum DapWrite {
    /// The write request was sent.
    Writing {
        /// Whether the request goes to an access port.
        access_port: bool,
        address: u16,
        value: u32,
        /// How often the target has answered this request with WAIT.
        retries: u8,
    },
    /// The write ended in a fault, and the status register is being read.
    ReadingStatus(DapRead),
}

impl View for DapWrite {
    type V = DapWrite;

    open spec fn view(&self) -> DapWrite {
        *self
    }
}

impl DapWrite {
    /// Whether there are attempts left.
    pub open spec fn wf(self) -> bool {
        match self {
            DapWrite::Writing { retries, .. } => retries < MAX_ATTEMPTS,
            DapWrite::ReadingStatus(read) => read.wf(),
        }
    }

    /// A write whose request is yet to be answered.
    pub open spec fn first(ap: bool, address: u16, value: u32) -> DapWrite {
        DapWrite::Writing { access_port: ap, address, value, retries: 0 }
    }

    /// The command whose reply this write waits for.
    pub open spec fn command(self) -> CommandView {
        match self {
            DapWrite::Writing { access_port, address, value, .. } => write_command(
                access_port,
                address,
                value,
            ),
            DapWrite::ReadingStatus(read) => read.command(),
        }
    }

    /// The step that sends the current request.
    pub open spec fn send(self) -> StepView<DapWrite, ()> {
        StepView::Perform(self.command(), self)
    }

    /// Whether `reply` can be the answer that this write waits for: a failure, or
    /// enough bits to tell WAIT, FAULT and OK apart.
    pub open spec fn accepts(self, reply: ReplyView) -> bool {
        match self {
            DapWrite::Writing { .. } => match reply {
                ReplyView::Failed(_) => true,
                ReplyView::Bits(response) => {
                    &&& response.len() >= swd::READ_DATA_START - 1
                    &&& swd::is_wait(response) || response.len() >= swd::READ_DATA_START
                },
                _ => false,
            },
            DapWrite::ReadingStatus(read) => read.accepts(reply),
        }
    }

    /// The step of a failed write that `step` of its read of the status register
    /// amounts to.
    pub open spec fn after_fault(step: StepView<DapRead, u32>) -> StepView<DapWrite, ()> {
        match step {
            StepView::Perform(command, read) => StepView::Perform(
                command,
                DapWrite::ReadingStatus(read),
            ),
            StepView::Finished(Ok(_)) => StepView::Finished(Err(DebugProbeError::Unknown)),
            StepView::Finished(Err(error)) => StepView::Finished(Err(error)),
        }
    }

    /// What follows when the target answers with `reply`.
    ///
    /// - WAIT: the request is sent again, until all attempts are used up.
    /// - FAULT: the control and status register is read, and then the write
    ///   fails: with the error of that read, or with an unknown error if there is
    ///   none.
    /// - Otherwise the write is done.
    pub open spec fn next(self, reply: ReplyView) -> StepView<DapWrite, ()> {
        match self {
            DapWrite::Writing { access_port, address, value, retries } => match reply {
                ReplyView::Failed(error) => link::probe_failure(error),
                ReplyView::Bits(response) => if swd::is_wait(response) {
                    if retries + 1 < MAX_ATTEMPTS {
                        DapWrite::Writing {
                            access_port,
                            address,
                            value,
                            retries: (retries + 1) as u8,
                        }.send()
                    } else {
                        StepView::Finished(Err(DebugProbeError::Timeout))
                    }
                } else if swd::is_fault(response) {
                    DapWrite::ReadingStatus(DapRead::first(false, CTRL_STAT, false)).send()
                } else {
                    StepView::Finished(Ok(()))
                },
                _ => arbitrary(),
            },
            DapWrite::ReadingStatus(read) => DapWrite::after_fault(read.next(reply)),
        }
    }

    /// Where this write is after the target has answered with `replies`, one
    /// after the other.
    pub open spec fn run(self, replies: Seq<ReplyView>) -> StepView<DapWrite, ()>
        decreases replies.len(),
    {
        if replies.len() == 0 {
            self.send()
        } else {
            match self.next(replies[0]) {
                StepView::Perform(_, write) => write.run(replies.skip(1)),
                finished => finished,
            }
        }
    }

    /// Starts writing `value` to the register at `address` of `port`.
    pub fn start(port: PortType, address: u16, value: u32) -> (step: Step<DapWrite, ()>)
        ensures
            step@ == DapWrite::first(swd::apndp(port), address, value).send(),
    {
        let access_port = match port {
            PortType::DebugPort => false,
            PortType::AccessPort(_) => true,
        };
        DapWrite::send_write(access_port, address, value, 0)
    }

    /// Sends the write request.
    fn send_write(access_port: bool, address: u16, value: u32, retries: u8) -> (step: Step<
        DapWrite,
        (),
    >)
        ensures
            step@ == (DapWrite::Writing { access_port, address, value, retries }).send(),
    {
        let direction = swd::write_directions();
        let swdio = swd::write_sequence(access_port, address, value);
        Step::Perform(
            Command::SwdIo { direction, swdio },
            DapWrite::Writing { access_port, address, value, retries },
        )
    }

    /// Passes on a step of the read of the status register.
    fn reading_status(step: Step<DapRead, u32>) -> (passed_on: Step<DapWrite, ()>)
        ensures
            passed_on@ == DapWrite::after_fault(step@),
            step matches Step::Perform(_, read) ==> (passed_on matches Step::Perform(_, write)
                && write.wf() == read.wf()),
    {
        match step {
            Step::Perform(command, read) => Step::Perform(command, DapWrite::ReadingStatus(read)),
            Step::Finished(Ok(_)) => Step::Finished(Err(DebugProbeError::Unknown)),
            Step::Finished(Err(error)) => Step::Finished(Err(error)),
        }
    }

    /// Goes on with the reply of the probe.
    pub fn resume(self, reply: Reply) -> (step: Step<DapWrite, ()>)
        requires
            self.wf(),
            self.accepts(reply@),
        ensures
            step@ == self.next(reply@),
            step matches Step::Perform(_, write) ==> write.wf(),
    {
        match self {
            DapWrite::Writing { access_port, address, value, retries } => match reply {
                Reply::Failed(error) => Step::Finished(Err(DebugProbeError::from(error))),
                Reply::Bits(response) => {
                    if response[swd::ACK_START + 1] {
                        // The target is busy and wants the request again.
                        let retries: u8 = retries + 1;
                        if retries < MAX_ATTEMPTS {
                            DapWrite::send_write(access_port, address, value, retries)
                        } else {
                            Step::Finished(Err(DebugProbeError::Timeout))
                        }
                    } else if response[swd::ACK_START + 2] {
                        // The status register has the fault flags.
                        DapWrite::reading_status(DapRead::start(PortType::DebugPort, CTRL_STAT))
                    } else {
                        // Nothing after the acknowledgement matters.
                        Step::Finished(Ok(()))
                    }
                },
                _ => vstd::pervasive::unreached(),
            },
            DapWrite::ReadingStatus(read) => DapWrite::reading_status(read.resume(reply)),
        }
    }
}

/// Access to the registers of a target over SWD.
pub trait DAPAccess {
    /// Starts reading the register at `address` of `port`.
    fn read_register(&self, port: PortType, address: u16) -> (step: Step<DapRead, u32>);

    /// Starts writing `value` to the register at `address` of `port`.
    fn write_register(&self, port: PortType, address: u16, value: u32) -> (step: Step<
        DapWrite,
        (),
    >);
}

impl DAPAccess for JLink {
    fn read_register(&self, port: PortType, address: u16) -> (step: Step<DapRead, u32>)
        ensures
            step@ == DapRead::first(swd::apndp(port), address, false).send(),
            step matches Step::Perform(_, read) && read.wf(),
    {
        DapRead::start(port, address)
    }

    fn write_register(&self, port: PortType, address: u16, value: u32) -> (step: Step<
        DapWrite,
        (),
    >)
        ensures
            step@ == DapWrite::first(swd::apndp(port), address, value).send(),
            step matches Step::Perform(_, write) && write.wf(),
    {
        DapWrite::start(port, address, value)
    }
}

/// Whether the target answered with WAIT.
pub open spec fn waiting(reply: ReplyView) -> bool {
    reply matches ReplyView::Bits(response) && swd::is_wait(response)
}

/// Whether the target answered with FAULT.
pub open spec fn faulting(reply: ReplyView) -> bool {
    reply matches ReplyView::Bits(response) && swd::is_fault(response)
}

/// Whether the target answered with neither WAIT nor FAULT.
pub open spec fn granted(reply: ReplyView) -> bool {
    reply matches ReplyView::Bits(response) && !swd::is_wait(response) && !swd::is_fault(response)
}

/// Whether the target answered with WAIT only.
pub open spec fn all_waiting(replies: Seq<ReplyView>) -> bool {
    forall|i: int| 0 <= i < replies.len() ==> waiting(#[trigger] replies[i])
}

/// Whether `replies` start with `n` WAIT answers, fewer than there are attempts,
/// and then grant the request.
pub open spec fn granted_after(replies: Seq<ReplyView>, n: int) -> bool {
    &&& 0 <= n < replies.len()
    &&& n < MAX_ATTEMPTS
    &&& all_waiting(replies.take(n))
    &&& granted(replies[n])
}

/// Parts of a series of WAIT answers.
proof fn lemma_part_is_waiting(waits: Seq<ReplyView>, n: int)
    requires
        all_waiting(waits),
        0 <= n <= waits.len(),
    ensures
        all_waiting(waits.take(n)),
        all_waiting(waits.skip(n)),
{
    assert forall|i: int| 0 <= i < n implies waiting(#[trigger] waits.take(n)[i]) by {
        assert(waiting(waits[i]));
    }
    assert forall|i: int| 0 <= i < waits.len() - n implies waiting(#[trigger] waits.skip(n)[i]) by {
        assert(waiting(waits[n + i]));
    }
}

/// One more WAIT answer before others.
proof fn lemma_one_more_wait(replies: Seq<ReplyView>, n: int)
    requires
        0 <= n < replies.len(),
        waiting(replies[0]),
        all_waiting(replies.skip(1).take(n)),
    ensures
        all_waiting(replies.take(n + 1)),
{
    assert forall|i: int| 0 <= i < n + 1 implies waiting(#[trigger] replies.take(n + 1)[i]) by {
        if i > 0 {
            assert(waiting(replies.skip(1).take(n)[i - 1]));
        }
    }
}

/// A read is still the same read after fewer WAIT answers than it has attempts
/// left, and sends its request again.
pub proof fn law_read_repeats_request(read: DapRead, waits: Seq<ReplyView>)
    requires
        read.retries + waits.len() < MAX_ATTEMPTS,
        all_waiting(waits),
    ensures
        read.run(waits) == (DapRead {
            retries: (read.retries + waits.len()) as u8,
            ..read
        }).send(),
    decreases waits.len(),
{
    if waits.len() > 0 {
        assert(waiting(waits[0]));
        lemma_part_is_waiting(waits, 1);
        law_read_repeats_request(
            DapRead { retries: (read.retries + 1) as u8, ..read },
            waits.skip(1),
        );
    }
}

/// WAIT answers leave no trace: as long as there are fewer of them in a row than
/// the read has attempts left, whatever comes then has the effect that it would
/// have had at once.
pub proof fn law_read_forgets_waits(
    read: DapRead,
    waits: Seq<ReplyView>,
    rest: Seq<ReplyView>,
)
    requires
        read.retries + waits.len() < MAX_ATTEMPTS,
        all_waiting(waits),
        rest.len() > 0,
        !waiting(rest[0]),
    ensures
        read.run(waits + rest) == read.run(rest),
    decreases waits.len(),
{
    if waits.len() == 0 {
        assert(waits + rest =~= rest);
    } else {
        let again = DapRead { retries: (read.retries + 1) as u8, ..read };
        assert(waiting(waits[0]));
        assert((waits + rest)[0] == waits[0]);
        assert((waits + rest).skip(1) =~= waits.skip(1) + rest);
        lemma_part_is_waiting(waits, 1);
        law_read_forgets_waits(again, waits.skip(1), rest);
        assert(again.next(rest[0]) == read.next(rest[0]));
    }
}

/// A read times out when the target has answered with WAIT as often as there were
/// attempts left, five times in a row for a new request.
pub proof fn law_read_times_out(read: DapRead, replies: Seq<ReplyView>)
    requires
        read.wf(),
        read.retries + replies.len() >= MAX_ATTEMPTS,
        all_waiting(replies.take(MAX_ATTEMPTS - read.retries)),
    ensures
        read.run(replies) == StepView::<DapRead, u32>::Finished(Err(DebugProbeError::Timeout)),
    decreases replies.len(),
{
    let waits = replies.take(MAX_ATTEMPTS - read.retries);
    assert(waiting(waits[0]));
    assert(replies[0] == waits[0]);
    if read.retries + 1 < MAX_ATTEMPTS {
        lemma_part_is_waiting(waits, 1);
        assert(replies.skip(1).take(waits.len() - 1) =~= waits.skip(1));
        law_read_times_out(
            DapRead { retries: (read.retries + 1) as u8, ..read },
            replies.skip(1),
        );
    }
}

/// A write is still the same write after fewer WAIT answers than it has attempts
/// left, and sends its request again.
pub proof fn law_write_repeats_request(
    ap: bool,
    address: u16,
    value: u32,
    retries: u8,
    waits: Seq<ReplyView>,
)
    requires
        retries + waits.len() < MAX_ATTEMPTS,
        all_waiting(waits),
    ensures
        (DapWrite::Writing { access_port: ap, address, value, retries }).run(waits) == (
        DapWrite::Writing {
            access_port: ap,
            address,
            value,
            retries: (retries + waits.len()) as u8,
        }).send(),
    decreases waits.len(),
{
    if waits.len() > 0 {
        assert(waiting(waits[0]));
        lemma_part_is_waiting(waits, 1);
        law_write_repeats_request(ap, address, value, (retries + 1) as u8, waits.skip(1));
    }
}

/// WAIT answers leave no trace on a write either.
pub proof fn law_write_forgets_waits(
    ap: bool,
    address: u16,
    value: u32,
    retries: u8,
    waits: Seq<ReplyView>,
    rest: Seq<ReplyView>,
)
    requires
        retries + waits.len() < MAX_ATTEMPTS,
        all_waiting(waits),
        rest.len() > 0,
        !waiting(rest[0]),
    ensures
        (DapWrite::Writing { access_port: ap, address, value, retries }).run(waits + rest) == (
        DapWrite::Writing { access_port: ap, address, value, retries }).run(rest),
    decreases waits.len(),
{
    if waits.len() == 0 {
        assert(waits + rest =~= rest);
    } else {
        let write = DapWrite::Writing { access_port: ap, address, value, retries };
        let again = DapWrite::Writing {
            access_port: ap,
            address,
            value,
            retries: (retries + 1) as u8,
        };
        assert(waiting(waits[0]));
        assert((waits + rest)[0] == waits[0]);
        assert((waits + rest).skip(1) =~= waits.skip(1) + rest);
        lemma_part_is_waiting(waits, 1);
        law_write_forgets_waits(ap, address, value, (retries + 1) as u8, waits.skip(1), rest);
        assert(again.next(rest[0]) == write.next(rest[0]));
    }
}

/// A write times out when the target has answered with WAIT as often as there were
/// attempts left, five times in a row for a new request.
pub proof fn law_write_times_out(
    ap: bool,
    address: u16,
    value: u32,
    retries: u8,
    replies: Seq<ReplyView>,
)
    requires
        retries < MAX_ATTEMPTS,
        retries + replies.len() >= MAX_ATTEMPTS,
        all_waiting(replies.take(MAX_ATTEMPTS - retries)),
    ensures
        (DapWrite::Writing { access_port: ap, address, value, retries }).run(replies)
            == StepView::<DapWrite, ()>::Finished(Err(DebugProbeError::Timeout)),
    decreases replies.len(),
{
    let waits = replies.take(MAX_ATTEMPTS - retries);
    assert(waiting(waits[0]));
    assert(replies[0] == waits[0]);
    if retries + 1 < MAX_ATTEMPTS {
        lemma_part_is_waiting(waits, 1);
        assert(replies.skip(1).take(waits.len() - 1) =~= waits.skip(1));
        law_write_times_out(ap, address, value, (retries + 1) as u8, replies.skip(1));
    }
}

/// Whether each of `replies` can be an answer to the request that `read` has sent
/// by then.
pub open spec fn replies_accepted(read: DapRead, replies: Seq<ReplyView>) -> bool
    decreases replies.len(),
{
    replies.len() > 0 ==> {
        &&& read.accepts(replies[0])
        &&& read.next(replies[0]) matches StepView::Perform(_, after) ==> replies_accepted(
            after,
            replies.skip(1),
        )
    }
}

/// Whether each of `replies` can be an answer to the request that `write` has sent
/// by then.
pub open spec fn write_replies_accepted(write: DapWrite, replies: Seq<ReplyView>) -> bool
    decreases replies.len(),
{
    replies.len() > 0 ==> {
        &&& write.accepts(replies[0])
        &&& write.next(replies[0]) matches StepView::Perform(_, after) ==> write_replies_accepted(
            after,
            replies.skip(1),
        )
    }
}

/// A write succeeds as soon as the target grants it, provided that it asked to
/// wait fewer than five times before.
pub proof fn law_write_succeeds(
    ap: bool,
    address: u16,
    value: u32,
    replies: Seq<ReplyView>,
    n: int,
)
    requires
        granted_after(replies, n),
    ensures
        DapWrite::first(ap, address, value).run(replies) == StepView::<DapWrite, ()>::Finished(
            Ok(()),
        ),
{
    assert(replies.take(n) + replies.skip(n) =~= replies);
    assert(replies.skip(n)[0] == replies[n]);
    law_write_forgets_waits(ap, address, value, 0, replies.take(n), replies.skip(n));
}

/// A write succeeds in no other way: at most four WAIT answers came first, and
/// then the target granted it.
pub proof fn law_write_succeeds_only_if_granted(
    ap: bool,
    address: u16,
    value: u32,
    replies: Seq<ReplyView>,
)
    requires
        write_replies_accepted(DapWrite::first(ap, address, value), replies),
        DapWrite::first(ap, address, value).run(replies) == StepView::<DapWrite, ()>::Finished(
            Ok(()),
        ),
    ensures
        exists|n: int| granted_after(replies, n),
{
    let n = lemma_write_was_granted(ap, address, value, 0, replies);
    assert(granted_after(replies, n));
}

/// How many WAIT answers came before a successful write was granted.
proof fn lemma_write_was_granted(
    ap: bool,
    address: u16,
    value: u32,
    retries: u8,
    replies: Seq<ReplyView>,
) -> (n: int)
    requires
        retries < MAX_ATTEMPTS,
        write_replies_accepted(
            DapWrite::Writing { access_port: ap, address, value, retries },
            replies,
        ),
        (DapWrite::Writing { access_port: ap, address, value, retries }).run(replies)
            == StepView::<DapWrite, ()>::Finished(Ok(())),
    ensures
        granted_after(replies, n),
        retries + n < MAX_ATTEMPTS,
    decreases replies.len(),
{
    if waiting(replies[0]) {
        let n = lemma_write_was_granted(
            ap,
            address,
            value,
            (retries + 1) as u8,
            replies.skip(1),
        );
        lemma_one_more_wait(replies, n);
        n + 1
    } else {
        if faulting(replies[0]) {
            law_faulted_write_fails(DapRead::first(false, CTRL_STAT, false), replies.skip(1));
        }
        0
    }
}

/// After a fault a read cannot succeed, whatever the target answers.
pub proof fn law_faulted_read_fails(read: DapRead, replies: Seq<ReplyView>)
    requires
        read.faulted,
        replies_accepted(read, replies),
    ensures
        !(read.run(replies) matches StepView::Finished(Ok(_))),
    decreases replies.len(),
{
    if replies.len() > 0 {
        if let StepView::Perform(_, after) = read.next(replies[0]) {
            law_faulted_read_fails(after, replies.skip(1));
        }
    }
}

/// After a fault a write cannot succeed, whatever the target answers.
pub proof fn law_faulted_write_fails(read: DapRead, replies: Seq<ReplyView>)
    ensures
        !(DapWrite::ReadingStatus(read).run(replies) matches StepView::Finished(Ok(_))),
    decreases replies.len(),
{
    if replies.len() > 0 {
        if let StepView::Perform(_, after) = read.next(replies[0]) {
            law_faulted_write_fails(after, replies.skip(1));
        }
    }
}

/// A read that has met a fault goes through the same requests as one that has
/// not.
proof fn lemma_faulted_run(read: DapRead, replies: Seq<ReplyView>)
    requires
        replies_accepted(read, replies),
    ensures
        (DapRead { faulted: true, ..read }).run(replies) == DapRead::after_fault(
            read.run(replies),
        ),
    decreases replies.len(),
{
    if replies.len() > 0 {
        let faulted = DapRead { faulted: true, ..read };
        assert(faulted.next(replies[0]) == DapRead::after_fault(read.next(replies[0])));
        if let StepView::Perform(_, after) = read.next(replies[0]) {
            lemma_faulted_run(after, replies.skip(1));
        }
    }
}

/// A write that has met a fault goes through the requests of the read of the
/// status register.
proof fn lemma_status_run(read: DapRead, replies: Seq<ReplyView>)
    ensures
        DapWrite::ReadingStatus(read).run(replies) == DapWrite::after_fault(read.run(replies)),
    decreases replies.len(),
{
    if replies.len() > 0 {
        if let StepView::Perform(_, after) = read.next(replies[0]) {
            lemma_status_run(after, replies.skip(1));
        }
    }
}

/// After a fault the status register is read, and the read ends as that one does:
/// with a fault response in place of the value, or with the same error.
pub proof fn law_read_fault(read: DapRead, fault: ReplyView, rest: Seq<ReplyView>)
    requires
        faulting(fault),
        replies_accepted(DapRead::first(false, CTRL_STAT, false), rest),
    ensures
        read.run(seq![fault] + rest) == DapRead::after_fault(
            DapRead::first(false, CTRL_STAT, false).run(rest),
        ),
{
    assert((seq![fault] + rest)[0] == fault);
    assert((seq![fault] + rest).skip(1) =~= rest);
    lemma_faulted_run(DapRead::first(false, CTRL_STAT, false), rest);
}

/// After a fault the status register is read, and the write fails as that read
/// ends: with an unknown error in place of the value, or with the same error.
pub proof fn law_write_fault(
    ap: bool,
    address: u16,
    value: u32,
    retries: u8,
    fault: ReplyView,
    rest: Seq<ReplyView>,
)
    requires
        faulting(fault),
    ensures
        (DapWrite::Writing { access_port: ap, address, value, retries }).run(seq![fault] + rest)
            == DapWrite::after_fault(DapRead::first(false, CTRL_STAT, false).run(rest)),
{
    assert((seq![fault] + rest)[0] == fault);
    assert((seq![fault] + rest).skip(1) =~= rest);
    lemma_status_run(DapRead::first(false, CTRL_STAT, false), rest);
}

/// A read from the debug port that is granted after fewer than five WAIT answers
/// gives the value in the response.
pub proof fn law_debug_port_read(address: u16, replies: Seq<ReplyView>, n: int)
    requires
        granted_after(replies, n),
    ensures
        DapRead::first(false, address, false).run(replies) == StepView::<DapRead, u32>::Finished(
            swd::read_value(replies[n]->Bits_0),
        ),
{
    assert(replies.take(n) + replies.skip(n) =~= replies);
    assert(replies.skip(n)[0] == replies[n]);
    law_read_forgets_waits(
        DapRead::first(false, address, false),
        replies.take(n),
        replies.skip(n),
    );
}

/// A read from an access port that is granted after fewer than five WAIT answers
/// gives what a read of `RDBUFF` gives; the data in the first response is passed
/// over.
pub proof fn law_access_port_read(address: u16, replies: Seq<ReplyView>, n: int)
    requires
        granted_after(replies, n),
    ensures
        DapRead::first(true, address, false).run(replies) == DapRead::first(
            false,
            RDBUFF,
            false,
        ).run(replies.skip(n + 1)),
{
    assert(replies.take(n) + replies.skip(n) =~= replies);
    assert(replies.skip(n)[0] == replies[n]);
    assert(replies.skip(n).skip(1) =~= replies.skip(n + 1));
    law_read_forgets_waits(
        DapRead::first(true, address, false),
        replies.take(n),
        replies.skip(n),
    );
}

/// A read from the debug port succeeds in no other way: at most four WAIT answers
/// came first, and then the target granted it and sent the value with the right
/// parity.
pub proof fn law_debug_port_read_succeeds_only_if_granted(
    address: u16,
    replies: Seq<ReplyView>,
    value: u32,
)
    requires
        replies_accepted(DapRead::first(false, address, false), replies),
        DapRead::first(false, address, false).run(replies) == StepView::<DapRead, u32>::Finished(
            Ok(value),
        ),
    ensures
        exists|n: int| #[trigger]
            granted_after(replies, n) && swd::read_value(replies[n]->Bits_0) == Ok::<
                u32,
                DebugProbeError,
            >(value),
{
    let n = lemma_read_was_granted(DapRead::first(false, address, false), replies, value);
    assert(granted_after(replies, n));
    law_debug_port_read(address, replies, n);
}

/// A read from an access port succeeds in no other way: at most four WAIT answers
/// came first, then the target granted it, and the read of `RDBUFF` gave the value.
pub proof fn law_access_port_read_succeeds_only_if_granted(
    address: u16,
    replies: Seq<ReplyView>,
    value: u32,
)
    requires
        replies_accepted(DapRead::first(true, address, false), replies),
        DapRead::first(true, address, false).run(replies) == StepView::<DapRead, u32>::Finished(
            Ok(value),
        ),
    ensures
        exists|n: int| #[trigger]
            granted_after(replies, n) && DapRead::first(false, RDBUFF, false).run(
                replies.skip(n + 1),
            ) == StepView::<DapRead, u32>::Finished(Ok(value)),
{
    let n = lemma_read_was_granted(DapRead::first(true, address, false), replies, value);
    assert(granted_after(replies, n));
    law_access_port_read(address, replies, n);
}

/// How many WAIT answers came before the first request of a successful read was
/// granted.
proof fn lemma_read_was_granted(read: DapRead, replies: Seq<ReplyView>, value: u32) -> (n: int)
    requires
        read.wf(),
        replies_accepted(read, replies),
        read.run(replies) == StepView::<DapRead, u32>::Finished(Ok(value)),
    ensures
        granted_after(replies, n),
        read.retries + n < MAX_ATTEMPTS,
    decreases replies.len(),
{
    if waiting(replies[0]) {
        let n = lemma_read_was_granted(
            DapRead { retries: (read.retries + 1) as u8, ..read },
            replies.skip(1),
            value,
        );
        lemma_one_more_wait(replies, n);
        n + 1
    } else {
        if faulting(replies[0]) {
            law_faulted_read_fails(DapRead::first(false, CTRL_STAT, true), replies.skip(1));
        }
        0
    }
}

/// A read succeeds only with a value that the target granted and that came with
/// the right parity.
pub proof fn law_read_value_was_sent(read: DapRead, replies: Seq<ReplyView>, value: u32)
    requires
        replies_accepted(read, replies),
        read.run(replies) == StepView::<DapRead, u32>::Finished(Ok(value)),
    ensures
        exists|i: int|
            0 <= i < replies.len() && granted(#[trigger] replies[i]) && swd::read_value(
                replies[i]->Bits_0,
            ) == Ok::<u32, DebugProbeError>(value),
    decreases replies.len(),
{
    match read.next(replies[0]) {
        StepView::Perform(_, after) => {
            law_read_value_was_sent(after, replies.skip(1), value);
            let i = choose|i: int|
                0 <= i < replies.skip(1).len() && granted(#[trigger] replies.skip(1)[i])
                    && swd::read_value(replies.skip(1)[i]->Bits_0) == Ok::<
                    u32,
                    DebugProbeError,
                >(value);
            assert(replies[i + 1] == replies.skip(1)[i]);
        },
        StepView::Finished(_) => {
            assert(granted(replies[0]));
        },
    }
}

/// Whether the target answered with anything but FAULT.
pub open spec fn none_faulting(replies: Seq<ReplyView>) -> bool {
    forall|i: int| 0 <= i < replies.len() ==> !faulting(#[trigger] replies[i])
}

/// How many replies a read takes at most if there is no fault: one for each
/// attempt that is left, and as many again for the read of `RDBUFF`.
pub open spec fn replies_needed(read: DapRead) -> int {
    MAX_ATTEMPTS - read.retries + (if read.access_port {
        MAX_ATTEMPTS as int
    } else {
        0
    })
}

/// A read from the debug port is over after five replies at most, and one from an
/// access port after ten, if the target reports no fault.
pub proof fn law_read_ends(read: DapRead, replies: Seq<ReplyView>)
    requires
        read.wf(),
        replies_accepted(read, replies),
        none_faulting(replies),
        replies.len() >= replies_needed(read),
    ensures
        read.run(replies) is Finished,
    decreases replies.len(),
{
    assert(!faulting(replies[0]));
    if let StepView::Perform(_, after) = read.next(replies[0]) {
        assert forall|i: int| 0 <= i < replies.skip(1).len() implies !faulting(
            #[trigger] replies.skip(1)[i],
        ) by {
            assert(!faulting(replies[i + 1]));
        }
        law_read_ends(after, replies.skip(1));
    }
}

/// A write is over after five replies at most if the target reports no fault.
pub proof fn law_write_ends(
    ap: bool,
    address: u16,
    value: u32,
    retries: u8,
    replies: Seq<ReplyView>,
)
    requires
        retries + replies.len() >= MAX_ATTEMPTS,
        retries < MAX_ATTEMPTS,
        forall|i: int|
            0 <= i < replies.len() ==> {
                ||| waiting(#[trigger] replies[i])
                ||| granted(replies[i])
                ||| replies[i] is Failed
            },
    ensures
        (DapWrite::Writing { access_port: ap, address, value, retries }).run(replies) is Finished,
    decreases replies.len(),
{
    let reply = replies[0];
    assert(waiting(reply) || granted(reply) || reply is Failed);
    if waiting(reply) && retries + 1 < MAX_ATTEMPTS {
        assert forall|i: int| 0 <= i < replies.skip(1).len() implies {
            ||| waiting(#[trigger] replies.skip(1)[i])
            ||| granted(replies.skip(1)[i])
            ||| replies.skip(1)[i] is Failed
        } by {
            assert(waiting(replies[i + 1]) || granted(replies[i + 1]) || replies[i + 1] is Failed);
        }
        law_write_ends(ap, address, value, (retries + 1) as u8, replies.skip(1));
    }
}

/// A read sends its own request, first and again: the bits of a read request for
/// its port and its address, and nothing while the target answers. It then waits
/// for the answer to just that.
pub proof fn law_read_sends(read: DapRead, i: int)
    ensures
        read.send() matches StepView::Perform(command, waits) && {
            &&& waits == read
            &&& command is SwdIo
            &&& command->swdio.len() == 47
            &&& command->swdio.take(10) == swd::request(read.access_port, true, read.address)
            &&& 10 <= i < 47 ==> !command->swdio[i]
            &&& command->direction.len() == 47
            &&& 0 <= i < 47 ==> command->direction[i] == (i < 10)
        },
{
    swd::law_read_line(read.access_port, read.address);
}

/// A write sends its own request, first and again: the bits of a write request for
/// its port and its address, and after the gap for the acknowledgement the bits of
/// the very value that is to be written, and their parity.
pub proof fn law_write_sends(ap: bool, address: u16, value: u32, retries: u8, i: int)
    ensures
        (DapWrite::Writing { access_port: ap, address, value, retries }).send() matches
            StepView::Perform(command, waits) && {
            &&& waits == (DapWrite::Writing { access_port: ap, address, value, retries })
            &&& command is SwdIo
            &&& command->swdio.len() == 48
            &&& command->swdio.take(10) == swd::request(ap, false, address)
            &&& 10 <= i < 15 ==> !command->swdio[i]
            &&& 15 <= i < 47 ==> command->swdio[i] == ((value >> ((i - 15) as u32)) & 1 == 1)
            &&& bits::bits_value(command->swdio.subrange(15, 47)) == value
            &&& command->swdio[47] == bits::odd(command->swdio.subrange(15, 47))
            &&& command->direction.len() == 48
            &&& 0 <= i < 48 ==> command->direction[i] == (i < 10 || i >= 15)
        },
{
    swd::law_write_line(ap, address, value);
}

/// The request that a read of the register at `address` of `port` starts with asks
/// for the port by its kind and for the register by bits 2 and 3 of the address.
pub proof fn law_read_asks_for_register(port: PortType, address: u16)
    ensures
        DapRead::first(swd::apndp(port), address, false).send() matches StepView::Perform(
            command,
            read,
        ) && {
            &&& command->swdio[2]
            &&& command->swdio[3] == (port != PortType::DebugPort)
            &&& command->swdio[4]
            &&& command->swdio[5] == ((address >> 2u16) & 1 == 1)
            &&& command->swdio[6] == ((address >> 3u16) & 1 == 1)
            &&& command->swdio[7] == !(command->swdio[3] ^ command->swdio[5] ^ command->swdio[6])
            &&& !command->swdio[8] && command->swdio[9]
            &&& read.access_port == (port != PortType::DebugPort)
            &&& read.address == address
            &&& read.retries == 0
            &&& !read.faulted
        },
{
    let read = DapRead::first(swd::apndp(port), address, false);
    law_read_sends(read, 0);
    swd::law_request_bits(swd::apndp(port), true, address);
    let request = read.command()->swdio.take(10);
    assert forall|i: int| 0 <= i < 10 implies read.command()->swdio[i] == #[trigger] request[i] by {
    }
}

/// The request that a write to the register at `address` of `port` starts with asks
/// for the port by its kind and for the register by bits 2 and 3 of the address,
/// and what is sent after it is the value.
pub proof fn law_write_asks_for_register(port: PortType, address: u16, value: u32)
    ensures
        DapWrite::first(swd::apndp(port), address, value).send() matches StepView::Perform(
            command,
            write,
        ) && {
            &&& command->swdio[2]
            &&& command->swdio[3] == (port != PortType::DebugPort)
            &&& !command->swdio[4]
            &&& command->swdio[5] == ((address >> 2u16) & 1 == 1)
            &&& command->swdio[6] == ((address >> 3u16) & 1 == 1)
            &&& command->swdio[7] == (command->swdio[3] ^ command->swdio[5] ^ command->swdio[6])
            &&& !command->swdio[8] && command->swdio[9]
            &&& bits::bits_value(command->swdio.subrange(15, 47)) == value
            &&& write == (DapWrite::Writing {
                access_port: port != PortType::DebugPort,
                address,
                value,
                retries: 0,
            })
        },
{
    let write = DapWrite::first(swd::apndp(port), address, value);
    law_write_sends(swd::apndp(port), address, value, 0, 0);
    swd::law_request_bits(swd::apndp(port), false, address);
    let request = write.command()->swdio.take(10);
    assert forall|i: int| 0 <= i < 10 implies write.command()->swdio[i] == #[trigger] request[
        i
    ] by {}
}

/// How the acknowledgement in the answers is told apart.
pub proof fn law_answers(response: Seq<bool>)
    ensures
        waiting(ReplyView::Bits(response)) <==> response[11],
        faulting(ReplyView::Bits(response)) <==> !response[11] && response[12],
        granted(ReplyView::Bits(response)) <==> !response[11] && !response[12],
{
}

/// What an answer of the target does to a read.
///
/// - WAIT: the same request goes out again, and one attempt of five is used up. The
///   fifth WAIT is the end.
/// - FAULT: the status register, at `0x4` of the debug port, is read.
/// - Otherwise, for an access port, the buffer at `0xC` of the debug port is read.
///   For the debug port, the value is in the answer.
pub proof fn law_read_answered(read: DapRead, response: Seq<bool>, i: u32)
    requires
        read.retries < 5,
        i < 32,
    ensures
        response[11] && read.retries < 4 ==> read.next(ReplyView::Bits(response)) == (DapRead {
            retries: (read.retries + 1) as u8,
            ..read
        }).send(),
        response[11] && read.retries == 4 ==> read.next(ReplyView::Bits(response)) == StepView::<
            DapRead,
            u32,
        >::Finished(Err(DebugProbeError::Timeout)),
        !response[11] && response[12] ==> read.next(ReplyView::Bits(response)) == (DapRead {
            access_port: false,
            address: 0x4,
            retries: 0,
            faulted: true,
        }).send(),
        !response[11] && !response[12] && read.access_port ==> read.next(ReplyView::Bits(response))
            == (DapRead {
            access_port: false,
            address: 0xC,
            retries: 0,
            faulted: read.faulted,
        }).send(),
        !response[11] && !response[12] && !read.access_port && response.len() > 45 && response[45]
            == bits::odd(response.subrange(13, 45)) && !read.faulted ==> (read.next(
            ReplyView::Bits(response),
        ) matches StepView::Finished(Ok(value)) && (((value >> i) & 1 == 1) <==> response[13 + i])),
        !response[11] && !response[12] && !read.access_port && response.len() > 45 && response[45]
            == bits::odd(response.subrange(13, 45)) && read.faulted ==> read.next(
            ReplyView::Bits(response),
        ) == StepView::<DapRead, u32>::Finished(
            Err(DebugProbeError::ArchitectureSpecific(DapError::FaultResponse)),
        ),
        !response[11] && !response[12] && !read.access_port && (response.len() <= 45 || response[45]
            != bits::odd(response.subrange(13, 45))) ==> read.next(ReplyView::Bits(response))
            == StepView::<DapRead, u32>::Finished(Err(DebugProbeError::Unknown)),
{
    swd::law_acknowledgement(response);
    swd::law_response(response, i);
}

/// What an answer of the target does to a write.
///
/// - WAIT: the same request goes out again, and one attempt of five is used up. The
///   fifth WAIT is the end.
/// - FAULT: the status register, at `0x4` of the debug port, is read.
/// - Otherwise the write has succeeded.
pub proof fn law_write_answered(
    ap: bool,
    address: u16,
    value: u32,
    retries: u8,
    response: Seq<bool>,
)
    requires
        retries < 5,
    ensures
        response[11] && retries < 4 ==> (DapWrite::Writing {
            access_port: ap,
            address,
            value,
            retries,
        }).next(ReplyView::Bits(response)) == (DapWrite::Writing {
            access_port: ap,
            address,
            value,
            retries: (retries + 1) as u8,
        }).send(),
        response[11] && retries == 4 ==> (DapWrite::Writing {
            access_port: ap,
            address,
            value,
            retries,
        }).next(ReplyView::Bits(response)) == StepView::<DapWrite, ()>::Finished(
            Err(DebugProbeError::Timeout),
        ),
        !response[11] && response[12] ==> ((DapWrite::Writing {
            access_port: ap,
            address,
            value,
            retries,
        }).next(ReplyView::Bits(response)) matches StepView::Perform(command, waits) && {
            let status = DapRead { access_port: false, address: 0x4, retries: 0, faulted: false };
            &&& status.send() == StepView::<DapRead, u32>::Perform(command, status)
            &&& waits == DapWrite::ReadingStatus(status)
        }),
        !response[11] && !response[12] ==> (DapWrite::Writing {
            access_port: ap,
            address,
            value,
            retries,
        }).next(ReplyView::Bits(response)) == StepView::<DapWrite, ()>::Finished(Ok(())),
{
    swd::law_acknowledgement(response);
}

/// A write that has met a fault does what the read of the status register does, and
/// fails when that is over, whatever it gives.
pub proof fn law_write_after_fault(read: DapRead, reply: ReplyView)
    ensures
        match read.next(reply) {
            StepView::Perform(command, after) => DapWrite::ReadingStatus(read).next(reply)
                == StepView::<DapWrite, ()>::Perform(command, DapWrite::ReadingStatus(after)),
            StepView::Finished(Ok(_)) => DapWrite::ReadingStatus(read).next(reply) == StepView::<
                DapWrite,
                (),
            >::Finished(Err(DebugProbeError::Unknown)),
            StepView::Finished(Err(error)) => DapWrite::ReadingStatus(read).next(reply)
                == StepView::<DapWrite, ()>::Finished(Err(error)),
        },
        DapWrite::ReadingStatus(read).send() == StepView::<DapWrite, ()>::Perform(
            read.send()->Perform_0,
            DapWrite::ReadingStatus(read),
        ),
        DapWrite::ReadingStatus(read).wf() == read.wf(),
        DapWrite::ReadingStatus(read).accepts(reply) == read.accepts(reply),
{
}

/// A failure of the probe ends every access with that failure.
pub proof fn law_access_fails(read: DapRead, write: DapWrite, error: jaylink::Error)
    ensures
        read.accepts(ReplyView::Failed(error)),
        read.next(ReplyView::Failed(error)) == StepView::<DapRead, u32>::Finished(
            Err(DebugProbeError::ProbeSpecific(error)),
        ),
        write.accepts(ReplyView::Failed(error)),
        write.next(ReplyView::Failed(error)) == StepView::<DapWrite, ()>::Finished(
            Err(DebugProbeError::ProbeSpecific(error)),
        ),
{
}

/// An access can go on with any answer that is as long as its request, and with
/// any number of attempts left.
pub proof fn law_access_goes_on(
    read: DapRead,
    ap: bool,
    address: u16,
    value: u32,
    retries: u8,
    response: Seq<bool>,
)
    ensures
        response.len() >= 45 ==> read.accepts(ReplyView::Bits(response)),
        response.len() >= 13 ==> (DapWrite::Writing {
            access_port: ap,
            address,
            value,
            retries,
        }).accepts(ReplyView::Bits(response)),
        read.wf() <==> read.retries < 5,
        (DapWrite::Writing { access_port: ap, address, value, retries }).wf() <==> retries < 5,
{
}

/// A read of the register at `address` of the debug port whose request is granted
/// gives the value that the target sent, whatever came before while the target was
/// busy; from an access port, it is the value that the target sent for the buffer.
pub proof fn law_read_gives_sent_value(
    port: PortType,
    address: u16,
    replies: Seq<ReplyView>,
    n: int,
    m: int,
    response: Seq<bool>,
    i: u32,
)
    requires
        granted_after(replies, n),
        port == PortType::DebugPort ==> replies[n] == ReplyView::Bits(response),
        port != PortType::DebugPort ==> granted_after(replies.skip(n + 1), m) && replies.skip(
            n + 1,
        )[m] == ReplyView::Bits(response),
        response.len() > 45,
        response[45] == bits::odd(response.subrange(13, 45)),
        i < 32,
    ensures
        DapRead::first(swd::apndp(port), address, false).run(replies) matches StepView::Finished(
            Ok(value),
        ) && (((value >> i) & 1 == 1) <==> response[13 + i]),
{
    swd::law_response(response, i);
    if port == PortType::DebugPort {
        law_debug_port_read(address, replies, n);
    } else {
        law_access_port_read(address, replies, n);
        law_debug_port_read(RDBUFF, replies.skip(n + 1), m);
    }
}

/// Nothing of an access is hidden.
pub proof fn law_access_is_seen(read: DapRead, write: DapWrite)
    ensures
        read@ == read,
        write@ == write,
{
}

/// What a read of the register at `address` of `port` starts with: one transfer of
/// 47 bits, whose first ten, the only ones that the probe drives, are the request
/// for that register.
pub proof fn law_read_register(
    probe: &JLink,
    port: PortType,
    address: u16,
    step: Step<DapRead, u32>,
    i: int,
)
    requires
        call_ensures(<JLink as DAPAccess>::read_register, (probe, port, address), step),
    ensures
        step@ matches StepView::Perform(command, read) && {
            &&& command is SwdIo
            &&& command->swdio.len() == 47
            &&& !command->swdio[0] && !command->swdio[1] && command->swdio[2]
            &&& command->swdio[3] == (port != PortType::DebugPort)
            &&& command->swdio[4]
            &&& command->swdio[5] == ((address >> 2u16) & 1 == 1)
            &&& command->swdio[6] == ((address >> 3u16) & 1 == 1)
            &&& command->swdio[7] == !(command->swdio[3] ^ command->swdio[5] ^ command->swdio[6])
            &&& !command->swdio[8] && command->swdio[9]
            &&& 10 <= i < 47 ==> !command->swdio[i]
            &&& command->direction.len() == 47
            &&& 0 <= i < 47 ==> command->direction[i] == (i < 10)
            &&& read == (DapRead {
                access_port: port != PortType::DebugPort,
                address,
                retries: 0,
                faulted: false,
            })
        },
{
    let read = DapRead::first(swd::apndp(port), address, false);
    law_read_asks_for_register(port, address);
    law_read_sends(read, i);
    swd::law_request_bits(swd::apndp(port), true, address);
    let request = read.command()->swdio.take(10);
    assert(request[0] == read.command()->swdio[0]);
    assert(request[1] == read.command()->swdio[1]);
}

/// What a write of `value` to the register at `address` of `port` starts with: one
/// transfer of 48 bits, with the request for that register, a gap of five bits that
/// the probe does not drive, the 32 bits of `value`, and their parity.
pub proof fn law_write_register(
    probe: &JLink,
    port: PortType,
    address: u16,
    value: u32,
    step: Step<DapWrite, ()>,
    i: int,
)
    requires
        call_ensures(<JLink as DAPAccess>::write_register, (probe, port, address, value), step),
    ensures
        step@ matches StepView::Perform(command, write) && {
            &&& command is SwdIo
            &&& command->swdio.len() == 48
            &&& !command->swdio[0] && !command->swdio[1] && command->swdio[2]
            &&& command->swdio[3] == (port != PortType::DebugPort)
            &&& !command->swdio[4]
            &&& command->swdio[5] == ((address >> 2u16) & 1 == 1)
            &&& command->swdio[6] == ((address >> 3u16) & 1 == 1)
            &&& command->swdio[7] == (command->swdio[3] ^ command->swdio[5] ^ command->swdio[6])
            &&& !command->swdio[8] && command->swdio[9]
            &&& 10 <= i < 15 ==> !command->swdio[i]
            &&& 15 <= i < 47 ==> command->swdio[i] == ((value >> ((i - 15) as u32)) & 1 == 1)
            &&& command->swdio[47] == bits::odd(command->swdio.subrange(15, 47))
            &&& command->direction.len() == 48
            &&& 0 <= i < 48 ==> command->direction[i] == (i < 10 || i >= 15)
            &&& write == (DapWrite::Writing {
                access_port: port != PortType::DebugPort,
                address,
                value,
                retries: 0,
            })
        },
{
    let write = DapWrite::first(swd::apndp(port), address, value);
    law_write_asks_for_register(port, address, value);
    law_write_sends(swd::apndp(port), address, value, 0, i);
    swd::law_request_bits(swd::apndp(port), false, address);
    let request = write.command()->swdio.take(10);
    assert(request[0] == write.command()->swdio[0]);
    assert(request[1] == write.command()->swdio[1]);
}

/// What a read does with an answer. With WAIT the request goes out again, with the
/// same bits, unless it was the fifth. With FAULT the read can only fail. Otherwise
/// a read of the debug port gives the value in the answer, bit by bit, provided that
/// its parity is right; one of an access port asks for the buffer.
pub proof fn law_read_resumes(
    read: DapRead,
    response: Vec<bool>,
    step: Step<DapRead, u32>,
    i: u32,
)
    requires
        call_ensures(DapRead::resume, (read, Reply::Bits(response)), step),
        read.retries < 5,
        i < 32,
    ensures
        response@[11] && read.retries < 4 ==> step@ == (DapRead {
            retries: (read.retries + 1) as u8,
            ..read
        }).send(),
        response@[11] && read.retries == 4 ==> step@ == StepView::<DapRead, u32>::Finished(
            Err(DebugProbeError::Timeout),
        ),
        !response@[11] && response@[12] ==> step@ == (DapRead {
            access_port: false,
            address: 0x4,
            retries: 0,
            faulted: true,
        }).send(),
        !response@[11] && !response@[12] && read.access_port ==> step@ == (DapRead {
            access_port: false,
            address: 0xC,
            retries: 0,
            faulted: read.faulted,
        }).send(),
        !response@[11] && !response@[12] && !read.access_port && !read.faulted ==> (if
        response@.len() > 45 && response@[45] == bits::odd(response@.subrange(13, 45)) {
            step@ matches StepView::Finished(Ok(value)) && (((value >> i) & 1 == 1)
                <==> response@[13 + i])
        } else {
            step@ == StepView::<DapRead, u32>::Finished(Err(DebugProbeError::Unknown))
        }),
{
    law_read_answered(read, response@, i);
}

/// What a write does with an answer. With WAIT the request goes out again, with the
/// same bits, unless it was the fifth. With FAULT the status register is read.
/// Otherwise the write has succeeded.
pub proof fn law_write_resumes(
    ap: bool,
    address: u16,
    value: u32,
    retries: u8,
    response: Vec<bool>,
    step: Step<DapWrite, ()>,
)
    requires
        call_ensures(
            DapWrite::resume,
            (
                DapWrite::Writing { access_port: ap, address, value, retries },
                Reply::Bits(response),
            ),
            step,
        ),
        retries < 5,
    ensures
        response@[11] && retries < 4 ==> step@ == (DapWrite::Writing {
            access_port: ap,
            address,
            value,
            retries: (retries + 1) as u8,
        }).send(),
        response@[11] && retries == 4 ==> step@ == StepView::<DapWrite, ()>::Finished(
            Err(DebugProbeError::Timeout),
        ),
        !response@[11] && response@[12] ==> step@ == DapWrite::ReadingStatus(
            DapRead { access_port: false, address: 0x4, retries: 0, faulted: false },
        ).send(),
        !response@[11] && !response@[12] ==> step@ == StepView::<DapWrite, ()>::Finished(Ok(())),
{
    law_write_answered(ap, address, value, retries, response@);
}

} // verus!
