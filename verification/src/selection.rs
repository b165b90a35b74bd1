//! Selecting the target interface of a probe.
use crate::error::DebugProbeError;
use crate::link;
use crate::link::{Command, CommandView, Reply, ReplyView, Step, StepView};
use crate::protocol;
use crate::protocol::{TargetInterface, WireProtocol};
use vstd::prelude::*;

verus! {

/// A selection that waits for a reply of the probe.
#[derive(Debug, Clone, Copy)]
pub enum InterfaceSelection {
    /// The probe was asked what it can do, to select a protocol or, without one,
    /// to find out which is selected.
    Capabilities(Option<WireProtocol>),
    /// The probe was asked which interfaces it has, to select this protocol.
    Available(WireProtocol),
    /// The probe was told to select the interface of this protocol.
    Selecting(WireProtocol),
    /// The probe was asked which interface is selected.
    Current,
}

impl View for InterfaceSelection {
    type V = InterfaceSelection;

    open spec fn view(&self) -> InterfaceSelection {
        *self
    }
}

impl InterfaceSelection {
    /// The command whose reply this selection waits for.
    pub open spec fn command(self) -> CommandView {
        match self {
            InterfaceSelection::Capabilities(_) => CommandView::ReadCapabilities,
            InterfaceSelection::Available(_) => CommandView::ReadAvailableInterfaces,
            InterfaceSelection::Selecting(protocol) => CommandView::SelectInterface(
                protocol::interface_of(protocol),
            ),
            InterfaceSelection::Current => CommandView::ReadCurrentInterface,
        }
    }

    /// The step that sends the command of this selection.
    pub open spec fn send(self) -> StepView<InterfaceSelection, WireProtocol> {
        StepView::Perform(self.command(), self)
    }

    /// Whether `reply` can be the answer that this selection waits for. There is
    /// no way to go on with a selected interface that has no protocol.
    pub open spec fn accepts(self, reply: ReplyView) -> bool {
        match (self, reply) {
            (_, ReplyView::Failed(_)) => true,
            (InterfaceSelection::Capabilities(_), ReplyView::Capabilities { .. }) => true,
            (InterfaceSelection::Available(_), ReplyView::Interfaces(_)) => true,
            (InterfaceSelection::Selecting(_), ReplyView::Done) => true,
            (InterfaceSelection::Current, ReplyView::CurrentInterface(interface)) => {
                protocol::protocol_of(interface) is Ok
            },
            _ => false,
        }
    }

    /// What follows when the probe answers with `reply`.
    ///
    /// A probe that cannot switch between interfaces speaks JTAG and nothing else.
    /// Of one that can, a protocol is selected if its interface is available.
    pub open spec fn next(self, reply: ReplyView) -> StepView<InterfaceSelection, WireProtocol> {
        match (self, reply) {
            (_, ReplyView::Failed(error)) => link::probe_failure(error),
            (
                InterfaceSelection::Capabilities(wanted),
                ReplyView::Capabilities { select_if },
            ) => match wanted {
                Some(protocol) => if select_if {
                    InterfaceSelection::Available(protocol).send()
                } else if protocol == WireProtocol::Jtag {
                    StepView::Finished(Ok(WireProtocol::Jtag))
                } else {
                    StepView::Finished(Err(DebugProbeError::UnsupportedProtocol(protocol)))
                },
                None => if select_if {
                    InterfaceSelection::Current.send()
                } else {
                    StepView::Finished(Ok(WireProtocol::Jtag))
                },
            },
            (
                InterfaceSelection::Available(protocol),
                ReplyView::Interfaces(interfaces),
            ) => if interfaces.contains(protocol::interface_of(protocol)) {
                InterfaceSelection::Selecting(protocol).send()
            } else {
                StepView::Finished(Err(DebugProbeError::UnsupportedProtocol(protocol)))
            },
            (InterfaceSelection::Selecting(protocol), ReplyView::Done) => StepView::Finished(
                Ok(protocol),
            ),
            (
                InterfaceSelection::Current,
                ReplyView::CurrentInterface(interface),
            ) => StepView::Finished(Ok(protocol::protocol_of(interface)->Ok_0)),
            _ => arbitrary(),
        }
    }

    /// Where this selection is after the probe has answered with `replies`, one
    /// after the other.
    pub open spec fn run(self, replies: Seq<ReplyView>) -> StepView<
        InterfaceSelection,
        WireProtocol,
    >
        decreases replies.len(),
    {
        if replies.len() == 0 {
            self.send()
        } else {
            match self.next(replies[0]) {
                StepView::Perform(_, selection) => selection.run(replies.skip(1)),
                finished => finished,
            }
        }
    }

    /// Whether each of `replies` can be an answer to the command that was sent by
    /// then.
    pub open spec fn accepts_all(self, replies: Seq<ReplyView>) -> bool
        decreases replies.len(),
    {
        replies.len() > 0 ==> {
            &&& self.accepts(replies[0])
            &&& self.next(replies[0]) matches StepView::Perform(_, selection)
                ==> selection.accepts_all(replies.skip(1))
        }
    }

    /// Starts selecting the interface of `protocol`, or finding out which one is
    /// selected.
    pub fn start(protocol: Option<WireProtocol>) -> (step: Step<InterfaceSelection, WireProtocol>)
        ensures
            step@ == InterfaceSelection::Capabilities(protocol).send(),
    {
        Step::Perform(Command::ReadCapabilities, InterfaceSelection::Capabilities(protocol))
    }

    /// Goes on with the reply of the probe.
    pub fn resume(self, reply: Reply) -> (step: Step<InterfaceSelection, WireProtocol>)
        requires
            self.accepts(reply@),
        ensures
            step@ == self.next(reply@),
    {
        match (self, reply) {
            (_, Reply::Failed(error)) => Step::Finished(Err(DebugProbeError::from(error))),
            (InterfaceSelection::Capabilities(wanted), Reply::Capabilities { select_if }) => {
                if select_if {
                    match wanted {
                        Some(protocol) => Step::Perform(
                            Command::ReadAvailableInterfaces,
                            InterfaceSelection::Available(protocol),
                        ),
                        None => Step::Perform(
                            Command::ReadCurrentInterface,
                            InterfaceSelection::Current,
                        ),
                    }
                } else {
                    // A probe that cannot switch between interfaces has JTAG.
                    match wanted {
                        Some(WireProtocol::Jtag) => Step::Finished(Ok(WireProtocol::Jtag)),
                        Some(protocol) => Step::Finished(
                            Err(DebugProbeError::UnsupportedProtocol(protocol)),
                        ),
                        None => Step::Finished(Ok(WireProtocol::Jtag)),
                    }
                }
            },
            (InterfaceSelection::Available(protocol), Reply::Interfaces(interfaces)) => {
                if has_interface_of(&interfaces, protocol) {
                    Step::Perform(
                        Command::SelectInterface(protocol.interface()),
                        InterfaceSelection::Selecting(protocol),
                    )
                } else {
                    Step::Finished(Err(DebugProbeError::UnsupportedProtocol(protocol)))
                }
            },
            (InterfaceSelection::Selecting(protocol), Reply::Done) => Step::Finished(Ok(protocol)),
            (InterfaceSelection::Current, Reply::CurrentInterface(interface)) => {
                match WireProtocol::try_from(interface) {
                    Ok(protocol) => Step::Finished(Ok(protocol)),
                    Err(_) => vstd::pervasive::unreached(),
                }
            },
            _ => vstd::pervasive::unreached(),
        }
    }
}

/// Whether the interface of `protocol` is among `interfaces`.
fn has_interface_of(interfaces: &Vec<TargetInterface>, protocol: WireProtocol) -> (found: bool)
    ensures
        found == interfaces@.contains(protocol::interface_of(protocol)),
{
    let mut index: usize = 0;
    while index < interfaces.len()
        invariant
            index <= interfaces.len(),
            forall|i: int| 0 <= i < index ==> interfaces@[i] != protocol::interface_of(protocol),
        decreases interfaces.len() - index,
    {
        let found = match WireProtocol::try_from(interfaces[index]) {
            Ok(offered) => offered == protocol,
            Err(_) => false,
        };
        if found {
            assert(interfaces@[index as int] == protocol::interface_of(protocol));
            return true;
        }
        index += 1;
    }
    false
}

/// Whether `selection` is one of `protocol`.
pub open spec fn selects(selection: InterfaceSelection, protocol: WireProtocol) -> bool {
    ||| selection == InterfaceSelection::Capabilities(Some(protocol))
    ||| selection == InterfaceSelection::Available(protocol)
    ||| selection == InterfaceSelection::Selecting(protocol)
}

proof fn lemma_selects_what_was_asked(
    selection: InterfaceSelection,
    protocol: WireProtocol,
    replies: Seq<ReplyView>,
)
    requires
        selects(selection, protocol),
        selection.accepts_all(replies),
    ensures
        selection.run(replies) matches StepView::Finished(Ok(selected)) ==> selected == protocol,
        selection.run(replies) matches StepView::Finished(Err(error)) ==> {
            ||| error == DebugProbeError::UnsupportedProtocol(protocol)
            ||| error is ProbeSpecific
        },
    decreases replies.len(),
{
    if replies.len() > 0 {
        if let StepView::Perform(_, after) = selection.next(replies[0]) {
            lemma_selects_what_was_asked(after, protocol, replies.skip(1));
        }
    }
}

/// A selection of a protocol succeeds with that protocol and no other. It fails
/// because the probe failed, or because that protocol is not supported.
pub proof fn law_selects_what_was_asked(protocol: WireProtocol, replies: Seq<ReplyView>)
    requires
        InterfaceSelection::Capabilities(Some(protocol)).accepts_all(replies),
    ensures
        InterfaceSelection::Capabilities(Some(protocol)).run(replies) matches StepView::Finished(
            Ok(selected),
        ) ==> selected == protocol,
        InterfaceSelection::Capabilities(Some(protocol)).run(replies) matches StepView::Finished(
            Err(error),
        ) ==> {
            ||| error == DebugProbeError::UnsupportedProtocol(protocol)
            ||| error is ProbeSpecific
        },
{
    lemma_selects_what_was_asked(
        InterfaceSelection::Capabilities(Some(protocol)),
        protocol,
        replies,
    );
}

/// A probe that can switch between interfaces and has the one of `protocol`
/// selects it, and then the selection succeeds; one that has not is never told to
/// select anything.
pub proof fn law_selects_available(protocol: WireProtocol, interfaces: Seq<TargetInterface>)
    ensures
        InterfaceSelection::Capabilities(Some(protocol)).run(
            seq![
                ReplyView::Capabilities { select_if: true },
                ReplyView::Interfaces(interfaces),
            ],
        ) == (if interfaces.contains(protocol::interface_of(protocol)) {
            InterfaceSelection::Selecting(protocol).send()
        } else {
            StepView::Finished(Err(DebugProbeError::UnsupportedProtocol(protocol)))
        }),
        InterfaceSelection::Selecting(protocol).run(seq![ReplyView::Done]) == StepView::<
            InterfaceSelection,
            WireProtocol,
        >::Finished(Ok(protocol)),
{
    let replies = seq![
        ReplyView::Capabilities { select_if: true },
        ReplyView::Interfaces(interfaces),
    ];
    assert(replies.skip(1) =~= seq![ReplyView::Interfaces(interfaces)]);
    assert(replies.skip(1)[0] == ReplyView::Interfaces(interfaces));
    assert(InterfaceSelection::Capabilities(Some(protocol)).run(replies)
        == InterfaceSelection::Available(protocol).run(replies.skip(1)));
    if interfaces.contains(protocol::interface_of(protocol)) {
        assert(InterfaceSelection::Available(protocol).run(replies.skip(1))
            == InterfaceSelection::Selecting(protocol).run(replies.skip(1).skip(1)));
    }
    assert(seq![ReplyView::Done][0] == ReplyView::Done);
}

/// A probe that cannot switch between interfaces is taken to speak JTAG, whether
/// JTAG was asked for or nothing in particular, and refuses SWD.
pub proof fn law_fixed_interface_is_jtag(wanted: Option<WireProtocol>)
    ensures
        InterfaceSelection::Capabilities(wanted).run(
            seq![ReplyView::Capabilities { select_if: false }],
        ) == (if wanted == Some(WireProtocol::Swd) {
            StepView::<InterfaceSelection, WireProtocol>::Finished(
                Err(DebugProbeError::UnsupportedProtocol(WireProtocol::Swd)),
            )
        } else {
            StepView::Finished(Ok(WireProtocol::Jtag))
        }),
{
    let reply = ReplyView::Capabilities { select_if: false };
    assert(seq![reply][0] == reply);
}

/// Without a protocol in particular, the selection finds out the one that goes
/// over the selected interface, and selects nothing.
pub proof fn law_finds_out_selected(interface: TargetInterface, protocol: WireProtocol)
    requires
        interface == protocol::interface_of(protocol),
    ensures
        InterfaceSelection::Capabilities(None).run(
            seq![ReplyView::Capabilities { select_if: true }],
        ) == InterfaceSelection::Current.send(),
        InterfaceSelection::Current.run(seq![ReplyView::CurrentInterface(interface)])
            == StepView::<InterfaceSelection, WireProtocol>::Finished(Ok(protocol)),
{
    let reply = ReplyView::Capabilities { select_if: true };
    assert(seq![reply][0] == reply);
    assert(InterfaceSelection::Capabilities(None).run(seq![reply])
        == InterfaceSelection::Current.run(seq![reply].skip(1)));
    let current = ReplyView::CurrentInterface(interface);
    assert(seq![current][0] == current);
}

/// What the probe is asked for while an interface is selected. The interface of
/// SWD is selected for SWD, and that of JTAG for JTAG.
pub proof fn law_selection_commands(wanted: Option<WireProtocol>, protocol: WireProtocol)
    ensures
        InterfaceSelection::Capabilities(wanted).send() == StepView::<
            InterfaceSelection,
            WireProtocol,
        >::Perform(CommandView::ReadCapabilities, InterfaceSelection::Capabilities(wanted)),
        InterfaceSelection::Available(protocol).send() == StepView::<
            InterfaceSelection,
            WireProtocol,
        >::Perform(CommandView::ReadAvailableInterfaces, InterfaceSelection::Available(protocol)),
        InterfaceSelection::Selecting(WireProtocol::Swd).send() == StepView::<
            InterfaceSelection,
            WireProtocol,
        >::Perform(
            CommandView::SelectInterface(TargetInterface::Swd),
            InterfaceSelection::Selecting(WireProtocol::Swd),
        ),
        InterfaceSelection::Selecting(WireProtocol::Jtag).send() == StepView::<
            InterfaceSelection,
            WireProtocol,
        >::Perform(
            CommandView::SelectInterface(TargetInterface::Jtag),
            InterfaceSelection::Selecting(WireProtocol::Jtag),
        ),
        InterfaceSelection::Current.send() == StepView::<InterfaceSelection, WireProtocol>::Perform(
            CommandView::ReadCurrentInterface,
            InterfaceSelection::Current,
        ),
{
}

/// What the answers of a probe that can switch between interfaces lead to: SWD is
/// selected exactly if the SWD interface is available, JTAG exactly if the JTAG
/// interface is, and then the selection has succeeded.
pub proof fn law_selection_answers(
    protocol: WireProtocol,
    interfaces: Seq<TargetInterface>,
)
    ensures
        InterfaceSelection::Capabilities(Some(protocol)).next(
            ReplyView::Capabilities { select_if: true },
        ) == InterfaceSelection::Available(protocol).send(),
        InterfaceSelection::Capabilities(None).next(ReplyView::Capabilities { select_if: true })
            == InterfaceSelection::Current.send(),
        ({
            let available = match protocol {
                WireProtocol::Swd => interfaces.contains(TargetInterface::Swd),
                WireProtocol::Jtag => interfaces.contains(TargetInterface::Jtag),
            };
            InterfaceSelection::Available(protocol).next(ReplyView::Interfaces(interfaces)) == (
            if available {
                InterfaceSelection::Selecting(protocol).send()
            } else {
                StepView::Finished(Err(DebugProbeError::UnsupportedProtocol(protocol)))
            })
        }),
        InterfaceSelection::Selecting(protocol).next(ReplyView::Done) == StepView::<
            InterfaceSelection,
            WireProtocol,
        >::Finished(Ok(protocol)),
        InterfaceSelection::Current.next(ReplyView::CurrentInterface(TargetInterface::Swd))
            == StepView::<InterfaceSelection, WireProtocol>::Finished(Ok(WireProtocol::Swd)),
        InterfaceSelection::Current.next(ReplyView::CurrentInterface(TargetInterface::Jtag))
            == StepView::<InterfaceSelection, WireProtocol>::Finished(Ok(WireProtocol::Jtag)),
{
}

/// What the answer of a probe that cannot switch between interfaces leads to:
/// JTAG, unless SWD was asked for, which is refused.
pub proof fn law_selection_without_switch()
    ensures
        InterfaceSelection::Capabilities(Some(WireProtocol::Jtag)).next(
            ReplyView::Capabilities { select_if: false },
        ) == StepView::<InterfaceSelection, WireProtocol>::Finished(Ok(WireProtocol::Jtag)),
        InterfaceSelection::Capabilities(None).next(ReplyView::Capabilities { select_if: false })
            == StepView::<InterfaceSelection, WireProtocol>::Finished(Ok(WireProtocol::Jtag)),
        InterfaceSelection::Capabilities(Some(WireProtocol::Swd)).next(
            ReplyView::Capabilities { select_if: false },
        ) == StepView::<InterfaceSelection, WireProtocol>::Finished(
            Err(DebugProbeError::UnsupportedProtocol(WireProtocol::Swd)),
        ),
{
}

/// A failure of the probe ends a selection with that failure.
pub proof fn law_selection_fails(selection: InterfaceSelection, error: jaylink::Error)
    ensures
        selection.accepts(ReplyView::Failed(error)),
        selection.next(ReplyView::Failed(error)) == StepView::<
            InterfaceSelection,
            WireProtocol,
        >::Finished(Err(DebugProbeError::ProbeSpecific(error))),
{
}

/// A selection can go on with every answer to what it has asked for, but for a
/// selected interface that there is no protocol for.
pub proof fn law_selection_goes_on(
    wanted: Option<WireProtocol>,
    protocol: WireProtocol,
    select_if: bool,
    interfaces: Seq<TargetInterface>,
)
    ensures
        InterfaceSelection::Capabilities(wanted).accepts(ReplyView::Capabilities { select_if }),
        InterfaceSelection::Available(protocol).accepts(ReplyView::Interfaces(interfaces)),
        InterfaceSelection::Selecting(protocol).accepts(ReplyView::Done),
        InterfaceSelection::Current.accepts(ReplyView::CurrentInterface(TargetInterface::Swd)),
        InterfaceSelection::Current.accepts(ReplyView::CurrentInterface(TargetInterface::Jtag)),
{
}

/// Nothing of a selection is hidden.
pub proof fn law_selection_is_seen(selection: InterfaceSelection)
    ensures
        selection@ == selection,
{
}

} // verus!
