//! Setting the clock of the target interface.
use crate::error::DebugProbeError;
use crate::link;
use crate::link::{Command, CommandView, Reply, ReplyView, Speeds, Step, StepView};
use vstd::arithmetic::div_mod::*;
use vstd::prelude::*;

verus! {

/// Whether a probe can be asked for a speed of `speed_khz` at all.
pub open spec fn speed_in_range(speed_khz: u32) -> bool {
    0 < speed_khz < 0xffff
}

/// Whether a speed of `speed_khz` can be worked out from `speeds`: the sum of
/// base frequency and speed has to fit into 32 bits, and there has to be a
/// divider other than zero.
pub open spec fn speed_computable(speeds: Speeds, speed_khz: u32) -> bool {
    &&& speeds.base_freq + 1000 * speed_khz <= u32::MAX
    &&& speeds.base_freq != 0 || speeds.min_div != 0
}

/// `a / b`, rounded up.
pub open spec fn div_up(a: int, b: int) -> int {
    (a + b - 1) / b
}

/// The divider of the base frequency that gives a speed of at most `speed_khz`.
pub open spec fn divider(speeds: Speeds, speed_khz: u32) -> int {
    let needed = div_up(speeds.base_freq as int, 1000 * speed_khz);
    if needed >= speeds.min_div {
        needed
    } else {
        speeds.min_div as int
    }
}

/// The speed in kHz, rounded up, that the probe reaches when it is asked for
/// `speed_khz`.
pub open spec fn reached_khz(speeds: Speeds, speed_khz: u32) -> int {
    div_up(speeds.base_freq as int / divider(speeds, speed_khz), 1000)
}

proof fn lemma_divider(base: int, hz: int, div: int)
    requires
        0 <= base,
        0 < hz,
        0 < div,
    ensures
        base / div <= hz <==> base < div * (hz + 1),
        div >= div_up(base, hz) ==> base / div <= hz,
        div_up(base, hz) >= 0,
        div_up(base, hz) == 0 <==> base == 0,
{
    let up = div_up(base, hz);
    lemma_fundamental_div_mod(base, div);
    lemma_fundamental_div_mod(base + hz - 1, hz);
    lemma_mod_pos_bound(base, div);
    lemma_mod_pos_bound(base + hz - 1, hz);
    let q = base / div;
    if q <= hz {
        assert(div * q <= div * hz) by (nonlinear_arith)
            requires
                q <= hz,
                0 < div,
        ;
        assert(div * (hz + 1) == div * hz + div) by (nonlinear_arith);
    } else {
        assert(div * q >= div * (hz + 1)) by (nonlinear_arith)
            requires
                q >= hz + 1,
                0 < div,
        ;
    }
    // hz * up >= base
    assert(hz * up + (base + hz - 1) % hz == base + hz - 1);
    assert(hz * up >= base);
    assert(up >= 0) by {
        lemma_div_pos_is_pos(base + hz - 1, hz);
    }
    if div >= up {
        assert(hz * div >= hz * up) by (nonlinear_arith)
            requires
                div >= up,
                0 < hz,
        ;
        assert(div * (hz + 1) == hz * div + div) by (nonlinear_arith);
    }
    if base == 0 {
        lemma_basic_div(hz - 1, hz);
    }
}

/// The speed that a probe reaches is at most the one that was asked for, so it
/// can be set.
pub proof fn law_speed_not_exceeded(speeds: Speeds, speed_khz: u32)
    requires
        speed_in_range(speed_khz),
        speed_computable(speeds, speed_khz),
    ensures
        divider(speeds, speed_khz) >= speeds.min_div,
        divider(speeds, speed_khz) > 0,
        speeds.base_freq as int / divider(speeds, speed_khz) <= 1000 * speed_khz,
        0 <= reached_khz(speeds, speed_khz) <= speed_khz,
{
    let base = speeds.base_freq as int;
    let hz = 1000 * speed_khz;
    lemma_divider(base, hz, 1);
    let div = divider(speeds, speed_khz);
    lemma_divider(base, hz, div);
    lemma_div_pos_is_pos(base, div);
}

/// A smaller divider would be too small: either the probe does not have it, or it
/// gives a speed above the one that was asked for.
pub proof fn law_divider_is_smallest(speeds: Speeds, speed_khz: u32, smaller: int)
    requires
        speed_in_range(speed_khz),
        speed_computable(speeds, speed_khz),
        0 < smaller < divider(speeds, speed_khz),
    ensures
        smaller < speeds.min_div || speeds.base_freq > smaller * (1000 * speed_khz),
{
    let base = speeds.base_freq as int;
    let hz = 1000 * speed_khz;
    let up = div_up(base, hz);
    if smaller >= speeds.min_div {
        assert(smaller < up);
        lemma_fundamental_div_mod(base + hz - 1, hz);
        lemma_mod_pos_bound(base + hz - 1, hz);
        assert(hz * (up - 1) == hz * up - hz) by (nonlinear_arith);
        assert(smaller * hz <= hz * (up - 1)) by (nonlinear_arith)
            requires
                smaller <= up - 1,
                0 < hz,
        ;
    }
}

/// Whether a speed of `speed_khz` can be worked out from `speeds`.
pub fn is_computable(speeds: Speeds, speed_khz: u32) -> (computable: bool)
    ensures
        computable == speed_computable(speeds, speed_khz),
{
    let sum: u64 = speeds.base_freq as u64 + 1000 * (speed_khz as u64);
    sum <= u32::MAX as u64 && (speeds.base_freq != 0 || speeds.min_div != 0)
}

/// The speed in kHz that the probe reaches when it is asked for `speed_khz`.
pub fn reachable_speed(speeds: Speeds, speed_khz: u32) -> (actual_khz: u32)
    requires
        speed_in_range(speed_khz),
        speed_computable(speeds, speed_khz),
    ensures
        actual_khz == reached_khz(speeds, speed_khz),
        actual_khz <= speed_khz,
{
    proof {
        law_speed_not_exceeded(speeds, speed_khz);
    }
    let speed_hz: u32 = 1000 * speed_khz;
    let needed: u32 = (speeds.base_freq + speed_hz - 1) / speed_hz;
    let min_div: u32 = speeds.min_div as u32;
    let div: u32 = if needed >= min_div {
        needed
    } else {
        min_div
    };
    assert(div == divider(speeds, speed_khz));
    let actual_hz: u32 = speeds.base_freq / div;
    (actual_hz + 999) / 1000
}

/// A change of the speed that waits for a reply of the probe.
#[derive(Debug, Clone, Copy)]
pub enum SpeedChange {
    /// The probe was asked for its clock, to set this speed in kHz.
    Speeds(u32),
    /// The probe was told to use this speed in kHz.
    Applying(u32),
}

impl View for SpeedChange {
    type V = SpeedChange;

    open spec fn view(&self) -> SpeedChange {
        *self
    }
}

impl SpeedChange {
    /// Whether the speed is one that a probe can be asked for.
    pub open spec fn wf(self) -> bool {
        match self {
            SpeedChange::Speeds(speed_khz) => speed_in_range(speed_khz),
            SpeedChange::Applying(actual_khz) => actual_khz < 0xffff,
        }
    }

    /// The command whose reply this change waits for.
    pub open spec fn command(self) -> CommandView {
        match self {
            SpeedChange::Speeds(_) => CommandView::ReadSpeeds,
            SpeedChange::Applying(actual_khz) => CommandView::SetSpeed(
                link::communication_speed(actual_khz as u16)->0,
            ),
        }
    }

    /// The step that sends the command of this change.
    pub open spec fn send(self) -> StepView<SpeedChange, u32> {
        StepView::Perform(self.command(), self)
    }

    /// The first step of a change to `speed_khz`.
    pub open spec fn first(speed_khz: u32) -> StepView<SpeedChange, u32> {
        if speed_in_range(speed_khz) {
            SpeedChange::Speeds(speed_khz).send()
        } else {
            StepView::Finished(Err(DebugProbeError::UnsupportedSpeed(speed_khz)))
        }
    }

    /// Whether `reply` can be the answer that this change waits for.
    pub open spec fn accepts(self, reply: ReplyView) -> bool {
        match (self, reply) {
            (_, ReplyView::Failed(_)) => true,
            (SpeedChange::Speeds(speed_khz), ReplyView::Speeds(speeds)) => speed_computable(
                speeds,
                speed_khz,
            ),
            (SpeedChange::Applying(_), ReplyView::Done) => true,
            _ => false,
        }
    }

    /// What follows when the probe answers with `reply`. A probe that does not
    /// tell its clock is told to use the very speed that was asked for.
    pub open spec fn next(self, reply: ReplyView) -> StepView<SpeedChange, u32> {
        match (self, reply) {
            (SpeedChange::Speeds(speed_khz), ReplyView::Speeds(speeds)) => SpeedChange::Applying(
                reached_khz(speeds, speed_khz) as u32,
            ).send(),
            (SpeedChange::Speeds(speed_khz), ReplyView::Failed(_)) => SpeedChange::Applying(
                speed_khz,
            ).send(),
            (SpeedChange::Applying(actual_khz), ReplyView::Done) => StepView::Finished(
                Ok(actual_khz),
            ),
            (SpeedChange::Applying(_), ReplyView::Failed(error)) => link::probe_failure(error),
            _ => arbitrary(),
        }
    }

    /// Starts a change to `speed_khz`.
    pub fn start(speed_khz: u32) -> (step: Step<SpeedChange, u32>)
        ensures
            step@ == SpeedChange::first(speed_khz),
            step matches Step::Perform(_, change) ==> change.wf(),
    {
        if speed_khz == 0 || speed_khz >= 0xffff {
            return Step::Finished(Err(DebugProbeError::UnsupportedSpeed(speed_khz)));
        }
        Step::Perform(Command::ReadSpeeds, SpeedChange::Speeds(speed_khz))
    }

    /// Tells the probe to use a speed.
    fn apply(actual_khz: u32) -> (step: Step<SpeedChange, u32>)
        requires
            actual_khz < 0xffff,
        ensures
            step@ == SpeedChange::Applying(actual_khz).send(),
            step matches Step::Perform(_, change) && change.wf(),
            step matches Step::Perform(Command::SetSpeed(setting), _)
                && link::communication_speed(actual_khz as u16) == Some(setting),
    {
        let speed = jaylink::CommunicationSpeed::khz(actual_khz as u16).unwrap();
        Step::Perform(Command::SetSpeed(speed), SpeedChange::Applying(actual_khz))
    }

    /// Goes on with the reply of the probe.
    pub fn resume(self, reply: Reply) -> (step: Step<SpeedChange, u32>)
        requires
            self.wf(),
            self.accepts(reply@),
        ensures
            step@ == self.next(reply@),
            step matches Step::Perform(_, change) ==> change.wf(),
            step matches Step::Perform(command, SpeedChange::Applying(actual_khz)) ==> (
            command matches Command::SetSpeed(setting) && link::communication_speed(
                actual_khz as u16,
            ) == Some(setting)),
    {
        match (self, reply) {
            (SpeedChange::Speeds(speed_khz), Reply::Speeds(speeds)) => SpeedChange::apply(
                reachable_speed(speeds, speed_khz),
            ),
            (SpeedChange::Speeds(speed_khz), Reply::Failed(_)) => SpeedChange::apply(speed_khz),
            (SpeedChange::Applying(actual_khz), Reply::Done) => Step::Finished(Ok(actual_khz)),
            (SpeedChange::Applying(_), Reply::Failed(error)) => Step::Finished(
                Err(DebugProbeError::from(error)),
            ),
            _ => vstd::pervasive::unreached(),
        }
    }
}

/// A change to a speed in range starts with the question for the clock of the
/// probe; any other speed is refused.
pub proof fn law_speed_range(speed_khz: u32)
    ensures
        1 <= speed_khz <= 65534 ==> SpeedChange::first(speed_khz) == StepView::<
            SpeedChange,
            u32,
        >::Perform(CommandView::ReadSpeeds, SpeedChange::Speeds(speed_khz)),
        speed_khz == 0 || speed_khz >= 65535 ==> SpeedChange::first(speed_khz) == StepView::<
            SpeedChange,
            u32,
        >::Finished(Err(DebugProbeError::UnsupportedSpeed(speed_khz))),
        speed_in_range(speed_khz) <==> 1 <= speed_khz <= 65534,
        SpeedChange::Speeds(speed_khz).wf() <==> 1 <= speed_khz <= 65534,
        SpeedChange::Applying(speed_khz).wf() <==> speed_khz <= 65534,
{
}

/// A change waits for the answer to the setting of the very speed that it will
/// report, and to nothing else.
pub proof fn law_setting_is_reported(actual_khz: u32, error: jaylink::Error)
    ensures
        SpeedChange::Applying(actual_khz).send() == StepView::<SpeedChange, u32>::Perform(
            CommandView::SetSpeed(link::communication_speed(actual_khz as u16)->0),
            SpeedChange::Applying(actual_khz),
        ),
        SpeedChange::Applying(actual_khz).accepts(ReplyView::Done),
        SpeedChange::Applying(actual_khz).next(ReplyView::Done) == StepView::<
            SpeedChange,
            u32,
        >::Finished(Ok(actual_khz)),
        SpeedChange::Applying(actual_khz).accepts(ReplyView::Failed(error)),
        SpeedChange::Applying(actual_khz).next(ReplyView::Failed(error)) == StepView::<
            SpeedChange,
            u32,
        >::Finished(Err(DebugProbeError::ProbeSpecific(error))),
{
}

/// A probe that does not tell its clock is set to the speed that was asked for.
pub proof fn law_unknown_clock(speed_khz: u32, error: jaylink::Error)
    ensures
        SpeedChange::Speeds(speed_khz).accepts(ReplyView::Failed(error)),
        SpeedChange::Speeds(speed_khz).next(ReplyView::Failed(error)) == StepView::<
            SpeedChange,
            u32,
        >::Perform(
            CommandView::SetSpeed(link::communication_speed(speed_khz as u16)->0),
            SpeedChange::Applying(speed_khz),
        ),
{
}

/// Whether a speed can be worked out from the clock of a probe, and so whether a
/// change can go on with that clock.
pub proof fn law_computable(speeds: Speeds, speed_khz: u32)
    ensures
        speed_computable(speeds, speed_khz) <==> speeds.base_freq + 1000 * speed_khz
            <= 0xffff_ffff && (speeds.base_freq > 0 || speeds.min_div > 0),
        SpeedChange::Speeds(speed_khz).accepts(ReplyView::Speeds(speeds)) == speed_computable(
            speeds,
            speed_khz,
        ),
{
}

/// A probe that tells its clock is set to the speed that it reaches with the
/// smallest divider that it has and that does not exceed the speed that was asked
/// for. `div` is that divider if the probe has it, if it is large enough, and if
/// there is none below it that is. The speed is the base frequency, divided in Hz,
/// and rounded up to kHz.
pub proof fn law_known_clock(speeds: Speeds, speed_khz: u32, div: int)
    requires
        1 <= speed_khz <= 65534,
        speeds.base_freq + 1000 * speed_khz <= 0xffff_ffff,
        speeds.base_freq > 0 || speeds.min_div > 0,
        div >= 1,
        div >= speeds.min_div,
        speeds.base_freq <= div * (1000 * speed_khz),
        div == 1 || div == speeds.min_div || speeds.base_freq > (div - 1) * (1000 * speed_khz),
    ensures
        SpeedChange::Speeds(speed_khz).next(ReplyView::Speeds(speeds)) matches StepView::Perform(
            command,
            SpeedChange::Applying(actual_khz),
        ) && {
            &&& 1000 * (actual_khz - 1) < speeds.base_freq as int / div <= 1000 * actual_khz
            &&& actual_khz <= speed_khz
            &&& actual_khz == reached_khz(speeds, speed_khz)
            &&& command == CommandView::SetSpeed(
                link::communication_speed(actual_khz as u16)->0,
            )
        },
{
    let base = speeds.base_freq as int;
    let hz = 1000 * speed_khz;
    let chosen = divider(speeds, speed_khz);
    law_speed_not_exceeded(speeds, speed_khz);
    lemma_fundamental_div_mod(base + hz - 1, hz);
    lemma_mod_pos_bound(base + hz - 1, hz);
    let up = div_up(base, hz);
    if div < chosen {
        law_divider_is_smallest(speeds, speed_khz, div);
        assert(false);
    }
    if div > chosen {
        // The divider that was chosen is large enough.
        assert(hz * up >= base);
        assert(hz * chosen >= hz * up) by (nonlinear_arith)
            requires
                chosen >= up,
                hz > 0,
        ;
        assert((div - 1) * hz >= hz * chosen) by (nonlinear_arith)
            requires
                div - 1 >= chosen,
                hz > 0,
        ;
        assert(false);
    }
    let reached = base / div;
    lemma_div_pos_is_pos(base, div);
    lemma_fundamental_div_mod(reached + 999, 1000);
}

/// Nothing of a change is hidden.
pub proof fn law_change_is_seen(change: SpeedChange)
    ensures
        change@ == change,
{
}

/// When the probe is told a speed, it is told the one that the change will report:
/// the setting that `jaylink` makes of that very number of kHz.
pub proof fn law_probe_is_told_the_speed(
    change: SpeedChange,
    reply: Reply,
    command: Command,
    actual_khz: u32,
)
    requires
        call_ensures(
            SpeedChange::resume,
            (change, reply),
            Step::<SpeedChange, u32>::Perform(command, SpeedChange::Applying(actual_khz)),
        ),
    ensures
        command matches Command::SetSpeed(setting) && link::communication_speed(actual_khz as u16)
            == Some(setting),
        SpeedChange::Applying(actual_khz).next(ReplyView::Done) == StepView::<
            SpeedChange,
            u32,
        >::Finished(Ok(actual_khz)),
        change matches SpeedChange::Speeds(speed_khz) && reply is Failed ==> actual_khz
            == change->Speeds_0,
{
    let step = Step::<SpeedChange, u32>::Perform(command, SpeedChange::Applying(actual_khz));
    assert(step@ == change.next(reply@));
}

/// A change to a speed starts with the question for the clock of the probe, unless
/// the speed is out of range.
pub proof fn law_change_starts(speed_khz: u32, step: Step<SpeedChange, u32>)
    requires
        call_ensures(SpeedChange::start, (speed_khz,), step),
    ensures
        step@ == (if 1 <= speed_khz <= 65534 {
            StepView::<SpeedChange, u32>::Perform(
                CommandView::ReadSpeeds,
                SpeedChange::Speeds(speed_khz),
            )
        } else {
            StepView::Finished(Err(DebugProbeError::UnsupportedSpeed(speed_khz)))
        }),
{
}

} // verus!
