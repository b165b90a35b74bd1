//! JTAG scans as bit sequences on the TMS and TDI lines.
//!
//! A scan starts and ends in the Run-Test/Idle state of the TAP controller of the
//! target. TMS walks the controller to the shift state of a register, keeps it
//! there while the bits of TDI are shifted in, and walks it back. The last bit is
//! shifted in on the way out.
use crate::bits;
use crate::link::{Command, CommandView};
use vstd::arithmetic::power2::*;
use vstd::prelude::*;
use vstd::slice::slice_subrange;

verus! {

/// The states of the TAP controller of IEEE 1149.1.
pub enum TapState {
    TestLogicReset,
    RunTestIdle,
    SelectDrScan,
    CaptureDr,
    ShiftDr,
    Exit1Dr,
    PauseDr,
    Exit2Dr,
    UpdateDr,
    SelectIrScan,
    CaptureIr,
    ShiftIr,
    Exit1Ir,
    PauseIr,
    Exit2Ir,
    UpdateIr,
}

/// The state that the TAP controller goes to on a clock with `tms`.
pub open spec fn tap_next(state: TapState, tms: bool) -> TapState {
    match state {
        TapState::TestLogicReset => if tms {
            TapState::TestLogicReset
        } else {
            TapState::RunTestIdle
        },
        TapState::RunTestIdle => if tms {
            TapState::SelectDrScan
        } else {
            TapState::RunTestIdle
        },
        TapState::SelectDrScan => if tms {
            TapState::SelectIrScan
        } else {
            TapState::CaptureDr
        },
        TapState::CaptureDr => if tms {
            TapState::Exit1Dr
        } else {
            TapState::ShiftDr
        },
        TapState::ShiftDr => if tms {
            TapState::Exit1Dr
        } else {
            TapState::ShiftDr
        },
        TapState::Exit1Dr => if tms {
            TapState::UpdateDr
        } else {
            TapState::PauseDr
        },
        TapState::PauseDr => if tms {
            TapState::Exit2Dr
        } else {
            TapState::PauseDr
        },
        TapState::Exit2Dr => if tms {
            TapState::UpdateDr
        } else {
            TapState::ShiftDr
        },
        TapState::UpdateDr => if tms {
            TapState::SelectDrScan
        } else {
            TapState::RunTestIdle
        },
        TapState::SelectIrScan => if tms {
            TapState::TestLogicReset
        } else {
            TapState::CaptureIr
        },
        TapState::CaptureIr => if tms {
            TapState::Exit1Ir
        } else {
            TapState::ShiftIr
        },
        TapState::ShiftIr => if tms {
            TapState::Exit1Ir
        } else {
            TapState::ShiftIr
        },
        TapState::Exit1Ir => if tms {
            TapState::UpdateIr
        } else {
            TapState::PauseIr
        },
        TapState::PauseIr => if tms {
            TapState::Exit2Ir
        } else {
            TapState::PauseIr
        },
        TapState::Exit2Ir => if tms {
            TapState::UpdateIr
        } else {
            TapState::ShiftIr
        },
        TapState::UpdateIr => if tms {
            TapState::SelectDrScan
        } else {
            TapState::RunTestIdle
        },
    }
}

/// The state that the TAP controller is in after the clocks of `tms`.
pub open spec fn tap_run(state: TapState, tms: Seq<bool>) -> TapState
    decreases tms.len(),
{
    if tms.len() == 0 {
        state
    } else {
        tap_next(tap_run(state, tms.drop_last()), tms.last())
    }
}

/// The bits of `tdi` that a register takes in, which are those on the clocks on
/// which the TAP controller is in `shift`.
pub open spec fn shifted_in(
    state: TapState,
    shift: TapState,
    tms: Seq<bool>,
    tdi: Seq<bool>,
) -> Seq<bool>
    decreases tms.len(),
{
    if tms.len() == 0 {
        Seq::empty()
    } else {
        let before = shifted_in(state, shift, tms.drop_last(), tdi);
        if tap_run(state, tms.drop_last()) == shift {
            before.push(tdi[tms.len() - 1])
        } else {
            before
        }
    }
}

/// TMS during a scan of a data register of `n` bits. The controller then idles
/// for `idle` clocks.
pub open spec fn dr_tms(n: nat, idle: nat) -> Seq<bool> {
    seq![true, false, false] + bits::repeated(false, (n - 1) as nat) + seq![true, true, false]
        + bits::repeated(false, idle)
}

/// TDI during a scan of a data register of `n` bits that only reads it.
pub open spec fn dr_read_tdi(n: nat, idle: nat) -> Seq<bool> {
    bits::repeated(false, n + 5 + idle)
}

/// TDI during a scan that writes the first `n` bits of `data` to a data register.
pub open spec fn dr_write_tdi(data: Seq<u8>, n: nat, idle: nat) -> Seq<bool> {
    bits::repeated(false, 3) + bits::data_bits(data, n) + bits::repeated(false, 2)
        + bits::repeated(false, idle)
}

/// TMS during a scan of an instruction register of `n` bits.
pub open spec fn ir_tms(n: nat) -> Seq<bool> {
    seq![true, true, false, false] + bits::repeated(false, (n - 1) as nat) + seq![
        true,
        true,
        false,
    ]
}

/// TDI during a scan that writes the first `n` bits of `data` to the instruction
/// register.
pub open spec fn ir_tdi(data: Seq<u8>, n: nat) -> Seq<bool> {
    bits::repeated(false, 4) + bits::data_bits(data, n) + bits::repeated(false, 2)
}

/// TMS for a reset of the TAP controller: five ones, and then into the idle state.
pub open spec fn reset_tms() -> Seq<bool> {
    bits::repeated(true, 5).push(false)
}

/// The scan that reads a data register.
pub open spec fn dr_read(n: nat, idle: nat) -> CommandView {
    CommandView::JtagIo { tms: dr_tms(n, idle), tdi: dr_read_tdi(n, idle) }
}

/// The scan that writes a data register.
pub open spec fn dr_write(data: Seq<u8>, n: nat, idle: nat) -> CommandView {
    CommandView::JtagIo { tms: dr_tms(n, idle), tdi: dr_write_tdi(data, n, idle) }
}

/// The scan that writes the instruction register.
pub open spec fn ir_write(data: Seq<u8>, n: nat) -> CommandView {
    CommandView::JtagIo { tms: ir_tms(n), tdi: ir_tdi(data, n) }
}

/// The transfer that resets the TAP controller.
pub open spec fn chain_reset() -> CommandView {
    CommandView::JtagIo { tms: reset_tms(), tdi: bits::repeated(false, 6) }
}

/// The contents of a data register of `n` bits, as they came out during a scan.
pub open spec fn dr_contents(response: Seq<bool>, n: nat) -> Seq<u8> {
    bits::pack(response.subrange(3, 3 + n as int))
}

/// Whether a scan of a data register of `n` bits with `idle` idle clocks can be
/// written down.
pub open spec fn scan_fits(n: nat, idle: nat) -> bool {
    1 <= n && n + 5 + idle <= usize::MAX
}

/// TMS during a scan of a data register.
fn dr_tms_sequence(register_bits: usize, idle_cycles: u8) -> (tms: Vec<bool>)
    requires
        scan_fits(register_bits as nat, idle_cycles as nat),
    ensures
        tms@ == dr_tms(register_bits as nat, idle_cycles as nat),
{
    let mut tms: Vec<bool> = vec![true, false, false];
    // The last bit is shifted on the way out of the shift state.
    bits::push_repeated(&mut tms, false, register_bits - 1);
    bits::push_bits(&mut tms, &[true, true, false]);
    bits::push_repeated(&mut tms, false, idle_cycles as usize);
    assert(tms@ =~= dr_tms(register_bits as nat, idle_cycles as nat));
    tms
}

/// The scan that reads a data register of `register_bits` bits.
pub fn scan_dr_read(register_bits: usize, idle_cycles: u8) -> (command: Command)
    requires
        scan_fits(register_bits as nat, idle_cycles as nat),
    ensures
        command@ == dr_read(register_bits as nat, idle_cycles as nat),
{
    let tms = dr_tms_sequence(register_bits, idle_cycles);
    let mut tdi: Vec<bool> = Vec::new();
    bits::push_repeated(&mut tdi, false, register_bits + 5 + idle_cycles as usize);
    assert(tdi@ =~= dr_read_tdi(register_bits as nat, idle_cycles as nat));
    Command::JtagIo { tms, tdi }
}

/// The scan that writes the first `register_bits` bits of `data` to a data
/// register.
pub fn scan_dr_write(data: &[u8], register_bits: usize, idle_cycles: u8) -> (command: Command)
    requires
        scan_fits(register_bits as nat, idle_cycles as nat),
        register_bits <= 8 * data@.len(),
    ensures
        command@ == dr_write(data@, register_bits as nat, idle_cycles as nat),
{
    let tms = dr_tms_sequence(register_bits, idle_cycles);
    let mut tdi: Vec<bool> = Vec::new();
    bits::push_repeated(&mut tdi, false, 3);
    bits::push_data_bits(&mut tdi, data, register_bits);
    // One less than for TMS, as the last bit of data goes out with the first.
    bits::push_repeated(&mut tdi, false, 2);
    bits::push_repeated(&mut tdi, false, idle_cycles as usize);
    assert(tdi@ =~= dr_write_tdi(data@, register_bits as nat, idle_cycles as nat));
    Command::JtagIo { tms, tdi }
}

/// The scan that writes the first `len` bits of `data` to the instruction
/// register.
pub fn scan_ir_write(data: &[u8], len: usize) -> (command: Command)
    requires
        1 <= len <= 8 * data@.len(),
    ensures
        command@ == ir_write(data@, len as nat),
{
    let mut tms: Vec<bool> = vec![true, true, false, false];
    bits::push_repeated(&mut tms, false, len - 1);
    bits::push_bits(&mut tms, &[true, true, false]);
    assert(tms@ =~= ir_tms(len as nat));
    let mut tdi: Vec<bool> = Vec::new();
    bits::push_repeated(&mut tdi, false, 4);
    bits::push_data_bits(&mut tdi, data, len);
    bits::push_repeated(&mut tdi, false, 2);
    assert(tdi@ =~= ir_tdi(data@, len as nat));
    Command::JtagIo { tms, tdi }
}

/// The transfer that resets the TAP controller.
pub fn reset_chain() -> (command: Command)
    ensures
        command@ == chain_reset(),
{
    let mut tms: Vec<bool> = Vec::new();
    bits::push_repeated(&mut tms, true, 5);
    tms.push(false);
    let mut tdi: Vec<bool> = Vec::new();
    bits::push_repeated(&mut tdi, false, 6);
    assert(tms@ =~= reset_tms());
    assert(tdi@ =~= bits::repeated(false, 6));
    Command::JtagIo { tms, tdi }
}

/// The contents of a data register, as they came out during a scan.
pub fn decode_dr(response: &[bool], register_bits: usize) -> (contents: Vec<u8>)
    requires
        3 + register_bits <= response@.len(),
    ensures
        contents@ == dr_contents(response@, register_bits as nat),
{
    assert(response.len() <= usize::MAX);
    // The first bits belong to the way to the shift state.
    bits::pack_bits(slice_subrange(response, 3, 3 + register_bits))
}

proof fn lemma_tap_run_push(state: TapState, tms: Seq<bool>, bit: bool)
    ensures
        tap_run(state, tms.push(bit)) == tap_next(tap_run(state, tms), bit),
{
    assert(tms.push(bit).drop_last() =~= tms);
}

proof fn lemma_tap_run_add(state: TapState, a: Seq<bool>, b: Seq<bool>)
    ensures
        tap_run(state, a + b) == tap_run(tap_run(state, a), b),
    decreases b.len(),
{
    if b.len() == 0 {
        assert(a + b =~= a);
    } else {
        assert((a + b).drop_last() =~= a + b.drop_last());
        lemma_tap_run_add(state, a, b.drop_last());
    }
}

/// The TAP controller stays where it is on clocks with TMS low if it is in a
/// state that such a clock does not leave.
proof fn lemma_tap_stays(state: TapState, n: nat)
    requires
        tap_next(state, false) == state,
    ensures
        tap_run(state, bits::repeated(false, n)) == state,
    decreases n,
{
    if n > 0 {
        assert(bits::repeated(false, n).drop_last() =~= bits::repeated(false, (n - 1) as nat));
        lemma_tap_stays(state, (n - 1) as nat);
    }
}

/// Clocks on which the TAP controller is not in `shift` shift nothing in, and the
/// bits of TDI on the other clocks do not matter to what came before.
proof fn lemma_shifted_in_add(
    state: TapState,
    shift: TapState,
    a: Seq<bool>,
    b: Seq<bool>,
    tdi: Seq<bool>,
)
    requires
        a.len() + b.len() <= tdi.len(),
    ensures
        shifted_in(state, shift, a + b, tdi) == shifted_in(state, shift, a, tdi) + shifted_in(
            tap_run(state, a),
            shift,
            b,
            tdi.skip(a.len() as int),
        ),
    decreases b.len(),
{
    if b.len() == 0 {
        assert(a + b =~= a);
    } else {
        assert((a + b).drop_last() =~= a + b.drop_last());
        lemma_shifted_in_add(state, shift, a, b.drop_last(), tdi);
        lemma_tap_run_add(state, a, b.drop_last());
        assert(shifted_in(state, shift, a + b, tdi) =~= shifted_in(state, shift, a, tdi)
            + shifted_in(tap_run(state, a), shift, b, tdi.skip(a.len() as int)));
    }
}

/// While the TAP controller stays in `shift`, every bit is shifted in.
proof fn lemma_shifted_in_stays(shift: TapState, n: nat, tdi: Seq<bool>)
    requires
        tap_next(shift, false) == shift,
        n <= tdi.len(),
    ensures
        shifted_in(shift, shift, bits::repeated(false, n), tdi) == tdi.take(n as int),
    decreases n,
{
    if n > 0 {
        let m = (n - 1) as nat;
        assert(bits::repeated(false, n).drop_last() =~= bits::repeated(false, m));
        lemma_tap_stays(shift, m);
        lemma_shifted_in_stays(shift, m, tdi);
        assert(tdi.take(n as int) =~= tdi.take(m as int).push(tdi[m as int]));
    }
    assert(shifted_in(shift, shift, bits::repeated(false, n), tdi) =~= tdi.take(n as int));
}

/// While the TAP controller stays in another state, nothing is shifted in.
proof fn lemma_shifted_in_idle(state: TapState, shift: TapState, n: nat, tdi: Seq<bool>)
    requires
        tap_next(state, false) == state,
        state != shift,
    ensures
        shifted_in(state, shift, bits::repeated(false, n), tdi) == Seq::<bool>::empty(),
    decreases n,
{
    if n > 0 {
        let m = (n - 1) as nat;
        assert(bits::repeated(false, n).drop_last() =~= bits::repeated(false, m));
        lemma_tap_stays(state, m);
        lemma_shifted_in_idle(state, shift, m, tdi);
    }
}

/// A reset brings the TAP controller into the idle state, whatever state it was
/// in.
pub proof fn law_reset_reaches_idle(state: TapState)
    ensures
        tap_run(state, reset_tms()) == TapState::RunTestIdle,
{
    let t = Seq::<bool>::empty();
    lemma_tap_run_push(state, t, true);
    lemma_tap_run_push(state, t.push(true), true);
    lemma_tap_run_push(state, t.push(true).push(true), true);
    lemma_tap_run_push(state, t.push(true).push(true).push(true), true);
    lemma_tap_run_push(state, t.push(true).push(true).push(true).push(true), true);
    let five = t.push(true).push(true).push(true).push(true).push(true);
    lemma_tap_run_push(state, five, false);
    assert(reset_tms() =~= five.push(false));
}

/// A probe that rounds a transfer up to whole bytes, with TMS low, does not move
/// the TAP controller out of the idle state.
pub proof fn law_padding_is_idle(n: nat)
    ensures
        tap_run(TapState::RunTestIdle, bits::repeated(false, n)) == TapState::RunTestIdle,
{
    lemma_tap_stays(TapState::RunTestIdle, n);
}

/// A scan of a data register starts and ends in the idle state, and on the way
/// the data register, and no other, takes in the `n` bits of TDI after the first
/// three.
pub proof fn law_dr_scan(n: nat, idle: nat, tdi: Seq<bool>)
    requires
        n >= 1,
        tdi.len() == dr_tms(n, idle).len(),
    ensures
        dr_tms(n, idle).len() == n + 5 + idle,
        tap_run(TapState::RunTestIdle, dr_tms(n, idle)) == TapState::RunTestIdle,
        shifted_in(TapState::RunTestIdle, TapState::ShiftDr, dr_tms(n, idle), tdi)
            == tdi.subrange(3, 3 + n as int),
        shifted_in(TapState::RunTestIdle, TapState::ShiftIr, dr_tms(n, idle), tdi) == Seq::<
            bool,
        >::empty(),
{
    let enter = seq![true, false, false];
    let shift = bits::repeated(false, (n - 1) as nat);
    let exit = seq![true, true, false];
    let wait = bits::repeated(false, idle);
    let m = (n - 1) as nat;
    let idle_state = TapState::RunTestIdle;
    lemma_three_clocks(idle_state, true, false, false);
    lemma_three_clocks(TapState::ShiftDr, true, true, false);
    lemma_tap_stays(TapState::ShiftDr, m);
    lemma_tap_stays(idle_state, idle);
    lemma_tap_run_add(idle_state, enter, shift);
    lemma_tap_run_add(idle_state, enter + shift, exit);
    lemma_tap_run_add(idle_state, enter + shift + exit, wait);
    assert(dr_tms(n, idle) == enter + shift + exit + wait);
    let in_shift = tdi.skip(3);
    let in_exit = tdi.skip((3 + m) as int);
    let in_wait = tdi.skip((3 + m + 3) as int);
    assert(enter.len() == 3 && (enter + shift).len() == 3 + m && (enter + shift + exit).len() == 3
        + m + 3);
    let dr = TapState::ShiftDr;
    let ir = TapState::ShiftIr;
    lemma_shifted_in_add(idle_state, dr, enter, shift, tdi);
    lemma_shifted_in_add(idle_state, dr, enter + shift, exit, tdi);
    lemma_shifted_in_add(idle_state, dr, enter + shift + exit, wait, tdi);
    lemma_shifted_in_add(idle_state, ir, enter, shift, tdi);
    lemma_shifted_in_add(idle_state, ir, enter + shift, exit, tdi);
    lemma_shifted_in_add(idle_state, ir, enter + shift + exit, wait, tdi);
    lemma_shifted_in_three(idle_state, dr, true, false, false, tdi);
    lemma_shifted_in_three(idle_state, ir, true, false, false, tdi);
    lemma_shifted_in_stays(dr, m, in_shift);
    lemma_shifted_in_idle(dr, ir, m, in_shift);
    lemma_shifted_in_three(dr, dr, true, true, false, in_exit);
    lemma_shifted_in_three(dr, ir, true, true, false, in_exit);
    lemma_shifted_in_idle(idle_state, dr, idle, in_wait);
    lemma_shifted_in_idle(idle_state, ir, idle, in_wait);
    assert(shifted_in(idle_state, dr, dr_tms(n, idle), tdi) =~= tdi.subrange(3, 3 + n as int));
    assert(shifted_in(idle_state, ir, dr_tms(n, idle), tdi) =~= Seq::<bool>::empty());
}

/// Where the TAP controller is after three clocks.
proof fn lemma_three_clocks(state: TapState, a: bool, b: bool, c: bool)
    ensures
        tap_run(state, seq![a, b, c]) == tap_next(tap_next(tap_next(state, a), b), c),
{
    let t = Seq::<bool>::empty();
    lemma_tap_run_push(state, t, a);
    lemma_tap_run_push(state, t.push(a), b);
    lemma_tap_run_push(state, t.push(a).push(b), c);
    assert(seq![a, b, c] =~= t.push(a).push(b).push(c));
}

/// What is shifted in on three clocks.
proof fn lemma_shifted_in_three(
    state: TapState,
    shift: TapState,
    a: bool,
    b: bool,
    c: bool,
    tdi: Seq<bool>,
)
    ensures
        shifted_in(state, shift, seq![a, b, c], tdi) == (if state == shift {
            seq![tdi[0]]
        } else {
            Seq::<bool>::empty()
        }) + (if tap_next(state, a) == shift {
            seq![tdi[1]]
        } else {
            Seq::<bool>::empty()
        }) + (if tap_next(tap_next(state, a), b) == shift {
            seq![tdi[2]]
        } else {
            Seq::<bool>::empty()
        }),
{
    let t = Seq::<bool>::empty();
    lemma_tap_run_push(state, t, a);
    lemma_tap_run_push(state, t.push(a), b);
    assert(seq![a, b, c].drop_last() =~= t.push(a).push(b));
    assert(t.push(a).push(b).drop_last() =~= t.push(a));
    assert(t.push(a).drop_last() =~= t);
    assert(shifted_in(state, shift, t, tdi) == t);
    let one = shifted_in(state, shift, t.push(a), tdi);
    let two = shifted_in(state, shift, t.push(a).push(b), tdi);
    let three = shifted_in(state, shift, seq![a, b, c], tdi);
    assert(one =~= if state == shift { seq![tdi[0]] } else { t });
    assert(two =~= one + (if tap_next(state, a) == shift { seq![tdi[1]] } else { t }));
    let third = tap_next(tap_next(state, a), b);
    assert(three =~= two + (if third == shift { seq![tdi[2]] } else { t }));
}

/// A scan of the instruction register starts and ends in the idle state, and on
/// the way the instruction register, and no other, takes in the `n` bits of TDI
/// after the first four.
pub proof fn law_ir_scan(n: nat, tdi: Seq<bool>)
    requires
        n >= 1,
        tdi.len() == ir_tms(n).len(),
    ensures
        ir_tms(n).len() == n + 6,
        tap_run(TapState::RunTestIdle, ir_tms(n)) == TapState::RunTestIdle,
        shifted_in(TapState::RunTestIdle, TapState::ShiftIr, ir_tms(n), tdi) == tdi.subrange(
            4,
            4 + n as int,
        ),
        shifted_in(TapState::RunTestIdle, TapState::ShiftDr, ir_tms(n), tdi) == Seq::<
            bool,
        >::empty(),
{
    let start = seq![true];
    let enter = seq![true, false, false];
    let shift = bits::repeated(false, (n - 1) as nat);
    let exit = seq![true, true, false];
    let m = (n - 1) as nat;
    let idle_state = TapState::RunTestIdle;
    let select = TapState::SelectDrScan;
    let dr = TapState::ShiftDr;
    let ir = TapState::ShiftIr;
    assert(start =~= Seq::<bool>::empty().push(true));
    lemma_tap_run_push(idle_state, Seq::<bool>::empty(), true);
    lemma_three_clocks(select, true, false, false);
    lemma_three_clocks(ir, true, true, false);
    lemma_tap_stays(ir, m);
    lemma_tap_run_add(idle_state, start, enter);
    lemma_tap_run_add(idle_state, start + enter, shift);
    lemma_tap_run_add(idle_state, start + enter + shift, exit);
    assert(start + enter =~= seq![true, true, false, false]);
    assert(ir_tms(n) == start + enter + shift + exit);
    assert((start + enter).len() == 4 && (start + enter + shift).len() == 4 + m);
    let in_shift = tdi.skip(4);
    let in_exit = tdi.skip((4 + m) as int);
    lemma_shifted_in_add(idle_state, ir, start, enter, tdi);
    lemma_shifted_in_add(idle_state, ir, start + enter, shift, tdi);
    lemma_shifted_in_add(idle_state, ir, start + enter + shift, exit, tdi);
    lemma_shifted_in_add(idle_state, dr, start, enter, tdi);
    lemma_shifted_in_add(idle_state, dr, start + enter, shift, tdi);
    lemma_shifted_in_add(idle_state, dr, start + enter + shift, exit, tdi);
    let none = Seq::<bool>::empty();
    assert(start.drop_last() =~= none);
    assert(shifted_in(idle_state, ir, none, tdi) == none);
    assert(shifted_in(idle_state, dr, none, tdi) == none);
    assert(tap_run(idle_state, none) == idle_state);
    assert(shifted_in(idle_state, ir, start, tdi) =~= Seq::<bool>::empty());
    assert(shifted_in(idle_state, dr, start, tdi) =~= Seq::<bool>::empty());
    lemma_shifted_in_three(select, ir, true, false, false, tdi.skip(1));
    lemma_shifted_in_three(select, dr, true, false, false, tdi.skip(1));
    lemma_shifted_in_stays(ir, m, in_shift);
    lemma_shifted_in_idle(ir, dr, m, in_shift);
    lemma_shifted_in_three(ir, ir, true, true, false, in_exit);
    lemma_shifted_in_three(ir, dr, true, true, false, in_exit);
    assert(shifted_in(idle_state, ir, ir_tms(n), tdi) =~= tdi.subrange(4, 4 + n as int));
    assert(shifted_in(idle_state, dr, ir_tms(n), tdi) =~= Seq::<bool>::empty());
}

/// A write shifts exactly the first `n` bits of `data` into the data register.
pub proof fn law_dr_write(data: Seq<u8>, n: nat, idle: nat)
    requires
        n >= 1,
    ensures
        dr_write_tdi(data, n, idle).len() == dr_tms(n, idle).len(),
        shifted_in(
            TapState::RunTestIdle,
            TapState::ShiftDr,
            dr_tms(n, idle),
            dr_write_tdi(data, n, idle),
        ) == bits::data_bits(data, n),
{
    law_dr_scan(n, idle, dr_write_tdi(data, n, idle));
    assert(dr_write_tdi(data, n, idle).subrange(3, 3 + n as int) =~= bits::data_bits(data, n));
}

/// A read shifts zeros into the data register.
pub proof fn law_dr_read(n: nat, idle: nat)
    requires
        n >= 1,
    ensures
        dr_read_tdi(n, idle).len() == dr_tms(n, idle).len(),
        shifted_in(
            TapState::RunTestIdle,
            TapState::ShiftDr,
            dr_tms(n, idle),
            dr_read_tdi(n, idle),
        ) == bits::repeated(false, n),
{
    law_dr_scan(n, idle, dr_read_tdi(n, idle));
    assert(dr_read_tdi(n, idle).subrange(3, 3 + n as int) =~= bits::repeated(false, n));
}

/// A write of the instruction register shifts exactly the first `n` bits of
/// `data` into it.
pub proof fn law_ir_write(data: Seq<u8>, n: nat)
    requires
        n >= 1,
    ensures
        ir_tdi(data, n).len() == ir_tms(n).len(),
        shifted_in(TapState::RunTestIdle, TapState::ShiftIr, ir_tms(n), ir_tdi(data, n))
            == bits::data_bits(data, n),
{
    law_ir_scan(n, ir_tdi(data, n));
    assert(ir_tdi(data, n).subrange(4, 4 + n as int) =~= bits::data_bits(data, n));
}

/// If what comes back is what was sent, clock by clock, then the contents that
/// are read are the data that was written, cut off after `n` bits. More bits at
/// the end of the response change nothing.
pub proof fn law_loopback(data: Seq<u8>, n: nat, idle: nat, rest: Seq<bool>)
    requires
        n <= 8 * data.len(),
    ensures
        dr_contents(dr_write_tdi(data, n, idle) + rest, n) == bits::truncated(data, n),
{
    let response = dr_write_tdi(data, n, idle) + rest;
    assert(response.subrange(3, 3 + n as int) =~= bits::data_bits(data, n));
    bits::law_pack_data_bits(data, n);
}

/// After a reset a scan works from whatever state the TAP controller was in: it
/// ends in the idle state, and the data register takes in what the scan sends.
pub proof fn law_scan_after_reset(state: TapState, n: nat, idle: nat)
    requires
        n >= 1,
    ensures
        tap_run(state, reset_tms() + dr_tms(n, idle)) == TapState::RunTestIdle,
        shifted_in(
            tap_run(state, reset_tms()),
            TapState::ShiftDr,
            dr_tms(n, idle),
            dr_read_tdi(n, idle),
        ) == bits::repeated(false, n),
{
    law_reset_reaches_idle(state);
    lemma_tap_run_add(state, reset_tms(), dr_tms(n, idle));
    law_dr_scan(n, idle, dr_read_tdi(n, idle));
    law_dr_read(n, idle);
}

/// An address of five bits that is written as an instruction is what the
/// instruction register then holds.
pub proof fn law_address_reaches_ir(address: u32)
    requires
        address <= 0x1f,
    ensures
        bits::bits_value(
            shifted_in(
                TapState::RunTestIdle,
                TapState::ShiftIr,
                ir_tms(5),
                ir_tdi(seq![address as u8], 5),
            ),
        ) == address,
{
    let data = seq![address as u8];
    law_ir_write(data, 5);
    assert(bits::data_bits(data, 5) =~= bits::nat_bits(address as nat, 5));
    bits::law_value_of_bits(address as nat, 5);
    lemma2_to64();
}

/// The contents of a register of `n` bits fill just as many bytes as it takes to
/// hold them, so those of the identification register are four bytes.
pub proof fn law_contents_length(response: Seq<bool>, n: nat)
    requires
        3 + n <= response.len(),
    ensures
        dr_contents(response, n).len() == bits::byte_count(n),
        n == 32 ==> dr_contents(response, n).len() == 4,
{
}

/// The command that writes a data register, as it is sent: it takes the TAP
/// controller from idle to idle, the data register takes in all `n` bits of the
/// data and nothing else does, and the idle clocks come last.
pub proof fn law_dr_write_command(data: Seq<u8>, n: nat, idle: nat)
    requires
        n >= 1,
    ensures
        ({
            let command = dr_write(data, n, idle);
            let taken = shifted_in(
                TapState::RunTestIdle,
                TapState::ShiftDr,
                command->tms,
                command->tdi,
            );
            &&& command is JtagIo
            &&& command->tms.len() == n + 5 + idle
            &&& command->tdi.len() == n + 5 + idle
            &&& tap_run(TapState::RunTestIdle, command->tms) == TapState::RunTestIdle
            &&& tap_run(TapState::RunTestIdle, command->tms.take((n + 5) as int))
                == TapState::RunTestIdle
            &&& taken == bits::data_bits(data, n)
            &&& taken.len() == n
            &&& forall|i: int|
                0 <= i < n ==> #[trigger] taken[i] == ((data[i / 8] >> ((i % 8) as u8)) & 1 == 1)
            &&& shifted_in(TapState::RunTestIdle, TapState::ShiftIr, command->tms, command->tdi)
                == Seq::<bool>::empty()
        }),
{
    law_dr_write(data, n, idle);
    law_dr_scan(n, idle, dr_write_tdi(data, n, idle));
    bits::law_bits_of_data(data, n);
    lemma_idle_comes_last(n, idle);
}

/// The command that reads a data register, as it is sent: it takes the TAP
/// controller from idle to idle, the data register takes in `n` zeros and shifts
/// out as many bits, and the idle clocks come last.
pub proof fn law_dr_read_command(n: nat, idle: nat)
    requires
        n >= 1,
    ensures
        ({
            let command = dr_read(n, idle);
            let taken = shifted_in(
                TapState::RunTestIdle,
                TapState::ShiftDr,
                command->tms,
                command->tdi,
            );
            &&& command is JtagIo
            &&& command->tms.len() == n + 5 + idle
            &&& command->tdi.len() == n + 5 + idle
            &&& tap_run(TapState::RunTestIdle, command->tms) == TapState::RunTestIdle
            &&& tap_run(TapState::RunTestIdle, command->tms.take((n + 5) as int))
                == TapState::RunTestIdle
            &&& taken.len() == n
            &&& forall|i: int| 0 <= i < n ==> !#[trigger] taken[i]
            &&& shifted_in(TapState::RunTestIdle, TapState::ShiftIr, command->tms, command->tdi)
                == Seq::<bool>::empty()
        }),
{
    law_dr_read(n, idle);
    law_dr_scan(n, idle, dr_read_tdi(n, idle));
    lemma_idle_comes_last(n, idle);
}

/// Without its last clocks, a scan is one without idle clocks.
proof fn lemma_idle_comes_last(n: nat, idle: nat)
    requires
        n >= 1,
    ensures
        tap_run(TapState::RunTestIdle, dr_tms(n, idle).take((n + 5) as int))
            == TapState::RunTestIdle,
{
    assert(dr_tms(n, idle).take((n + 5) as int) =~= dr_tms(n, 0));
    law_dr_scan(n, 0, dr_read_tdi(n, 0));
}

/// The lines of a scan of a data register, clock by clock. TMS is high on the first
/// clock and on the last two that the scan takes before the controller idles. Bit
/// `i` of the data is on TDI on clock `3 + i`, and TDI is low on all other clocks.
pub proof fn law_dr_lines(data: Seq<u8>, n: nat, idle: nat, clock: int)
    requires
        n >= 1,
        0 <= clock < n + 5 + idle,
    ensures
        dr_write(data, n, idle)->tms[clock] == (clock == 0 || clock == n + 2 || clock == n + 3),
        dr_read(n, idle)->tms[clock] == (clock == 0 || clock == n + 2 || clock == n + 3),
        !dr_read(n, idle)->tdi[clock],
        dr_write(data, n, idle)->tdi[clock] == (3 <= clock < 3 + n && (data[(clock - 3) / 8] >> (((
        clock - 3) % 8) as u8)) & 1 == 1),
{
    bits::law_bits_of_data(data, n);
    if 3 <= clock < 3 + n {
        assert(dr_write_tdi(data, n, idle)[clock] == bits::data_bits(data, n)[clock - 3]);
    }
}

/// The command that writes the instruction register, as it is sent: it takes the
/// TAP controller from idle to idle, the instruction register takes in all `n` bits
/// of the data, and nothing else does.
pub proof fn law_ir_write_command(data: Seq<u8>, n: nat)
    requires
        n >= 1,
    ensures
        ({
            let command = ir_write(data, n);
            let taken = shifted_in(
                TapState::RunTestIdle,
                TapState::ShiftIr,
                command->tms,
                command->tdi,
            );
            &&& command is JtagIo
            &&& command->tms.len() == n + 6
            &&& command->tdi.len() == n + 6
            &&& tap_run(TapState::RunTestIdle, command->tms) == TapState::RunTestIdle
            &&& taken.len() == n
            &&& forall|i: int|
                0 <= i < n ==> #[trigger] taken[i] == ((data[i / 8] >> ((i % 8) as u8)) & 1 == 1)
            &&& shifted_in(TapState::RunTestIdle, TapState::ShiftDr, command->tms, command->tdi)
                == Seq::<bool>::empty()
        }),
{
    law_ir_write(data, n);
    law_ir_scan(n, ir_tdi(data, n));
    bits::law_bits_of_data(data, n);
}

/// The lines of a scan of the instruction register, clock by clock. TMS is high on
/// the first two clocks and on two of the last three. Bit `i` of the data is on TDI
/// on clock `4 + i`, and TDI is low on all other clocks.
pub proof fn law_ir_lines(data: Seq<u8>, n: nat, clock: int)
    requires
        n >= 1,
        0 <= clock < n + 6,
    ensures
        ir_write(data, n)->tms[clock] == (clock <= 1 || clock == n + 3 || clock == n + 4),
        ir_write(data, n)->tdi[clock] == (4 <= clock < 4 + n && (data[(clock - 4) / 8] >> (((clock
            - 4) % 8) as u8)) & 1 == 1),
{
    bits::law_bits_of_data(data, n);
    if 4 <= clock < 4 + n {
        assert(ir_tdi(data, n)[clock] == bits::data_bits(data, n)[clock - 4]);
    }
}

/// The command that resets the TAP controller, as it is sent: TMS is high for five
/// clocks and low for one, TDI stays low, and the controller is idle at the end,
/// whatever state it was in.
pub proof fn law_reset_command(state: TapState)
    ensures
        chain_reset() is JtagIo,
        chain_reset()->tms == seq![true, true, true, true, true, false],
        chain_reset()->tdi == seq![false, false, false, false, false, false],
        tap_run(state, chain_reset()->tms) == TapState::RunTestIdle,
{
    law_reset_reaches_idle(state);
    assert(chain_reset()->tms =~= seq![true, true, true, true, true, false]);
    assert(chain_reset()->tdi =~= seq![false, false, false, false, false, false]);
}

/// The contents of a data register are all `n` bits that came out while it was
/// shifted, which is from the fourth clock on: bit `i` is in byte `i / 8` at place
/// `i % 8`, and the places that are left over are zero.
pub proof fn law_contents(response: Seq<bool>, n: nat, i: int)
    requires
        3 + n <= response.len(),
    ensures
        dr_contents(response, n).len() == (n + 7) / 8,
        0 <= i < n ==> ((dr_contents(response, n)[i / 8] >> ((i % 8) as u8)) & 1 == 1)
            == response[3 + i],
        n <= i < 8 * dr_contents(response, n).len() ==> (dr_contents(response, n)[i / 8] >> ((i
            % 8) as u8)) & 1 != 1,
{
    bits::law_pack(response.subrange(3, 3 + n as int), i);
}

/// Any register of at least one bit can be scanned, as long as the clocks can be
/// counted.
pub proof fn law_scan_fits(n: nat, idle: nat)
    ensures
        scan_fits(n, idle) <==> 1 <= n && n + 5 + idle <= usize::MAX,
{
}

/// What the scans of a data register hold, clock by clock, and what is made of the
/// response: bit `i` goes out on clock `3 + i`, and comes back on it.
pub proof fn law_dr_functions(
    data: &[u8],
    register_bits: usize,
    idle_cycles: u8,
    writing: Command,
    reading: Command,
    response: &[bool],
    contents: Vec<u8>,
    clock: int,
    i: int,
)
    requires
        call_ensures(scan_dr_write, (data, register_bits, idle_cycles), writing),
        call_ensures(scan_dr_read, (register_bits, idle_cycles), reading),
        call_ensures(decode_dr, (response, register_bits), contents),
        register_bits >= 1,
        3 + register_bits <= response@.len(),
        0 <= clock < register_bits + 5 + idle_cycles,
        0 <= i < register_bits,
    ensures
        writing@ is JtagIo && reading@ is JtagIo,
        writing@->tms.len() == writing@->tdi.len() == register_bits + 5 + idle_cycles,
        reading@->tms.len() == reading@->tdi.len() == register_bits + 5 + idle_cycles,
        writing@->tms[clock] == (clock == 0 || clock == register_bits + 2 || clock == register_bits
            + 3),
        reading@->tms[clock] == writing@->tms[clock],
        writing@->tdi[clock] == (3 <= clock < 3 + register_bits && (data@[(clock - 3) / 8] >> (((
        clock - 3) % 8) as u8)) & 1 == 1),
        !reading@->tdi[clock],
        contents@.len() == (register_bits + 7) / 8,
        ((contents@[i / 8] >> ((i % 8) as u8)) & 1 == 1) == response@[3 + i],
{
    law_dr_lines(data@, register_bits as nat, idle_cycles as nat, clock);
    law_dr_write_command(data@, register_bits as nat, idle_cycles as nat);
    law_dr_read_command(register_bits as nat, idle_cycles as nat);
    law_contents(response@, register_bits as nat, i);
}

} // verus!
