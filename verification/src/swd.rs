//! SWD transfers as bit sequences on the SWDIO line.
//!
//! Each transfer is a pair of sequences: `swdio` holds the bits of the line, and
//! `direction` says who drives it, `true` for the probe and `false` for the
//! target.
use crate::bits;
use crate::error::DebugProbeError;
use vstd::arithmetic::power2::*;
use vstd::bits::*;
use vstd::prelude::*;
use vstd::slice::slice_subrange;

verus! {

/// What an SWD transfer or a register access is directed at.
#[derive(Debug, Clone, Copy, PartialEq, Eq, Structural)]
pub enum PortType {
    /// The debug port.
    DebugPort,
    /// An access port.
    AccessPort(u16),
}

/// Whether `port` is an access port: the APnDP bit of a request.
pub open spec fn apndp(port: PortType) -> bool {
    port is AccessPort
}

/// The four bits of a request that say what is asked: APnDP, RnW, and bits 2 and
/// 3 of the register address. Registers are words, so the lowest two bits of an
/// address say nothing.
pub open spec fn request_fields(ap: bool, read: bool, address: u16) -> Seq<bool> {
    seq![ap, read, bits::nat_bit(address as nat, 2), bits::nat_bit(address as nat, 3)]
}

/// The part of a transfer that the probe sends first: two idle bits, then the
/// request, which is a start bit, the four fields, their parity, a stop bit and a
/// park bit.
pub open spec fn request(ap: bool, read: bool, address: u16) -> Seq<bool> {
    let fields = request_fields(ap, read, address);
    seq![false, false] + seq![true] + fields + seq![bits::odd(fields)] + seq![false, true]
}

/// The number of bits from the start of a transfer to the acknowledgement.
pub const ACK_START: usize = 10;

/// The number of bits from the start of a read to the data.
pub const READ_DATA_START: usize = 13;

/// The number of bits from the start of a read to the parity bit of the data.
pub const READ_PARITY: usize = 45;

/// The line during a read. After the request the target sends three bits of
/// acknowledgement, 32 bits of data and a parity bit; a turnaround bit follows.
pub open spec fn read_swdio(ap: bool, address: u16) -> Seq<bool> {
    request(ap, true, address) + bits::repeated(false, 3 + 32 + 1 + 1)
}

/// Who drives the line during a read.
pub open spec fn read_direction() -> Seq<bool> {
    bits::repeated(true, 2 + 8) + bits::repeated(false, 3 + 32 + 1 + 1)
}

/// The line during a write. After the request and the three bits of
/// acknowledgement come two turnaround bits, and then the probe sends the 32 bits
/// of `value` and their parity.
pub open spec fn write_swdio(ap: bool, address: u16, value: u32) -> Seq<bool> {
    let data = bits::nat_bits(value as nat, 32);
    request(ap, false, address) + bits::repeated(false, 3 + 2) + data + seq![bits::odd(data)]
}

/// Who drives the line during a write.
pub open spec fn write_direction() -> Seq<bool> {
    bits::repeated(true, 2 + 8) + bits::repeated(false, 3 + 2) + bits::repeated(true, 32 + 1)
}

/// Whether the target acknowledged with WAIT.
pub open spec fn is_wait(response: Seq<bool>) -> bool {
    response[ACK_START + 1]
}

/// Whether the target acknowledged with FAULT. WAIT comes first where both bits
/// are set.
pub open spec fn is_fault(response: Seq<bool>) -> bool {
    !is_wait(response) && response[ACK_START + 2]
}

/// The 32 data bits of the response to a read.
pub open spec fn read_data(response: Seq<bool>) -> Seq<bool> {
    response.subrange(READ_DATA_START as int, READ_PARITY as int)
}

/// The value in the response to a read. There is none if the parity bit is
/// missing or wrong.
pub open spec fn read_value(response: Seq<bool>) -> Result<u32, DebugProbeError> {
    let data = read_data(response);
    if response.len() > READ_PARITY && response[READ_PARITY as int] == bits::odd(data) {
        Ok(bits::bits_value(data) as u32)
    } else {
        Err(DebugProbeError::Unknown)
    }
}

/// The 16 bits that switch a target from JTAG to SWD.
pub open spec fn jtag_to_swd() -> Seq<bool> {
    seq![
        false,
        true,
        true,
        true,
        true,
        false,
        false,
        true,
        true,
        true,
        true,
        false,
        false,
        true,
        true,
        true,
    ]
}

/// The line while a target is brought into SWD mode: a line reset, the switch
/// from JTAG, another line reset in case the target was in SWD mode already, and
/// idle bits.
pub open spec fn init_swdio() -> Seq<bool> {
    bits::repeated(true, 64) + jtag_to_swd() + bits::repeated(true, 64) + bits::repeated(false, 10)
}

/// Who drives the line while a target is brought into SWD mode.
pub open spec fn init_direction() -> Seq<bool> {
    bits::repeated(true, 64 + 16 + 64 + 10)
}

/// Bit 2 or 3 of a register address.
fn address_bit(address: u16, index: u16) -> (bit: bool)
    requires
        index < 16,
    ensures
        bit == bits::nat_bit(address as nat, index as nat),
{
    let shifted: u16 = address >> index;
    proof {
        lemma_u16_shr_is_div(address, index);
        assert(shifted & 1 == shifted % 2) by (bit_vector);
    }
    shifted & 1 == 1
}

/// The idle bits and the request that start a transfer.
fn start_request(ap: bool, read: bool, address: u16) -> (swdio: Vec<bool>)
    ensures
        swdio@ == request(ap, read, address),
{
    let a2 = address_bit(address, 2);
    let a3 = address_bit(address, 3);
    let parity = ap ^ read ^ a2 ^ a3;
    proof {
        let fields = request_fields(ap, read, address);
        assert(fields =~= seq![ap, read, a2].push(a3));
        bits::lemma_odd_push(seq![ap, read, a2], a3);
        assert(seq![ap, read, a2] =~= seq![ap, read].push(a2));
        bits::lemma_odd_push(seq![ap, read], a2);
        assert(seq![ap, read] =~= seq![ap].push(read));
        bits::lemma_odd_push(seq![ap], read);
        assert(seq![ap] =~= Seq::<bool>::empty().push(ap));
        bits::lemma_odd_push(Seq::<bool>::empty(), ap);
        assert(parity == bits::odd(fields));
    }
    let swdio: Vec<bool> = vec![
        // The line is idle for two clock cycles.
        false,
        false,
        // Start bit.
        true,
        ap,
        read,
        a2,
        a3,
        parity,
        // Stop bit.
        false,
        // Park bit.
        true,
    ];
    assert(swdio@ =~= request(ap, read, address));
    swdio
}

/// The line during a read.
pub fn read_sequence(ap: bool, address: u16) -> (swdio: Vec<bool>)
    ensures
        swdio@ == read_swdio(ap, address),
{
    let mut swdio = start_request(ap, true, address);
    // Acknowledgement, data, parity, turnaround. The probe sends none of them.
    bits::push_repeated(&mut swdio, false, 3 + 32 + 1 + 1);
    swdio
}

/// Who drives the line during a read.
pub fn read_directions() -> (direction: Vec<bool>)
    ensures
        direction@ == read_direction(),
{
    let mut direction: Vec<bool> = Vec::new();
    bits::push_repeated(&mut direction, true, 2 + 8);
    bits::push_repeated(&mut direction, false, 3 + 32 + 1 + 1);
    assert(direction@ =~= read_direction());
    direction
}

/// The line during a write.
pub fn write_sequence(ap: bool, address: u16, value: u32) -> (swdio: Vec<bool>)
    ensures
        swdio@ == write_swdio(ap, address, value),
{
    let mut swdio = start_request(ap, false, address);
    // Acknowledgement and turnaround.
    bits::push_repeated(&mut swdio, false, 3 + 2);
    let mut data: Vec<bool> = Vec::new();
    bits::push_value_bits(&mut data, value);
    assert(data@ =~= bits::nat_bits(value as nat, 32));
    bits::push_bits(&mut swdio, data.as_slice());
    swdio.push(bits::parity(data.as_slice()));
    assert(swdio@ =~= write_swdio(ap, address, value));
    swdio
}

/// Who drives the line during a write.
pub fn write_directions() -> (direction: Vec<bool>)
    ensures
        direction@ == write_direction(),
{
    let mut direction: Vec<bool> = Vec::new();
    bits::push_repeated(&mut direction, true, 2 + 8);
    bits::push_repeated(&mut direction, false, 3 + 2);
    bits::push_repeated(&mut direction, true, 32 + 1);
    assert(direction@ =~= write_direction());
    direction
}

/// The value in the response to a read, if its parity is right.
pub fn decode_read(response: &[bool]) -> (value: Result<u32, DebugProbeError>)
    requires
        response@.len() >= READ_PARITY,
    ensures
        value == read_value(response@),
{
    let data = slice_subrange(response, READ_DATA_START, READ_PARITY);
    proof {
        assert(data@.take(32) =~= data@);
        bits::lemma_bits_value_bound(data@);
        lemma2_to64();
    }
    let value = bits::bits_to_byte(data);
    if response.len() > READ_PARITY {
        if bits::parity(data) == response[READ_PARITY] {
            Ok(value)
        } else {
            Err(DebugProbeError::Unknown)
        }
    } else {
        Err(DebugProbeError::Unknown)
    }
}

/// The line while a target is brought into SWD mode.
pub fn init_sequence() -> (swdio: Vec<bool>)
    ensures
        swdio@ == init_swdio(),
{
    let mut swdio: Vec<bool> = Vec::new();
    // Line reset.
    bits::push_repeated(&mut swdio, true, 64);
    let switch: [bool; 16] = [
        false, true, true, true, true, false, false, true, true, true, true, false, false, true,
        true, true,
    ];
    assert(switch@ =~= jtag_to_swd());
    bits::push_bits(&mut swdio, &switch);
    // Line reset, in case the target was in SWD mode already.
    bits::push_repeated(&mut swdio, true, 64);
    // Idle bits.
    bits::push_repeated(&mut swdio, false, 10);
    assert(swdio@ =~= init_swdio());
    swdio
}

/// Who drives the line while a target is brought into SWD mode.
pub fn init_directions() -> (direction: Vec<bool>)
    ensures
        direction@ == init_direction(),
{
    let mut direction: Vec<bool> = Vec::new();
    bits::push_repeated(&mut direction, true, 64 + 16 + 64 + 10);
    assert(direction@ =~= init_direction());
    direction
}

/// The two sequences of every transfer have one length, which is below the limit
/// of a single transfer.
pub proof fn law_transfer_lengths(ap: bool, address: u16, value: u32)
    ensures
        read_swdio(ap, address).len() == read_direction().len() == 47,
        write_swdio(ap, address, value).len() == write_direction().len() == 48,
        init_swdio().len() == init_direction().len() == 154,
{
}

/// The probe drives the line exactly while it sends: all of it during the
/// switch to SWD, the idle bits and the request of a read, and the idle bits, the
/// request, the data and the parity of a write.
pub proof fn law_directions(i: int)
    ensures
        0 <= i < 47 ==> read_direction()[i] == (i < ACK_START),
        0 <= i < 48 ==> write_direction()[i] == (i < ACK_START || i >= 15),
        0 <= i < 154 ==> init_direction()[i],
{
}

/// The four fields of a request and their parity bit together have even parity.
pub proof fn law_request_parity(ap: bool, read: bool, address: u16)
    ensures
        request(ap, read, address).len() == 10,
        request(ap, read, address).subrange(3, 7) == request_fields(ap, read, address),
        request(ap, read, address)[7] == (ap ^ read ^ bits::nat_bit(address as nat, 2)
            ^ bits::nat_bit(address as nat, 3)),
        !bits::odd(request(ap, read, address).subrange(3, 8)),
{
    let fields = request_fields(ap, read, address);
    let sent = request(ap, read, address);
    assert(sent.subrange(3, 7) =~= fields);
    assert(sent.subrange(3, 8) =~= fields.push(sent[7]));
    bits::lemma_odd_push(fields, sent[7]);
    let a2 = bits::nat_bit(address as nat, 2);
    let a3 = bits::nat_bit(address as nat, 3);
    assert(fields =~= Seq::<bool>::empty().push(ap).push(read).push(a2).push(a3));
    bits::lemma_odd_push(Seq::<bool>::empty(), ap);
    bits::lemma_odd_push(Seq::<bool>::empty().push(ap), read);
    bits::lemma_odd_push(Seq::<bool>::empty().push(ap).push(read), a2);
    bits::lemma_odd_push(Seq::<bool>::empty().push(ap).push(read).push(a2), a3);
}

/// Only bits 2 and 3 of an address reach the target.
pub proof fn law_address_bits(ap: bool, a: u16, b: u16, value: u32)
    requires
        bits::nat_bit(a as nat, 2) == bits::nat_bit(b as nat, 2),
        bits::nat_bit(a as nat, 3) == bits::nat_bit(b as nat, 3),
    ensures
        read_swdio(ap, a) == read_swdio(ap, b),
        write_swdio(ap, a, value) == write_swdio(ap, b, value),
{
    assert(request_fields(ap, true, a) =~= request_fields(ap, true, b));
    assert(request_fields(ap, false, a) =~= request_fields(ap, false, b));
}

/// A response with the bits of `value` and their parity is read as `value`.
pub proof fn law_read_value(response: Seq<bool>, value: u32)
    requires
        response.len() > READ_PARITY,
        read_data(response) == bits::nat_bits(value as nat, 32),
        response[READ_PARITY as int] == bits::odd(bits::nat_bits(value as nat, 32)),
    ensures
        read_value(response) == Ok::<u32, DebugProbeError>(value),
{
    bits::law_value_of_bits(value as nat, 32);
    lemma2_to64();
}

/// A write sends data and parity in the form in which a read expects them: were
/// they the answer to a read, it would give the value that was written.
pub proof fn law_write_reads_back(response: Seq<bool>, ap: bool, address: u16, value: u32)
    requires
        response.len() > READ_PARITY,
        response.subrange(READ_DATA_START as int, READ_PARITY + 1) == write_swdio(
            ap,
            address,
            value,
        ).subrange(15, 48),
    ensures
        read_value(response) == Ok::<u32, DebugProbeError>(value),
{
    let sent = write_swdio(ap, address, value);
    let data = bits::nat_bits(value as nat, 32);
    let received = response.subrange(READ_DATA_START as int, READ_PARITY + 1);
    assert(sent.subrange(15, 48) =~= data.push(bits::odd(data)));
    assert(received.drop_last() =~= read_data(response));
    assert(data.push(bits::odd(data)).drop_last() =~= data);
    assert(received.last() == response[READ_PARITY as int]);
    law_read_value(response, value);
}

/// A single wrong bit in the data or in the parity of a good response is
/// noticed.
pub proof fn law_single_error_detected(response: Seq<bool>, i: int)
    requires
        response.len() > READ_PARITY,
        read_value(response) is Ok,
        READ_DATA_START <= i <= READ_PARITY,
    ensures
        read_value(response.update(i, !response[i])) == Err::<u32, DebugProbeError>(
            DebugProbeError::Unknown,
        ),
{
    let broken = response.update(i, !response[i]);
    let data = read_data(response);
    if i == READ_PARITY {
        assert(read_data(broken) =~= data);
    } else {
        assert(read_data(broken) =~= data.update(
            i - READ_DATA_START,
            !data[i - READ_DATA_START],
        ));
        bits::lemma_odd_flip(data, i - READ_DATA_START);
    }
}

/// An access port is told from the debug port by its kind alone, whichever of the
/// access ports it is.
pub proof fn law_port(port: PortType)
    ensures
        apndp(port) <==> port != PortType::DebugPort,
{
}

/// A request, bit by bit: two idle bits, the start bit, the port, the direction,
/// bits 2 and 3 of the address in this order, the parity of these four, the stop
/// bit and the park bit.
pub proof fn law_request_bits(ap: bool, read: bool, address: u16)
    ensures
        request(ap, read, address).len() == 10,
        !request(ap, read, address)[0],
        !request(ap, read, address)[1],
        request(ap, read, address)[2],
        request(ap, read, address)[3] == ap,
        request(ap, read, address)[4] == read,
        request(ap, read, address)[5] == ((address >> 2u16) & 1 == 1),
        request(ap, read, address)[6] == ((address >> 3u16) & 1 == 1),
        request(ap, read, address)[7] == (ap ^ read ^ ((address >> 2u16) & 1 == 1) ^ ((address
            >> 3u16) & 1 == 1)),
        !request(ap, read, address)[8],
        request(ap, read, address)[9],
        request(ap, read, address)[5] == bits::nat_bit(address as nat, 2),
        request(ap, read, address)[6] == bits::nat_bit(address as nat, 3),
{
    law_request_parity(ap, read, address);
    bits::law_bit_of_half_word(address, 2);
    bits::law_bit_of_half_word(address, 3);
}

/// The line during a read: the request, and then the probe sends nothing for as
/// long as the target answers. The probe drives the line for the request only.
pub proof fn law_read_line(ap: bool, address: u16)
    ensures
        read_swdio(ap, address).len() == 47,
        read_swdio(ap, address).take(10) == request(ap, true, address),
        forall|i: int| 10 <= i < 47 ==> !#[trigger] read_swdio(ap, address)[i],
        read_direction().len() == 47,
        forall|i: int| 0 <= i < 47 ==> #[trigger] read_direction()[i] == (i < 10),
{
    assert(read_swdio(ap, address).take(10) =~= request(ap, true, address));
}

/// The line during a write: the request, a gap of five bits for the target, the 32
/// bits of the value with the least significant first, and their parity. The probe
/// drives the line except for the gap.
pub proof fn law_write_line(ap: bool, address: u16, value: u32)
    ensures
        write_swdio(ap, address, value).len() == 48,
        write_swdio(ap, address, value).take(10) == request(ap, false, address),
        forall|i: int| 10 <= i < 15 ==> !#[trigger] write_swdio(ap, address, value)[i],
        forall|i: int|
            15 <= i < 47 ==> #[trigger] write_swdio(ap, address, value)[i] == ((value >> ((i
                - 15) as u32)) & 1 == 1),
        bits::bits_value(write_swdio(ap, address, value).subrange(15, 47)) == value,
        write_swdio(ap, address, value)[47] == bits::odd(
            write_swdio(ap, address, value).subrange(15, 47),
        ),
        write_direction().len() == 48,
        forall|i: int| 0 <= i < 48 ==> #[trigger] write_direction()[i] == (i < 10 || i >= 15),
{
    let sent = write_swdio(ap, address, value);
    let data = bits::nat_bits(value as nat, 32);
    assert(sent.take(10) =~= request(ap, false, address));
    assert(sent.subrange(15, 47) =~= data);
    bits::law_bits_of_word(value, 32);
    bits::law_value_of_bits(value as nat, 32);
    lemma2_to64();
    assert forall|i: int| 15 <= i < 47 implies #[trigger] sent[i] == ((value >> ((i - 15) as u32))
        & 1 == 1) by {
        assert(sent[i] == data[i - 15]);
    }
}

/// The line while a target is brought into SWD mode: 64 ones, the code `0xE79E`
/// with the least significant bit first, 64 ones and ten zeros, all of them driven
/// by the probe.
pub proof fn law_init_line()
    ensures
        init_swdio().len() == 154,
        forall|i: int| 0 <= i < 64 ==> #[trigger] init_swdio()[i],
        bits::bits_value(init_swdio().subrange(64, 80)) == 0xE79E,
        forall|i: int|
            64 <= i < 80 ==> #[trigger] init_swdio()[i] == ((0xE79Eu16 >> ((i - 64) as u16)) & 1
                == 1),
        forall|i: int| 80 <= i < 144 ==> #[trigger] init_swdio()[i],
        forall|i: int| 144 <= i < 154 ==> !#[trigger] init_swdio()[i],
        init_direction().len() == 154,
        forall|i: int| 0 <= i < 154 ==> #[trigger] init_direction()[i],
{
    let code = jtag_to_swd();
    assert(init_swdio().subrange(64, 80) =~= code);
    assert({
        &&& (0xE79Eu16 >> 0u16) & 1 == 0
        &&& (0xE79Eu16 >> 1u16) & 1 == 1
        &&& (0xE79Eu16 >> 2u16) & 1 == 1
        &&& (0xE79Eu16 >> 3u16) & 1 == 1
        &&& (0xE79Eu16 >> 4u16) & 1 == 1
        &&& (0xE79Eu16 >> 5u16) & 1 == 0
        &&& (0xE79Eu16 >> 6u16) & 1 == 0
        &&& (0xE79Eu16 >> 7u16) & 1 == 1
        &&& (0xE79Eu16 >> 8u16) & 1 == 1
        &&& (0xE79Eu16 >> 9u16) & 1 == 1
        &&& (0xE79Eu16 >> 10u16) & 1 == 1
        &&& (0xE79Eu16 >> 11u16) & 1 == 0
        &&& (0xE79Eu16 >> 12u16) & 1 == 0
        &&& (0xE79Eu16 >> 13u16) & 1 == 1
        &&& (0xE79Eu16 >> 14u16) & 1 == 1
        &&& (0xE79Eu16 >> 15u16) & 1 == 1
    }) by (bit_vector);
    assert forall|i: int| 0 <= i < 16 implies #[trigger] code[i] == bits::nat_bit(
        0xE79E,
        i as nat,
    ) by {
        bits::law_bit_of_half_word(0xE79E, i as nat);
    }
    assert(code =~= bits::nat_bits(0xE79E, 16));
    bits::law_value_of_bits(0xE79E, 16);
    lemma2_to64();
    assert forall|i: int| 64 <= i < 80 implies #[trigger] init_swdio()[i] == ((0xE79Eu16 >> ((i
        - 64) as u16)) & 1 == 1) by {
        assert(init_swdio()[i] == code[i - 64]);
        bits::law_bit_of_half_word(0xE79E, (i - 64) as nat);
    }
}

/// The acknowledgement is in the three bits after the request. The second of them
/// is WAIT, the third is FAULT, and WAIT comes first.
pub proof fn law_acknowledgement(response: Seq<bool>)
    ensures
        is_wait(response) <==> response[11],
        is_fault(response) <==> !response[11] && response[12],
{
}

/// A response of a read has its 32 data bits after the acknowledgement, the least
/// significant first, and then their parity. With the right parity the value has
/// just these bits; with a wrong one, or with none, there is no value.
pub proof fn law_response(response: Seq<bool>, i: u32)
    requires
        i < 32,
    ensures
        response.len() > 45 && response[45] == bits::odd(response.subrange(13, 45)) ==> (read_value(
            response,
        ) matches Ok(value) && (((value >> i) & 1 == 1) <==> response[13 + i])),
        response.len() <= 45 || response[45] != bits::odd(response.subrange(13, 45)) ==> read_value(
            response,
        ) == Err::<u32, DebugProbeError>(DebugProbeError::Unknown),
{
    let data = response.subrange(13, 45);
    if response.len() > 45 {
        assert(data.take(32) =~= data);
        bits::law_word_of_bits(data, i);
        assert(data[i as int] == response[13 + i]);
    }
}

} // verus!
