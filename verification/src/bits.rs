//! Bit sequences and the numbers and bytes that they stand for.
//!
//! Both JTAG and SWD send the least significant bit first, so the bit at index
//! `i` of a sequence always has the weight `2^i`.
use vstd::arithmetic::div_mod::*;
use vstd::arithmetic::power2::*;
use vstd::bits::*;
use vstd::prelude::*;
use vstd::slice::slice_subrange;

verus! {

/// The number that `bits` is the binary expansion of, least significant bit first.
pub open spec fn bits_value(bits: Seq<bool>) -> nat
    decreases bits.len(),
{
    if bits.len() == 0 {
        0
    } else {
        (if bits[0] { 1nat } else { 0nat }) + 2 * bits_value(bits.skip(1))
    }
}

/// Bit `i` of `value`.
pub open spec fn nat_bit(value: nat, i: nat) -> bool {
    (value / pow2(i)) % 2 == 1
}

/// The lowest `n` bits of `value`, least significant bit first.
pub open spec fn nat_bits(value: nat, n: nat) -> Seq<bool> {
    Seq::new(n, |i: int| nat_bit(value, i as nat))
}

/// The first `n` bits of `data`, the least significant bit of each byte first.
pub open spec fn data_bits(data: Seq<u8>, n: nat) -> Seq<bool> {
    Seq::new(n, |i: int| nat_bit(data[i / 8] as nat, (i % 8) as nat))
}

/// `n` times the bit `bit`.
pub open spec fn repeated(bit: bool, n: nat) -> Seq<bool> {
    Seq::new(n, |i: int| bit)
}

/// How many of `bits` are set.
pub open spec fn ones(bits: Seq<bool>) -> nat
    decreases bits.len(),
{
    if bits.len() == 0 {
        0
    } else {
        ones(bits.drop_last()) + (if bits.last() { 1nat } else { 0nat })
    }
}

/// Whether an odd number of `bits` is set.
pub open spec fn odd(bits: Seq<bool>) -> bool {
    ones(bits) % 2 == 1
}

/// The smaller of two lengths.
pub open spec fn shorter(a: int, b: int) -> int {
    if a <= b {
        a
    } else {
        b
    }
}

/// How many bytes hold `n` bits.
pub open spec fn byte_count(n: nat) -> nat {
    (n + 7) / 8
}

/// The bits that go into byte `k` when `bits` is packed into bytes.
pub open spec fn byte_slice(bits: Seq<bool>, k: int) -> Seq<bool> {
    bits.subrange(8 * k, shorter(8 * k + 8, bits.len() as int))
}

/// `bits` in bytes, the first bit in the lowest bit of the first byte. The bits
/// that are left over in the last byte are zero.
pub open spec fn pack(bits: Seq<bool>) -> Seq<u8> {
    Seq::new(byte_count(bits.len()), |k: int| bits_value(byte_slice(bits, k)) as u8)
}

/// The first `n` bits of `data`, as bytes: whole bytes as they are, and of the
/// last one only the bits that belong to the first `n`.
pub open spec fn truncated(data: Seq<u8>, n: nat) -> Seq<u8> {
    Seq::new(
        byte_count(n),
        |k: int| ((data[k] as nat) % pow2(shorter(8, n - 8 * k) as nat)) as u8,
    )
}

/// A number of `n` bits is below `2^n`.
pub proof fn lemma_bits_value_bound(bits: Seq<bool>)
    ensures
        bits_value(bits) < pow2(bits.len()),
    decreases bits.len(),
{
    if bits.len() == 0 {
        lemma2_to64();
    } else {
        lemma_bits_value_bound(bits.skip(1));
        lemma_pow2_unfold(bits.len());
    }
}

/// One more bit at the end of a sequence adds the weight of its position.
pub proof fn lemma_bits_value_push(bits: Seq<bool>, bit: bool)
    ensures
        bits_value(bits.push(bit)) == bits_value(bits) + (if bit {
            pow2(bits.len())
        } else {
            0
        }),
    decreases bits.len(),
{
    if bits.len() == 0 {
        lemma2_to64();
        assert(bits.push(bit).skip(1) =~= Seq::<bool>::empty());
        assert(bits_value(bits.push(bit).skip(1)) == 0);
    } else {
        assert(bits.push(bit).skip(1) =~= bits.skip(1).push(bit));
        lemma_bits_value_push(bits.skip(1), bit);
        lemma_pow2_unfold(bits.len());
    }
}

proof fn lemma_nat_bit_shift(value: nat, i: nat)
    ensures
        nat_bit(value, i + 1) == nat_bit(value / 2, i),
        nat_bit(value, 0) == (value % 2 == 1),
{
    lemma2_to64();
    lemma_pow2_pos(i);
    lemma_pow2_unfold(i + 1);
    lemma_div_denominator(value as int, 2, pow2(i) as int);
}

/// The lowest `n` bits of a number are the binary expansion of that number
/// modulo `2^n`.
pub proof fn law_value_of_bits(value: nat, n: nat)
    ensures
        bits_value(nat_bits(value, n)) == value % pow2(n),
    decreases n,
{
    lemma2_to64();
    if n > 0 {
        let m = (n - 1) as nat;
        lemma_pow2_pos(m);
        lemma_pow2_unfold(n);
        lemma_nat_bit_shift(value, 0);
        assert(nat_bits(value, n).skip(1) =~= nat_bits(value / 2, m)) by {
            assert forall|i: int| 0 <= i < m implies nat_bits(value, n).skip(1)[i] == nat_bits(
                value / 2,
                m,
            )[i] by {
                lemma_nat_bit_shift(value, i as nat);
            }
        }
        law_value_of_bits(value / 2, m);
        lemma_mod_breakdown(value as int, 2, pow2(m) as int);
    }
}

/// The bits of the number that a sequence stands for are the sequence itself:
/// two sequences of one length that stand for the same number are equal.
pub proof fn law_bits_of_value(bits: Seq<bool>)
    ensures
        nat_bits(bits_value(bits), bits.len()) == bits,
    decreases bits.len(),
{
    let value = bits_value(bits);
    if bits.len() > 0 {
        law_bits_of_value(bits.skip(1));
        assert(value / 2 == bits_value(bits.skip(1)));
        assert forall|i: int| 0 <= i < bits.len() implies nat_bits(value, bits.len())[i]
            == bits[i] by {
            lemma_nat_bit_shift(value, (i - 1) as nat);
            lemma_nat_bit_shift(value, 0);
            if i > 0 {
                let shifted = nat_bits(bits_value(bits.skip(1)), bits.skip(1).len());
                assert(shifted[i - 1] == bits.skip(1)[i - 1]);
            }
        }
    }
    assert(nat_bits(value, bits.len()) =~= bits);
}

/// Packing the first `n` bits of `data` gives back `data`, cut off after `n`
/// bits.
pub proof fn law_pack_data_bits(data: Seq<u8>, n: nat)
    requires
        n <= 8 * data.len(),
    ensures
        pack(data_bits(data, n)) == truncated(data, n),
{
    let bits = data_bits(data, n);
    assert forall|k: int| 0 <= k < byte_count(n) implies pack(bits)[k] == truncated(data, n)[k] by {
        let width = shorter(8, n - 8 * k) as nat;
        assert(byte_slice(bits, k) =~= nat_bits(data[k] as nat, width));
        law_value_of_bits(data[k] as nat, width);
    }
    assert(pack(bits) =~= truncated(data, n));
}

/// Cutting `data` off at a byte boundary changes none of the bytes before it.
pub proof fn law_truncated_whole_bytes(data: Seq<u8>, n: nat)
    requires
        n <= 8 * data.len(),
        n % 8 == 0,
    ensures
        truncated(data, n) == data.take(n as int / 8),
{
    lemma2_to64();
    assert forall|k: int| 0 <= k < byte_count(n) implies truncated(data, n)[k] == data[k] by {
        assert(shorter(8, n - 8 * k) == 8);
        assert((data[k] as nat) % pow2(8) == data[k]);
    }
    assert(truncated(data, n) =~= data.take(n as int / 8));
}

/// Flipping one bit of a sequence flips its parity.
pub proof fn lemma_odd_flip(bits: Seq<bool>, i: int)
    requires
        0 <= i < bits.len(),
    ensures
        odd(bits.update(i, !bits[i])) == !odd(bits),
    decreases bits.len(),
{
    let flipped = bits.update(i, !bits[i]);
    if i == bits.len() - 1 {
        assert(flipped.drop_last() =~= bits.drop_last());
    } else {
        assert(flipped.drop_last() =~= bits.drop_last().update(i, !bits.drop_last()[i]));
        lemma_odd_flip(bits.drop_last(), i);
    }
}

/// One more bit changes the parity if it is set.
pub proof fn lemma_odd_push(bits: Seq<bool>, bit: bool)
    ensures
        odd(bits.push(bit)) == (odd(bits) != bit),
{
    assert(bits.push(bit).drop_last() =~= bits);
}

/// Every bit of the number that `bits` stands for is the one of `bits` with its
/// weight, and the bits beyond are zero.
proof fn lemma_value_bit(bits: Seq<bool>, i: nat)
    ensures
        nat_bit(bits_value(bits), i) == (i < bits.len() && bits[i as int]),
{
    let value = bits_value(bits);
    if i < bits.len() {
        law_bits_of_value(bits);
        assert(nat_bits(value, bits.len())[i as int] == bits[i as int]);
    } else {
        lemma_bits_value_bound(bits);
        if bits.len() < i {
            lemma_pow2_strictly_increases(bits.len(), i);
        }
        lemma_basic_div(value as int, pow2(i) as int);
    }
}

/// The bits of a word are what comes to its lowest place when it is shifted down.
pub proof fn law_bit_of_word(value: u32, i: nat)
    requires
        i < 32,
    ensures
        nat_bit(value as nat, i) == ((value >> (i as u32)) & 1 == 1),
{
    let shifted = value >> (i as u32);
    lemma_u32_shr_is_div(value, i as u32);
    assert(shifted & 1 == shifted % 2) by (bit_vector);
}

/// The bits of a half word are what comes to its lowest place when it is shifted
/// down.
pub proof fn law_bit_of_half_word(value: u16, i: nat)
    requires
        i < 16,
    ensures
        nat_bit(value as nat, i) == ((value >> (i as u16)) & 1 == 1),
{
    let shifted = value >> (i as u16);
    lemma_u16_shr_is_div(value, i as u16);
    assert(shifted & 1 == shifted % 2) by (bit_vector);
}

/// The bits of a byte are what comes to its lowest place when it is shifted down.
pub proof fn law_bit_of_byte(value: u8, i: nat)
    requires
        i < 8,
    ensures
        nat_bit(value as nat, i) == ((value >> (i as u8)) & 1 == 1),
{
    let shifted = value >> (i as u8);
    lemma_u8_shr_is_div(value, i as u8);
    assert(shifted & 1 == shifted % 2) by (bit_vector);
}

/// The number that a sequence stands for has the bit `i` of the sequence in the
/// place with the weight `2^i`, and nothing above.
pub proof fn law_weights(bits: Seq<bool>, i: nat)
    ensures
        (bits_value(bits) / pow2(i)) % 2 == 1 <==> i < bits.len() && bits[i as int],
        bits_value(bits) < pow2(bits.len()),
{
    lemma_value_bit(bits, i);
    lemma_bits_value_bound(bits);
}

/// The number that is made of `bits` is a word. Bit `i` of the word is bit `i` of
/// the sequence for the first 32 bits, further bits are passed over, and missing
/// ones count as zero.
pub proof fn law_word_of_bits(bits: Seq<bool>, i: u32)
    requires
        i < 32,
    ensures
        bits_value(bits.take(shorter(32, bits.len() as int))) <= u32::MAX,
        (((bits_value(bits.take(shorter(32, bits.len() as int))) as u32) >> i) & 1 == 1) <==> i
            < bits.len() && bits[i as int],
{
    let first = bits.take(shorter(32, bits.len() as int));
    lemma_bits_value_bound(first);
    lemma2_to64();
    if first.len() < 32 {
        lemma_pow2_strictly_increases(first.len(), 32);
    }
    lemma_value_bit(first, i as nat);
    law_bit_of_word(bits_value(first) as u32, i as nat);
}

/// The lowest `n` bits of a word, one by one.
pub proof fn law_bits_of_word(value: u32, n: nat)
    requires
        n <= 32,
    ensures
        nat_bits(value as nat, n).len() == n,
        forall|i: int|
            0 <= i < n ==> #[trigger] nat_bits(value as nat, n)[i] == ((value >> (i as u32)) & 1
                == 1),
{
    assert forall|i: int| 0 <= i < n implies #[trigger] nat_bits(value as nat, n)[i] == ((value >> (
    i as u32)) & 1 == 1) by {
        law_bit_of_word(value, i as nat);
    }
}

/// The first `n` bits of `data`, one by one: eight from each byte, the least
/// significant first.
pub proof fn law_bits_of_data(data: Seq<u8>, n: nat)
    ensures
        data_bits(data, n).len() == n,
        forall|i: int|
            0 <= i < n ==> #[trigger] data_bits(data, n)[i] == ((data[i / 8] >> ((i % 8) as u8)) & 1
                == 1),
{
    assert forall|i: int| 0 <= i < n implies #[trigger] data_bits(data, n)[i] == ((data[i / 8] >> (
    (i % 8) as u8)) & 1 == 1) by {
        law_bit_of_byte(data[i / 8], (i % 8) as nat);
    }
}

/// Bytes that bits are packed into hold all of them: bit `i` is found in byte
/// `i / 8` at place `i % 8`. There is no byte too many, and the places that are
/// left over are zero.
pub proof fn law_pack(bits: Seq<bool>, i: int)
    ensures
        pack(bits).len() == (bits.len() + 7) / 8,
        0 <= i < 8 * pack(bits).len() ==> ((pack(bits)[i / 8] >> ((i % 8) as u8)) & 1 == 1) == (i
            < bits.len() && bits[i]),
{
    if 0 <= i < 8 * pack(bits).len() {
        let slice = byte_slice(bits, i / 8);
        let place = (i % 8) as nat;
        lemma_bits_value_bound(slice);
        lemma2_to64();
        if slice.len() < 8 {
            lemma_pow2_strictly_increases(slice.len(), 8);
        }
        lemma_value_bit(slice, place);
        law_bit_of_byte(pack(bits)[i / 8], place);
    }
}

/// The parity of nothing is even, and each bit that is set turns it round.
pub proof fn law_parity(bits: Seq<bool>, bit: bool)
    ensures
        !odd(Seq::<bool>::empty()),
        odd(bits.push(bit)) <==> odd(bits) != bit,
{
    lemma_odd_push(bits, bit);
}

/// A repeated bit.
pub proof fn law_repeated(bit: bool, n: nat)
    ensures
        repeated(bit, n).len() == n,
        forall|i: int| 0 <= i < n ==> #[trigger] repeated(bit, n)[i] == bit,
{
}

/// The number that the first 32 of `bits` stand for.
pub fn bits_to_byte(bits: &[bool]) -> (value: u32)
    ensures
        value == bits_value(bits@.take(shorter(32, bits@.len() as int))),
{
    let mut bit_val: u32 = 0;
    let mut index: usize = 0;
    while index < bits.len() && index < 32
        invariant
            index <= bits.len(),
            index <= 32,
            bit_val == bits_value(bits@.take(index as int)),
        decreases bits.len() - index,
    {
        proof {
            let seen = bits@.take(index as int);
            let shift = index as u32;
            assert(bits@.take(index + 1) =~= seen.push(bits@[index as int]));
            lemma_bits_value_push(seen, bits@[index as int]);
            lemma_bits_value_bound(seen);
            lemma_u32_pow2_no_overflow(index as nat);
            lemma_u32_shl_is_mul(1, shift);
            assert(bit_val | (1u32 << shift) == bit_val + (1u32 << shift)) by (bit_vector)
                requires
                    shift < 32,
                    bit_val < (1u32 << shift),
            ;
        }
        if bits[index] {
            bit_val = bit_val | (1u32 << (index as u32));
        }
        index += 1;
    }
    bit_val
}

/// Whether an odd number of `bits` is set.
pub fn parity(bits: &[bool]) -> (odd_count: bool)
    ensures
        odd_count == odd(bits@),
{
    let mut parity = false;
    let mut index: usize = 0;
    while index < bits.len()
        invariant
            index <= bits.len(),
            parity == odd(bits@.take(index as int)),
        decreases bits.len() - index,
    {
        proof {
            assert(bits@.take(index + 1) =~= bits@.take(index as int).push(bits@[index as int]));
            lemma_odd_push(bits@.take(index as int), bits@[index as int]);
        }
        parity = parity != bits[index];
        index += 1;
    }
    assert(bits@.take(index as int) =~= bits@);
    parity
}

/// `bits` in bytes, the first bit in the lowest bit of the first byte.
pub fn pack_bits(bits: &[bool]) -> (bytes: Vec<u8>)
    ensures
        bytes@ == pack(bits@),
{
    let mut result: Vec<u8> = Vec::new();
    let mut start: usize = 0;
    let mut remaining: usize = bits.len();
    while remaining >= 8
        invariant
            start + remaining == bits.len(),
            start == 8 * result.len(),
            result@ =~= pack(bits@).take(result.len() as int),
        decreases remaining,
    {
        let chunk = slice_subrange(bits, start, start + 8);
        proof {
            assert(chunk@ =~= byte_slice(bits@, result.len() as int));
            assert(chunk@.take(8) =~= chunk@);
            lemma_bits_value_bound(chunk@);
            lemma2_to64();
        }
        result.push(bits_to_byte(chunk) as u8);
        start += 8;
        remaining -= 8;
    }
    if remaining > 0 {
        let chunk = slice_subrange(bits, start, bits.len());
        proof {
            assert(chunk@ =~= byte_slice(bits@, result.len() as int));
            assert(chunk@.take(chunk@.len() as int) =~= chunk@);
            lemma_bits_value_bound(chunk@);
            lemma2_to64();
            lemma_pow2_strictly_increases(chunk@.len(), 8);
        }
        result.push(bits_to_byte(chunk) as u8);
    }
    assert(result@ =~= pack(bits@));
    result
}

/// Appends `n` times the bit `bit`.
pub fn push_repeated(sequence: &mut Vec<bool>, bit: bool, n: usize)
    ensures
        final(sequence)@ == old(sequence)@ + repeated(bit, n as nat),
{
    let mut index: usize = 0;
    while index < n
        invariant
            index <= n,
            sequence@ =~= old(sequence)@ + repeated(bit, index as nat),
        decreases n - index,
    {
        sequence.push(bit);
        index += 1;
    }
}

/// Appends `bits`.
pub fn push_bits(sequence: &mut Vec<bool>, bits: &[bool])
    ensures
        final(sequence)@ == old(sequence)@ + bits@,
{
    let mut index: usize = 0;
    while index < bits.len()
        invariant
            index <= bits.len(),
            sequence@ =~= old(sequence)@ + bits@.take(index as int),
        decreases bits.len() - index,
    {
        sequence.push(bits[index]);
        index += 1;
    }
    assert(bits@.take(index as int) =~= bits@);
}

/// Appends the first `n` bits of `data`, the least significant bit of each byte
/// first.
pub fn push_data_bits(sequence: &mut Vec<bool>, data: &[u8], n: usize)
    requires
        n <= 8 * data@.len(),
    ensures
        final(sequence)@ == old(sequence)@ + data_bits(data@, n as nat),
{
    let mut index: usize = 0;
    while index < n
        invariant
            index <= n,
            n <= 8 * data@.len(),
            sequence@ =~= old(sequence)@ + data_bits(data@, index as nat),
        decreases n - index,
    {
        let byte: u8 = data[index / 8];
        let shift: u8 = (index % 8) as u8;
        let shifted: u8 = byte >> shift;
        proof {
            lemma_u8_shr_is_div(byte, shift);
            assert(shifted & 1 == shifted % 2) by (bit_vector);
        }
        sequence.push(shifted & 1 == 1);
        index += 1;
    }
}

/// Appends the 32 bits of `value`, least significant bit first.
pub fn push_value_bits(sequence: &mut Vec<bool>, value: u32)
    ensures
        final(sequence)@ == old(sequence)@ + nat_bits(value as nat, 32),
{
    let mut index: u32 = 0;
    while index < 32
        invariant
            index <= 32,
            sequence@ =~= old(sequence)@ + nat_bits(value as nat, index as nat),
        decreases 32 - index,
    {
        let shifted: u32 = value >> index;
        proof {
            lemma_u32_shr_is_div(value, index);
            assert(shifted & 1 == shifted % 2) by (bit_vector);
        }
        sequence.push(shifted & 1 == 1);
        index += 1;
    }
}

/// What the functions on bits give: a word with the bits of the sequence in their
/// places, the parity, and bytes with the bits of the sequence in their places.
pub proof fn law_bit_functions(
    bits: &[bool],
    word: u32,
    odd_count: bool,
    bytes: Vec<u8>,
    i: u32,
    j: int,
)
    requires
        call_ensures(bits_to_byte, (bits,), word),
        call_ensures(parity, (bits,), odd_count),
        call_ensures(pack_bits, (bits,), bytes),
        i < 32,
    ensures
        ((word >> i) & 1 == 1) <==> i < bits@.len() && bits@[i as int],
        odd_count <==> odd(bits@),
        bytes@.len() == (bits@.len() + 7) / 8,
        0 <= j < 8 * bytes@.len() ==> ((bytes@[j / 8] >> ((j % 8) as u8)) & 1 == 1) == (j
            < bits@.len() && bits@[j]),
{
    law_word_of_bits(bits@, i);
    law_pack(bits@, j);
}

} // verus!
