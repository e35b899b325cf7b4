//! The arithmetic of bytes that hold several samples.
//!
//! A byte is read as a number in positional notation: with samples of
//! `bits` bits it has `8 / bits` slots, the first in the most significant
//! bits, and the slot at position `slot` has the place value
//! `2^(8 - bits * (slot + 1))`.

use vstd::arithmetic::power2::{lemma2_to64, pow2};
use vstd::prelude::*;

verus! {

/// Whether `bits` is a sample width that divides a byte into slots.
pub open spec fn sample_width(bits: nat) -> bool {
    bits == 1 || bits == 2 || bits == 4
}

/// Number of slots in a byte of samples of `bits` bits each.
pub open spec fn slots_of(bits: nat) -> nat {
    if bits == 1 {
        8
    } else if bits == 2 {
        4
    } else if bits == 4 {
        2
    } else {
        0
    }
}

/// The place value of a slot.
pub open spec fn place(bits: nat, slot: nat) -> nat {
    pow2((8 - bits * (slot + 1)) as nat)
}

/// The bit pattern in a slot of a byte.
pub open spec fn field(bits: nat, byte: nat, slot: nat) -> nat {
    (byte / place(bits, slot)) % pow2(bits)
}

/// The byte with the bit pattern in one slot replaced by `code`.
pub open spec fn with_field(bits: nat, byte: nat, slot: nat, code: nat) -> nat {
    (byte - field(bits, byte, slot) * place(bits, slot) + code * place(bits, slot)) as nat
}

/// The number that holds the given bit patterns in its first slots, one
/// after the other.
pub open spec fn packed(bits: nat, codes: Seq<u8>) -> nat
    decreases codes.len(),
{
    if codes.len() == 0 {
        0
    } else {
        packed(bits, codes.drop_last()) + codes.last() as nat * place(bits, (codes.len() - 1) as nat)
    }
}

/// A byte has as many slots as samples of the width fit into eight bits.
pub proof fn lemma_slots_of(bits: nat)
    requires
        sample_width(bits),
    ensures
        slots_of(bits) * bits == 8,
{
}

/// The place values of the slots and the number of patterns of a sample,
/// as plain numbers.
pub proof fn lemma_place_cases(bits: nat, slot: nat)
    requires
        sample_width(bits),
        slot < slots_of(bits),
    ensures
        bits == 1 ==> pow2(bits) == 2 && place(bits, slot) == (if slot == 0 {
            128nat
        } else if slot == 1 {
            64
        } else if slot == 2 {
            32
        } else if slot == 3 {
            16
        } else if slot == 4 {
            8
        } else if slot == 5 {
            4
        } else if slot == 6 {
            2
        } else {
            1
        }),
        bits == 2 ==> pow2(bits) == 4 && place(bits, slot) == (if slot == 0 {
            64nat
        } else if slot == 1 {
            16
        } else if slot == 2 {
            4
        } else {
            1
        }),
        bits == 4 ==> pow2(bits) == 16 && place(bits, slot) == (if slot == 0 {
            16nat
        } else {
            1
        }),
{
    lemma2_to64();
    if bits == 1 {
        assert(bits * (slot + 1) == slot + 1) by (nonlinear_arith)
            requires
                bits == 1,
        ;
    } else if bits == 2 {
        assert(bits * (slot + 1) == 2 * slot + 2) by (nonlinear_arith)
            requires
                bits == 2,
        ;
    } else {
        assert(bits * (slot + 1) == 4 * slot + 4) by (nonlinear_arith)
            requires
                bits == 4,
        ;
    }
}

/// The pattern in a slot is one of the patterns of a sample.
pub proof fn lemma_field_bound(bits: nat, byte: nat, slot: nat)
    requires
        sample_width(bits),
    ensures
        field(bits, byte, slot) < pow2(bits),
{
    lemma2_to64();
}

/// Replacing the pattern in a slot gives a byte again; the slot then holds
/// the new pattern and every other slot holds what it held.
pub proof fn lemma_with_field(bits: nat, byte: nat, slot: nat, code: nat)
    requires
        sample_width(bits),
        byte < 256,
        slot < slots_of(bits),
        code < pow2(bits),
    ensures
        field(bits, byte, slot) * place(bits, slot) <= byte,
        with_field(bits, byte, slot, code) < 256,
        field(bits, with_field(bits, byte, slot, code), slot) == code,
        forall|other: nat|
            other < slots_of(bits) && other != slot ==> #[trigger] field(
                bits,
                with_field(bits, byte, slot, code),
                other,
            ) == field(bits, byte, other),
{
    lemma_place_cases(bits, slot);
    let changed = with_field(bits, byte, slot, code);
    let weight = place(bits, slot);
    lemma_digit(byte as u8, weight as u8, pow2(bits) as u8, code as u8);
    assert forall|other: nat| other < slots_of(bits) && other != slot implies #[trigger] field(
        bits,
        changed,
        other,
    ) == field(bits, byte, other) by {
        lemma_place_cases(bits, other);
        lemma_other_digit(byte as u8, weight as u8, pow2(bits) as u8, code as u8, place(bits, other) as u8);
    }
}

/// Two bytes that hold the same pattern in every slot are the same byte.
pub proof fn lemma_fields_determine(bits: nat, first: nat, second: nat)
    requires
        sample_width(bits),
        first < 256,
        second < 256,
        forall|slot: nat| slot < slots_of(bits) ==> field(bits, first, slot) == field(bits, second, slot),
    ensures
        first == second,
{
    lemma_place_cases(bits, 0);
    lemma_place_cases(bits, 1);
    assert(field(bits, first, 0) == field(bits, second, 0));
    assert(field(bits, first, 1) == field(bits, second, 1));
    if bits == 4 {
        lemma_same_nibbles(first as u8, second as u8);
    } else {
        lemma_place_cases(bits, 2);
        lemma_place_cases(bits, 3);
        assert(field(bits, first, 2) == field(bits, second, 2));
        assert(field(bits, first, 3) == field(bits, second, 3));
        if bits == 2 {
            lemma_same_pairs(first as u8, second as u8);
        } else {
            lemma_place_cases(bits, 4);
            lemma_place_cases(bits, 5);
            lemma_place_cases(bits, 6);
            lemma_place_cases(bits, 7);
            assert(field(bits, first, 4) == field(bits, second, 4));
            assert(field(bits, first, 5) == field(bits, second, 5));
            assert(field(bits, first, 6) == field(bits, second, 6));
            assert(field(bits, first, 7) == field(bits, second, 7));
            lemma_same_bits(first as u8, second as u8);
        }
    }
}

/// A byte packed from one pattern per slot is a byte, and each slot of it
/// holds the pattern that went in.
pub proof fn lemma_packed_fields(bits: nat, codes: Seq<u8>)
    requires
        sample_width(bits),
        codes.len() == slots_of(bits),
        forall|i: int| 0 <= i < codes.len() ==> codes[i] < pow2(bits),
    ensures
        packed(bits, codes) < 256,
        forall|slot: nat|
            slot < slots_of(bits) ==> #[trigger] field(bits, packed(bits, codes), slot) == codes[slot as int],
{
    reveal_with_fuel(packed, 9);
    lemma_place_cases(bits, 0);
    lemma_place_cases(bits, 1);
    if bits == 4 {
        lemma_two_nibbles(codes[0], codes[1]);
    } else {
        lemma_place_cases(bits, 2);
        lemma_place_cases(bits, 3);
        if bits == 2 {
            lemma_four_pairs(codes[0], codes[1], codes[2], codes[3]);
        } else {
            lemma_place_cases(bits, 4);
            lemma_place_cases(bits, 5);
            lemma_place_cases(bits, 6);
            lemma_place_cases(bits, 7);
            lemma_eight_bits(codes[0], codes[1], codes[2], codes[3], codes[4], codes[5], codes[6], codes[7]);
        }
    }
    let whole = packed(bits, codes);
    assert forall|slot: nat| slot < slots_of(bits) implies #[trigger] field(bits, whole, slot)
        == codes[slot as int] by {
        lemma_place_cases(bits, slot);
    }
}

/// Whether `weight` and `radix` are the place value of a slot and the
/// number of patterns of its samples.
spec fn slot_shape(weight: u8, radix: u8) -> bool {
    ||| radix == 2 && (weight == 128 || weight == 64 || weight == 32 || weight == 16 || weight == 8
        || weight == 4 || weight == 2 || weight == 1)
    ||| radix == 4 && (weight == 64 || weight == 16 || weight == 4 || weight == 1)
    ||| radix == 16 && (weight == 16 || weight == 1)
}

proof fn lemma_digit(byte: u8, weight: u8, radix: u8, code: u8)
    by (bit_vector)
    requires
        slot_shape(weight, radix),
        code < radix,
    ensures
        ((byte / weight) % radix) * weight <= byte,
        byte - ((byte / weight) % radix) * weight + code * weight < 256,
        ((byte - ((byte / weight) % radix) * weight + code * weight) / (weight as int)) % (radix as int)
            == code as int,
{
}

proof fn lemma_other_digit(byte: u8, weight: u8, radix: u8, code: u8, other: u8)
    by (bit_vector)
    requires
        slot_shape(weight, radix),
        slot_shape(other, radix),
        other != weight,
        code < radix,
    ensures
        ((byte - ((byte / weight) % radix) * weight + code * weight) / (other as int)) % (radix as int) == ((
        byte / other) % radix) as int,
{
}

proof fn lemma_same_nibbles(first: u8, second: u8)
    by (bit_vector)
    requires
        (first / 16) % 16 == (second / 16) % 16,
        (first / 1) % 16 == (second / 1) % 16,
    ensures
        first == second,
{
}

proof fn lemma_same_pairs(first: u8, second: u8)
    by (bit_vector)
    requires
        (first / 64) % 4 == (second / 64) % 4,
        (first / 16) % 4 == (second / 16) % 4,
        (first / 4) % 4 == (second / 4) % 4,
        (first / 1) % 4 == (second / 1) % 4,
    ensures
        first == second,
{
}

proof fn lemma_same_bits(first: u8, second: u8)
    by (bit_vector)
    requires
        (first / 128) % 2 == (second / 128) % 2,
        (first / 64) % 2 == (second / 64) % 2,
        (first / 32) % 2 == (second / 32) % 2,
        (first / 16) % 2 == (second / 16) % 2,
        (first / 8) % 2 == (second / 8) % 2,
        (first / 4) % 2 == (second / 4) % 2,
        (first / 2) % 2 == (second / 2) % 2,
        (first / 1) % 2 == (second / 1) % 2,
    ensures
        first == second,
{
}

proof fn lemma_two_nibbles(a: u8, b: u8)
    by (bit_vector)
    requires
        a < 16,
        b < 16,
    ensures
        a * 16 + b * 1 < 256,
        ((a * 16 + b * 1) / 16) % 16 == a as int,
        ((a * 16 + b * 1) / 1) % 16 == b as int,
{
}

proof fn lemma_four_pairs(a: u8, b: u8, c: u8, d: u8)
    by (bit_vector)
    requires
        a < 4,
        b < 4,
        c < 4,
        d < 4,
    ensures
        a * 64 + b * 16 + c * 4 + d * 1 < 256,
        ((a * 64 + b * 16 + c * 4 + d * 1) / 64) % 4 == a as int,
        ((a * 64 + b * 16 + c * 4 + d * 1) / 16) % 4 == b as int,
        ((a * 64 + b * 16 + c * 4 + d * 1) / 4) % 4 == c as int,
        ((a * 64 + b * 16 + c * 4 + d * 1) / 1) % 4 == d as int,
{
}

proof fn lemma_eight_bits(a: u8, b: u8, c: u8, d: u8, e: u8, f: u8, g: u8, h: u8)
    by (bit_vector)
    requires
        a < 2,
        b < 2,
        c < 2,
        d < 2,
        e < 2,
        f < 2,
        g < 2,
        h < 2,
    ensures
        a * 128 + b * 64 + c * 32 + d * 16 + e * 8 + f * 4 + g * 2 + h * 1 < 256,
        ((a * 128 + b * 64 + c * 32 + d * 16 + e * 8 + f * 4 + g * 2 + h * 1) / 128) % 2 == a as int,
        ((a * 128 + b * 64 + c * 32 + d * 16 + e * 8 + f * 4 + g * 2 + h * 1) / 64) % 2 == b as int,
        ((a * 128 + b * 64 + c * 32 + d * 16 + e * 8 + f * 4 + g * 2 + h * 1) / 32) % 2 == c as int,
        ((a * 128 + b * 64 + c * 32 + d * 16 + e * 8 + f * 4 + g * 2 + h * 1) / 16) % 2 == d as int,
        ((a * 128 + b * 64 + c * 32 + d * 16 + e * 8 + f * 4 + g * 2 + h * 1) / 8) % 2 == e as int,
        ((a * 128 + b * 64 + c * 32 + d * 16 + e * 8 + f * 4 + g * 2 + h * 1) / 4) % 2 == f as int,
        ((a * 128 + b * 64 + c * 32 + d * 16 + e * 8 + f * 4 + g * 2 + h * 1) / 2) % 2 == g as int,
        ((a * 128 + b * 64 + c * 32 + d * 16 + e * 8 + f * 4 + g * 2 + h * 1) / 1) % 2 == h as int,
{
}

} // verus!
