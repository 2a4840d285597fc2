//! The bytes from which an escrow's id is derived.
//!
//! An id is the SHA-256 digest of 36 bytes: the ledger time, the ledger
//! sequence number, the escrow counter and the amount, each big-endian at its
//! full width. The counter differs from call to call, so two calls at the same
//! instant with the same amount still hash different bytes.

use vstd::prelude::*;

verus! {

/// The length of the bytes that are hashed into an id.
pub const ID_PREIMAGE_LEN: usize = 36;

/// The `width` low-order bytes of `value`, most significant first.
pub open spec fn be_bytes(value: nat, width: nat) -> Seq<u8>
    decreases width,
{
    if width == 0 {
        Seq::empty()
    } else {
        be_bytes(value / 256, (width - 1) as nat).push((value % 256) as u8)
    }
}

/// The two's-complement reading of a signed 128-bit amount.
pub open spec fn twos_complement(amount: i128) -> nat {
    if amount >= 0 {
        amount as nat
    } else {
        (amount + 0x1_0000_0000_0000_0000_0000_0000_0000_0000) as nat
    }
}

/// The bytes that are hashed into the id of the escrow numbered `counter`.
pub open spec fn id_preimage(timestamp: u64, sequence: u32, counter: u64, amount: i128) -> Seq<
    u8,
> {
    be_bytes(timestamp as nat, 8) + be_bytes(sequence as nat, 4) + be_bytes(counter as nat, 8)
        + be_bytes(twos_complement(amount), 16)
}

/// `be_bytes` gives as many bytes as asked for.
pub proof fn lemma_be_bytes_len(value: nat, width: nat)
    ensures
        be_bytes(value, width).len() == width,
    decreases width,
{
    if width > 0 {
        lemma_be_bytes_len(value / 256, (width - 1) as nat);
    }
}

/// Two values below `256^width` with the same bytes are the same value.
pub proof fn lemma_be_bytes_injective(a: nat, b: nat, width: nat)
    requires
        be_bytes(a, width) == be_bytes(b, width),
        a < vstd::arithmetic::power::pow(256, width),
        b < vstd::arithmetic::power::pow(256, width),
    ensures
        a == b,
    decreases width,
{
    vstd::arithmetic::power::lemma_pow0(256);
    if width > 0 {
        let w = (width - 1) as nat;
        vstd::arithmetic::power::lemma_pow_positive(256, w);
        assert(vstd::arithmetic::power::pow(256, width) == 256 * vstd::arithmetic::power::pow(
            256,
            w,
        )) by {
            reveal(vstd::arithmetic::power::pow);
        }
        let sa = be_bytes(a / 256, w);
        let sb = be_bytes(b / 256, w);
        lemma_be_bytes_len(a / 256, w);
        lemma_be_bytes_len(b / 256, w);
        assert(sa.push((a % 256) as u8).last() == sb.push((b % 256) as u8).last());
        assert(sa =~= sa.push((a % 256) as u8).drop_last());
        assert(sb =~= sb.push((b % 256) as u8).drop_last());
        assert(a / 256 < vstd::arithmetic::power::pow(256, w)) by (nonlinear_arith)
            requires
                a < 256 * vstd::arithmetic::power::pow(256, w),
        ;
        assert(b / 256 < vstd::arithmetic::power::pow(256, w)) by (nonlinear_arith)
            requires
                b < 256 * vstd::arithmetic::power::pow(256, w),
        ;
        lemma_be_bytes_injective(a / 256, b / 256, w);
        assert(a % 256 == b % 256);
    }
}

/// Appends the `width` low-order bytes of `value`, most significant first.
fn push_be(out: &mut Vec<u8>, value: u128, width: u8)
    ensures
        final(out)@ == old(out)@ + be_bytes(value as nat, width as nat),
    decreases width,
{
    if width > 0 {
        push_be(out, value / 256, width - 1);
        out.push((value % 256) as u8);
        assert(out@ =~= old(out)@ + be_bytes(value as nat, width as nat));
    } else {
        assert(out@ =~= old(out)@ + be_bytes(value as nat, 0));
    }
}

/// The two's-complement reading of `amount`.
fn unsigned_bits(amount: i128) -> (bits: u128)
    ensures
        bits == twos_complement(amount),
{
    if amount >= 0 {
        amount as u128
    } else {
        let above_min: i128 = amount - i128::MIN;
        (above_min as u128) + 0x8000_0000_0000_0000_0000_0000_0000_0000u128
    }
}

/// The bytes that are hashed into the id of the escrow numbered `counter`.
pub fn escrow_id_preimage(timestamp: u64, sequence: u32, counter: u64, amount: i128) -> (data: Vec<
    u8,
>)
    ensures
        data@ == id_preimage(timestamp, sequence, counter, amount),
        data@.len() == ID_PREIMAGE_LEN,
{
    let mut data: Vec<u8> = Vec::with_capacity(ID_PREIMAGE_LEN);
    push_be(&mut data, timestamp as u128, 8);
    push_be(&mut data, sequence as u128, 4);
    push_be(&mut data, counter as u128, 8);
    push_be(&mut data, unsigned_bits(amount), 16);
    proof {
        lemma_be_bytes_len(timestamp as nat, 8);
        lemma_be_bytes_len(sequence as nat, 4);
        lemma_be_bytes_len(counter as nat, 8);
        lemma_be_bytes_len(twos_complement(amount), 16);
        assert(data@ =~= id_preimage(timestamp, sequence, counter, amount));
    }
    data
}

/// Escrows with different numbers hash different bytes, whatever the instant
/// and the amount.
pub proof fn law_preimages_differ_by_counter(
    timestamp_a: u64,
    sequence_a: u32,
    counter_a: u64,
    amount_a: i128,
    timestamp_b: u64,
    sequence_b: u32,
    counter_b: u64,
    amount_b: i128,
)
    requires
        counter_a != counter_b,
    ensures
        id_preimage(timestamp_a, sequence_a, counter_a, amount_a) != id_preimage(
            timestamp_b,
            sequence_b,
            counter_b,
            amount_b,
        ),
{
    let pa = id_preimage(timestamp_a, sequence_a, counter_a, amount_a);
    let pb = id_preimage(timestamp_b, sequence_b, counter_b, amount_b);
    lemma_be_bytes_len(timestamp_a as nat, 8);
    lemma_be_bytes_len(sequence_a as nat, 4);
    lemma_be_bytes_len(counter_a as nat, 8);
    lemma_be_bytes_len(twos_complement(amount_a), 16);
    lemma_be_bytes_len(timestamp_b as nat, 8);
    lemma_be_bytes_len(sequence_b as nat, 4);
    lemma_be_bytes_len(counter_b as nat, 8);
    lemma_be_bytes_len(twos_complement(amount_b), 16);
    if pa == pb {
        assert(pa.subrange(12, 20) =~= be_bytes(counter_a as nat, 8));
        assert(pb.subrange(12, 20) =~= be_bytes(counter_b as nat, 8));
        assert(vstd::arithmetic::power::pow(256, 8) == 0x1_0000_0000_0000_0000) by {
            reveal_with_fuel(vstd::arithmetic::power::pow, 9);
        }
        lemma_be_bytes_injective(counter_a as nat, counter_b as nat, 8);
    }
}

} // verus!
