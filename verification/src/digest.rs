//! The 64-bit FNV-1a digest that fingerprints each chunk of a copy.
//!
//! The digest is folded byte by byte, so a chunk may be absorbed in pieces.
//! Every step is a bijection of the running value, which is why a chunk that
//! comes back with exactly one byte altered never keeps its digest.

use vstd::prelude::*;

verus! {

/// The running value before any byte has been absorbed.
pub const FNV_OFFSET: u64 = 0xcbf2_9ce4_8422_2325;

/// The multiplier of each step.
pub const FNV_PRIME: u64 = 0x0000_0100_0000_01b3;

/// One step: mix the byte in, then multiply modulo 2^64.
pub open spec fn fold_byte(h: u64, b: u8) -> u64 {
    (((h ^ (b as u64)) as int * FNV_PRIME as int) % 0x1_0000_0000_0000_0000) as u64
}

/// The running value after absorbing `data`, first byte first, starting
/// from `h`.
pub open spec fn fold(h: u64, data: Seq<u8>) -> u64
    decreases data.len(),
{
    if data.len() == 0 {
        h
    } else {
        fold_byte(fold(h, data.drop_last()), data.last())
    }
}

/// The digest of a whole chunk.
pub open spec fn digest(data: Seq<u8>) -> u64 {
    fold(FNV_OFFSET, data)
}

/// Two sequences of one length that agree everywhere but at `at`.
pub open spec fn differ_only_at(a: Seq<u8>, b: Seq<u8>, at: int) -> bool {
    &&& a.len() == b.len()
    &&& 0 <= at < a.len()
    &&& a[at] != b[at]
    &&& forall|i: int| 0 <= i < a.len() && i != at ==> a[i] == b[i]
}

proof fn lemma_step_is_injective(x: u64, y: u64)
    by (bit_vector)
    requires
        (x * 0x0000_0100_0000_01b3u64) % 0x1_0000_0000_0000_0000 == (y * 0x0000_0100_0000_01b3u64)
            % 0x1_0000_0000_0000_0000,
    ensures
        x == y,
{
}

proof fn lemma_mix_is_injective_in_state(x: u64, y: u64, b: u8)
    by (bit_vector)
    requires
        x ^ (b as u64) == y ^ (b as u64),
    ensures
        x == y,
{
}

proof fn lemma_mix_is_injective_in_byte(h: u64, a: u8, b: u8)
    by (bit_vector)
    requires
        h ^ (a as u64) == h ^ (b as u64),
    ensures
        a == b,
{
}

/// A step never maps two running values to one when the byte is the same.
pub proof fn lemma_fold_byte_separates_states(x: u64, y: u64, b: u8)
    requires
        x != y,
    ensures
        fold_byte(x, b) != fold_byte(y, b),
{
    if fold_byte(x, b) == fold_byte(y, b) {
        lemma_step_is_injective(x ^ (b as u64), y ^ (b as u64));
        lemma_mix_is_injective_in_state(x, y, b);
    }
}

/// A step never maps two bytes to one when the running value is the same.
pub proof fn lemma_fold_byte_separates_bytes(h: u64, a: u8, b: u8)
    requires
        a != b,
    ensures
        fold_byte(h, a) != fold_byte(h, b),
{
    if fold_byte(h, a) == fold_byte(h, b) {
        lemma_step_is_injective(h ^ (a as u64), h ^ (b as u64));
        lemma_mix_is_injective_in_byte(h, a, b);
    }
}

/// Absorbing `a` and then `b` is absorbing their concatenation.
pub proof fn lemma_fold_concat(h: u64, a: Seq<u8>, b: Seq<u8>)
    ensures
        fold(h, a + b) == fold(fold(h, a), b),
    decreases b.len(),
{
    if b.len() == 0 {
        assert(a + b =~= a);
    } else {
        lemma_fold_concat(h, a, b.drop_last());
        assert((a + b).drop_last() =~= a + b.drop_last());
        assert((a + b).last() == b.last());
    }
}

/// Absorbing the same bytes keeps two different running values different.
pub proof fn lemma_fold_separates_states(x: u64, y: u64, data: Seq<u8>)
    requires
        x != y,
    ensures
        fold(x, data) != fold(y, data),
    decreases data.len(),
{
    if data.len() > 0 {
        lemma_fold_separates_states(x, y, data.drop_last());
        lemma_fold_byte_separates_states(
            fold(x, data.drop_last()),
            fold(y, data.drop_last()),
            data.last(),
        );
    }
}

/// Changing exactly one byte of a sequence changes what it folds to, from
/// whatever running value the fold starts.
pub proof fn lemma_fold_detects_single_byte(h: u64, a: Seq<u8>, b: Seq<u8>, at: int)
    requires
        differ_only_at(a, b, at),
    ensures
        fold(h, a) != fold(h, b),
{
    let head_a = a.subrange(0, at);
    let head_b = b.subrange(0, at);
    let tail_a = a.subrange(at + 1, a.len() as int);
    let tail_b = b.subrange(at + 1, b.len() as int);
    assert(head_a =~= head_b);
    assert(tail_a =~= tail_b);
    let upto_a = head_a.push(a[at]);
    let upto_b = head_b.push(b[at]);
    assert(upto_a.drop_last() =~= head_a);
    assert(upto_b.drop_last() =~= head_b);
    assert(fold(h, upto_a) == fold_byte(fold(h, head_a), a[at]));
    assert(fold(h, upto_b) == fold_byte(fold(h, head_b), b[at]));
    lemma_fold_byte_separates_bytes(fold(h, head_a), a[at], b[at]);
    assert(a =~= upto_a + tail_a);
    assert(b =~= upto_b + tail_b);
    lemma_fold_concat(h, upto_a, tail_a);
    lemma_fold_concat(h, upto_b, tail_b);
    lemma_fold_separates_states(fold(h, upto_a), fold(h, upto_b), tail_a);
}

/// A chunk that differs from another in exactly one byte has another digest.
pub proof fn lemma_digest_detects_single_byte(a: Seq<u8>, b: Seq<u8>, at: int)
    requires
        differ_only_at(a, b, at),
    ensures
        digest(a) != digest(b),
{
    lemma_fold_detects_single_byte(FNV_OFFSET, a, b, at);
}

/// Absorbs one more byte into a running value.
pub fn absorb_byte(h: u64, b: u8) -> (folded: u64)
    ensures
        folded == fold_byte(h, b),
{
    (h ^ (b as u64)).wrapping_mul(FNV_PRIME)
}

/// Absorbs `data` into the running value `h`.
pub fn absorb(h: u64, data: &[u8]) -> (folded: u64)
    ensures
        folded == fold(h, data@),
{
    let mut running: u64 = h;
    let mut i: usize = 0;
    while i < data.len()
        invariant
            i <= data.len(),
            running == fold(h, data@.take(i as int)),
        decreases data.len() - i,
    {
        assert(data@.take(i as int + 1).drop_last() =~= data@.take(i as int));
        running = absorb_byte(running, data[i]);
        i = i + 1;
    }
    assert(data@.take(i as int) =~= data@);
    running
}

/// The digest of a whole chunk.
pub fn chunk_digest(data: &[u8]) -> (d: u64)
    ensures
        d == digest(data@),
{
    absorb(FNV_OFFSET, data)
}

} // verus!
