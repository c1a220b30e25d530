//! The parts of the SCALE encoding that the account derivation hashes.
use vstd::prelude::*;

verus! {

/// The `k` low-order bytes of `v`, least significant first.
pub open spec fn le_bytes(v: nat, k: nat) -> Seq<u8>
    decreases k,
{
    if k == 0 {
        Seq::empty()
    } else {
        seq![(v % 256) as u8] + le_bytes(v / 256, (k - 1) as nat)
    }
}

/// The compact encoding of a collection length `n` (at most `u32::MAX`).
pub open spec fn compact_len_encoding(n: nat) -> Seq<u8> {
    if n < 64 {
        seq![(n * 4) as u8]
    } else if n < 16384 {
        le_bytes(n * 4 + 1, 2)
    } else if n < 1073741824 {
        le_bytes(n * 4 + 2, 4)
    } else {
        seq![3u8] + le_bytes(n, 4)
    }
}

pub proof fn lemma_le_bytes_len(v: nat, k: nat)
    ensures
        le_bytes(v, k).len() == k,
    decreases k,
{
    if k > 0 {
        lemma_le_bytes_len(v / 256, (k - 1) as nat);
    }
}

pub proof fn lemma_compact_len_encoding_len(n: nat)
    ensures
        1 <= compact_len_encoding(n).len() <= 5,
{
    lemma_le_bytes_len(n * 4 + 1, 2);
    lemma_le_bytes_len(n * 4 + 2, 4);
    lemma_le_bytes_len(n, 4);
}

/// Two bytes in little-endian order determine a 16-bit value.
pub proof fn lemma_le_bytes_u16_injective(a: u16, b: u16)
    requires
        le_bytes(a as nat, 2) == le_bytes(b as nat, 2),
    ensures
        a == b,
{
    reveal_with_fuel(le_bytes, 3);
    let la = le_bytes(a as nat, 2);
    let lb = le_bytes(b as nat, 2);
    assert(la[0] == lb[0]);
    assert(la[1] == lb[1]);
    assert(a as nat == (a as nat / 256) * 256 + a as nat % 256) by (nonlinear_arith);
    assert(b as nat == (b as nat / 256) * 256 + b as nat % 256) by (nonlinear_arith);
    assert(a as nat / 256 < 256);
    assert(b as nat / 256 < 256);
}

} // verus!
