//! Signatory identifiers, their canonical order, and the derivation of the
//! shared multisig account from a signatory set and a threshold.
use vstd::prelude::*;
use vstd::relations::{sorted_by, total_ordering};

use crate::chain::ChainError;
use crate::scale::{
    compact_len_encoding, le_bytes, lemma_compact_len_encoding_len, lemma_le_bytes_len,
    lemma_le_bytes_u16_injective,
};
use parity_scale_codec::Encode;
use sp_core::crypto::Ss58Codec;

verus! {

/// A raw 32-byte account identifier.
pub type AccountId = [u8; 32];

/// Lexicographic order on byte strings.
pub open spec fn bytes_le(a: Seq<u8>, b: Seq<u8>) -> bool
    decreases a.len(),
{
    if a.len() == 0 {
        true
    } else if b.len() == 0 {
        false
    } else if a[0] != b[0] {
        a[0] < b[0]
    } else {
        bytes_le(a.drop_first(), b.drop_first())
    }
}

/// The canonical order of account identifiers: lexicographic on their bytes.
pub open spec fn id_order() -> spec_fn(AccountId, AccountId) -> bool {
    |a: AccountId, b: AccountId| bytes_le(a@, b@)
}

/// The identifiers in canonical (ascending) order.
pub open spec fn canonical(ids: Seq<AccountId>) -> Seq<AccountId> {
    ids.sort_by(id_order())
}

proof fn lemma_bytes_le_reflexive(a: Seq<u8>)
    ensures
        bytes_le(a, a),
    decreases a.len(),
{
    if a.len() > 0 {
        lemma_bytes_le_reflexive(a.drop_first());
    }
}

proof fn lemma_bytes_le_antisymmetric(a: Seq<u8>, b: Seq<u8>)
    requires
        bytes_le(a, b),
        bytes_le(b, a),
    ensures
        a == b,
    decreases a.len(),
{
    if a.len() > 0 && b.len() > 0 {
        assert(a[0] == b[0]);
        assert(bytes_le(a.drop_first(), b.drop_first()));
        assert(bytes_le(b.drop_first(), a.drop_first()));
        lemma_bytes_le_antisymmetric(a.drop_first(), b.drop_first());
        assert(a.drop_first().len() == b.drop_first().len());
        assert forall|i: int| 0 <= i < a.len() implies a[i] == b[i] by {
            if i > 0 {
                assert(a[i] == a.drop_first()[i - 1]);
                assert(b[i] == b.drop_first()[i - 1]);
            }
        }
    }
    assert(a =~= b);
}

proof fn lemma_bytes_le_transitive(a: Seq<u8>, b: Seq<u8>, c: Seq<u8>)
    requires
        bytes_le(a, b),
        bytes_le(b, c),
    ensures
        bytes_le(a, c),
    decreases a.len(),
{
    if a.len() > 0 && b.len() > 0 && c.len() > 0 && a[0] == b[0] && b[0] == c[0] {
        lemma_bytes_le_transitive(a.drop_first(), b.drop_first(), c.drop_first());
    }
}

proof fn lemma_bytes_le_total(a: Seq<u8>, b: Seq<u8>)
    ensures
        bytes_le(a, b) || bytes_le(b, a),
    decreases a.len(),
{
    if a.len() > 0 && b.len() > 0 && a[0] == b[0] {
        lemma_bytes_le_total(a.drop_first(), b.drop_first());
    }
}

/// The canonical order is a total order on identifiers.
pub proof fn lemma_id_order_total()
    ensures
        total_ordering(id_order()),
{
    let r = id_order();
    assert forall|x: AccountId| #[trigger] r(x, x) by {
        lemma_bytes_le_reflexive(x@);
    }
    assert forall|x: AccountId, y: AccountId| #[trigger] r(x, y) && #[trigger] r(y, x) implies x
        == y by {
        lemma_bytes_le_antisymmetric(x@, y@);
        assert forall|i: int| 0 <= i < 32 implies x[i] == y[i] by {
            assert(x[i] == x@[i]);
            assert(y[i] == y@[i]);
        }
        assert(x =~= y);
    }
    assert forall|x: AccountId, y: AccountId, z: AccountId| #[trigger]
        r(x, y) && #[trigger] r(y, z) implies r(x, z) by {
        lemma_bytes_le_transitive(x@, y@, z@);
    }
    assert forall|x: AccountId, y: AccountId| #[trigger] r(x, y) || #[trigger] r(y, x) by {
        lemma_bytes_le_total(x@, y@);
    }
}

/// Compares two identifiers in the canonical order.
pub fn id_le(a: &AccountId, b: &AccountId) -> (r: bool)
    ensures
        r == id_order()(*a, *b),
{
    let mut i: usize = 32;
    let mut le: bool = true;
    while i > 0
        invariant
            i <= 32,
            le == bytes_le(a@.subrange(i as int, 32), b@.subrange(i as int, 32)),
        decreases i,
    {
        i = i - 1;
        if a[i] != b[i] {
            le = a[i] < b[i];
        }
        assert(a@.subrange(i as int, 32).drop_first() =~= a@.subrange(i + 1, 32));
        assert(b@.subrange(i as int, 32).drop_first() =~= b@.subrange(i + 1, 32));
    }
    assert(a@.subrange(0, 32) =~= a@);
    assert(b@.subrange(0, 32) =~= b@);
    le
}

/// Puts identifiers into canonical order.
pub fn sort_ids(ids: &Vec<AccountId>) -> (r: Vec<AccountId>)
    ensures
        sorted_by(r@, id_order()),
        r@.to_multiset() == ids@.to_multiset(),
        r@ == canonical(ids@),
{
    proof {
        lemma_id_order_total();
    }
    let ghost ord = id_order();
    let mut out: Vec<AccountId> = Vec::new();
    let mut i: usize = 0;
    proof {
        broadcast use vstd::seq_lib::group_to_multiset_ensures;

        assert(ids@.subrange(0, 0) =~= out@);
    }
    while i < ids.len()
        invariant
            i <= ids.len(),
            ord == id_order(),
            total_ordering(ord),
            sorted_by(out@, ord),
            out@.to_multiset() == ids@.subrange(0, i as int).to_multiset(),
        decreases ids.len() - i,
    {
        let x = ids[i];
        let mut j: usize = 0;
        let mut placed: bool = false;
        while !placed && j < out.len()
            invariant
                j <= out.len(),
                ord == id_order(),
                forall|k: int| 0 <= k < j ==> #[trigger] ord(out@[k], x),
                placed ==> j < out.len() && !ord(out@[j as int], x),
            decreases out.len() - j + (if placed { 0int } else { 1int }),
        {
            if id_le(&out[j], &x) {
                j = j + 1;
            } else {
                placed = true;
            }
        }
        proof {
            if j < out.len() {
                assert(!ord(out@[j as int], x));
                assert(ord(x, out@[j as int]) || ord(out@[j as int], x));
            }
        }
        let ghost before = out@;
        out.insert(j, x);
        proof {
            let n = out@;
            assert forall|p: int, q: int| 0 <= p < q < n.len() implies #[trigger] ord(
                n[p],
                n[q],
            ) by {
                if q < j {
                    assert(ord(before[p], before[q]));
                } else if q == j {
                    assert(ord(before[p], x));
                } else if p == j {
                    assert(ord(x, before[j as int]));
                    if q - 1 > j {
                        assert(ord(before[j as int], before[q - 1]));
                    }
                } else if p < j {
                    assert(ord(before[p], before[q - 1]));
                } else {
                    assert(ord(before[p - 1], before[q - 1]));
                }
            }
            vstd::seq_lib::to_multiset_insert(before, j as int, x);
            vstd::seq_lib::to_multiset_build(ids@.subrange(0, i as int), x);
            assert(ids@.subrange(0, i + 1) =~= ids@.subrange(0, i as int).push(x));
        }
        i = i + 1;
    }
    proof {
        assert(ids@.subrange(0, ids.len() as int) =~= ids@);
        ids@.lemma_sort_by_ensures(ord);
        vstd::seq_lib::lemma_sorted_unique(out@, ids@.sort_by(ord), ord);
    }
    out
}

/// Domain-separation prefix of the multisig derivation hash.
pub const MULTISIG_PREFIX: [u8; 16] = [
    109, 111, 100, 108, 112, 121, 47, 117, 116, 105, 108, 105, 115, 117, 98, 97,
];

/// The SS58 address format in which derived accounts are written (generic Substrate).
pub const SUBSTRATE_SS58_FORMAT: u16 = 42;

/// The bytes of the identifiers, one after another.
pub open spec fn id_bytes(ids: Seq<AccountId>) -> Seq<u8>
    decreases ids.len(),
{
    if ids.len() == 0 {
        Seq::empty()
    } else {
        ids[0]@ + id_bytes(ids.drop_first())
    }
}

/// What is hashed to derive the multisig account: the prefix, then the identifiers in
/// canonical order as a length-prefixed list, then the threshold.
pub open spec fn derivation_input(ids: Seq<AccountId>, threshold: u16) -> Seq<u8> {
    MULTISIG_PREFIX@ + compact_len_encoding(ids.len()) + id_bytes(canonical(ids)) + le_bytes(
        threshold as nat,
        2,
    )
}

/// The BLAKE2b-256 digest of a byte string.
pub uninterp spec fn blake2_256_of(data: Seq<u8>) -> AccountId;

/// The public key that an SS58 address spells, if it is a valid address.
pub uninterp spec fn ss58_decoded(address: Seq<char>) -> Option<AccountId>;

/// The SS58 address of an identifier in the given address format.
pub uninterp spec fn ss58_text_of(id: Seq<u8>, format: u16) -> Seq<char>;

/// The multisig account of a set of signatories and a threshold.
pub open spec fn multisig_account_of(ids: Seq<AccountId>, threshold: u16) -> AccountId {
    blake2_256_of(derivation_input(ids, threshold))
}

/// Whether every signatory is a valid SS58 address.
pub open spec fn all_decodable(signatories: Seq<Seq<char>>) -> bool {
    forall|i: int| 0 <= i < signatories.len() ==> (#[trigger] ss58_decoded(signatories[i])) is Some
}

/// The public keys of signatories that are all valid addresses.
pub open spec fn decoded_all(signatories: Seq<Seq<char>>) -> Seq<AccountId> {
    signatories.map_values(|s: Seq<char>| ss58_decoded(s)->0)
}

/// The views of a list of strings.
pub open spec fn string_views(strings: Seq<String>) -> Seq<Seq<char>> {
    strings.map_values(|s: String| s@)
}

/// Relies on parity-scale-codec's `Encode` for `(&[u8; 16], &Vec<[u8; 32]>, u16)`: the
/// fields in order; a fixed-size array as its bytes; a vector as its compact length, then
/// its items; a `u16` as two little-endian bytes. Collections over `u32::MAX` items panic.
#[verifier::external_body]
fn encode_derivation_input(prefix: &[u8; 16], ids: &Vec<AccountId>, threshold: u16) -> (r: Vec<
    u8,
>)
    requires
        ids.len() <= u32::MAX,
    ensures
        r@ == prefix@ + compact_len_encoding(ids.len() as nat) + id_bytes(ids@) + le_bytes(
            threshold as nat,
            2,
        ),
{
    (prefix, ids, threshold).encode()
}

/// Relies on sp_crypto_hashing::blake2_256, which depends on its input alone.
#[verifier::external_body]
fn blake2_256(data: &Vec<u8>) -> (r: AccountId)
    ensures
        r == blake2_256_of(data@),
{
    sp_crypto_hashing::blake2_256(data)
}

/// Relies on sp_core's `Ss58Codec::from_ss58check_with_version` for sr25519 public keys:
/// base-58 decoding, prefix, length and checksum checks; the format found is not used.
#[verifier::external_body]
fn decode_ss58(address: &str) -> (r: Option<AccountId>)
    ensures
        r == ss58_decoded(address@),
{
    sp_core::sr25519::Public::from_ss58check_with_version(address).ok().map(|(key, _)| key.0)
}

/// Relies on sp_core's `Ss58Codec::to_ss58check_with_version` for `AccountId32`.
#[verifier::external_body]
fn encode_ss58(id: &AccountId, format: u16) -> (r: String)
    ensures
        r@ == ss58_text_of(id@, format),
{
    sp_core::crypto::AccountId32::new(*id).to_ss58check_with_version(
        sp_core::crypto::Ss58AddressFormat::custom(format),
    )
}

/// Parses a signatory's SS58 address into its account identifier. Any SS58 address
/// format that is not reserved is accepted; the format itself is not kept.
pub fn parse_signatories(address: &str) -> (r: Result<AccountId, ChainError>)
    ensures
        match r {
            Ok(id) => ss58_decoded(address@) == Some(id),
            Err(e) => ss58_decoded(address@) is None && match e {
                ChainError::ParseError(bad) => bad@ == address@,
                _ => false,
            },
        },
{
    match decode_ss58(address) {
        Some(id) => Ok(id),
        None => Err(ChainError::ParseError(address.to_string())),
    }
}

/// Derives the multisig account of a set of identifiers and a threshold; the order in
/// which the identifiers are given does not matter.
pub fn derive_multisig_account(ids: &Vec<AccountId>, threshold: u16) -> (r: AccountId)
    requires
        ids.len() <= u32::MAX,
    ensures
        r == multisig_account_of(ids@, threshold),
{
    let sorted = sort_ids(ids);
    proof {
        vstd::seq_lib::to_multiset_len(ids@);
        vstd::seq_lib::to_multiset_len(sorted@);
    }
    let input = encode_derivation_input(&MULTISIG_PREFIX, &sorted, threshold);
    blake2_256(&input)
}

/// The error for the first signatory that is not a valid address.
pub open spec fn first_parse_failure(signatories: Seq<Seq<char>>, e: ChainError) -> bool {
    exists|i: int|
        0 <= i < signatories.len() && ss58_decoded(#[trigger] signatories[i]) is None && (forall|
            j: int,
        | 0 <= j < i ==> ss58_decoded(#[trigger] signatories[j]) is Some) && match e {
            ChainError::ParseError(bad) => bad@ == signatories[i],
            _ => false,
        }
}

/// Parses every signatory, in order; fails on the first that is not a valid address.
pub fn parse_signatory_list(signatories: &Vec<String>) -> (r: Result<Vec<AccountId>, ChainError>)
    ensures
        match r {
            Ok(ids) => all_decodable(string_views(signatories@)) && ids@ == decoded_all(
                string_views(signatories@),
            ),
            Err(e) => first_parse_failure(string_views(signatories@), e),
        },
{
    let ghost views = string_views(signatories@);
    let mut ids: Vec<AccountId> = Vec::new();
    let mut i: usize = 0;
    while i < signatories.len()
        invariant
            i <= signatories.len(),
            views == string_views(signatories@),
            ids@ =~= decoded_all(views.subrange(0, i as int)),
            forall|j: int| 0 <= j < i ==> ss58_decoded(#[trigger] views[j]) is Some,
        decreases signatories.len() - i,
    {
        assert(views[i as int] == signatories@[i as int]@);
        match parse_signatories(signatories[i].as_str()) {
            Ok(id) => {
                ids.push(id);
                assert(views.subrange(0, i + 1) =~= views.subrange(0, i as int).push(
                    views[i as int],
                ));
            },
            Err(e) => {
                return Err(e);
            },
        }
        i = i + 1;
    }
    assert(views.subrange(0, i as int) =~= views);
    Ok(ids)
}

/// Derives the SS58 address of the multisig account of the given signatories and
/// threshold. Fails on the first signatory that is not a valid address.
pub fn create_multisig_wallet(signatories: Vec<String>, threshold: u16) -> (r: Result<
    String,
    ChainError,
>)
    requires
        signatories.len() <= u32::MAX,
    ensures
        match r {
            Ok(address) => all_decodable(string_views(signatories@)) && address@ == ss58_text_of(
                multisig_account_of(decoded_all(string_views(signatories@)), threshold)@,
                SUBSTRATE_SS58_FORMAT,
            ),
            Err(e) => first_parse_failure(string_views(signatories@), e),
        },
{
    let ids = parse_signatory_list(&signatories)?;
    let account = derive_multisig_account(&ids, threshold);
    Ok(encode_ss58(&account, SUBSTRATE_SS58_FORMAT))
}

proof fn lemma_id_bytes_len(ids: Seq<AccountId>)
    ensures
        id_bytes(ids).len() == 32 * ids.len(),
    decreases ids.len(),
{
    if ids.len() > 0 {
        lemma_id_bytes_len(ids.drop_first());
    }
}

proof fn lemma_id_bytes_injective(a: Seq<AccountId>, b: Seq<AccountId>)
    requires
        a.len() == b.len(),
        id_bytes(a) == id_bytes(b),
    ensures
        a == b,
    decreases a.len(),
{
    if a.len() > 0 {
        let x = id_bytes(a);
        lemma_id_bytes_len(a.drop_first());
        lemma_id_bytes_len(b.drop_first());
        assert(x.subrange(0, 32) =~= a[0]@);
        assert(x.subrange(0, 32) =~= b[0]@);
        assert forall|i: int| 0 <= i < 32 implies a[0][i] == b[0][i] by {
            assert(a[0][i] == a[0]@[i]);
            assert(b[0][i] == b[0]@[i]);
        }
        assert(a[0] =~= b[0]);
        assert(x.subrange(32, x.len() as int) =~= id_bytes(a.drop_first()));
        assert(x.subrange(32, x.len() as int) =~= id_bytes(b.drop_first()));
        lemma_id_bytes_injective(a.drop_first(), b.drop_first());
        assert(a =~= b) by {
            assert forall|i: int| 0 <= i < a.len() implies a[i] == b[i] by {
                if i > 0 {
                    assert(a[i] == a.drop_first()[i - 1]);
                    assert(b[i] == b.drop_first()[i - 1]);
                }
            }
        }
    } else {
        assert(a =~= b);
    }
}

proof fn lemma_canonical_facts(ids: Seq<AccountId>)
    ensures
        canonical(ids).to_multiset() == ids.to_multiset(),
        canonical(ids).len() == ids.len(),
        sorted_by(canonical(ids), id_order()),
{
    lemma_id_order_total();
    ids.lemma_sort_by_ensures(id_order());
    vstd::seq_lib::to_multiset_len(ids);
    vstd::seq_lib::to_multiset_len(canonical(ids));
}

proof fn lemma_decoded_permutation(a: Seq<Seq<char>>, b: Seq<Seq<char>>)
    requires
        a.to_multiset() == b.to_multiset(),
    ensures
        decoded_all(a).to_multiset() == decoded_all(b).to_multiset(),
    decreases a.len(),
{
    broadcast use vstd::seq_lib::group_to_multiset_ensures;
    broadcast use vstd::multiset::group_multiset_axioms;

    vstd::seq_lib::to_multiset_len(a);
    vstd::seq_lib::to_multiset_len(b);
    if a.len() == 0 {
        assert(b.len() == 0);
        assert(decoded_all(a) =~= decoded_all(b));
    } else {
        let x = a.last();
        let ap = a.drop_last();
        assert(a =~= ap.push(x));
        assert(a.contains(x)) by {
            assert(a[a.len() - 1] == x);
        }
        vstd::seq_lib::to_multiset_contains(a, x);
        vstd::seq_lib::to_multiset_contains(b, x);
        assert(b.contains(x));
        let k = choose|k: int| 0 <= k < b.len() && b[k] == x;
        let bp = b.remove(k);
        assert(b =~= bp.insert(k, x));
        assert(ap.to_multiset() =~= a.to_multiset().remove(x));
        assert(bp.to_multiset() =~= b.to_multiset().remove(x));
        lemma_decoded_permutation(ap, bp);
        let y = ss58_decoded(x)->0;
        assert(decoded_all(a) =~= decoded_all(ap).push(y));
        assert(decoded_all(b) =~= decoded_all(bp).insert(k, y));
    }
}

/// Reordering the signatories does not change the multisig account that they derive.
pub proof fn lemma_derivation_order_independent(
    a: Seq<Seq<char>>,
    b: Seq<Seq<char>>,
    threshold: u16,
)
    requires
        a.to_multiset() == b.to_multiset(),
        all_decodable(a),
    ensures
        all_decodable(b),
        multisig_account_of(decoded_all(a), threshold) == multisig_account_of(
            decoded_all(b),
            threshold,
        ),
{
    broadcast use vstd::seq_lib::group_to_multiset_ensures;

    assert forall|i: int| 0 <= i < b.len() implies (#[trigger] ss58_decoded(b[i])) is Some by {
        assert(b.contains(b[i]));
        vstd::seq_lib::to_multiset_contains(a, b[i]);
        vstd::seq_lib::to_multiset_contains(b, b[i]);
        assert(a.contains(b[i]));
    }
    lemma_decoded_permutation(a, b);
    let da = decoded_all(a);
    let db = decoded_all(b);
    lemma_canonical_facts(da);
    lemma_canonical_facts(db);
    lemma_id_order_total();
    vstd::seq_lib::lemma_sorted_unique(canonical(da), canonical(db), id_order());
    assert(derivation_input(da, threshold) =~= derivation_input(db, threshold));
}

/// Distinct thresholds over the same signatories give distinct hash inputs, so their
/// multisig accounts differ unless BLAKE2b-256 has a collision.
pub proof fn lemma_threshold_separates(ids: Seq<AccountId>, t1: u16, t2: u16)
    requires
        t1 != t2,
    ensures
        derivation_input(ids, t1) != derivation_input(ids, t2),
{
    let p = MULTISIG_PREFIX@ + compact_len_encoding(ids.len()) + id_bytes(canonical(ids));
    let x1 = derivation_input(ids, t1);
    let x2 = derivation_input(ids, t2);
    lemma_le_bytes_len(t1 as nat, 2);
    lemma_le_bytes_len(t2 as nat, 2);
    assert(x1 =~= p + le_bytes(t1 as nat, 2));
    assert(x2 =~= p + le_bytes(t2 as nat, 2));
    if x1 == x2 {
        assert(x1.subrange(p.len() as int, p.len() + 2int) =~= le_bytes(t1 as nat, 2));
        assert(x2.subrange(p.len() as int, p.len() + 2int) =~= le_bytes(t2 as nat, 2));
        lemma_le_bytes_u16_injective(t1, t2);
    }
}

/// Signatory lists that differ as multisets give distinct hash inputs, whatever the
/// thresholds, so their multisig accounts differ unless BLAKE2b-256 has a collision.
pub proof fn lemma_signatories_separate(
    ids1: Seq<AccountId>,
    ids2: Seq<AccountId>,
    t1: u16,
    t2: u16,
)
    requires
        ids1.to_multiset() != ids2.to_multiset(),
    ensures
        derivation_input(ids1, t1) != derivation_input(ids2, t2),
{
    let c1 = canonical(ids1);
    let c2 = canonical(ids2);
    lemma_canonical_facts(ids1);
    lemma_canonical_facts(ids2);
    lemma_id_bytes_len(c1);
    lemma_id_bytes_len(c2);
    lemma_compact_len_encoding_len(ids1.len());
    lemma_compact_len_encoding_len(ids2.len());
    lemma_le_bytes_len(t1 as nat, 2);
    lemma_le_bytes_len(t2 as nat, 2);
    let x1 = derivation_input(ids1, t1);
    let x2 = derivation_input(ids2, t2);
    if x1 == x2 {
        if ids1.len() == ids2.len() {
            let start: int = 16 + compact_len_encoding(ids1.len()).len() as int;
            let end: int = start + 32 * ids1.len();
            assert(x1.subrange(start, end) =~= id_bytes(c1));
            assert(x2.subrange(start, end) =~= id_bytes(c2));
            lemma_id_bytes_injective(c1, c2);
        } else {
            assert(x1.len() != x2.len());
        }
    }
}

} // verus!
