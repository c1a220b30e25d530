//! Errors and the approval call that accumulates signatures toward a threshold.
use vstd::prelude::*;
use vstd::string::StrSliceExecFns;

use crate::account::{
    all_decodable, decoded_all, first_parse_failure, parse_signatory_list, string_views,
    AccountId,
};

verus! {

/// What went wrong in deriving an account or composing an approval.
#[derive(Debug)]
pub enum ChainError {
    /// A signatory that is not a valid SS58 address.
    ParseError(String),
    /// A call hash that is not 32 bytes of hex, with or without a `0x` prefix.
    InvalidCallHash,
    /// The ledger could not be reached.
    ConnectionError,
    /// The ledger rejected the transaction or did not report it included.
    SubmissionFailed,
}

/// Where the first approval of a pending call was recorded: a block number and the
/// index of the transaction within that block.
#[derive(Clone, Copy, Debug, PartialEq, Eq, Structural)]
pub struct Timepoint {
    pub height: u32,
    pub index: u32,
}

/// What a signatory supplies to approve a pending multisig call.
pub struct ApproveTransactionParams {
    pub ws_url: String,
    pub threshold: u16,
    pub max_weight: u64,
    /// The other members of the multisig set, as SS58 addresses.
    pub other_signatories: Vec<String>,
    /// `None` for the first approval of the call; afterwards the timepoint that the
    /// ledger reported for that first approval.
    pub timepoint: Option<Timepoint>,
    /// The 32-byte call hash in hex, with or without a `0x` prefix.
    pub call_hash: String,
    pub seed: String,
}

/// The arguments of an "approve as multi" call, ready to be signed and submitted.
pub struct ApprovalCall {
    pub threshold: u16,
    pub other_signatories: Vec<AccountId>,
    pub maybe_timepoint: Option<Timepoint>,
    pub call_hash: [u8; 32],
    pub max_weight: u64,
}

/// Whether a character is a hexadecimal digit of either case.
pub open spec fn is_hex_digit(c: char) -> bool {
    (48 <= c as u32 && c as u32 <= 57) || (97 <= c as u32 && c as u32 <= 102) || (65 <= c as u32
        && c as u32 <= 70)
}

/// The value of a hexadecimal digit.
pub open spec fn hex_digit_value(c: char) -> nat {
    if 48 <= c as u32 && c as u32 <= 57 {
        (c as u32 - 48) as nat
    } else if 97 <= c as u32 && c as u32 <= 102 {
        (c as u32 - 87) as nat
    } else {
        (c as u32 - 55) as nat
    }
}

/// Whether a text is an even number of hexadecimal digits.
pub open spec fn is_hex_text(s: Seq<char>) -> bool {
    s.len() % 2 == 0 && forall|i: int| 0 <= i < s.len() ==> is_hex_digit(#[trigger] s[i])
}

/// The bytes that a hex text spells, two digits each, high digit first.
pub open spec fn hex_bytes(s: Seq<char>) -> Seq<u8> {
    Seq::new(
        s.len() / 2,
        |i: int| (hex_digit_value(s[2 * i]) * 16 + hex_digit_value(s[2 * i + 1])) as u8,
    )
}

/// The text without a leading `0x`, if it has one.
pub open spec fn without_hex_prefix(s: Seq<char>) -> Seq<char> {
    if s.len() >= 2 && s[0] == '0' && s[1] == 'x' {
        s.subrange(2, s.len() as int)
    } else {
        s
    }
}

/// Whether a text is a call hash: exactly 64 hex digits after an optional `0x`.
pub open spec fn is_call_hash_text(s: Seq<char>) -> bool {
    is_hex_text(without_hex_prefix(s)) && without_hex_prefix(s).len() == 64
}

/// Relies on hex::decode: it succeeds exactly on an even number of hex digits of either
/// case, and turns each pair into one byte, high digit first.
#[verifier::external_body]
fn decode_hex(s: &str) -> (r: Option<Vec<u8>>)
    ensures
        r is Some <==> is_hex_text(s@),
        r is Some ==> r->0@ == hex_bytes(s@),
{
    hex::decode(s).ok()
}

/// Removes a leading `0x`, if there is one.
pub fn strip_hex_prefix(s: &str) -> (r: &str)
    ensures
        r@ == without_hex_prefix(s@),
{
    let n = s.unicode_len();
    if n >= 2 && s.get_char(0) == '0' && s.get_char(1) == 'x' {
        s.substring_char(2, n)
    } else {
        s
    }
}

/// Decodes a call hash written as 64 hex digits, with or without a `0x` prefix.
pub fn parse_call_hash(s: &str) -> (r: Result<[u8; 32], ChainError>)
    ensures
        match r {
            Ok(hash) => is_call_hash_text(s@) && hash@ == hex_bytes(without_hex_prefix(s@)),
            Err(e) => !is_call_hash_text(s@) && e is InvalidCallHash,
        },
{
    let digits = strip_hex_prefix(s);
    match decode_hex(digits) {
        Some(bytes) => {
            if bytes.len() != 32 {
                return Err(ChainError::InvalidCallHash);
            }
            let mut hash: [u8; 32] = [0u8; 32];
            let mut i: usize = 0;
            while i < 32
                invariant
                    i <= 32,
                    bytes@.len() == 32,
                    forall|k: int| 0 <= k < i ==> hash@[k] == bytes@[k],
                decreases 32 - i,
            {
                hash.set(i, bytes[i]);
                i = i + 1;
            }
            assert(hash@ =~= bytes@);
            Ok(hash)
        },
        None => Err(ChainError::InvalidCallHash),
    }
}

/// Composes the approval of a pending multisig call from what the signatory supplied.
/// The call hash is checked first, then each of the other signatories in order.
pub fn compose_approval(params: &ApproveTransactionParams) -> (r: Result<ApprovalCall, ChainError>)
    ensures
        (r matches Err(ChainError::InvalidCallHash)) <==> !is_call_hash_text(params.call_hash@),
        match r {
            Ok(call) => {
                &&& is_call_hash_text(params.call_hash@)
                &&& call.call_hash@ == hex_bytes(without_hex_prefix(params.call_hash@))
                &&& all_decodable(string_views(params.other_signatories@))
                &&& call.other_signatories@ == decoded_all(
                    string_views(params.other_signatories@),
                )
                &&& call.maybe_timepoint == params.timepoint
                &&& call.threshold == params.threshold
                &&& call.max_weight == params.max_weight
            },
            Err(ChainError::InvalidCallHash) => true,
            Err(e) => is_call_hash_text(params.call_hash@) && first_parse_failure(
                string_views(params.other_signatories@),
                e,
            ),
        },
{
    let call_hash = parse_call_hash(params.call_hash.as_str())?;
    let other_signatories = parse_signatory_list(&params.other_signatories)?;
    Ok(
        ApprovalCall {
            threshold: params.threshold,
            other_signatories,
            maybe_timepoint: params.timepoint,
            call_hash,
            max_weight: params.max_weight,
        },
    )
}

} // verus!
