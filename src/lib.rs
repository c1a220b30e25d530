//! Multi-signature wallet coordination: deterministic derivation of the shared
//! account, composition of approval calls, and the transfer protocol that
//! checks a funding transfer really took effect.
use vstd::prelude::*;

pub mod account;
pub mod chain;
pub mod scale;
pub mod transfer;

verus! {

} // verus!
