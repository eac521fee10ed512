//! Plain-value stand-ins for the identities and hashes that the host
//! environment supplies.

use vstd::prelude::*;

verus! {

/// An account identity as resolved by the host's authentication layer.
///
/// The engine never inspects an identity beyond comparing it for equality,
/// so it is carried as an opaque numeric handle. A caller-facing adapter is
/// expected to map real account identifiers to distinct handles.
#[derive(Clone, Copy, Debug, PartialEq, Eq, Structural, Hash)]
pub struct Address {
    pub id: u64,
}

/// A 32-byte transaction hash reported by the payer's ledger transaction.
///
/// The engine records it verbatim on payment confirmation and never
/// interprets its contents.
#[derive(Clone, Copy, Debug, PartialEq, Eq)]
pub struct TransactionHash {
    pub bytes: [u8; 32],
}

} // verus!
