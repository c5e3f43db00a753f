//! An advertising-campaign ledger: advertiser onboarding with escrowed
//! deposits, ad-spot inventory and ad records, per-user view and click
//! tracking with unique-viewer deduplication, and a transaction-fee
//! sponsorship workflow (request, verify, reimburse, cancel).
//!
//! Every state transition is a single atomic step: it validates its
//! preconditions, mutates the ledger, and appends exactly one event, or it
//! fails with a specific error and changes nothing.

use vstd::prelude::*;

pub mod ad_tracking;
pub mod ads;
pub mod balances;
pub mod fee_sponsorship;

verus! {

/// The authenticated source of a call, as handed over by the host's
/// identity layer: either the privileged operator or a signed account.
#[derive(Clone, Copy, PartialEq, Eq, Structural, Debug)]
pub enum Origin {
    /// The privileged operator (may create ad spots and verify ad views).
    Root,
    /// An ordinary caller, identified by its account id.
    Signed(u64),
}

} // verus!
