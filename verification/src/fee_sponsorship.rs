//! Transaction-fee sponsorship: a per-user request state machine that runs
//! request, verify, reimburse — or cancel before reimbursement — with at
//! most one outstanding request per user.

use std::collections::HashMap;
use vstd::prelude::*;

use crate::Origin;

verus! {

/// The fixed limits the component is configured with.
#[derive(Clone, Copy, PartialEq, Eq, Structural, Debug)]
pub struct Config {
    /// Smallest fee amount that can be sponsored.
    pub min_sponsorship_amount: u128,
}

/// A fee-reimbursement claim.
#[derive(Clone, Copy, PartialEq, Eq, Structural, Debug)]
pub struct SponsorshipRequest {
    /// The account asking for reimbursement.
    pub user: u64,
    /// The ad the claimed view belongs to.
    pub ad_id: u32,
    /// The transaction fee to reimburse.
    pub fee_amount: u128,
    /// Whether the privileged attestor has verified the ad view.
    pub verified: bool,
    /// Whether the fee has been reimbursed.
    pub sponsored: bool,
}

/// What a successful transition reports.
#[derive(Clone, Copy, PartialEq, Eq, Structural, Debug)]
pub enum Event {
    /// A sponsorship was requested.
    SponsorshipRequested { request_id: u32, user: u64, ad_id: u32, fee_amount: u128 },
    /// The ad view behind a request was verified.
    AdViewVerified { request_id: u32, user: u64 },
    /// A fee was reimbursed.
    FeeSponsored { request_id: u32, user: u64, amount: u128 },
    /// A request was cancelled.
    SponsorshipCancelled { request_id: u32 },
}

/// Why a transition was refused.
#[derive(Clone, Copy, PartialEq, Eq, Structural, Debug)]
pub enum Error {
    /// No request with the given id.
    RequestNotFound,
    /// The ad view has not been verified yet.
    AdViewNotVerified,
    /// The request was already reimbursed.
    AlreadySponsored,
    /// The ad's budget does not cover the fee.
    InsufficientAdBudget,
    /// The fee is below the configured minimum.
    FeeAmountTooLow,
    /// The user already has an outstanding request.
    PendingSponsorshipExists,
    /// The call came from the wrong kind of origin.
    BadOrigin,
}

/// The ledger state this component owns, as mathematical maps.
#[verifier::ext_equal]
pub struct State {
    /// The configured limits.
    pub config: Config,
    /// Sponsorship requests by id.
    pub requests: Map<u32, SponsorshipRequest>,
    /// The id the next request receives.
    pub next_request_id: u32,
    /// Each user's outstanding request id, if any.
    pub pending: Map<u64, u32>,
    /// Total reimbursed fees by ad id; ads never sponsored read as zero.
    pub total_sponsored: Map<u32, u128>,
    /// Every event emitted so far, oldest first.
    pub events: Seq<Event>,
}

/// The total reimbursed for `ad_id`, zero if it was never touched.
pub open spec fn sponsored_at(m: Map<u32, u128>, ad_id: u32) -> u128 {
    if m.contains_key(ad_id) {
        m[ad_id]
    } else {
        0
    }
}

/// The bookkeeping invariant: every request that is not yet reimbursed is
/// the outstanding request of its user.
pub open spec fn requests_inv(s: State) -> bool {
    forall|id: u32|
        #[trigger] s.requests.contains_key(id) && !s.requests[id].sponsored ==> {
            &&& s.pending.contains_key(s.requests[id].user)
            &&& s.pending[s.requests[id].user] == id
        }
}

/// Whether a sponsorship request by `who` over `fee_amount` succeeds.
pub open spec fn sponsor_ok(s: State, who: u64, fee_amount: u128) -> bool {
    &&& fee_amount >= s.config.min_sponsorship_amount
    &&& !s.pending.contains_key(who)
}

/// The error a failing request reports, checks in the order they run.
pub open spec fn sponsor_err(s: State, who: u64, fee_amount: u128) -> Error {
    if fee_amount < s.config.min_sponsorship_amount {
        Error::FeeAmountTooLow
    } else {
        Error::PendingSponsorshipExists
    }
}

/// The ledger state after `who` requests sponsorship of `fee_amount` for a
/// view of `ad_id`: the request is stored under the next id and becomes
/// the user's outstanding request.
pub open spec fn sponsor_step(s: State, who: u64, ad_id: u32, fee_amount: u128) -> State {
    let request_id = s.next_request_id;
    State {
        requests: s.requests.insert(
            request_id,
            (SponsorshipRequest {
                user: who,
                ad_id: ad_id,
                fee_amount: fee_amount,
                verified: false,
                sponsored: false,
            }),
        ),
        pending: s.pending.insert(who, request_id),
        next_request_id: request_id.saturating_add(1),
        events: s.events.push(
            (Event::SponsorshipRequested {
                request_id: request_id,
                user: who,
                ad_id: ad_id,
                fee_amount: fee_amount,
            }),
        ),
        ..s
    }
}

/// Whether verification of `request_id` succeeds.
pub open spec fn verify_ok(s: State, request_id: u32) -> bool {
    s.requests.contains_key(request_id)
}

/// The ledger state after the attestor verifies `request_id`.
pub open spec fn verify_step(s: State, request_id: u32) -> State {
    let req = s.requests[request_id];
    State {
        requests: s.requests.insert(request_id, (SponsorshipRequest { verified: true, ..req })),
        events: s.events.push(
            (Event::AdViewVerified { request_id: request_id, user: req.user }),
        ),
        ..s
    }
}

/// Whether reimbursement of `request_id` to `who` succeeds.
pub open spec fn reimburse_ok(s: State, who: u64, request_id: u32) -> bool {
    &&& s.requests.contains_key(request_id)
    &&& s.requests[request_id].user == who
    &&& s.requests[request_id].verified
    &&& !s.requests[request_id].sponsored
}

/// The error a failing reimbursement reports, checks in the order they run.
pub open spec fn reimburse_err(s: State, who: u64, request_id: u32) -> Error {
    if !s.requests.contains_key(request_id) {
        Error::RequestNotFound
    } else if s.requests[request_id].user != who {
        Error::BadOrigin
    } else if !s.requests[request_id].verified {
        Error::AdViewNotVerified
    } else {
        Error::AlreadySponsored
    }
}

/// The ledger state after `request_id` is reimbursed: the request turns
/// sponsored for good, the ad's sponsored total grows by the fee, and the
/// user's outstanding slot is cleared.
pub open spec fn reimburse_step(s: State, who: u64, request_id: u32) -> State {
    let req = s.requests[request_id];
    State {
        requests: s.requests.insert(request_id, (SponsorshipRequest { sponsored: true, ..req })),
        total_sponsored: s.total_sponsored.insert(
            req.ad_id,
            sponsored_at(s.total_sponsored, req.ad_id).saturating_add(req.fee_amount),
        ),
        pending: s.pending.remove(who),
        events: s.events.push(
            (Event::FeeSponsored { request_id: request_id, user: who, amount: req.fee_amount }),
        ),
        ..s
    }
}

/// Whether cancellation of `request_id` by `who` succeeds.
pub open spec fn cancel_ok(s: State, who: u64, request_id: u32) -> bool {
    &&& s.requests.contains_key(request_id)
    &&& s.requests[request_id].user == who
    &&& !s.requests[request_id].sponsored
}

/// The error a failing cancellation reports, checks in the order they run.
pub open spec fn cancel_err(s: State, who: u64, request_id: u32) -> Error {
    if !s.requests.contains_key(request_id) {
        Error::RequestNotFound
    } else if s.requests[request_id].user != who {
        Error::BadOrigin
    } else {
        Error::AlreadySponsored
    }
}

/// The ledger state after `who` cancels `request_id`: the request is
/// deleted and the user's outstanding slot is cleared.
pub open spec fn cancel_step(s: State, who: u64, request_id: u32) -> State {
    State {
        requests: s.requests.remove(request_id),
        pending: s.pending.remove(who),
        events: s.events.push((Event::SponsorshipCancelled { request_id: request_id })),
        ..s
    }
}

/// The sponsorship state machine. Each operation is one atomic transition:
/// it either commits its writes and appends exactly one event, or fails
/// with an [`Error`] and changes nothing.
pub struct Pallet {
    config: Config,
    requests: HashMap<u32, SponsorshipRequest>,
    next_request_id: u32,
    pending: HashMap<u64, u32>,
    total_sponsored: HashMap<u32, u128>,
    events: Vec<Event>,
}

impl View for Pallet {
    type V = State;

    closed spec fn view(&self) -> State {
        State {
            config: self.config,
            requests: self.requests@,
            next_request_id: self.next_request_id,
            pending: self.pending@,
            total_sponsored: self.total_sponsored@,
            events: self.events@,
        }
    }
}

impl Pallet {
    /// The bookkeeping invariant, at the current state.
    pub open spec fn wf(&self) -> bool {
        requests_inv(self@)
    }

    /// A fresh component with the given limits and no requests.
    pub fn new(config: Config) -> (r: Pallet)
        ensures
            r.wf(),
            r@ == (State {
                config: config,
                requests: Map::<u32, SponsorshipRequest>::empty(),
                next_request_id: 0u32,
                pending: Map::<u64, u32>::empty(),
                total_sponsored: Map::<u32, u128>::empty(),
                events: Seq::<Event>::empty(),
            }),
    {
        Pallet {
            config,
            requests: HashMap::new(),
            next_request_id: 0,
            pending: HashMap::new(),
            total_sponsored: HashMap::new(),
            events: Vec::new(),
        }
    }

    /// The configured limits.
    pub fn config(&self) -> (r: Config)
        ensures
            r == self@.config,
    {
        self.config
    }

    /// The request stored under `request_id`.
    pub fn sponsorship_requests(&self, request_id: u32) -> (r: Option<SponsorshipRequest>)
        ensures
            r == if self@.requests.contains_key(request_id) {
                Some(self@.requests[request_id])
            } else {
                Option::<SponsorshipRequest>::None
            },
    {
        match self.requests.get(&request_id) {
            Some(req) => Some(*req),
            None => None,
        }
    }

    /// The id of `who`'s outstanding request, if any.
    pub fn pending_sponsorships(&self, who: u64) -> (r: Option<u32>)
        ensures
            r == if self@.pending.contains_key(who) {
                Some(self@.pending[who])
            } else {
                Option::<u32>::None
            },
    {
        match self.pending.get(&who) {
            Some(id) => Some(*id),
            None => None,
        }
    }

    /// The total reimbursed for `ad_id`; ads never sponsored read as zero.
    pub fn total_sponsored(&self, ad_id: u32) -> (r: u128)
        ensures
            r == sponsored_at(self@.total_sponsored, ad_id),
    {
        match self.total_sponsored.get(&ad_id) {
            Some(total) => *total,
            None => 0,
        }
    }

    /// The id the next request receives.
    pub fn next_request_id(&self) -> (r: u32)
        ensures
            r == self@.next_request_id,
    {
        self.next_request_id
    }

    /// Every event emitted so far, oldest first.
    pub fn events(&self) -> (r: &Vec<Event>)
        ensures
            r@ == self@.events,
    {
        &self.events
    }

    /// Opens a sponsorship request by the calling account for a view of
    /// `ad_id` whose transaction cost was `fee_amount`.
    pub fn sponsor_transaction(&mut self, origin: Origin, ad_id: u32, fee_amount: u128) -> (r:
        Result<(), Error>)
        requires
            old(self).wf(),
        ensures
            final(self).wf(),
            match origin {
                Origin::Root => r == Err::<(), Error>(Error::BadOrigin) && final(self)@ == old(
                    self,
                )@,
                Origin::Signed(who) => {
                    if sponsor_ok(old(self)@, who, fee_amount) {
                        &&& r == Ok::<(), Error>(())
                        &&& final(self)@ == sponsor_step(old(self)@, who, ad_id, fee_amount)
                    } else {
                        &&& r == Err::<(), Error>(sponsor_err(old(self)@, who, fee_amount))
                        &&& final(self)@ == old(self)@
                    }
                },
            },
    {
        let who = match origin {
            Origin::Signed(who) => who,
            Origin::Root => {
                return Err(Error::BadOrigin);
            },
        };
        if fee_amount < self.config.min_sponsorship_amount {
            return Err(Error::FeeAmountTooLow);
        }
        if self.pending.contains_key(&who) {
            return Err(Error::PendingSponsorshipExists);
        }
        let request_id = self.next_request_id;
        self.requests.insert(
            request_id,
            SponsorshipRequest { user: who, ad_id, fee_amount, verified: false, sponsored: false },
        );
        self.pending.insert(who, request_id);
        self.next_request_id = request_id.saturating_add(1);
        self.events.push(
            Event::SponsorshipRequested { request_id, user: who, ad_id, fee_amount },
        );
        proof {
            assert(self@ =~= sponsor_step(old(self)@, who, ad_id, fee_amount));
            assert forall|id: u32|
                #[trigger] self@.requests.contains_key(id)
                    && !self@.requests[id].sponsored implies self@.pending.contains_key(
                self@.requests[id].user,
            ) && self@.pending[self@.requests[id].user] == id by {
                if id != request_id {
                    assert(old(self)@.requests.contains_key(id));
                    assert(old(self)@.requests[id].user != who);
                }
            }
        }
        Ok(())
    }

    /// Marks the ad view behind `request_id` verified. Only the privileged
    /// attestor may call this; the view-tracking records are not consulted.
    pub fn verify_ad_view(&mut self, origin: Origin, request_id: u32) -> (r: Result<(), Error>)
        requires
            old(self).wf(),
        ensures
            final(self).wf(),
            match origin {
                Origin::Signed(_) => r == Err::<(), Error>(Error::BadOrigin) && final(self)@
                    == old(self)@,
                Origin::Root => {
                    if verify_ok(old(self)@, request_id) {
                        &&& r == Ok::<(), Error>(())
                        &&& final(self)@ == verify_step(old(self)@, request_id)
                    } else {
                        &&& r == Err::<(), Error>(Error::RequestNotFound)
                        &&& final(self)@ == old(self)@
                    }
                },
            },
    {
        match origin {
            Origin::Root => {},
            Origin::Signed(_) => {
                return Err(Error::BadOrigin);
            },
        }
        let req = match self.requests.get(&request_id) {
            None => {
                return Err(Error::RequestNotFound);
            },
            Some(req) => *req,
        };
        self.requests.insert(request_id, SponsorshipRequest { verified: true, ..req });
        self.events.push(Event::AdViewVerified { request_id, user: req.user });
        proof {
            assert(self@ =~= verify_step(old(self)@, request_id));
            assert forall|id: u32|
                #[trigger] self@.requests.contains_key(id)
                    && !self@.requests[id].sponsored implies self@.pending.contains_key(
                self@.requests[id].user,
            ) && self@.pending[self@.requests[id].user] == id by {
                assert(old(self)@.requests.contains_key(id));
            }
        }
        Ok(())
    }

    /// Reimburses the fee behind `request_id` to its requester: only after
    /// verification, and only once; the user's outstanding slot is cleared.
    pub fn reimburse_fee(&mut self, origin: Origin, request_id: u32) -> (r: Result<(), Error>)
        requires
            old(self).wf(),
        ensures
            final(self).wf(),
            match origin {
                Origin::Root => r == Err::<(), Error>(Error::BadOrigin) && final(self)@ == old(
                    self,
                )@,
                Origin::Signed(who) => {
                    if reimburse_ok(old(self)@, who, request_id) {
                        &&& r == Ok::<(), Error>(())
                        &&& final(self)@ == reimburse_step(old(self)@, who, request_id)
                    } else {
                        &&& r == Err::<(), Error>(reimburse_err(old(self)@, who, request_id))
                        &&& final(self)@ == old(self)@
                    }
                },
            },
    {
        let who = match origin {
            Origin::Signed(who) => who,
            Origin::Root => {
                return Err(Error::BadOrigin);
            },
        };
        let req = match self.requests.get(&request_id) {
            None => {
                return Err(Error::RequestNotFound);
            },
            Some(req) => *req,
        };
        if req.user != who {
            return Err(Error::BadOrigin);
        }
        if !req.verified {
            return Err(Error::AdViewNotVerified);
        }
        if req.sponsored {
            return Err(Error::AlreadySponsored);
        }
        self.requests.insert(request_id, SponsorshipRequest { sponsored: true, ..req });
        let total = self.total_sponsored(req.ad_id);
        self.total_sponsored.insert(req.ad_id, total.saturating_add(req.fee_amount));
        self.pending.remove(&who);
        self.events.push(Event::FeeSponsored { request_id, user: who, amount: req.fee_amount });
        proof {
            assert(self@ =~= reimburse_step(old(self)@, who, request_id));
            assert forall|id: u32|
                #[trigger] self@.requests.contains_key(id)
                    && !self@.requests[id].sponsored implies self@.pending.contains_key(
                self@.requests[id].user,
            ) && self@.pending[self@.requests[id].user] == id by {
                assert(old(self)@.requests.contains_key(id));
                assert(self@.requests[id].user != who);
            }
        }
        Ok(())
    }

    /// Deletes `request_id` and clears the user's outstanding slot. Only
    /// the requester may cancel, and only before reimbursement.
    pub fn cancel_sponsorship(&mut self, origin: Origin, request_id: u32) -> (r: Result<(), Error>)
        requires
            old(self).wf(),
        ensures
            final(self).wf(),
            match origin {
                Origin::Root => r == Err::<(), Error>(Error::BadOrigin) && final(self)@ == old(
                    self,
                )@,
                Origin::Signed(who) => {
                    if cancel_ok(old(self)@, who, request_id) {
                        &&& r == Ok::<(), Error>(())
                        &&& final(self)@ == cancel_step(old(self)@, who, request_id)
                    } else {
                        &&& r == Err::<(), Error>(cancel_err(old(self)@, who, request_id))
                        &&& final(self)@ == old(self)@
                    }
                },
            },
    {
        let who = match origin {
            Origin::Signed(who) => who,
            Origin::Root => {
                return Err(Error::BadOrigin);
            },
        };
        let req = match self.requests.get(&request_id) {
            None => {
                return Err(Error::RequestNotFound);
            },
            Some(req) => *req,
        };
        if req.user != who {
            return Err(Error::BadOrigin);
        }
        if req.sponsored {
            return Err(Error::AlreadySponsored);
        }
        self.requests.remove(&request_id);
        self.pending.remove(&who);
        self.events.push(Event::SponsorshipCancelled { request_id });
        proof {
            assert(self@ =~= cancel_step(old(self)@, who, request_id));
            assert forall|id: u32|
                #[trigger] self@.requests.contains_key(id)
                    && !self@.requests[id].sponsored implies self@.pending.contains_key(
                self@.requests[id].user,
            ) && self@.pending[self@.requests[id].user] == id by {
                assert(old(self)@.requests.contains_key(id));
                assert(self@.requests[id].user != who);
            }
        }
        Ok(())
    }
}

/// Law: one outstanding request per user — in any state satisfying the
/// bookkeeping invariant, two requests that are both not yet reimbursed
/// and belong to the same user are the same request.
pub proof fn lemma_one_pending_per_user(s: State, id1: u32, id2: u32)
    requires
        requests_inv(s),
        s.requests.contains_key(id1),
        s.requests.contains_key(id2),
        !s.requests[id1].sponsored,
        !s.requests[id2].sponsored,
        s.requests[id1].user == s.requests[id2].user,
    ensures
        id1 == id2,
{
}

/// Law: the sponsorship life cycle — from a fresh request, reimbursement
/// without verification fails as unverified; after verification it succeeds,
/// grows the ad's sponsored total by the fee, and clears the user's
/// outstanding slot, so a second reimbursement fails as already sponsored
/// and a new request by the same user succeeds at once.
pub proof fn lemma_sponsorship_lifecycle(s: State, who: u64, ad_id: u32, fee_amount: u128)
    requires
        sponsor_ok(s, who, fee_amount),
    ensures
        ({
            let id = s.next_request_id;
            let s1 = sponsor_step(s, who, ad_id, fee_amount);
            let s2 = verify_step(s1, id);
            let s3 = reimburse_step(s2, who, id);
            &&& !reimburse_ok(s1, who, id)
            &&& reimburse_err(s1, who, id) == Error::AdViewNotVerified
            &&& verify_ok(s1, id)
            &&& reimburse_ok(s2, who, id)
            &&& !reimburse_ok(s3, who, id)
            &&& reimburse_err(s3, who, id) == Error::AlreadySponsored
            &&& !s3.pending.contains_key(who)
            &&& sponsor_ok(s3, who, fee_amount)
            &&& sponsored_at(s3.total_sponsored, ad_id) == sponsored_at(
                s.total_sponsored,
                ad_id,
            ).saturating_add(fee_amount)
        }),
{
}

} // verus!
