use polkaads::fee_sponsorship::{Config, Error, Event, Pallet};
use polkaads::Origin;

fn pallet() -> Pallet {
    Pallet::new(Config { min_sponsorship_amount: 5 })
}

#[test]
fn sponsorship_lifecycle_reimburses_exactly_once() {
    let mut sponsorship = pallet();
    assert!(sponsorship.sponsor_transaction(Origin::Signed(9), 0, 5).is_ok());
    // Reimbursement before verification fails.
    assert_eq!(
        sponsorship.reimburse_fee(Origin::Signed(9), 0),
        Err(Error::AdViewNotVerified)
    );
    assert!(sponsorship.verify_ad_view(Origin::Root, 0).is_ok());
    assert!(sponsorship.sponsorship_requests(0).unwrap().verified);
    // After verification it succeeds exactly once.
    assert!(sponsorship.reimburse_fee(Origin::Signed(9), 0).is_ok());
    assert_eq!(
        sponsorship.reimburse_fee(Origin::Signed(9), 0),
        Err(Error::AlreadySponsored)
    );
    assert_eq!(sponsorship.total_sponsored(0), 5);
    assert!(sponsorship.sponsorship_requests(0).unwrap().sponsored);
    // The pending slot is free again, so a new request goes through at once.
    assert!(sponsorship.pending_sponsorships(9).is_none());
    assert!(sponsorship.sponsor_transaction(Origin::Signed(9), 0, 7).is_ok());
    assert_eq!(sponsorship.pending_sponsorships(9), Some(1));
}

#[test]
fn sponsor_transaction_records_the_request() {
    let mut sponsorship = pallet();
    assert!(sponsorship.sponsor_transaction(Origin::Signed(9), 3, 8).is_ok());
    let request = sponsorship.sponsorship_requests(0).unwrap();
    assert_eq!(request.user, 9);
    assert_eq!(request.ad_id, 3);
    assert_eq!(request.fee_amount, 8);
    assert!(!request.verified);
    assert!(!request.sponsored);
    assert_eq!(sponsorship.pending_sponsorships(9), Some(0));
    assert_eq!(sponsorship.next_request_id(), 1);
    assert_eq!(
        sponsorship.events()[0],
        Event::SponsorshipRequested { request_id: 0, user: 9, ad_id: 3, fee_amount: 8 }
    );
}

#[test]
fn sponsor_transaction_below_minimum_fails() {
    let mut sponsorship = pallet();
    assert_eq!(
        sponsorship.sponsor_transaction(Origin::Signed(9), 0, 4),
        Err(Error::FeeAmountTooLow)
    );
    assert!(sponsorship.sponsorship_requests(0).is_none());
}

#[test]
fn second_pending_request_fails() {
    let mut sponsorship = pallet();
    assert!(sponsorship.sponsor_transaction(Origin::Signed(9), 0, 5).is_ok());
    assert_eq!(
        sponsorship.sponsor_transaction(Origin::Signed(9), 1, 6),
        Err(Error::PendingSponsorshipExists)
    );
    // Another user is not blocked.
    assert!(sponsorship.sponsor_transaction(Origin::Signed(10), 1, 6).is_ok());
}

#[test]
fn verify_ad_view_requires_root() {
    let mut sponsorship = pallet();
    assert!(sponsorship.sponsor_transaction(Origin::Signed(9), 0, 5).is_ok());
    assert_eq!(
        sponsorship.verify_ad_view(Origin::Signed(9), 0),
        Err(Error::BadOrigin)
    );
    assert_eq!(
        sponsorship.verify_ad_view(Origin::Root, 3),
        Err(Error::RequestNotFound)
    );
}

#[test]
fn reimburse_fee_is_requester_only() {
    let mut sponsorship = pallet();
    assert!(sponsorship.sponsor_transaction(Origin::Signed(9), 0, 5).is_ok());
    assert!(sponsorship.verify_ad_view(Origin::Root, 0).is_ok());
    assert_eq!(
        sponsorship.reimburse_fee(Origin::Signed(10), 0),
        Err(Error::BadOrigin)
    );
    assert_eq!(
        sponsorship.reimburse_fee(Origin::Signed(9), 2),
        Err(Error::RequestNotFound)
    );
}

#[test]
fn reimburse_accumulates_per_ad_totals() {
    let mut sponsorship = pallet();
    assert!(sponsorship.sponsor_transaction(Origin::Signed(9), 0, 5).is_ok());
    assert!(sponsorship.verify_ad_view(Origin::Root, 0).is_ok());
    assert!(sponsorship.reimburse_fee(Origin::Signed(9), 0).is_ok());
    assert!(sponsorship.sponsor_transaction(Origin::Signed(9), 0, 6).is_ok());
    assert!(sponsorship.verify_ad_view(Origin::Root, 1).is_ok());
    assert!(sponsorship.reimburse_fee(Origin::Signed(9), 1).is_ok());
    assert_eq!(sponsorship.total_sponsored(0), 11);
    assert_eq!(sponsorship.total_sponsored(1), 0);
    assert_eq!(
        sponsorship.events()[5],
        Event::FeeSponsored { request_id: 1, user: 9, amount: 6 }
    );
}

#[test]
fn cancel_clears_the_request_and_the_pending_slot() {
    let mut sponsorship = pallet();
    assert!(sponsorship.sponsor_transaction(Origin::Signed(9), 0, 5).is_ok());
    assert_eq!(
        sponsorship.cancel_sponsorship(Origin::Signed(10), 0),
        Err(Error::BadOrigin)
    );
    assert!(sponsorship.cancel_sponsorship(Origin::Signed(9), 0).is_ok());
    assert!(sponsorship.sponsorship_requests(0).is_none());
    assert!(sponsorship.pending_sponsorships(9).is_none());
    assert_eq!(
        sponsorship.cancel_sponsorship(Origin::Signed(9), 0),
        Err(Error::RequestNotFound)
    );
    assert_eq!(sponsorship.events()[1], Event::SponsorshipCancelled { request_id: 0 });
}

#[test]
fn cancel_after_reimbursement_fails() {
    let mut sponsorship = pallet();
    assert!(sponsorship.sponsor_transaction(Origin::Signed(9), 0, 5).is_ok());
    assert!(sponsorship.verify_ad_view(Origin::Root, 0).is_ok());
    assert!(sponsorship.reimburse_fee(Origin::Signed(9), 0).is_ok());
    assert_eq!(
        sponsorship.cancel_sponsorship(Origin::Signed(9), 0),
        Err(Error::AlreadySponsored)
    );
}
