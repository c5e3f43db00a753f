use polkaads::ad_tracking;
use polkaads::ads;
use polkaads::balances::Balances;
use polkaads::fee_sponsorship;
use polkaads::Origin;

#[test]
fn full_campaign_scenario() {
    // Minimum deposit 100, minimum sponsorship fee 5.
    let mut catalog = ads::Pallet::new(ads::Config {
        max_ad_name_length: 64,
        max_ad_description_length: 256,
        max_cid_length: 64,
        max_advertiser_name_length: 64,
        min_advertiser_deposit: 100,
    });
    let mut tracking = ad_tracking::Pallet::new();
    let mut sponsorship =
        fee_sponsorship::Pallet::new(fee_sponsorship::Config { min_sponsorship_amount: 5 });
    let mut balances = Balances::new();
    let advertiser: u64 = 1;
    let user: u64 = 7;
    balances.deposit_free(advertiser, 1000);

    catalog
        .register_advertiser(Origin::Signed(advertiser), &mut balances, b"Ad1".to_vec(), 150, 1)
        .unwrap();
    assert_eq!(catalog.advertiser_profiles(advertiser).unwrap().deposit, 150);

    catalog.create_ad_spot(Origin::Root).unwrap();
    assert!(catalog.ad_spots(0).unwrap().available);

    catalog
        .submit_ad(
            Origin::Signed(advertiser),
            0,
            b"X".to_vec(),
            b"Y".to_vec(),
            b"cid".to_vec(),
            1000,
        )
        .unwrap();
    assert_eq!(catalog.ads(0).unwrap().remaining_budget, 1000);
    assert!(!catalog.ad_spots(0).unwrap().available);

    tracking.record_view(Origin::Signed(user), 0, 12345).unwrap();
    let metrics = tracking.ad_metrics(0);
    assert_eq!(metrics.total_views, 1);
    assert_eq!(metrics.unique_viewers, 1);

    sponsorship.sponsor_transaction(Origin::Signed(user), 0, 5).unwrap();
    assert_eq!(sponsorship.pending_sponsorships(user), Some(0));

    sponsorship.verify_ad_view(Origin::Root, 0).unwrap();
    assert!(sponsorship.sponsorship_requests(0).unwrap().verified);

    sponsorship.reimburse_fee(Origin::Signed(user), 0).unwrap();
    assert!(sponsorship.sponsorship_requests(0).unwrap().sponsored);
    assert_eq!(sponsorship.total_sponsored(0), 5);
    assert!(sponsorship.pending_sponsorships(user).is_none());
}
