use polkaads::ads::{Config, Error, Event, Pallet};
use polkaads::balances::Balances;
use polkaads::Origin;

fn test_config() -> Config {
    Config {
        max_ad_name_length: 8,
        max_ad_description_length: 16,
        max_cid_length: 8,
        max_advertiser_name_length: 64,
        min_advertiser_deposit: 100,
    }
}

fn pallet_with_advertiser(who: u64) -> (Pallet, Balances) {
    let mut ads = Pallet::new(test_config());
    let mut balances = Balances::new();
    balances.deposit_free(who, 1000);
    ads.register_advertiser(Origin::Signed(who), &mut balances, b"Acme".to_vec(), 150, 1)
        .unwrap();
    (ads, balances)
}

#[test]
fn create_ad_spot_requires_root() {
    let mut ads = Pallet::new(test_config());
    assert_eq!(ads.create_ad_spot(Origin::Signed(1)), Err(Error::BadOrigin));
    assert_eq!(ads.next_spot_id(), 0);
    assert!(ads.ad_spots(0).is_none());
    assert!(ads.events().is_empty());
}

#[test]
fn create_ad_spot_allocates_sequential_ids() {
    let mut ads = Pallet::new(test_config());
    assert!(ads.create_ad_spot(Origin::Root).is_ok());
    assert!(ads.create_ad_spot(Origin::Root).is_ok());
    assert_eq!(ads.next_spot_id(), 2);
    let spot0 = ads.ad_spots(0).unwrap();
    assert_eq!(spot0.spot_id, 0);
    assert!(spot0.available);
    assert!(ads.ad_spots(1).unwrap().available);
    assert_eq!(ads.events()[0], Event::AdSpotCreated { spot_id: 0 });
    assert_eq!(ads.events()[1], Event::AdSpotCreated { spot_id: 1 });
}

#[test]
fn submit_ad_occupies_the_spot() {
    let (mut ads, _balances) = pallet_with_advertiser(1);
    assert!(ads.create_ad_spot(Origin::Root).is_ok());
    assert!(ads
        .submit_ad(Origin::Signed(1), 0, b"X".to_vec(), b"Y".to_vec(), b"cid".to_vec(), 1000)
        .is_ok());
    assert_eq!(ads.next_ad_id(), 1);
    let ad = ads.ads(0).unwrap();
    assert_eq!(ad.advertiser, 1);
    assert_eq!(ad.funding, 1000);
    assert_eq!(ad.remaining_budget, 1000);
    assert_eq!(ad.views, 0);
    assert!(ad.active);
    assert_eq!(ad.name, b"X".to_vec());
    assert_eq!(ad.description, b"Y".to_vec());
    assert_eq!(ad.ipfs_cid, b"cid".to_vec());
    assert!(!ads.ad_spots(0).unwrap().available);
    let profile = ads.advertiser_profiles(1).unwrap();
    assert_eq!(profile.total_funded, 1000);
    assert_eq!(profile.total_ads, 1);
    assert_eq!(
        ads.events()[2],
        Event::AdSubmitted { ad_id: 0, advertiser: 1, spot_id: 0 }
    );
}

#[test]
fn submit_ad_on_occupied_spot_fails_and_changes_nothing() {
    let (mut ads, mut balances) = pallet_with_advertiser(1);
    assert!(ads.create_ad_spot(Origin::Root).is_ok());
    assert!(ads
        .submit_ad(Origin::Signed(1), 0, b"X".to_vec(), b"Y".to_vec(), b"cid".to_vec(), 1000)
        .is_ok());
    // A second advertiser is just as valid, yet the occupied spot refuses it.
    balances.deposit_free(2, 1000);
    ads.register_advertiser(Origin::Signed(2), &mut balances, b"Bidco".to_vec(), 150, 1)
        .unwrap();
    assert_eq!(
        ads.submit_ad(Origin::Signed(2), 0, b"Z".to_vec(), b"W".to_vec(), b"cid".to_vec(), 7),
        Err(Error::AdSpotNotAvailable)
    );
    assert_eq!(ads.next_ad_id(), 1);
    assert!(ads.ads(1).is_none());
    assert_eq!(ads.advertiser_profiles(2).unwrap().total_ads, 0);
}

#[test]
fn submit_ad_without_registration_fails() {
    let mut ads = Pallet::new(test_config());
    assert!(ads.create_ad_spot(Origin::Root).is_ok());
    assert_eq!(
        ads.submit_ad(Origin::Signed(1), 0, b"X".to_vec(), b"Y".to_vec(), b"c".to_vec(), 1),
        Err(Error::AdvertiserNotRegistered)
    );
}

#[test]
fn submit_ad_on_unknown_spot_fails() {
    let (mut ads, _balances) = pallet_with_advertiser(1);
    assert_eq!(
        ads.submit_ad(Origin::Signed(1), 5, b"X".to_vec(), b"Y".to_vec(), b"c".to_vec(), 1),
        Err(Error::AdSpotNotFound)
    );
}

#[test]
fn submit_ad_length_bounds_are_enforced() {
    let (mut ads, _balances) = pallet_with_advertiser(1);
    assert!(ads.create_ad_spot(Origin::Root).is_ok());
    assert_eq!(
        ads.submit_ad(
            Origin::Signed(1),
            0,
            vec![b'n'; 9],
            b"Y".to_vec(),
            b"c".to_vec(),
            1
        ),
        Err(Error::AdNameTooLong)
    );
    assert_eq!(
        ads.submit_ad(
            Origin::Signed(1),
            0,
            b"X".to_vec(),
            vec![b'd'; 17],
            b"c".to_vec(),
            1
        ),
        Err(Error::AdDescriptionTooLong)
    );
    assert_eq!(
        ads.submit_ad(
            Origin::Signed(1),
            0,
            b"X".to_vec(),
            b"Y".to_vec(),
            vec![b'c'; 9],
            1
        ),
        Err(Error::CidTooLong)
    );
    assert_eq!(ads.next_ad_id(), 0);
}

#[test]
fn deactivate_ad_is_owner_only_and_keeps_the_spot() {
    let (mut ads, _balances) = pallet_with_advertiser(1);
    assert!(ads.create_ad_spot(Origin::Root).is_ok());
    assert!(ads
        .submit_ad(Origin::Signed(1), 0, b"X".to_vec(), b"Y".to_vec(), b"cid".to_vec(), 1000)
        .is_ok());
    assert_eq!(ads.deactivate_ad(Origin::Signed(2), 0), Err(Error::Unauthorized));
    assert_eq!(ads.deactivate_ad(Origin::Signed(1), 7), Err(Error::AdNotFound));
    assert!(ads.deactivate_ad(Origin::Signed(1), 0).is_ok());
    assert!(!ads.ads(0).unwrap().active);
    // The spot is not released by deactivation.
    assert!(!ads.ad_spots(0).unwrap().available);
    assert_eq!(ads.events()[3], Event::AdDeactivated { ad_id: 0 });
}
