use polkaads::ad_tracking::{Error, Event, Pallet};
use polkaads::Origin;

#[test]
fn record_view_counts_totals_and_unique_viewers() {
    let mut tracking = Pallet::new();
    assert!(tracking.record_view(Origin::Signed(9), 0, 100).is_ok());
    assert!(tracking.record_view(Origin::Signed(9), 0, 101).is_ok());
    assert!(tracking.record_view(Origin::Signed(10), 0, 102).is_ok());
    assert!(tracking.record_view(Origin::Signed(10), 1, 103).is_ok());
    let metrics0 = tracking.ad_metrics(0);
    assert_eq!(metrics0.total_views, 3);
    assert_eq!(metrics0.unique_viewers, 2);
    assert_eq!(metrics0.total_clicks, 0);
    let metrics1 = tracking.ad_metrics(1);
    assert_eq!(metrics1.total_views, 1);
    assert_eq!(metrics1.unique_viewers, 1);
    assert!(tracking.user_views(9, 0));
    assert!(tracking.user_views(10, 0));
    assert!(!tracking.user_views(9, 1));
    assert_eq!(tracking.next_view_id(), 4);
}

#[test]
fn record_view_stores_the_record() {
    let mut tracking = Pallet::new();
    assert!(tracking.record_view(Origin::Signed(9), 5, 12345).is_ok());
    let record = tracking.view_records(0).unwrap();
    assert_eq!(record.ad_id, 5);
    assert_eq!(record.viewer, 9);
    assert_eq!(record.timestamp, 12345);
    assert!(!record.completed);
    assert_eq!(
        tracking.events()[0],
        Event::AdViewRecorded { view_id: 0, ad_id: 5, viewer: 9 }
    );
}

#[test]
fn record_view_by_root_fails() {
    let mut tracking = Pallet::new();
    assert_eq!(tracking.record_view(Origin::Root, 0, 1), Err(Error::BadOrigin));
    assert_eq!(tracking.next_view_id(), 0);
}

#[test]
fn complete_view_succeeds_exactly_once() {
    let mut tracking = Pallet::new();
    assert!(tracking.record_view(Origin::Signed(9), 0, 100).is_ok());
    assert!(tracking.complete_view(Origin::Signed(9), 0).is_ok());
    assert!(tracking.view_records(0).unwrap().completed);
    assert_eq!(
        tracking.complete_view(Origin::Signed(9), 0),
        Err(Error::ViewAlreadyCompleted)
    );
    assert_eq!(
        tracking.events()[1],
        Event::AdViewCompleted { view_id: 0, ad_id: 0, viewer: 9 }
    );
}

#[test]
fn complete_view_by_another_viewer_fails() {
    let mut tracking = Pallet::new();
    assert!(tracking.record_view(Origin::Signed(9), 0, 100).is_ok());
    assert_eq!(tracking.complete_view(Origin::Signed(10), 0), Err(Error::BadOrigin));
    assert!(!tracking.view_records(0).unwrap().completed);
}

#[test]
fn complete_view_of_unknown_record_fails() {
    let mut tracking = Pallet::new();
    assert_eq!(
        tracking.complete_view(Origin::Signed(9), 3),
        Err(Error::ViewRecordNotFound)
    );
}

#[test]
fn record_click_counts_clicks() {
    let mut tracking = Pallet::new();
    assert!(tracking.record_click(Origin::Signed(9), 0).is_ok());
    assert!(tracking.record_click(Origin::Signed(9), 0).is_ok());
    assert_eq!(tracking.click_records(0), 2);
    assert_eq!(tracking.click_records(1), 0);
    assert_eq!(tracking.ad_metrics(0).total_clicks, 2);
    assert_eq!(tracking.ad_metrics(0).total_views, 0);
    assert_eq!(
        tracking.events()[0],
        Event::AdClickRecorded { ad_id: 0, viewer: 9 }
    );
}

#[test]
fn get_ad_metrics_emits_a_readout_event() {
    let mut tracking = Pallet::new();
    assert!(tracking.record_view(Origin::Signed(9), 0, 100).is_ok());
    assert!(tracking.record_click(Origin::Signed(9), 0).is_ok());
    assert!(tracking.get_ad_metrics(Origin::Signed(2), 0).is_ok());
    assert_eq!(
        tracking.events()[2],
        Event::MetricsUpdated { ad_id: 0, views: 1, clicks: 1 }
    );
    // The counters themselves did not change.
    assert_eq!(tracking.ad_metrics(0).total_views, 1);
    assert_eq!(tracking.ad_metrics(0).total_clicks, 1);
}

#[test]
fn metrics_of_unknown_ad_read_as_zero() {
    let tracking = Pallet::new();
    let metrics = tracking.ad_metrics(42);
    assert_eq!(metrics.total_views, 0);
    assert_eq!(metrics.total_clicks, 0);
    assert_eq!(metrics.unique_viewers, 0);
}
