//! Per-ad performance tracking: view records, click counters, and aggregate
//! metrics that deduplicate unique viewers per (viewer, ad) pair.

use std::collections::HashMap;
use vstd::prelude::*;

use crate::Origin;

verus! {

/// Aggregate counters for one ad. All three counters saturate at the
/// numeric ceiling instead of wrapping.
#[derive(Clone, Copy, PartialEq, Eq, Structural, Debug)]
pub struct AdMetrics {
    /// How many views were recorded, repeat viewers included.
    pub total_views: u64,
    /// How many clicks were recorded.
    pub total_clicks: u64,
    /// How many distinct accounts have viewed the ad.
    pub unique_viewers: u64,
}

impl Default for AdMetrics {
    /// Metrics start at zero.
    fn default() -> (r: AdMetrics)
        ensures
            r == (AdMetrics { total_views: 0, total_clicks: 0, unique_viewers: 0 }),
    {
        AdMetrics { total_views: 0, total_clicks: 0, unique_viewers: 0 }
    }
}

/// One recorded ad impression.
#[derive(Clone, Copy, PartialEq, Eq, Structural, Debug)]
pub struct ViewRecord {
    /// The ad that was viewed.
    pub ad_id: u32,
    /// The account that viewed it.
    pub viewer: u64,
    /// The caller-supplied timestamp of the view.
    pub timestamp: u64,
    /// Whether the viewer has completed the view.
    pub completed: bool,
}

/// What a successful transition reports.
#[derive(Clone, Copy, PartialEq, Eq, Structural, Debug)]
pub enum Event {
    /// A view was recorded.
    AdViewRecorded { view_id: u32, ad_id: u32, viewer: u64 },
    /// A view was completed by its viewer.
    AdViewCompleted { view_id: u32, ad_id: u32, viewer: u64 },
    /// A click was recorded.
    AdClickRecorded { ad_id: u32, viewer: u64 },
    /// A metrics read-out was requested.
    MetricsUpdated { ad_id: u32, views: u64, clicks: u64 },
}

/// Why a transition was refused.
#[derive(Clone, Copy, PartialEq, Eq, Structural, Debug)]
pub enum Error {
    /// No view record with the given id.
    ViewRecordNotFound,
    /// The view was already completed.
    ViewAlreadyCompleted,
    /// No ad with the given id.
    AdNotFound,
    /// The call came from the wrong kind of origin.
    BadOrigin,
}

/// The ledger state this component owns, as mathematical maps.
#[verifier::ext_equal]
pub struct State {
    /// View records by id.
    pub view_records: Map<u32, ViewRecord>,
    /// The id the next recorded view receives.
    pub next_view_id: u32,
    /// Aggregate counters by ad id; ads never viewed read as zero.
    pub metrics: Map<u32, AdMetrics>,
    /// Every (viewer, ad) pair that has recorded a view, first views only.
    pub user_views: Seq<(u64, u32)>,
    /// Click counters by ad id; ads never clicked read as zero.
    pub clicks: Map<u32, u64>,
    /// Every event emitted so far, oldest first.
    pub events: Seq<Event>,
}

/// The counters recorded for `ad_id`, zero if it was never touched.
pub open spec fn metrics_at(m: Map<u32, AdMetrics>, ad_id: u32) -> AdMetrics {
    if m.contains_key(ad_id) {
        m[ad_id]
    } else {
        AdMetrics { total_views: 0, total_clicks: 0, unique_viewers: 0 }
    }
}

/// The click counter recorded for `ad_id`, zero if it was never touched.
pub open spec fn clicks_at(m: Map<u32, u64>, ad_id: u32) -> u64 {
    if m.contains_key(ad_id) {
        m[ad_id]
    } else {
        0
    }
}

/// No (viewer, ad) pair occurs twice.
pub open spec fn distinct_pairs(uv: Seq<(u64, u32)>) -> bool {
    forall|i: int, j: int| 0 <= i < j < uv.len() ==> uv[i] != uv[j]
}

/// How many entries of `uv` concern the ad `a`.
pub open spec fn viewer_count(uv: Seq<(u64, u32)>, a: u32) -> nat
    decreases uv.len(),
{
    if uv.len() == 0 {
        0
    } else {
        viewer_count(uv.drop_last(), a) + if uv.last().1 == a {
            1nat
        } else {
            0nat
        }
    }
}

/// The accounts that have viewed the ad `a`.
pub open spec fn viewers_of(uv: Seq<(u64, u32)>, a: u32) -> Set<u64> {
    Set::new(|v: u64| uv.contains((v, a)))
}

/// `n` clamped at the counter ceiling: what repeated saturating increments
/// reach after `n` steps from zero.
pub open spec fn cap_u64(n: nat) -> u64 {
    if n >= u64::MAX {
        u64::MAX
    } else {
        n as u64
    }
}

/// The bookkeeping invariant: the dedup pairs are distinct, and each ad's
/// unique-viewer counter equals the number of its dedup pairs, clamped.
pub open spec fn tracking_inv(s: State) -> bool {
    &&& distinct_pairs(s.user_views)
    &&& forall|a: u32|
        (#[trigger] metrics_at(s.metrics, a)).unique_viewers == cap_u64(
            viewer_count(s.user_views, a),
        )
}

/// The ledger state after `who` records a view of `ad_id`: a fresh view
/// record is stored, the ad's total views grow by one, and its unique
/// viewers grow by one exactly when the pair is new.
pub open spec fn record_view_step(s: State, who: u64, ad_id: u32, timestamp: u64) -> State {
    let view_id = s.next_view_id;
    let m = metrics_at(s.metrics, ad_id);
    let already = s.user_views.contains((who, ad_id));
    State {
        view_records: s.view_records.insert(
            view_id,
            (ViewRecord { ad_id: ad_id, viewer: who, timestamp: timestamp, completed: false }),
        ),
        next_view_id: view_id.saturating_add(1),
        metrics: s.metrics.insert(
            ad_id,
            (AdMetrics {
                total_views: m.total_views.saturating_add(1),
                total_clicks: m.total_clicks,
                unique_viewers: if already {
                    m.unique_viewers
                } else {
                    m.unique_viewers.saturating_add(1)
                },
            }),
        ),
        user_views: if already {
            s.user_views
        } else {
            s.user_views.push((who, ad_id))
        },
        events: s.events.push(
            (Event::AdViewRecorded { view_id: view_id, ad_id: ad_id, viewer: who }),
        ),
        ..s
    }
}

/// Whether `who` may complete the view `view_id`.
pub open spec fn complete_view_ok(s: State, who: u64, view_id: u32) -> bool {
    &&& s.view_records.contains_key(view_id)
    &&& s.view_records[view_id].viewer == who
    &&& !s.view_records[view_id].completed
}

/// The error a failing completion reports, checks in the order they run.
pub open spec fn complete_view_err(s: State, who: u64, view_id: u32) -> Error {
    if !s.view_records.contains_key(view_id) {
        Error::ViewRecordNotFound
    } else if s.view_records[view_id].viewer != who {
        Error::BadOrigin
    } else {
        Error::ViewAlreadyCompleted
    }
}

/// The ledger state after the view `view_id` is completed.
pub open spec fn complete_view_step(s: State, view_id: u32) -> State {
    let rec = s.view_records[view_id];
    State {
        view_records: s.view_records.insert(view_id, (ViewRecord { completed: true, ..rec })),
        events: s.events.push(
            (Event::AdViewCompleted { view_id: view_id, ad_id: rec.ad_id, viewer: rec.viewer }),
        ),
        ..s
    }
}

/// The ledger state after `who` records a click on `ad_id`.
pub open spec fn record_click_step(s: State, who: u64, ad_id: u32) -> State {
    let m = metrics_at(s.metrics, ad_id);
    State {
        clicks: s.clicks.insert(ad_id, clicks_at(s.clicks, ad_id).saturating_add(1)),
        metrics: s.metrics.insert(
            ad_id,
            (AdMetrics { total_clicks: m.total_clicks.saturating_add(1), ..m }),
        ),
        events: s.events.push((Event::AdClickRecorded { ad_id: ad_id, viewer: who })),
        ..s
    }
}

/// The ledger state after a metrics read-out of `ad_id` is requested: only
/// the event log grows.
pub open spec fn get_ad_metrics_step(s: State, ad_id: u32) -> State {
    let m = metrics_at(s.metrics, ad_id);
    State {
        events: s.events.push(
            (Event::MetricsUpdated { ad_id: ad_id, views: m.total_views, clicks: m.total_clicks }),
        ),
        ..s
    }
}

/// View, click and unique-viewer tracking. Each operation is one atomic
/// transition: it either commits its writes and appends exactly one event,
/// or fails with an [`Error`] and changes nothing.
pub struct Pallet {
    view_records: HashMap<u32, ViewRecord>,
    next_view_id: u32,
    metrics: HashMap<u32, AdMetrics>,
    user_views: Vec<(u64, u32)>,
    clicks: HashMap<u32, u64>,
    events: Vec<Event>,
}

impl View for Pallet {
    type V = State;

    closed spec fn view(&self) -> State {
        State {
            view_records: self.view_records@,
            next_view_id: self.next_view_id,
            metrics: self.metrics@,
            user_views: self.user_views@,
            clicks: self.clicks@,
            events: self.events@,
        }
    }
}

/// Appending one pair raises the count for its ad by one and leaves every
/// other ad's count unchanged.
proof fn lemma_viewer_count_push(uv: Seq<(u64, u32)>, p: (u64, u32), a: u32)
    ensures
        viewer_count(uv.push(p), a) == viewer_count(uv, a) + if p.1 == a {
            1nat
        } else {
            0nat
        },
{
    assert(uv.push(p).drop_last() =~= uv);
    assert(uv.push(p).last() == p);
}

/// With distinct pairs, the per-ad entry count is exactly the number of
/// distinct accounts that have viewed the ad.
proof fn lemma_viewer_count_is_distinct_card(uv: Seq<(u64, u32)>, a: u32)
    requires
        distinct_pairs(uv),
    ensures
        viewers_of(uv, a).finite(),
        viewers_of(uv, a).len() == viewer_count(uv, a),
    decreases uv.len(),
{
    if uv.len() == 0 {
        assert(viewers_of(uv, a) =~= Set::<u64>::empty());
    } else {
        let s = uv.drop_last();
        let p = uv.last();
        assert(distinct_pairs(s)) by {
            assert(forall|i: int, j: int|
                0 <= i < j < s.len() ==> s[i] == uv[i] && s[j] == uv[j]);
        }
        lemma_viewer_count_is_distinct_card(s, a);
        assert forall|v: u64| #[trigger]
            viewers_of(uv, a).contains(v) implies viewers_of(s, a).contains(v) || (p.1 == a && v
            == p.0) by {
            let i = choose|i: int| 0 <= i < uv.len() && uv[i] == (v, a);
            if i < uv.len() - 1 {
                assert(s[i] == (v, a));
                assert(s.contains((v, a)));
            } else {
                assert(p == (v, a));
            }
        }
        assert forall|v: u64| viewers_of(s, a).contains(v) || (p.1 == a && v
            == p.0) implies #[trigger] viewers_of(uv, a).contains(v) by {
            if viewers_of(s, a).contains(v) {
                let i = choose|i: int| 0 <= i < s.len() && s[i] == (v, a);
                assert(uv[i] == (v, a));
            } else {
                assert(uv[uv.len() - 1] == (v, a));
            }
        }
        if p.1 == a {
            assert(viewers_of(uv, a) =~= viewers_of(s, a).insert(p.0));
            assert(!viewers_of(s, a).contains(p.0)) by {
                if viewers_of(s, a).contains(p.0) {
                    let i = choose|i: int| 0 <= i < s.len() && s[i] == (p.0, a);
                    assert(uv[i] == uv[uv.len() - 1]);
                    assert(false);
                }
            }
        } else {
            assert(viewers_of(uv, a) =~= viewers_of(s, a));
        }
    }
}

/// Recording a view preserves the bookkeeping invariant.
pub proof fn lemma_record_view_preserves_inv(s: State, who: u64, ad_id: u32, timestamp: u64)
    requires
        tracking_inv(s),
    ensures
        tracking_inv(record_view_step(s, who, ad_id, timestamp)),
{
    let post = record_view_step(s, who, ad_id, timestamp);
    let already = s.user_views.contains((who, ad_id));
    if !already {
        assert forall|i: int, j: int|
            0 <= i < j < post.user_views.len() implies post.user_views[i]
            != post.user_views[j] by {
            if j == post.user_views.len() - 1 {
                assert(post.user_views[j] == (who, ad_id));
                if s.user_views[i] == (who, ad_id) {
                    assert(s.user_views.contains((who, ad_id)));
                }
            }
        }
    }
    assert forall|a: u32|
        (#[trigger] metrics_at(post.metrics, a)).unique_viewers == cap_u64(
            viewer_count(post.user_views, a),
        ) by {
        assert(metrics_at(s.metrics, a).unique_viewers == cap_u64(viewer_count(s.user_views, a)));
        if !already {
            lemma_viewer_count_push(s.user_views, (who, ad_id), a);
        }
    }
}

impl Pallet {
    /// The bookkeeping invariant, at the current state.
    pub open spec fn wf(&self) -> bool {
        tracking_inv(self@)
    }

    /// A fresh component with no views, clicks or metrics.
    pub fn new() -> (r: Pallet)
        ensures
            r.wf(),
            r@ == (State {
                view_records: Map::<u32, ViewRecord>::empty(),
                next_view_id: 0u32,
                metrics: Map::<u32, AdMetrics>::empty(),
                user_views: Seq::<(u64, u32)>::empty(),
                clicks: Map::<u32, u64>::empty(),
                events: Seq::<Event>::empty(),
            }),
    {
        let r = Pallet {
            view_records: HashMap::new(),
            next_view_id: 0,
            metrics: HashMap::new(),
            user_views: Vec::new(),
            clicks: HashMap::new(),
            events: Vec::new(),
        };
        proof {
            assert forall|a: u32|
                (#[trigger] metrics_at(r@.metrics, a)).unique_viewers == cap_u64(
                    viewer_count(r@.user_views, a),
                ) by {
                assert(viewer_count(r@.user_views, a) == 0);
            }
        }
        r
    }

    /// Whether `who` has ever recorded a view of `ad_id`.
    pub fn user_views(&self, who: u64, ad_id: u32) -> (r: bool)
        ensures
            r == self@.user_views.contains((who, ad_id)),
    {
        let mut i: usize = 0;
        while i < self.user_views.len()
            invariant
                i <= self.user_views@.len(),
                forall|j: int| 0 <= j < i ==> #[trigger] self.user_views@[j] != (who, ad_id),
            decreases self.user_views@.len() - i,
        {
            let (v, a) = self.user_views[i];
            if v == who && a == ad_id {
                proof {
                    assert(self.user_views@[i as int] == (who, ad_id));
                }
                return true;
            }
            i += 1;
        }
        proof {
            if self@.user_views.contains((who, ad_id)) {
                let j = choose|j: int|
                    0 <= j < self.user_views@.len() && self.user_views@[j] == (who, ad_id);
                assert(false);
            }
        }
        false
    }

    /// The counters recorded for `ad_id`; ads never viewed read as zero.
    pub fn ad_metrics(&self, ad_id: u32) -> (r: AdMetrics)
        ensures
            r == metrics_at(self@.metrics, ad_id),
    {
        match self.metrics.get(&ad_id) {
            Some(m) => *m,
            None => AdMetrics { total_views: 0, total_clicks: 0, unique_viewers: 0 },
        }
    }

    /// The click counter recorded for `ad_id`; ads never clicked read as
    /// zero.
    pub fn click_records(&self, ad_id: u32) -> (r: u64)
        ensures
            r == clicks_at(self@.clicks, ad_id),
    {
        match self.clicks.get(&ad_id) {
            Some(c) => *c,
            None => 0,
        }
    }

    /// The view record stored under `view_id`.
    pub fn view_records(&self, view_id: u32) -> (r: Option<ViewRecord>)
        ensures
            r == if self@.view_records.contains_key(view_id) {
                Some(self@.view_records[view_id])
            } else {
                Option::<ViewRecord>::None
            },
    {
        match self.view_records.get(&view_id) {
            Some(rec) => Some(*rec),
            None => None,
        }
    }

    /// The id the next recorded view receives.
    pub fn next_view_id(&self) -> (r: u32)
        ensures
            r == self@.next_view_id,
    {
        self.next_view_id
    }

    /// Every event emitted so far, oldest first.
    pub fn events(&self) -> (r: &Vec<Event>)
        ensures
            r@ == self@.events,
    {
        &self.events
    }

    /// Records a view of `ad_id` by the calling account. Succeeds for any
    /// ad id: the catalog is deliberately not consulted.
    pub fn record_view(&mut self, origin: Origin, ad_id: u32, timestamp: u64) -> (r: Result<
        (),
        Error,
    >)
        requires
            old(self).wf(),
        ensures
            final(self).wf(),
            match origin {
                Origin::Root => r == Err::<(), Error>(Error::BadOrigin) && final(self)@ == old(
                    self,
                )@,
                Origin::Signed(who) => r == Ok::<(), Error>(()) && final(self)@ == record_view_step(
                    old(self)@,
                    who,
                    ad_id,
                    timestamp,
                ),
            },
    {
        let who = match origin {
            Origin::Signed(who) => who,
            Origin::Root => {
                return Err(Error::BadOrigin);
            },
        };
        let view_id = self.next_view_id;
        self.view_records.insert(
            view_id,
            ViewRecord { ad_id, viewer: who, timestamp, completed: false },
        );
        self.next_view_id = view_id.saturating_add(1);
        let already = self.user_views(who, ad_id);
        let m = self.ad_metrics(ad_id);
        let updated = AdMetrics {
            total_views: m.total_views.saturating_add(1),
            total_clicks: m.total_clicks,
            unique_viewers: if already {
                m.unique_viewers
            } else {
                m.unique_viewers.saturating_add(1)
            },
        };
        self.metrics.insert(ad_id, updated);
        if !already {
            self.user_views.push((who, ad_id));
        }
        self.events.push(Event::AdViewRecorded { view_id, ad_id, viewer: who });
        proof {
            assert(self@ =~= record_view_step(old(self)@, who, ad_id, timestamp));
            lemma_record_view_preserves_inv(old(self)@, who, ad_id, timestamp);
        }
        Ok(())
    }

    /// Marks the view `view_id` completed. Only the original viewer may do
    /// so, and only once.
    pub fn complete_view(&mut self, origin: Origin, view_id: u32) -> (r: Result<(), Error>)
        requires
            old(self).wf(),
        ensures
            final(self).wf(),
            match origin {
                Origin::Root => r == Err::<(), Error>(Error::BadOrigin) && final(self)@ == old(
                    self,
                )@,
                Origin::Signed(who) => {
                    if complete_view_ok(old(self)@, who, view_id) {
                        &&& r == Ok::<(), Error>(())
                        &&& final(self)@ == complete_view_step(old(self)@, view_id)
                    } else {
                        &&& r == Err::<(), Error>(complete_view_err(old(self)@, who, view_id))
                        &&& final(self)@ == old(self)@
                    }
                },
            },
    {
        let who = match origin {
            Origin::Signed(who) => who,
            Origin::Root => {
                return Err(Error::BadOrigin);
            },
        };
        let rec = match self.view_records.get(&view_id) {
            None => {
                return Err(Error::ViewRecordNotFound);
            },
            Some(rec) => *rec,
        };
        if rec.viewer != who {
            return Err(Error::BadOrigin);
        }
        if rec.completed {
            return Err(Error::ViewAlreadyCompleted);
        }
        self.view_records.insert(view_id, ViewRecord { completed: true, ..rec });
        self.events.push(Event::AdViewCompleted { view_id, ad_id: rec.ad_id, viewer: who });
        proof {
            assert(self@ =~= complete_view_step(old(self)@, view_id));
        }
        Ok(())
    }

    /// Records a click on `ad_id` by the calling account. Succeeds for any
    /// ad id.
    pub fn record_click(&mut self, origin: Origin, ad_id: u32) -> (r: Result<(), Error>)
        requires
            old(self).wf(),
        ensures
            final(self).wf(),
            match origin {
                Origin::Root => r == Err::<(), Error>(Error::BadOrigin) && final(self)@ == old(
                    self,
                )@,
                Origin::Signed(who) => r == Ok::<(), Error>(()) && final(self)@
                    == record_click_step(old(self)@, who, ad_id),
            },
    {
        let who = match origin {
            Origin::Signed(who) => who,
            Origin::Root => {
                return Err(Error::BadOrigin);
            },
        };
        let count = self.click_records(ad_id);
        self.clicks.insert(ad_id, count.saturating_add(1));
        let m = self.ad_metrics(ad_id);
        self.metrics.insert(
            ad_id,
            AdMetrics { total_clicks: m.total_clicks.saturating_add(1), ..m },
        );
        self.events.push(Event::AdClickRecorded { ad_id, viewer: who });
        proof {
            assert(self@ =~= record_click_step(old(self)@, who, ad_id));
            assert forall|a: u32|
                (#[trigger] metrics_at(self@.metrics, a)).unique_viewers == cap_u64(
                    viewer_count(self@.user_views, a),
                ) by {
                assert(metrics_at(old(self)@.metrics, a).unique_viewers == cap_u64(
                    viewer_count(old(self)@.user_views, a),
                ));
            }
        }
        Ok(())
    }

    /// Surfaces the metrics of `ad_id` to event-log readers by emitting a
    /// read-out event; the counters themselves do not change.
    pub fn get_ad_metrics(&mut self, origin: Origin, ad_id: u32) -> (r: Result<(), Error>)
        requires
            old(self).wf(),
        ensures
            final(self).wf(),
            match origin {
                Origin::Root => r == Err::<(), Error>(Error::BadOrigin) && final(self)@ == old(
                    self,
                )@,
                Origin::Signed(_) => r == Ok::<(), Error>(()) && final(self)@
                    == get_ad_metrics_step(old(self)@, ad_id),
            },
    {
        match origin {
            Origin::Signed(_) => {},
            Origin::Root => {
                return Err(Error::BadOrigin);
            },
        }
        let m = self.ad_metrics(ad_id);
        self.events.push(
            Event::MetricsUpdated { ad_id, views: m.total_views, clicks: m.total_clicks },
        );
        proof {
            assert(self@ =~= get_ad_metrics_step(old(self)@, ad_id));
        }
        Ok(())
    }
}

/// Law: in any state satisfying the bookkeeping invariant, an ad's
/// unique-viewer counter equals the number of distinct accounts that have
/// viewed it, clamped at the counter ceiling.
pub proof fn lemma_unique_viewers_count_distinct(s: State, ad_id: u32)
    requires
        tracking_inv(s),
    ensures
        viewers_of(s.user_views, ad_id).finite(),
        metrics_at(s.metrics, ad_id).unique_viewers == cap_u64(
            viewers_of(s.user_views, ad_id).len(),
        ),
{
    lemma_viewer_count_is_distinct_card(s.user_views, ad_id);
}

/// The state after a whole sequence of view recordings, each by the viewer
/// and for the ad its entry names.
pub open spec fn run_record_views(s: State, calls: Seq<(u64, u32, u64)>) -> State
    decreases calls.len(),
{
    if calls.len() == 0 {
        s
    } else {
        let prev = run_record_views(s, calls.drop_last());
        let c = calls.last();
        record_view_step(prev, c.0, c.1, c.2)
    }
}

/// How many entries of `calls` concern the ad `a`.
pub open spec fn calls_for(calls: Seq<(u64, u32, u64)>, a: u32) -> nat
    decreases calls.len(),
{
    if calls.len() == 0 {
        0
    } else {
        calls_for(calls.drop_last(), a) + if calls.last().1 == a {
            1nat
        } else {
            0nat
        }
    }
}

/// Law: view counting over whole call sequences — recording the views in
/// `calls` preserves the bookkeeping invariant and raises an ad's
/// total-view counter by exactly the number of calls naming that ad,
/// repeat viewers included, clamped at the counter ceiling.
pub proof fn lemma_total_views_count_calls(s: State, calls: Seq<(u64, u32, u64)>, a: u32)
    requires
        tracking_inv(s),
    ensures
        tracking_inv(run_record_views(s, calls)),
        metrics_at(run_record_views(s, calls).metrics, a).total_views == cap_u64(
            (metrics_at(s.metrics, a).total_views + calls_for(calls, a)) as nat,
        ),
    decreases calls.len(),
{
    if calls.len() == 0 {
    } else {
        let prefix = calls.drop_last();
        let c = calls.last();
        lemma_total_views_count_calls(s, prefix, a);
        let prev = run_record_views(s, prefix);
        lemma_record_view_preserves_inv(prev, c.0, c.1, c.2);
    }
}

/// Appending one pair leaves a sequence containing exactly what it held
/// before, plus that pair.
proof fn lemma_push_contains(uv: Seq<(u64, u32)>, p: (u64, u32), x: (u64, u32))
    ensures
        uv.push(p).contains(x) <==> uv.contains(x) || x == p,
{
    if uv.push(p).contains(x) {
        let i = choose|i: int| 0 <= i < uv.push(p).len() && uv.push(p)[i] == x;
        if i < uv.len() {
            assert(uv[i] == x);
        }
    }
    if uv.contains(x) {
        let i = choose|i: int| 0 <= i < uv.len() && uv[i] == x;
        assert(uv.push(p)[i] == x);
    }
    assert(uv.push(p)[uv.len() as int] == p);
}

/// Law: unique-viewer counting over whole call sequences — recording the
/// views in `calls` preserves the bookkeeping invariant, an account counts
/// as a viewer of an ad afterwards exactly when it did before or some call
/// names that (account, ad) pair, and the ad's unique-viewer counter equals
/// the number of distinct viewing accounts, clamped at the counter ceiling.
pub proof fn lemma_unique_viewers_over_calls(s: State, calls: Seq<(u64, u32, u64)>, a: u32)
    requires
        tracking_inv(s),
    ensures
        tracking_inv(run_record_views(s, calls)),
        forall|v: u64|
            #[trigger] run_record_views(s, calls).user_views.contains((v, a))
                <==> s.user_views.contains((v, a)) || exists|i: int|
                0 <= i < calls.len() && calls[i].0 == v && #[trigger] calls[i].1 == a,
        metrics_at(run_record_views(s, calls).metrics, a).unique_viewers == cap_u64(
            viewers_of(run_record_views(s, calls).user_views, a).len(),
        ),
    decreases calls.len(),
{
    let post = run_record_views(s, calls);
    if calls.len() == 0 {
        lemma_unique_viewers_count_distinct(s, a);
    } else {
        let prefix = calls.drop_last();
        let c = calls.last();
        lemma_unique_viewers_over_calls(s, prefix, a);
        let prev = run_record_views(s, prefix);
        lemma_record_view_preserves_inv(prev, c.0, c.1, c.2);
        lemma_unique_viewers_count_distinct(post, a);
        let already = prev.user_views.contains((c.0, c.1));
        assert forall|v: u64| #[trigger] post.user_views.contains((v, a)) implies s.user_views.contains(
            (v, a),
        ) || exists|i: int|
            0 <= i < calls.len() && calls[i].0 == v && #[trigger] calls[i].1 == a by {
            if !already {
                lemma_push_contains(prev.user_views, (c.0, c.1), (v, a));
            }
            if prev.user_views.contains((v, a)) {
                if !s.user_views.contains((v, a)) {
                    let i = choose|i: int|
                        0 <= i < prefix.len() && prefix[i].0 == v && prefix[i].1 == a;
                    assert(calls[i].0 == v && calls[i].1 == a);
                }
            } else {
                assert(v == c.0 && a == c.1);
                assert(calls[calls.len() - 1].0 == v && calls[calls.len() - 1].1 == a);
            }
        }
        assert forall|v: u64|
            s.user_views.contains((v, a)) || exists|i: int|
                0 <= i < calls.len() && calls[i].0 == v
                    && #[trigger] calls[i].1 == a implies #[trigger] post.user_views.contains(
            (v, a),
        ) by {
            if !already {
                lemma_push_contains(prev.user_views, (c.0, c.1), (v, a));
            }
            if s.user_views.contains((v, a)) {
                assert(prev.user_views.contains((v, a)));
            } else {
                let i = choose|i: int|
                    0 <= i < calls.len() && calls[i].0 == v && calls[i].1 == a;
                if i < calls.len() - 1 {
                    assert(prefix[i].0 == v && prefix[i].1 == a);
                    assert(prev.user_views.contains((v, a)));
                } else {
                    assert(c.0 == v && c.1 == a);
                }
            }
        }
    }
}

/// Law: a view is completed exactly once — after its viewer completes it,
/// completing it again fails as already completed, and any other account
/// fails the authorization check, both before and after.
pub proof fn lemma_complete_view_once(s: State, who: u64, view_id: u32, other: u64)
    requires
        complete_view_ok(s, who, view_id),
        other != who,
    ensures
        !complete_view_ok(complete_view_step(s, view_id), who, view_id),
        complete_view_err(complete_view_step(s, view_id), who, view_id)
            == Error::ViewAlreadyCompleted,
        !complete_view_ok(s, other, view_id),
        complete_view_err(s, other, view_id) == Error::BadOrigin,
        !complete_view_ok(complete_view_step(s, view_id), other, view_id),
        complete_view_err(complete_view_step(s, view_id), other, view_id) == Error::BadOrigin,
{
}

} // verus!
