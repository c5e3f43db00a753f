//! Advertiser onboarding with escrowed deposits, ad-spot inventory, and the
//! ad-record lifecycle: registration, deposit top-up, deregistration, spot
//! creation, ad submission and deactivation.

use std::collections::HashMap;
use vstd::prelude::*;

use crate::balances::{free_at, reserved_at, Account, Balances};
use crate::Origin;

verus! {

/// The fixed limits the ledger is configured with.
#[derive(Clone, Copy, PartialEq, Eq, Structural, Debug)]
pub struct Config {
    /// Longest accepted ad name, in bytes.
    pub max_ad_name_length: u32,
    /// Longest accepted ad description, in bytes.
    pub max_ad_description_length: u32,
    /// Longest accepted content reference, in bytes.
    pub max_cid_length: u32,
    /// Longest accepted advertiser name, in bytes.
    pub max_advertiser_name_length: u32,
    /// Smallest deposit that registers an advertiser.
    pub min_advertiser_deposit: u128,
}

/// A submitted advertisement.
pub struct AdMetadata {
    /// The account that owns the ad.
    pub advertiser: u64,
    /// Display name, within the configured bound.
    pub name: Vec<u8>,
    /// Description, within the configured bound.
    pub description: Vec<u8>,
    /// Content reference, within the configured bound.
    pub ipfs_cid: Vec<u8>,
    /// The funding figure recorded at submission.
    pub funding: u128,
    /// Budget left; equals `funding` at submission.
    pub remaining_budget: u128,
    /// View counter reserved for future accounting.
    pub views: u64,
    /// Whether the ad is live.
    pub active: bool,
}

/// The mathematical value of an [`AdMetadata`] record.
pub struct AdMetadataV {
    /// The account that owns the ad.
    pub advertiser: u64,
    /// Display name bytes.
    pub name: Seq<u8>,
    /// Description bytes.
    pub description: Seq<u8>,
    /// Content reference bytes.
    pub ipfs_cid: Seq<u8>,
    /// The funding figure recorded at submission.
    pub funding: u128,
    /// Budget left.
    pub remaining_budget: u128,
    /// View counter reserved for future accounting.
    pub views: u64,
    /// Whether the ad is live.
    pub active: bool,
}

impl View for AdMetadata {
    type V = AdMetadataV;

    open spec fn view(&self) -> AdMetadataV {
        AdMetadataV {
            advertiser: self.advertiser,
            name: self.name@,
            description: self.description@,
            ipfs_cid: self.ipfs_cid@,
            funding: self.funding,
            remaining_budget: self.remaining_budget,
            views: self.views,
            active: self.active,
        }
    }
}

/// An onboarded advertiser.
pub struct AdvertiserProfile {
    /// The advertiser's account id.
    pub account_id: u64,
    /// Display name, within the configured bound.
    pub name: Vec<u8>,
    /// Block number at which the advertiser registered.
    pub registration_block: u64,
    /// Deposit held in escrow for this advertiser.
    pub deposit: u128,
    /// Whether the profile is active.
    pub active: bool,
    /// Total amount the advertiser has funded across all ads.
    pub total_funded: u128,
    /// Number of ads the advertiser has submitted.
    pub total_ads: u32,
}

/// The mathematical value of an [`AdvertiserProfile`] record.
pub struct AdvertiserProfileV {
    /// The advertiser's account id.
    pub account_id: u64,
    /// Display name bytes.
    pub name: Seq<u8>,
    /// Block number at which the advertiser registered.
    pub registration_block: u64,
    /// Deposit held in escrow for this advertiser.
    pub deposit: u128,
    /// Whether the profile is active.
    pub active: bool,
    /// Total amount the advertiser has funded across all ads.
    pub total_funded: u128,
    /// Number of ads the advertiser has submitted.
    pub total_ads: u32,
}

impl View for AdvertiserProfile {
    type V = AdvertiserProfileV;

    open spec fn view(&self) -> AdvertiserProfileV {
        AdvertiserProfileV {
            account_id: self.account_id,
            name: self.name@,
            registration_block: self.registration_block,
            deposit: self.deposit,
            active: self.active,
            total_funded: self.total_funded,
            total_ads: self.total_ads,
        }
    }
}

/// A sellable placement slot.
#[derive(Clone, Copy, PartialEq, Eq, Structural, Debug)]
pub struct AdSpot {
    /// The spot's id.
    pub spot_id: u32,
    /// Whether the spot can still host an ad.
    pub available: bool,
}

/// What a successful transition reports.
#[derive(Clone, Copy, PartialEq, Eq, Structural, Debug)]
pub enum Event {
    /// An ad spot was created.
    AdSpotCreated { spot_id: u32 },
    /// An advertiser registered, escrowing a deposit.
    AdvertiserRegistered { advertiser: u64, deposit: u128 },
    /// An advertiser deregistered and reclaimed its deposit.
    AdvertiserDeregistered { advertiser: u64, refunded: u128 },
    /// An ad was submitted onto a spot.
    AdSubmitted { ad_id: u32, advertiser: u64, spot_id: u32 },
    /// An ad was switched on.
    AdActivated { ad_id: u32 },
    /// An ad was switched off.
    AdDeactivated { ad_id: u32 },
    /// An advertiser topped up its deposit.
    DepositIncreased { advertiser: u64, amount: u128 },
    /// An advertiser profile changed.
    AdvertiserProfileUpdated { advertiser: u64 },
}

/// Why a transition was refused.
#[derive(Clone, Copy, PartialEq, Eq, Structural, Debug)]
pub enum Error {
    /// No spot with the given id.
    AdSpotNotFound,
    /// No ad with the given id.
    AdNotFound,
    /// No profile for the caller.
    AdvertiserNotFound,
    /// The caller has no active advertiser profile.
    AdvertiserNotRegistered,
    /// The caller already has a profile.
    AdvertiserAlreadyRegistered,
    /// The spot is already occupied.
    AdSpotNotAvailable,
    /// The funding offered is insufficient.
    InsufficientFunding,
    /// The ad name exceeds the configured bound.
    AdNameTooLong,
    /// The ad description exceeds the configured bound.
    AdDescriptionTooLong,
    /// The content reference exceeds the configured bound.
    CidTooLong,
    /// The advertiser name exceeds the configured bound.
    AdvertiserNameTooLong,
    /// The caller's spendable balance is too low.
    InsufficientBalance,
    /// The deposit offered is below the configured minimum.
    DepositTooLow,
    /// The caller still owns an active ad.
    CannotWithdrawWithActiveAds,
    /// Only the owning advertiser may do this.
    Unauthorized,
    /// The call came from the wrong kind of origin.
    BadOrigin,
}

/// The ledger state this component owns, as mathematical maps.
#[verifier::ext_equal]
pub struct State {
    /// The configured limits.
    pub config: Config,
    /// Ad spots by id.
    pub spots: Map<u32, AdSpot>,
    /// Ads by id.
    pub ads: Map<u32, AdMetadataV>,
    /// Advertiser profiles by account id.
    pub profiles: Map<u64, AdvertiserProfileV>,
    /// The legacy membership flag by account id.
    pub advertisers: Map<u64, bool>,
    /// The id the next submitted ad receives.
    pub next_ad_id: u32,
    /// The id the next created spot receives.
    pub next_spot_id: u32,
    /// Every event emitted so far, oldest first.
    pub events: Seq<Event>,
}

/// The map of ad records seen as mathematical values.
pub open spec fn ads_as_values(m: Map<u32, AdMetadata>) -> Map<u32, AdMetadataV> {
    Map::new(|k: u32| m.contains_key(k), |k: u32| m[k]@)
}

/// The map of profiles seen as mathematical values.
pub open spec fn profiles_as_values(m: Map<u64, AdvertiserProfile>) -> Map<u64, AdvertiserProfileV> {
    Map::new(|k: u64| m.contains_key(k), |k: u64| m[k]@)
}

/// Advertiser, spot and ad bookkeeping. Each operation is one atomic
/// transition: it either commits its writes and appends exactly one event,
/// or fails with an [`Error`] and changes nothing.
pub struct Pallet {
    config: Config,
    spots: HashMap<u32, AdSpot>,
    ads: HashMap<u32, AdMetadata>,
    ad_ids: Vec<u32>,
    profiles: HashMap<u64, AdvertiserProfile>,
    advertisers: HashMap<u64, bool>,
    next_ad_id: u32,
    next_spot_id: u32,
    events: Vec<Event>,
}

impl View for Pallet {
    type V = State;

    closed spec fn view(&self) -> State {
        State {
            config: self.config,
            spots: self.spots@,
            ads: ads_as_values(self.ads@),
            profiles: profiles_as_values(self.profiles@),
            advertisers: self.advertisers@,
            next_ad_id: self.next_ad_id,
            next_spot_id: self.next_spot_id,
            events: self.events@,
        }
    }
}

/// Every profile's recorded deposit is covered by that account's reserved
/// balance in the currency ledger `b`.
pub open spec fn escrow_intact(s: State, b: Map<u64, Account>) -> bool {
    forall|who: u64| #[trigger]
        s.profiles.contains_key(who) ==> s.profiles[who].deposit <= reserved_at(b, who)
}

/// Whether registration succeeds for `who` with the given name and deposit.
pub open spec fn register_ok(
    s: State,
    b: Map<u64, Account>,
    who: u64,
    name: Seq<u8>,
    deposit: u128,
) -> bool {
    &&& !s.profiles.contains_key(who)
    &&& deposit >= s.config.min_advertiser_deposit
    &&& name.len() <= s.config.max_advertiser_name_length
    &&& free_at(b, who) >= deposit
}

/// The error a failing registration reports, checks in the order they run.
pub open spec fn register_err(
    s: State,
    b: Map<u64, Account>,
    who: u64,
    name: Seq<u8>,
    deposit: u128,
) -> Error {
    if s.profiles.contains_key(who) {
        Error::AdvertiserAlreadyRegistered
    } else if deposit < s.config.min_advertiser_deposit {
        Error::DepositTooLow
    } else if name.len() > s.config.max_advertiser_name_length {
        Error::AdvertiserNameTooLong
    } else {
        Error::InsufficientBalance
    }
}

/// The ledger state after `who` registers with the given name and deposit
/// at block `now`.
pub open spec fn register_post(s: State, who: u64, name: Seq<u8>, deposit: u128, now: u64) -> State {
    State {
        profiles: s.profiles.insert(
            who,
            (AdvertiserProfileV {
                account_id: who,
                name: name,
                registration_block: now,
                deposit: deposit,
                active: true,
                total_funded: 0,
                total_ads: 0,
            }),
        ),
        advertisers: s.advertisers.insert(who, true),
        events: s.events.push((Event::AdvertiserRegistered { advertiser: who, deposit: deposit })),
        ..s
    }
}

/// Whether a deposit top-up by `who` of `amount` succeeds.
pub open spec fn increase_ok(s: State, b: Map<u64, Account>, who: u64, amount: u128) -> bool {
    &&& s.profiles.contains_key(who)
    &&& s.profiles[who].active
    &&& free_at(b, who) >= amount
}

/// The error a failing deposit top-up reports, checks in the order they run.
pub open spec fn increase_err(s: State, b: Map<u64, Account>, who: u64, amount: u128) -> Error {
    if !s.profiles.contains_key(who) {
        Error::AdvertiserNotFound
    } else if !s.profiles[who].active {
        Error::AdvertiserNotRegistered
    } else {
        Error::InsufficientBalance
    }
}

/// The ledger state after `who` tops its deposit up by `amount`.
pub open spec fn increase_post(s: State, who: u64, amount: u128) -> State {
    State {
        profiles: s.profiles.insert(
            who,
            (AdvertiserProfileV {
                deposit: s.profiles[who].deposit.saturating_add(amount),
                ..s.profiles[who]
            }),
        ),
        events: s.events.push((Event::DepositIncreased { advertiser: who, amount: amount })),
        ..s
    }
}

/// Whether some ad in `s` is owned by `who` and still active.
pub open spec fn has_active(s: State, who: u64) -> bool {
    exists|k: u32|
        #[trigger] s.ads.contains_key(k) && s.ads[k].advertiser == who && s.ads[k].active
}

/// Whether deregistration of `who` succeeds.
pub open spec fn deregister_ok(s: State, who: u64) -> bool {
    s.profiles.contains_key(who) && !has_active(s, who)
}

/// The error a failing deregistration reports, checks in the order they run.
pub open spec fn deregister_err(s: State, who: u64) -> Error {
    if !s.profiles.contains_key(who) {
        Error::AdvertiserNotFound
    } else {
        Error::CannotWithdrawWithActiveAds
    }
}

/// The ledger state after `who` deregisters.
pub open spec fn deregister_post(s: State, who: u64) -> State {
    State {
        profiles: s.profiles.remove(who),
        advertisers: s.advertisers.remove(who),
        events: s.events.push(
            (Event::AdvertiserDeregistered { advertiser: who, refunded: s.profiles[who].deposit }),
        ),
        ..s
    }
}

/// Whether an ad submission by `who` onto `spot_id` succeeds.
pub open spec fn submit_ok(
    s: State,
    who: u64,
    spot_id: u32,
    name: Seq<u8>,
    description: Seq<u8>,
    ipfs_cid: Seq<u8>,
) -> bool {
    &&& s.profiles.contains_key(who)
    &&& s.profiles[who].active
    &&& s.spots.contains_key(spot_id)
    &&& s.spots[spot_id].available
    &&& name.len() <= s.config.max_ad_name_length
    &&& description.len() <= s.config.max_ad_description_length
    &&& ipfs_cid.len() <= s.config.max_cid_length
}

/// The error a failing ad submission reports, checks in the order they run.
pub open spec fn submit_err(
    s: State,
    who: u64,
    spot_id: u32,
    name: Seq<u8>,
    description: Seq<u8>,
    ipfs_cid: Seq<u8>,
) -> Error {
    if !s.profiles.contains_key(who) || !s.profiles[who].active {
        Error::AdvertiserNotRegistered
    } else if !s.spots.contains_key(spot_id) {
        Error::AdSpotNotFound
    } else if !s.spots[spot_id].available {
        Error::AdSpotNotAvailable
    } else if name.len() > s.config.max_ad_name_length {
        Error::AdNameTooLong
    } else if description.len() > s.config.max_ad_description_length {
        Error::AdDescriptionTooLong
    } else {
        Error::CidTooLong
    }
}

/// The ledger state after `who` submits an ad onto `spot_id`: the ad is
/// stored under the next id with its whole funding as remaining budget, the
/// spot turns unavailable, and the advertiser's totals grow.
pub open spec fn submit_post(
    s: State,
    who: u64,
    spot_id: u32,
    name: Seq<u8>,
    description: Seq<u8>,
    ipfs_cid: Seq<u8>,
    funding: u128,
) -> State {
    let ad_id = s.next_ad_id;
    State {
        ads: s.ads.insert(
            ad_id,
            (AdMetadataV {
                advertiser: who,
                name: name,
                description: description,
                ipfs_cid: ipfs_cid,
                funding: funding,
                remaining_budget: funding,
                views: 0,
                active: true,
            }),
        ),
        next_ad_id: ad_id.saturating_add(1),
        profiles: s.profiles.insert(
            who,
            (AdvertiserProfileV {
                total_funded: s.profiles[who].total_funded.saturating_add(funding),
                total_ads: s.profiles[who].total_ads.saturating_add(1),
                ..s.profiles[who]
            }),
        ),
        spots: s.spots.insert(
            spot_id,
            (AdSpot { spot_id: s.spots[spot_id].spot_id, available: false }),
        ),
        events: s.events.push(
            (Event::AdSubmitted { ad_id: ad_id, advertiser: who, spot_id: spot_id }),
        ),
        ..s
    }
}

/// Whether `who` may deactivate the ad `ad_id`.
pub open spec fn deactivate_ok(s: State, who: u64, ad_id: u32) -> bool {
    s.ads.contains_key(ad_id) && s.ads[ad_id].advertiser == who
}

/// The error a failing deactivation reports, checks in the order they run.
pub open spec fn deactivate_err(s: State, who: u64, ad_id: u32) -> Error {
    if !s.ads.contains_key(ad_id) {
        Error::AdNotFound
    } else {
        Error::Unauthorized
    }
}

/// The ledger state after the ad `ad_id` is deactivated. The spot the ad
/// occupies is not released.
pub open spec fn deactivate_post(s: State, ad_id: u32) -> State {
    State {
        ads: s.ads.insert(ad_id, (AdMetadataV { active: false, ..s.ads[ad_id] })),
        events: s.events.push((Event::AdDeactivated { ad_id: ad_id })),
        ..s
    }
}

impl Pallet {
    /// The ads recorded under the ids kept in `ad_ids`, and nothing else:
    /// the scan in [`Pallet::has_active_ads`] walks exactly the catalog.
    pub closed spec fn wf(&self) -> bool {
        &&& forall|k: u32| #[trigger] self.ads@.contains_key(k) ==> self.ad_ids@.contains(k)
        &&& forall|j: int|
            0 <= j < self.ad_ids@.len() ==> self.ads@.contains_key(#[trigger] self.ad_ids@[j])
    }

    /// A fresh component with the given limits and no state.
    pub fn new(config: Config) -> (r: Pallet)
        ensures
            r.wf(),
            r@ == (State {
                config: config,
                spots: Map::<u32, AdSpot>::empty(),
                ads: Map::<u32, AdMetadataV>::empty(),
                profiles: Map::<u64, AdvertiserProfileV>::empty(),
                advertisers: Map::<u64, bool>::empty(),
                next_ad_id: 0u32,
                next_spot_id: 0u32,
                events: Seq::<Event>::empty(),
            }),
    {
        let r = Pallet {
            config,
            spots: HashMap::new(),
            ads: HashMap::new(),
            ad_ids: Vec::new(),
            profiles: HashMap::new(),
            advertisers: HashMap::new(),
            next_ad_id: 0,
            next_spot_id: 0,
            events: Vec::new(),
        };
        proof {
            assert(ads_as_values(r.ads@) =~= Map::<u32, AdMetadataV>::empty());
            assert(profiles_as_values(r.profiles@) =~= Map::<u64, AdvertiserProfileV>::empty());
        }
        r
    }

    /// The configured limits.
    pub fn config(&self) -> (r: Config)
        ensures
            r == self@.config,
    {
        self.config
    }

    /// Allocates the next spot id and marks the spot available. Only the
    /// privileged operator may call this.
    pub fn create_ad_spot(&mut self, origin: Origin) -> (r: Result<(), Error>)
        requires
            old(self).wf(),
        ensures
            final(self).wf(),
            match origin {
                Origin::Signed(_) => r == Err::<(), Error>(Error::BadOrigin) && final(self)@
                    == old(self)@,
                Origin::Root => {
                    &&& r == Ok::<(), Error>(())
                    &&& final(self)@ == (State {
                        spots: old(self)@.spots.insert(
                            old(self)@.next_spot_id,
                            (AdSpot { spot_id: old(self)@.next_spot_id, available: true }),
                        ),
                        next_spot_id: old(self)@.next_spot_id.saturating_add(1),
                        events: old(self)@.events.push(
                            (Event::AdSpotCreated { spot_id: old(self)@.next_spot_id }),
                        ),
                        ..old(self)@
                    })
                },
            },
    {
        match origin {
            Origin::Signed(_) => Err(Error::BadOrigin),
            Origin::Root => {
                let spot_id = self.next_spot_id;
                self.spots.insert(spot_id, AdSpot { spot_id, available: true });
                self.next_spot_id = spot_id.saturating_add(1);
                self.events.push(Event::AdSpotCreated { spot_id });
                Ok(())
            },
        }
    }

    /// Onboards the calling account as an advertiser, escrowing
    /// `deposit_amount` in the currency ledger.
    pub fn register_advertiser(
        &mut self,
        origin: Origin,
        balances: &mut Balances,
        name: Vec<u8>,
        deposit_amount: u128,
        now: u64,
    ) -> (r: Result<(), Error>)
        requires
            old(self).wf(),
            old(balances).wf(),
        ensures
            final(self).wf(),
            final(balances).wf(),
            escrow_intact(old(self)@, old(balances)@) ==> escrow_intact(
                final(self)@,
                final(balances)@,
            ),
            match origin {
                Origin::Root => r == Err::<(), Error>(Error::BadOrigin) && final(self)@ == old(
                    self,
                )@ && final(balances)@ == old(balances)@,
                Origin::Signed(who) => {
                    if register_ok(old(self)@, old(balances)@, who, name@, deposit_amount) {
                        &&& r == Ok::<(), Error>(())
                        &&& final(self)@ == register_post(
                            old(self)@,
                            who,
                            name@,
                            deposit_amount,
                            now,
                        )
                        &&& final(balances)@ == old(balances)@.insert(
                            who,
                            (Account {
                                free: (free_at(old(balances)@, who) - deposit_amount) as u128,
                                reserved: (reserved_at(old(balances)@, who)
                                    + deposit_amount) as u128,
                            }),
                        )
                    } else {
                        &&& r == Err::<(), Error>(
                            register_err(old(self)@, old(balances)@, who, name@, deposit_amount),
                        )
                        &&& final(self)@ == old(self)@
                        &&& final(balances)@ == old(balances)@
                    }
                },
            },
    {
        let who = match origin {
            Origin::Signed(who) => who,
            Origin::Root => {
                return Err(Error::BadOrigin);
            },
        };
        if self.profiles.contains_key(&who) {
            return Err(Error::AdvertiserAlreadyRegistered);
        }
        if deposit_amount < self.config.min_advertiser_deposit {
            return Err(Error::DepositTooLow);
        }
        if name.len() > self.config.max_advertiser_name_length as usize {
            return Err(Error::AdvertiserNameTooLong);
        }
        let free_balance = balances.free_balance(who);
        if free_balance < deposit_amount {
            return Err(Error::InsufficientBalance);
        }
        if balances.reserve(who, deposit_amount).is_err() {
            return Err(Error::InsufficientBalance);
        }
        let profile = AdvertiserProfile {
            account_id: who,
            name,
            registration_block: now,
            deposit: deposit_amount,
            active: true,
            total_funded: 0,
            total_ads: 0,
        };
        self.profiles.insert(who, profile);
        self.advertisers.insert(who, true);
        self.events.push(Event::AdvertiserRegistered { advertiser: who, deposit: deposit_amount });
        proof {
            assert(self@ =~= register_post(old(self)@, who, name@, deposit_amount, now));
            assert forall|w: u64| #[trigger] self@.profiles.contains_key(w) && escrow_intact(
                old(self)@,
                old(balances)@,
            ) implies self@.profiles[w].deposit <= reserved_at(balances@, w) by {
                if w != who {
                    assert(old(self)@.profiles.contains_key(w));
                }
            }
        }
        Ok(())
    }

    /// Adds `additional_amount` to the caller's escrowed deposit, reserving
    /// the same amount in the currency ledger.
    pub fn increase_advertiser_deposit(
        &mut self,
        origin: Origin,
        balances: &mut Balances,
        additional_amount: u128,
    ) -> (r: Result<(), Error>)
        requires
            old(self).wf(),
            old(balances).wf(),
        ensures
            final(self).wf(),
            final(balances).wf(),
            escrow_intact(old(self)@, old(balances)@) ==> escrow_intact(
                final(self)@,
                final(balances)@,
            ),
            match origin {
                Origin::Root => r == Err::<(), Error>(Error::BadOrigin) && final(self)@ == old(
                    self,
                )@ && final(balances)@ == old(balances)@,
                Origin::Signed(who) => {
                    if increase_ok(old(self)@, old(balances)@, who, additional_amount) {
                        &&& r == Ok::<(), Error>(())
                        &&& final(self)@ == increase_post(old(self)@, who, additional_amount)
                        &&& final(balances)@ == old(balances)@.insert(
                            who,
                            (Account {
                                free: (free_at(old(balances)@, who) - additional_amount) as u128,
                                reserved: (reserved_at(old(balances)@, who)
                                    + additional_amount) as u128,
                            }),
                        )
                    } else {
                        &&& r == Err::<(), Error>(
                            increase_err(old(self)@, old(balances)@, who, additional_amount),
                        )
                        &&& final(self)@ == old(self)@
                        &&& final(balances)@ == old(balances)@
                    }
                },
            },
    {
        let who = match origin {
            Origin::Signed(who) => who,
            Origin::Root => {
                return Err(Error::BadOrigin);
            },
        };
        let active = match self.profiles.get(&who) {
            None => {
                return Err(Error::AdvertiserNotFound);
            },
            Some(profile) => profile.active,
        };
        if !active {
            return Err(Error::AdvertiserNotRegistered);
        }
        let free_balance = balances.free_balance(who);
        if free_balance < additional_amount {
            return Err(Error::InsufficientBalance);
        }
        if balances.reserve(who, additional_amount).is_err() {
            return Err(Error::InsufficientBalance);
        }
        let mut profile = self.profiles.remove(&who).unwrap();
        profile.deposit = profile.deposit.saturating_add(additional_amount);
        self.profiles.insert(who, profile);
        self.events.push(Event::DepositIncreased { advertiser: who, amount: additional_amount });
        proof {
            assert(self@ =~= increase_post(old(self)@, who, additional_amount));
            assert forall|w: u64| #[trigger] self@.profiles.contains_key(w) && escrow_intact(
                old(self)@,
                old(balances)@,
            ) implies self@.profiles[w].deposit <= reserved_at(balances@, w) by {
                assert(old(self)@.profiles.contains_key(w));
            }
        }
        Ok(())
    }

    /// Whether any ad owned by `who` is still active; the scan the
    /// deregistration check runs over the whole catalog.
    pub fn has_active_ads(&self, who: u64) -> (r: bool)
        requires
            self.wf(),
        ensures
            r == has_active(self@, who),
    {
        let mut i: usize = 0;
        while i < self.ad_ids.len()
            invariant
                self.wf(),
                i <= self.ad_ids@.len(),
                forall|j: int|
                    0 <= j < i ==> !(self@.ads[#[trigger] self.ad_ids@[j]].advertiser == who
                        && self@.ads[self.ad_ids@[j]].active),
            decreases self.ad_ids@.len() - i,
        {
            let k = self.ad_ids[i];
            match self.ads.get(&k) {
                Some(ad) => {
                    if ad.advertiser == who && ad.active {
                        proof {
                            assert(self@.ads.contains_key(k) && self@.ads[k].advertiser == who
                                && self@.ads[k].active);
                        }
                        return true;
                    }
                },
                None => {
                    proof {
                        assert(false);
                    }
                },
            }
            i += 1;
        }
        proof {
            assert forall|k: u32| #[trigger] self@.ads.contains_key(k) implies !(self@.ads[k].advertiser
                == who && self@.ads[k].active) by {
                assert(self.ads@.contains_key(k));
                assert(self.ad_ids@.contains(k));
                let j = choose|j: int| 0 <= j < self.ad_ids@.len() && self.ad_ids@[j] == k;
                assert(!(self@.ads[self.ad_ids@[j]].advertiser == who
                    && self@.ads[self.ad_ids@[j]].active));
            }
        }
        false
    }

    /// Removes the caller's profile and releases its whole deposit from the
    /// currency ledger. Refused while any ad the caller owns is active.
    pub fn deregister_advertiser(&mut self, origin: Origin, balances: &mut Balances) -> (r: Result<
        (),
        Error,
    >)
        requires
            old(self).wf(),
            old(balances).wf(),
        ensures
            final(self).wf(),
            final(balances).wf(),
            escrow_intact(old(self)@, old(balances)@) ==> escrow_intact(
                final(self)@,
                final(balances)@,
            ),
            // The refusal over active ads comes exactly when one exists.
            r == Err::<(), Error>(Error::CannotWithdrawWithActiveAds) <==> match origin {
                Origin::Signed(who) => old(self)@.profiles.contains_key(who) && has_active(
                    old(self)@,
                    who,
                ),
                Origin::Root => false,
            },
            match origin {
                Origin::Root => r == Err::<(), Error>(Error::BadOrigin) && final(self)@ == old(
                    self,
                )@ && final(balances)@ == old(balances)@,
                Origin::Signed(who) => {
                    if deregister_ok(old(self)@, who) {
                        let deposit = old(self)@.profiles[who].deposit;
                        let moved = if deposit <= reserved_at(old(balances)@, who) {
                            deposit
                        } else {
                            reserved_at(old(balances)@, who)
                        };
                        &&& r == Ok::<(), Error>(())
                        &&& final(self)@ == deregister_post(old(self)@, who)
                        &&& final(balances)@ == old(balances)@.insert(
                            who,
                            (Account {
                                free: (free_at(old(balances)@, who) + moved) as u128,
                                reserved: (reserved_at(old(balances)@, who) - moved) as u128,
                            }),
                        )
                        &&& escrow_intact(old(self)@, old(balances)@) ==> moved == deposit
                    } else {
                        &&& r == Err::<(), Error>(deregister_err(old(self)@, who))
                        &&& final(self)@ == old(self)@
                        &&& final(balances)@ == old(balances)@
                    }
                },
            },
    {
        let who = match origin {
            Origin::Signed(who) => who,
            Origin::Root => {
                return Err(Error::BadOrigin);
            },
        };
        let deposit = match self.profiles.get(&who) {
            None => {
                return Err(Error::AdvertiserNotFound);
            },
            Some(profile) => profile.deposit,
        };
        if self.has_active_ads(who) {
            return Err(Error::CannotWithdrawWithActiveAds);
        }
        let _leftover = balances.unreserve(who, deposit);
        self.profiles.remove(&who);
        self.advertisers.remove(&who);
        self.events.push(Event::AdvertiserDeregistered { advertiser: who, refunded: deposit });
        proof {
            assert(self@ =~= deregister_post(old(self)@, who));
            assert forall|w: u64| #[trigger] self@.profiles.contains_key(w) && escrow_intact(
                old(self)@,
                old(balances)@,
            ) implies self@.profiles[w].deposit <= reserved_at(balances@, w) by {
                assert(old(self)@.profiles.contains_key(w));
            }
        }
        Ok(())
    }

    /// Stores a new ad on an available spot: the ad takes the next id, the
    /// spot turns unavailable, and the advertiser's totals grow. The funding
    /// figure is recorded as the ad's whole remaining budget; no funds move.
    pub fn submit_ad(
        &mut self,
        origin: Origin,
        spot_id: u32,
        name: Vec<u8>,
        description: Vec<u8>,
        ipfs_cid: Vec<u8>,
        funding: u128,
    ) -> (r: Result<(), Error>)
        requires
            old(self).wf(),
        ensures
            final(self).wf(),
            // No deposit changes, so escrow cover is kept towards any
            // currency ledger.
            forall|b: Map<u64, Account>|
                escrow_intact(old(self)@, b) ==> #[trigger] escrow_intact(final(self)@, b),
            // An occupied spot is refused whoever asks, whatever the rest of
            // the input, once the caller itself is a live advertiser.
            match origin {
                Origin::Signed(who) => (old(self)@.profiles.contains_key(who) && old(
                    self,
                )@.profiles[who].active && old(self)@.spots.contains_key(spot_id) && !old(
                    self,
                )@.spots[spot_id].available) ==> r == Err::<(), Error>(Error::AdSpotNotAvailable)
                    && final(self)@ == old(self)@,
                Origin::Root => true,
            },
            match origin {
                Origin::Root => r == Err::<(), Error>(Error::BadOrigin) && final(self)@ == old(
                    self,
                )@,
                Origin::Signed(who) => {
                    if submit_ok(old(self)@, who, spot_id, name@, description@, ipfs_cid@) {
                        &&& r == Ok::<(), Error>(())
                        &&& final(self)@ == submit_post(
                            old(self)@,
                            who,
                            spot_id,
                            name@,
                            description@,
                            ipfs_cid@,
                            funding,
                        )
                    } else {
                        &&& r == Err::<(), Error>(
                            submit_err(old(self)@, who, spot_id, name@, description@, ipfs_cid@),
                        )
                        &&& final(self)@ == old(self)@
                    }
                },
            },
    {
        let who = match origin {
            Origin::Signed(who) => who,
            Origin::Root => {
                return Err(Error::BadOrigin);
            },
        };
        let active = match self.profiles.get(&who) {
            None => {
                return Err(Error::AdvertiserNotRegistered);
            },
            Some(profile) => profile.active,
        };
        if !active {
            return Err(Error::AdvertiserNotRegistered);
        }
        let spot = match self.spots.get(&spot_id) {
            None => {
                return Err(Error::AdSpotNotFound);
            },
            Some(spot) => *spot,
        };
        if !spot.available {
            return Err(Error::AdSpotNotAvailable);
        }
        if name.len() > self.config.max_ad_name_length as usize {
            return Err(Error::AdNameTooLong);
        }
        if description.len() > self.config.max_ad_description_length as usize {
            return Err(Error::AdDescriptionTooLong);
        }
        if ipfs_cid.len() > self.config.max_cid_length as usize {
            return Err(Error::CidTooLong);
        }
        let ad_id = self.next_ad_id;
        let ad = AdMetadata {
            advertiser: who,
            name,
            description,
            ipfs_cid,
            funding,
            remaining_budget: funding,
            views: 0,
            active: true,
        };
        if !self.ads.contains_key(&ad_id) {
            self.ad_ids.push(ad_id);
        }
        self.ads.insert(ad_id, ad);
        self.next_ad_id = ad_id.saturating_add(1);
        let mut profile = self.profiles.remove(&who).unwrap();
        profile.total_funded = profile.total_funded.saturating_add(funding);
        profile.total_ads = profile.total_ads.saturating_add(1);
        self.profiles.insert(who, profile);
        self.spots.insert(spot_id, AdSpot { spot_id: spot.spot_id, available: false });
        self.events.push(Event::AdSubmitted { ad_id, advertiser: who, spot_id });
        proof {
            assert forall|k: u32| #[trigger] self.ads@.contains_key(k) implies self.ad_ids@.contains(
                k,
            ) by {
                if k == ad_id && !old(self).ads@.contains_key(ad_id) {
                    assert(self.ad_ids@[self.ad_ids@.len() - 1] == ad_id);
                } else {
                    assert(old(self).ads@.contains_key(k));
                    let j = choose|j: int|
                        0 <= j < old(self).ad_ids@.len() && old(self).ad_ids@[j] == k;
                    assert(self.ad_ids@[j] == k);
                }
            }
            assert forall|j: int| 0 <= j < self.ad_ids@.len() implies self.ads@.contains_key(
                #[trigger] self.ad_ids@[j],
            ) by {
                if j < old(self).ad_ids@.len() {
                    assert(old(self).ads@.contains_key(old(self).ad_ids@[j]));
                } else {
                    assert(self.ad_ids@[j] == ad_id);
                }
            }
            assert(self@ =~= submit_post(
                old(self)@,
                who,
                spot_id,
                name@,
                description@,
                ipfs_cid@,
                funding,
            ));
            assert forall|b: Map<u64, Account>| escrow_intact(old(self)@, b) implies #[trigger] escrow_intact(
                self@,
                b,
            ) by {
                assert forall|w: u64| #[trigger] self@.profiles.contains_key(w) implies self@.profiles[w].deposit
                    <= reserved_at(b, w) by {
                    assert(old(self)@.profiles.contains_key(w));
                }
            }
        }
        Ok(())
    }

    /// Switches the ad `ad_id` off. Only its owning advertiser may do so;
    /// the occupied spot stays unavailable.
    pub fn deactivate_ad(&mut self, origin: Origin, ad_id: u32) -> (r: Result<(), Error>)
        requires
            old(self).wf(),
        ensures
            final(self).wf(),
            match origin {
                Origin::Root => r == Err::<(), Error>(Error::BadOrigin) && final(self)@ == old(
                    self,
                )@,
                Origin::Signed(who) => {
                    if deactivate_ok(old(self)@, who, ad_id) {
                        &&& r == Ok::<(), Error>(())
                        &&& final(self)@ == deactivate_post(old(self)@, ad_id)
                    } else {
                        &&& r == Err::<(), Error>(deactivate_err(old(self)@, who, ad_id))
                        &&& final(self)@ == old(self)@
                    }
                },
            },
    {
        let who = match origin {
            Origin::Signed(who) => who,
            Origin::Root => {
                return Err(Error::BadOrigin);
            },
        };
        let owner = match self.ads.get(&ad_id) {
            None => {
                return Err(Error::AdNotFound);
            },
            Some(ad) => ad.advertiser,
        };
        if owner != who {
            return Err(Error::Unauthorized);
        }
        let mut ad = self.ads.remove(&ad_id).unwrap();
        ad.active = false;
        self.ads.insert(ad_id, ad);
        self.events.push(Event::AdDeactivated { ad_id });
        proof {
            assert forall|k: u32| #[trigger] self.ads@.contains_key(k) implies self.ad_ids@.contains(
                k,
            ) by {
                assert(old(self).ads@.contains_key(k));
            }
            assert forall|j: int| 0 <= j < self.ad_ids@.len() implies self.ads@.contains_key(
                #[trigger] self.ad_ids@[j],
            ) by {
                assert(old(self).ads@.contains_key(self.ad_ids@[j]));
            }
            assert(self@ =~= deactivate_post(old(self)@, ad_id));
        }
        Ok(())
    }

    /// The spot stored under `spot_id`.
    pub fn ad_spots(&self, spot_id: u32) -> (r: Option<AdSpot>)
        ensures
            r == if self@.spots.contains_key(spot_id) {
                Some(self@.spots[spot_id])
            } else {
                Option::<AdSpot>::None
            },
    {
        match self.spots.get(&spot_id) {
            Some(spot) => Some(*spot),
            None => None,
        }
    }

    /// The ad stored under `ad_id`.
    pub fn ads(&self, ad_id: u32) -> (r: Option<&AdMetadata>)
        ensures
            match r {
                Some(ad) => self@.ads.contains_key(ad_id) && ad@ == self@.ads[ad_id],
                None => !self@.ads.contains_key(ad_id),
            },
    {
        self.ads.get(&ad_id)
    }

    /// The profile stored for `who`.
    pub fn advertiser_profiles(&self, who: u64) -> (r: Option<&AdvertiserProfile>)
        ensures
            match r {
                Some(profile) => self@.profiles.contains_key(who) && profile@ == self@.profiles[who],
                None => !self@.profiles.contains_key(who),
            },
    {
        self.profiles.get(&who)
    }

    /// The legacy membership flag for `who`; accounts never registered read
    /// as false.
    pub fn advertisers(&self, who: u64) -> (r: bool)
        ensures
            r == (self@.advertisers.contains_key(who) && self@.advertisers[who]),
    {
        match self.advertisers.get(&who) {
            Some(flag) => *flag,
            None => false,
        }
    }

    /// The id the next submitted ad receives.
    pub fn next_ad_id(&self) -> (r: u32)
        ensures
            r == self@.next_ad_id,
    {
        self.next_ad_id
    }

    /// The id the next created spot receives.
    pub fn next_spot_id(&self) -> (r: u32)
        ensures
            r == self@.next_spot_id,
    {
        self.next_spot_id
    }

    /// Every event emitted so far, oldest first.
    pub fn events(&self) -> (r: &Vec<Event>)
        ensures
            r@ == self@.events,
    {
        &self.events
    }
}

/// Law: a spot hosts at most one ad — once a submission succeeds on a
/// spot, every further submission on that spot is refused, and for any
/// caller that is itself a live advertiser the refusal names the occupied
/// spot. Nothing in this component ever turns a spot available again.
pub proof fn lemma_spot_hosts_one_ad(
    s: State,
    who: u64,
    spot_id: u32,
    name: Seq<u8>,
    description: Seq<u8>,
    ipfs_cid: Seq<u8>,
    funding: u128,
    who2: u64,
    name2: Seq<u8>,
    description2: Seq<u8>,
    ipfs_cid2: Seq<u8>,
)
    requires
        submit_ok(s, who, spot_id, name, description, ipfs_cid),
    ensures
        ({
            let post = submit_post(s, who, spot_id, name, description, ipfs_cid, funding);
            &&& !submit_ok(post, who2, spot_id, name2, description2, ipfs_cid2)
            &&& (post.profiles.contains_key(who2) && post.profiles[who2].active ==> submit_err(
                post,
                who2,
                spot_id,
                name2,
                description2,
                ipfs_cid2,
            ) == Error::AdSpotNotAvailable)
        }),
{
}

} // verus!
