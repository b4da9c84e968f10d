use vstd::prelude::*;
use crate::feed_map::FeedMap;
use crate::pipeline::{
    apply_found, applied, batch_outcome, bundle_outcome, never_regresses, parse_bundle,
    pick_required, required_prices, run_batch, stored_publish_time, stored_time,
};
use crate::guarantees::lemma_calls_never_regress;
use crate::types::{DataSource, PriceInfo, PythReceiverError};
use crate::wire::{bundle_of, decode_bundle, has_magic};

verus! {

/// What a receiver is configured with; price updates never change it.
pub ghost struct Settings {
    pub sources: Seq<DataSource>,
    pub single_update_fee: u64,
    pub transaction_fee: u64,
    pub valid_time_period: u64,
    pub governance_chain_id: u16,
    pub governance_emitter_address: Seq<u8>,
    pub last_executed_governance_sequence: u64,
    pub governance_data_source_index: u32,
}

/// The receiver's long-lived state: the authorized sources, the fees, and
/// the latest price data of every feed.
pub struct PythReceiver {
    sources: Vec<DataSource>,
    prices: FeedMap,
    single_update_fee: u64,
    transaction_fee: u64,
    valid_time_period: u64,
    governance_chain_id: u16,
    governance_emitter_address: [u8; 32],
    last_executed_governance_sequence: u64,
    governance_data_source_index: u32,
}

/// The price stored for feed `id`; unavailable while the feed is unset.
pub open spec fn price_of(store: Map<Seq<u8>, PriceInfo>, id: Seq<u8>) -> Result<
    PriceInfo,
    PythReceiverError,
> {
    if stored_time(store, id) == 0 {
        Err(PythReceiverError::PriceUnavailable)
    } else {
        Ok(store[id])
    }
}

/// The moving-average side of a price: the average price and its confidence
/// stand in both pairs of fields.
pub open spec fn ema_of(info: PriceInfo) -> PriceInfo {
    PriceInfo {
        publish_time: info.publish_time,
        expo: info.expo,
        price: info.ema_price,
        conf: info.ema_conf,
        ema_price: info.ema_price,
        ema_conf: info.ema_conf,
    }
}

/// Whether data published at `publish_time` is at most `max_age` seconds old
/// at time `now`.
pub open spec fn fresh_enough(publish_time: int, max_age: int, now: int) -> bool {
    now - publish_time <= max_age
}

/// A stored price, or `NewPriceUnavailable` where it is older than
/// `max_age` at time `now`.
pub open spec fn no_older_than(
    price: Result<PriceInfo, PythReceiverError>,
    max_age: u64,
    now: u64,
) -> Result<PriceInfo, PythReceiverError> {
    match price {
        Err(e) => Err(e),
        Ok(p) => if fresh_enough(p.publish_time as int, max_age as int, now as int) {
            Ok(p)
        } else {
            Err(PythReceiverError::NewPriceUnavailable)
        },
    }
}

/// The number of records that the first `n` bundles carry, duplicates and
/// all; none where one of them does not decode.
pub open spec fn total_updates(bundles: Seq<Vec<u8>>, n: nat) -> Option<nat>
    decreases n,
{
    if n == 0 {
        Some(0)
    } else {
        match total_updates(bundles, (n - 1) as nat) {
            None => None,
            Some(t) => match bundle_of(bundles[n - 1]@) {
                None => None,
                Some(b) => Some(t + b.records.len()),
            },
        }
    }
}

/// A bundle that does not decode among the first leaves the whole list
/// without a count.
pub proof fn lemma_total_failure_stays(bundles: Seq<Vec<u8>>, n: nat, m: nat)
    requires
        n <= m,
        total_updates(bundles, n) is None,
    ensures
        total_updates(bundles, m) is None,
    decreases m,
{
    if n < m {
        lemma_total_failure_stays(bundles, n, (m - 1) as nat);
    }
}

/// The fee for a list of bundles: the per-update rate for every record that
/// they carry, plus the per-call surcharge.
pub open spec fn fee_outcome(bundles: Seq<Vec<u8>>, rate: u64, surcharge: u64) -> Result<
    u128,
    PythReceiverError,
> {
    match total_updates(bundles, bundles.len()) {
        None => Err(PythReceiverError::MalformedData),
        Some(t) => if t > u64::MAX {
            Err(PythReceiverError::TooManyUpdates)
        } else {
            Ok((t * rate + surcharge) as u128)
        },
    }
}

/// What a parse of a batch returns and leaves in the store: the batch is
/// processed, its size held against the number of required feeds where
/// `exact` is set, and the required feeds are picked out.
pub open spec fn config_outcome(
    store: Map<Seq<u8>, PriceInfo>,
    sources: Seq<DataSource>,
    bundles: Seq<Vec<u8>>,
    verdicts: Seq<bool>,
    ids: Seq<[u8; 32]>,
    min: u64,
    max: u64,
    unique: bool,
    exact: bool,
    persist: bool,
) -> Result<(Map<Seq<u8>, PriceInfo>, Seq<PriceInfo>), PythReceiverError> {
    match batch_outcome(store, sources, bundles, verdicts, bundles.len(), min, max, unique, persist) {
        Err(e) => Err(e),
        Ok(st) => if exact && st.count != ids.len() {
            Err(PythReceiverError::InvalidUpdateData)
        } else {
            match required_prices(st.merged, ids) {
                Err(e) => Err(e),
                Ok(p) => Ok((st.store, p)),
            }
        },
    }
}

/// The store after a paid update: every accepted record applied, unless a
/// bundle fails or the payment does not cover the fee.
pub open spec fn update_outcome(
    store: Map<Seq<u8>, PriceInfo>,
    settings: Settings,
    bundles: Seq<Vec<u8>>,
    verdicts: Seq<bool>,
    payment: u128,
) -> Result<Map<Seq<u8>, PriceInfo>, PythReceiverError> {
    match batch_outcome(store, settings.sources, bundles, verdicts, bundles.len(), 0, 0, false, true) {
        Err(e) => Err(e),
        Ok(st) => match fee_outcome(bundles, settings.single_update_fee, settings.transaction_fee) {
            Err(e) => Err(e),
            Ok(fee) => if payment < fee {
                Err(PythReceiverError::InsufficientFee)
            } else {
                Ok(st.store)
            },
        },
    }
}

/// Whether some candidate time is strictly later than what its feed stores.
pub open spec fn some_fresher(store: Map<Seq<u8>, PriceInfo>, ids: Seq<[u8; 32]>, times: Seq<u64>) -> bool {
    exists|i: int|
        0 <= i < ids.len() && i < times.len() && stored_time(store, #[trigger] ids[i]@) < times[i]
}

/// The store after a conditional update: the lists must pair up and not be
/// empty, and some candidate time must be fresher than the store; only then
/// is the paid update run.
pub open spec fn conditional_outcome(
    store: Map<Seq<u8>, PriceInfo>,
    settings: Settings,
    bundles: Seq<Vec<u8>>,
    verdicts: Seq<bool>,
    ids: Seq<[u8; 32]>,
    times: Seq<u64>,
    payment: u128,
) -> Result<Map<Seq<u8>, PriceInfo>, PythReceiverError> {
    if ids.len() != times.len() || ids.len() == 0 {
        Err(PythReceiverError::InvalidUpdateData)
    } else if some_fresher(store, ids, times) {
        update_outcome(store, settings, bundles, verdicts, payment)
    } else {
        Err(PythReceiverError::NoFreshData)
    }
}

impl PythReceiver {
    /// The latest price data by feed.
    pub closed spec fn prices(&self) -> Map<Seq<u8>, PriceInfo> {
        self.prices@
    }

    pub closed spec fn settings(&self) -> Settings {
        Settings {
            sources: self.sources@,
            single_update_fee: self.single_update_fee,
            transaction_fee: self.transaction_fee,
            valid_time_period: self.valid_time_period,
            governance_chain_id: self.governance_chain_id,
            governance_emitter_address: self.governance_emitter_address@,
            last_executed_governance_sequence: self.last_executed_governance_sequence,
            governance_data_source_index: self.governance_data_source_index,
        }
    }

    /// The invariant of the state.
    pub closed spec fn wf(&self) -> bool {
        self.prices.wf()
    }

    /// A receiver with no source, no price and no fee.
    pub fn new() -> (r: PythReceiver)
        ensures
            r.wf(),
            r.prices() == Map::<Seq<u8>, PriceInfo>::empty(),
            r.settings() == (Settings {
                sources: Seq::empty(),
                single_update_fee: 0,
                transaction_fee: 0,
                valid_time_period: 0,
                governance_chain_id: 0,
                governance_emitter_address: Seq::new(32, |i: int| 0u8),
                last_executed_governance_sequence: 0,
                governance_data_source_index: 0,
            }),
    {
        let zero = [0u8; 32];
        assert(zero@ =~= Seq::new(32, |i: int| 0u8));
        PythReceiver {
            sources: Vec::new(),
            prices: FeedMap::new(),
            single_update_fee: 0,
            transaction_fee: 0,
            valid_time_period: 0,
            governance_chain_id: 0,
            governance_emitter_address: zero,
            last_executed_governance_sequence: 0,
            governance_data_source_index: 0,
        }
    }

    /// Configures the receiver. The sources `(chain ids[i], addresses[i])`
    /// are added to the authorized ones; the prices stay.
    pub fn initialize(
        &mut self,
        single_update_fee: u64,
        valid_time_period: u64,
        data_source_emitter_chain_ids: Vec<u16>,
        data_source_emitter_addresses: Vec<[u8; 32]>,
        governance_emitter_chain_id: u16,
        governance_emitter_address: [u8; 32],
        governance_initial_sequence: u64,
    )
        requires
            old(self).wf(),
            data_source_emitter_chain_ids@.len() <= data_source_emitter_addresses@.len(),
        ensures
            final(self).wf(),
            final(self).prices() == old(self).prices(),
            final(self).settings() == (Settings {
                sources: old(self).settings().sources + Seq::new(
                    data_source_emitter_chain_ids@.len(),
                    |i: int|
                        DataSource {
                            chain_id: data_source_emitter_chain_ids@[i],
                            emitter_address: data_source_emitter_addresses@[i],
                        },
                ),
                single_update_fee,
                transaction_fee: old(self).settings().transaction_fee,
                valid_time_period,
                governance_chain_id: governance_emitter_chain_id,
                governance_emitter_address: governance_emitter_address@,
                last_executed_governance_sequence: governance_initial_sequence,
                governance_data_source_index: 0,
            }),
    {
        self.single_update_fee = single_update_fee;
        self.valid_time_period = valid_time_period;
        self.governance_chain_id = governance_emitter_chain_id;
        self.governance_emitter_address = governance_emitter_address;
        self.last_executed_governance_sequence = governance_initial_sequence;
        self.governance_data_source_index = 0;
        let ghost before = self.sources@;
        let mut i: usize = 0;
        while i < data_source_emitter_chain_ids.len()
            invariant
                i <= data_source_emitter_chain_ids@.len(),
                data_source_emitter_chain_ids@.len() <= data_source_emitter_addresses@.len(),
                self.sources@ == before + Seq::new(
                    i as nat,
                    |j: int|
                        DataSource {
                            chain_id: data_source_emitter_chain_ids@[j],
                            emitter_address: data_source_emitter_addresses@[j],
                        },
                ),
                self.prices == old(self).prices,
                self.transaction_fee == old(self).transaction_fee,
                self.single_update_fee == single_update_fee,
                self.valid_time_period == valid_time_period,
                self.governance_chain_id == governance_emitter_chain_id,
                self.governance_emitter_address == governance_emitter_address,
                self.last_executed_governance_sequence == governance_initial_sequence,
                self.governance_data_source_index == 0,
            decreases data_source_emitter_chain_ids@.len() - i,
        {
            let ghost so_far = self.sources@;
            self.sources.push(
                DataSource {
                    chain_id: data_source_emitter_chain_ids[i],
                    emitter_address: data_source_emitter_addresses[i],
                },
            );
            assert(self.sources@ =~= before + Seq::new(
                (i + 1) as nat,
                |j: int|
                    DataSource {
                        chain_id: data_source_emitter_chain_ids@[j],
                        emitter_address: data_source_emitter_addresses@[j],
                    },
            ));
            i += 1;
        }
    }

    /// Sets the surcharge that every paid call owes on top of the per-update
    /// fee.
    pub fn set_transaction_fee(&mut self, fee: u64)
        ensures
            final(self).wf() == old(self).wf(),
            final(self).prices() == old(self).prices(),
            final(self).settings() == (Settings { transaction_fee: fee, ..old(self).settings() }),
    {
        self.transaction_fee = fee;
    }

    /// Puts `info` into the slot of feed `id`, as it was read from the
    /// persistent store.
    pub fn load_price(&mut self, id: [u8; 32], info: PriceInfo)
        requires
            old(self).wf(),
        ensures
            final(self).wf(),
            final(self).settings() == old(self).settings(),
            final(self).prices() == old(self).prices().insert(id@, info),
    {
        self.prices.insert(id, info);
    }

    /// What the slot of feed `id` holds; nothing while the feed is unset.
    pub fn stored_price(&self, id: [u8; 32]) -> (r: Option<PriceInfo>)
        requires
            self.wf(),
        ensures
            r == (if self.prices().contains_key(id@) {
                Some(self.prices()[id@])
            } else {
                None
            }),
    {
        self.prices.get(&id)
    }

    /// The latest price of feed `id`, whatever its age.
    pub fn get_price_unsafe(&self, id: [u8; 32]) -> (r: Result<PriceInfo, PythReceiverError>)
        requires
            self.wf(),
        ensures
            r == price_of(self.prices(), id@),
    {
        match self.prices.get(&id) {
            None => Err(PythReceiverError::PriceUnavailable),
            Some(info) => if info.publish_time == 0 {
                Err(PythReceiverError::PriceUnavailable)
            } else {
                Ok(info)
            },
        }
    }

    /// The latest price of feed `id`, if it is at most `age` seconds old at
    /// time `now`.
    pub fn get_price_no_older_than(&self, id: [u8; 32], age: u64, now: u64) -> (r: Result<
        PriceInfo,
        PythReceiverError,
    >)
        requires
            self.wf(),
        ensures
            r == no_older_than(price_of(self.prices(), id@), age, now),
    {
        match self.get_price_unsafe(id) {
            Err(e) => Err(e),
            Ok(p) => if self.is_no_older_than(p.publish_time, age, now) {
                Ok(p)
            } else {
                Err(PythReceiverError::NewPriceUnavailable)
            },
        }
    }

    /// The latest moving-average price of feed `id`, whatever its age.
    pub fn get_ema_price_unsafe(&self, id: [u8; 32]) -> (r: Result<PriceInfo, PythReceiverError>)
        requires
            self.wf(),
        ensures
            r == (match price_of(self.prices(), id@) {
                Err(e) => Err::<PriceInfo, PythReceiverError>(e),
                Ok(p) => Ok::<PriceInfo, PythReceiverError>(ema_of(p)),
            }),
    {
        match self.get_price_unsafe(id) {
            Err(e) => Err(e),
            Ok(p) => Ok(
                PriceInfo {
                    publish_time: p.publish_time,
                    expo: p.expo,
                    price: p.ema_price,
                    conf: p.ema_conf,
                    ema_price: p.ema_price,
                    ema_conf: p.ema_conf,
                },
            ),
        }
    }

    /// The latest moving-average price of feed `id`, if it is at most `age`
    /// seconds old at time `now`.
    pub fn get_ema_price_no_older_than(&self, id: [u8; 32], age: u64, now: u64) -> (r: Result<
        PriceInfo,
        PythReceiverError,
    >)
        requires
            self.wf(),
        ensures
            r == no_older_than(
                match price_of(self.prices(), id@) {
                    Err(e) => Err::<PriceInfo, PythReceiverError>(e),
                    Ok(p) => Ok::<PriceInfo, PythReceiverError>(ema_of(p)),
                },
                age,
                now,
            ),
    {
        match self.get_ema_price_unsafe(id) {
            Err(e) => Err(e),
            Ok(p) => if self.is_no_older_than(p.publish_time, age, now) {
                Ok(p)
            } else {
                Err(PythReceiverError::NewPriceUnavailable)
            },
        }
    }

    /// Whether data published at `publish_time` is at most `max_age` seconds
    /// old at time `now`.
    pub fn is_no_older_than(&self, publish_time: i64, max_age: u64, now: u64) -> (r: bool)
        ensures
            r == fresh_enough(publish_time as int, max_age as int, now as int),
    {
        (now as i128) - (publish_time as i128) <= (max_age as i128)
    }

    /// The publish time stored for feed `id`, 0 where the feed is unset.
    pub fn latest_price_info_publish_time(&self, price_id: [u8; 32]) -> (t: i64)
        requires
            self.wf(),
        ensures
            t == stored_time(self.prices(), price_id@),
    {
        stored_publish_time(&self.prices, &price_id)
    }

    /// The fee owed for `update_data`. Nothing is authenticated or verified:
    /// the bundles are decoded and their records counted.
    pub fn get_update_fee(&self, update_data: &Vec<Vec<u8>>) -> (r: Result<u128, PythReceiverError>)
        ensures
            r == fee_outcome(
                update_data@,
                self.settings().single_update_fee,
                self.settings().transaction_fee,
            ),
    {
        let mut total: u128 = 0;
        let mut i: usize = 0;
        while i < update_data.len()
            invariant
                i <= update_data@.len(),
                total <= i * 0xffff_ffff_ffff_ffff,
                total_updates(update_data@, i as nat) == Some(total as nat),
            decreases update_data@.len() - i,
        {
            match decode_bundle(&update_data[i]) {
                Err(_) => {
                    proof {
                        lemma_total_failure_stays(
                            update_data@,
                            (i + 1) as nat,
                            update_data@.len(),
                        );
                    }
                    return Err(PythReceiverError::MalformedData);
                },
                Ok(bundle) => {
                    assert(bundle@.records.len() == bundle.records@.len());
                    total = total + bundle.records.len() as u128;
                },
            }
            i += 1;
        }
        if total > u64::MAX as u128 {
            return Err(PythReceiverError::TooManyUpdates);
        }
        let rate = self.single_update_fee as u128;
        assert(total * rate <= 0xffff_ffff_ffff_ffff * 0xffff_ffff_ffff_ffff) by (nonlinear_arith)
            requires
                total <= 0xffff_ffff_ffff_ffff,
                rate <= 0xffff_ffff_ffff_ffff,
        ;
        Ok(total * rate + self.transaction_fee as u128)
    }

    /// The fee of a time-weighted update. Time-weighted prices are not
    /// offered, and nothing is charged for them.
    pub fn get_twap_update_fee(&self, _update_data: Vec<Vec<u8>>) -> (fee: u128)
        ensures
            fee == 0,
    {
        0
    }

    /// Parses time-weighted updates. Time-weighted prices are not offered:
    /// the result is always empty.
    pub fn parse_twap_price_feed_updates(
        &mut self,
        _update_data: Vec<Vec<u8>>,
        _price_ids: Vec<[u8; 32]>,
    ) -> (r: Vec<PriceInfo>)
        ensures
            r@.len() == 0,
            *final(self) == *old(self),
    {
        Vec::new()
    }

    /// Processes one bundle without storing anything. `accepted` is the
    /// signature verifier's answer on the bundle's envelope.
    pub fn parse_price_feed_updates_internal(
        &self,
        update_data: Vec<u8>,
        accepted: bool,
        min_allowed_publish_time: u64,
        max_allowed_publish_time: u64,
        check_uniqueness: bool,
    ) -> (r: Result<FeedMap, PythReceiverError>)
        requires
            self.wf(),
        ensures
            match bundle_outcome(
                self.prices(),
                self.settings().sources,
                update_data@,
                accepted,
                min_allowed_publish_time,
                max_allowed_publish_time,
                check_uniqueness,
            ) {
                Ok(m) => r matches Ok(found) && found.wf() && found@ == m,
                Err(e) => r matches Err(x) && x == e,
            },
            !has_magic(update_data@) ==> (r matches Err(x) && x
                == PythReceiverError::MalformedData),
    {
        parse_bundle(
            &self.prices,
            &self.sources,
            &update_data,
            accepted,
            min_allowed_publish_time,
            max_allowed_publish_time,
            check_uniqueness,
        )
    }

    /// Processes one bundle and stores each accepted record that is strictly
    /// newer than what its feed holds, or whose feed is unset. A failure
    /// leaves the state as it was.
    pub fn update_price_feeds_internal(
        &mut self,
        update_data: Vec<u8>,
        accepted: bool,
        min_publish_time: u64,
        max_publish_time: u64,
        unique: bool,
    ) -> (r: Result<FeedMap, PythReceiverError>)
        requires
            old(self).wf(),
        ensures
            final(self).wf(),
            final(self).settings() == old(self).settings(),
            never_regresses(old(self).prices(), final(self).prices()),
            match bundle_outcome(
                old(self).prices(),
                old(self).settings().sources,
                update_data@,
                accepted,
                min_publish_time,
                max_publish_time,
                unique,
            ) {
                Ok(m) => r matches Ok(found) && found.wf() && found@ == m && final(self).prices()
                    == applied(old(self).prices(), m),
                Err(e) => r matches Err(x) && x == e && final(self).prices() == old(self).prices(),
            },
    {
        match self.parse_price_feed_updates_internal(
            update_data,
            accepted,
            min_publish_time,
            max_publish_time,
            unique,
        ) {
            Err(e) => Err(e),
            Ok(found) => {
                apply_found(&mut self.prices, &found);
                Ok(found)
            },
        }
    }

    /// Parses a batch of bundles and returns the price data of the feeds
    /// `price_ids`, in their order. `verdicts[i]` is the signature
    /// verifier's answer on the envelope of bundle `i`. With
    /// `store_updates_if_fresh` the accepted records are stored as well. A
    /// failure leaves the state as it was.
    pub fn parse_price_feed_updates_with_config(
        &mut self,
        update_data: Vec<Vec<u8>>,
        verdicts: Vec<bool>,
        price_ids: Vec<[u8; 32]>,
        min_allowed_publish_time: u64,
        max_allowed_publish_time: u64,
        check_uniqueness: bool,
        check_update_data_is_minimal: bool,
        store_updates_if_fresh: bool,
    ) -> (r: Result<Vec<PriceInfo>, PythReceiverError>)
        requires
            old(self).wf(),
        ensures
            final(self).wf(),
            final(self).settings() == old(self).settings(),
            never_regresses(old(self).prices(), final(self).prices()),
            match config_outcome(
                old(self).prices(),
                old(self).settings().sources,
                update_data@,
                verdicts@,
                price_ids@,
                min_allowed_publish_time,
                max_allowed_publish_time,
                check_uniqueness,
                check_update_data_is_minimal,
                store_updates_if_fresh,
            ) {
                Ok((store, prices)) => r matches Ok(v) && v@ == prices && final(self).prices()
                    == store,
                Err(e) => r matches Err(x) && x == e && final(self).prices() == old(self).prices(),
            },
    {
        proof {
            lemma_calls_never_regress(
                self.prices(),
                self.settings(),
                update_data@,
                verdicts@,
                price_ids@,
                Seq::empty(),
                min_allowed_publish_time,
                max_allowed_publish_time,
                check_uniqueness,
                check_update_data_is_minimal,
                store_updates_if_fresh,
                0,
            );
        }
        let batch = match run_batch(
            &self.prices,
            &self.sources,
            &update_data,
            &verdicts,
            min_allowed_publish_time,
            max_allowed_publish_time,
            check_uniqueness,
            store_updates_if_fresh,
        ) {
            Err(e) => {
                return Err(e);
            },
            Ok(b) => b,
        };
        if check_update_data_is_minimal && batch.count != price_ids.len() as u128 {
            return Err(PythReceiverError::InvalidUpdateData);
        }
        match pick_required(&batch.merged, &price_ids) {
            Err(e) => Err(e),
            Ok(prices) => {
                self.prices = batch.store;
                Ok(prices)
            },
        }
    }

    /// Parses one bundle and returns the price data of the feeds
    /// `price_ids`. Nothing is stored.
    pub fn parse_price_feed_updates(
        &mut self,
        update_data: Vec<u8>,
        accepted: bool,
        price_ids: Vec<[u8; 32]>,
        min_publish_time: u64,
        max_publish_time: u64,
    ) -> (r: Result<Vec<PriceInfo>, PythReceiverError>)
        requires
            old(self).wf(),
        ensures
            final(self).wf(),
            final(self).settings() == old(self).settings(),
            final(self).prices() == old(self).prices(),
            match config_outcome(
                old(self).prices(),
                old(self).settings().sources,
                seq![update_data],
                seq![accepted],
                price_ids@,
                min_publish_time,
                max_publish_time,
                false,
                false,
                false,
            ) {
                Ok((store, prices)) => r matches Ok(v) && v@ == prices,
                Err(e) => r matches Err(x) && x == e,
            },
    {
        let mut bundles: Vec<Vec<u8>> = Vec::new();
        bundles.push(update_data);
        let mut verdicts: Vec<bool> = Vec::new();
        verdicts.push(accepted);
        assert(bundles@ =~= seq![update_data]);
        assert(verdicts@ =~= seq![accepted]);
        proof {
            lemma_parse_keeps_store(
                self.prices(),
                self.settings().sources,
                bundles@,
                verdicts@,
                bundles@.len(),
                min_publish_time,
                max_publish_time,
                false,
            );
        }
        self.parse_price_feed_updates_with_config(
            bundles,
            verdicts,
            price_ids,
            min_publish_time,
            max_publish_time,
            false,
            false,
            false,
        )
    }

    /// Parses a batch of bundles with the uniqueness check: a record is
    /// refused where its feed already stores a time that `min_publish_time`
    /// does not exceed. Nothing is stored.
    pub fn parse_price_feed_updates_unique(
        &mut self,
        update_data: Vec<Vec<u8>>,
        verdicts: Vec<bool>,
        price_ids: Vec<[u8; 32]>,
        min_publish_time: u64,
        max_publish_time: u64,
    ) -> (r: Result<Vec<PriceInfo>, PythReceiverError>)
        requires
            old(self).wf(),
        ensures
            final(self).wf(),
            final(self).settings() == old(self).settings(),
            final(self).prices() == old(self).prices(),
            match config_outcome(
                old(self).prices(),
                old(self).settings().sources,
                update_data@,
                verdicts@,
                price_ids@,
                min_publish_time,
                max_publish_time,
                true,
                false,
                false,
            ) {
                Ok((store, prices)) => r matches Ok(v) && v@ == prices,
                Err(e) => r matches Err(x) && x == e,
            },
    {
        proof {
            lemma_parse_keeps_store(
                self.prices(),
                self.settings().sources,
                update_data@,
                verdicts@,
                update_data@.len(),
                min_publish_time,
                max_publish_time,
                true,
            );
        }
        self.parse_price_feed_updates_with_config(
            update_data,
            verdicts,
            price_ids,
            min_publish_time,
            max_publish_time,
            true,
            false,
            false,
        )
    }

    /// Stores the accepted records of a batch of bundles, against a payment
    /// that must cover the fee. `verdicts[i]` is the signature verifier's
    /// answer on the envelope of bundle `i`. A failure leaves the state as
    /// it was.
    pub fn update_price_feeds(
        &mut self,
        update_data: Vec<Vec<u8>>,
        verdicts: Vec<bool>,
        payment: u128,
    ) -> (r: Result<(), PythReceiverError>)
        requires
            old(self).wf(),
        ensures
            final(self).wf(),
            final(self).settings() == old(self).settings(),
            never_regresses(old(self).prices(), final(self).prices()),
            match update_outcome(
                old(self).prices(),
                old(self).settings(),
                update_data@,
                verdicts@,
                payment,
            ) {
                Ok(store) => r is Ok && final(self).prices() == store,
                Err(e) => r matches Err(x) && x == e && final(self).prices() == old(self).prices(),
            },
    {
        proof {
            lemma_calls_never_regress(
                self.prices(),
                self.settings(),
                update_data@,
                verdicts@,
                Seq::empty(),
                Seq::empty(),
                0,
                0,
                false,
                false,
                true,
                payment,
            );
        }
        let batch = match run_batch(
            &self.prices,
            &self.sources,
            &update_data,
            &verdicts,
            0,
            0,
            false,
            true,
        ) {
            Err(e) => {
                return Err(e);
            },
            Ok(b) => b,
        };
        let total_fee = match self.get_update_fee(&update_data) {
            Err(e) => {
                return Err(e);
            },
            Ok(fee) => fee,
        };
        if payment < total_fee {
            return Err(PythReceiverError::InsufficientFee);
        }
        self.prices = batch.store;
        Ok(())
    }

    /// Whether some candidate time is strictly later than what its feed
    /// stores. Only the first `price_ids.len()` pairs are looked at.
    pub fn has_fresher(&self, price_ids: &Vec<[u8; 32]>, publish_times: &Vec<u64>) -> (r: bool)
        requires
            self.wf(),
        ensures
            r == some_fresher(self.prices(), price_ids@, publish_times@),
    {
        let mut i: usize = 0;
        while i < price_ids.len() && i < publish_times.len()
            invariant
                self.wf(),
                forall|j: int|
                    0 <= j < i ==> j < price_ids@.len() && j < publish_times@.len() && stored_time(
                        self.prices(),
                        #[trigger] price_ids@[j]@,
                    ) >= publish_times@[j],
            decreases price_ids@.len() - i,
        {
            let stored = stored_publish_time(&self.prices, &price_ids[i]);
            if (stored as i128) < (publish_times[i] as i128) {
                return true;
            }
            i += 1;
        }
        false
    }

    /// Runs the paid update only if some candidate time is strictly later
    /// than what its feed stores. Otherwise the call ends with
    /// `NoFreshData` before any bundle is looked at, whatever the bundles
    /// and the verdicts are, and the state stays as it was.
    pub fn update_price_feeds_if_necessary(
        &mut self,
        update_data: Vec<Vec<u8>>,
        verdicts: Vec<bool>,
        price_ids: Vec<[u8; 32]>,
        publish_times: Vec<u64>,
        payment: u128,
    ) -> (r: Result<(), PythReceiverError>)
        requires
            old(self).wf(),
        ensures
            final(self).wf(),
            final(self).settings() == old(self).settings(),
            never_regresses(old(self).prices(), final(self).prices()),
            match conditional_outcome(
                old(self).prices(),
                old(self).settings(),
                update_data@,
                verdicts@,
                price_ids@,
                publish_times@,
                payment,
            ) {
                Ok(store) => r is Ok && final(self).prices() == store,
                Err(e) => r matches Err(x) && x == e && final(self).prices() == old(self).prices(),
            },
            price_ids@.len() == publish_times@.len() && price_ids@.len() > 0 && !some_fresher(
                old(self).prices(),
                price_ids@,
                publish_times@,
            ) ==> (r matches Err(x) && x == PythReceiverError::NoFreshData) && final(self).prices()
                == old(self).prices(),
    {
        if price_ids.len() != publish_times.len() || price_ids.len() == 0 {
            return Err(PythReceiverError::InvalidUpdateData);
        }
        if self.has_fresher(&price_ids, &publish_times) {
            self.update_price_feeds(update_data, verdicts, payment)
        } else {
            Err(PythReceiverError::NoFreshData)
        }
    }
}

/// A batch that is parsed without storing leaves the store as it was.
pub proof fn lemma_parse_keeps_store(
    store: Map<Seq<u8>, PriceInfo>,
    sources: Seq<DataSource>,
    bundles: Seq<Vec<u8>>,
    verdicts: Seq<bool>,
    n: nat,
    min: u64,
    max: u64,
    unique: bool,
)
    ensures
        batch_outcome(store, sources, bundles, verdicts, n, min, max, unique, false) matches Ok(st)
            ==> st.store == store,
    decreases n,
{
    if n > 0 {
        lemma_parse_keeps_store(store, sources, bundles, verdicts, (n - 1) as nat, min, max, unique);
    }
}

} // verus!
