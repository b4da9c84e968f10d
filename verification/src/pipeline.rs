use vstd::prelude::*;
use crate::feed_map::{
    distinct_feeds, entries_map, feed_index, has_feed, lemma_map_size, lemma_push_entry, FeedMap,
};
use crate::types::{
    same_bytes, DataSource, FeedPrice, PriceFeedMessage, PriceInfo, ProvenRecord,
    PythReceiverError, RecordView, UpdateBundle,
};
use crate::wire::{
    authenticate, authenticated, bundle_of, check_inclusion, decode_bundle, decode_message,
    has_magic, merkle_accepts, message_of, AttestedView,
};

verus! {

/// The publish time stored for feed `id`: 0 where the feed is unset.
pub open spec fn stored_time(store: Map<Seq<u8>, PriceInfo>, id: Seq<u8>) -> int {
    if store.contains_key(id) {
        store[id].publish_time as int
    } else {
        0
    }
}

/// Whether `(chain, address)` is one of the authorized sources.
pub open spec fn listed(sources: Seq<DataSource>, chain: u16, address: Seq<u8>) -> bool {
    exists|i: int|
        0 <= i < sources.len() && (#[trigger] sources[i]).chain_id == chain
            && sources[i].emitter_address@ == address
}

/// The freshness filter. A record passes unless it was published before
/// `min` (where `min > 0`), after `max` (where `max > 0`), or, where
/// uniqueness is asked for, the feed already stores a time that `min` does
/// not exceed.
pub open spec fn admitted(publish_time: int, stored: int, min: int, max: int, unique: bool) -> bool {
    &&& !(min > 0 && publish_time < min)
    &&& !(max > 0 && publish_time > max)
    &&& !(unique && stored > 0 && min <= stored)
}

/// Applies the freshness filter to one record's publish time, given the
/// time stored for its feed.
pub fn check_window(publish_time: i64, stored: i64, min: u64, max: u64, unique: bool) -> (r: Result<
    (),
    PythReceiverError,
>)
    ensures
        r == (if admitted(publish_time as int, stored as int, min as int, max as int, unique) {
            Ok::<(), PythReceiverError>(())
        } else {
            Err::<(), PythReceiverError>(PythReceiverError::OutOfRange)
        }),
{
    if min > 0 && (publish_time as i128) < (min as i128) {
        return Err(PythReceiverError::OutOfRange);
    }
    if max > 0 && (publish_time as i128) > (max as i128) {
        return Err(PythReceiverError::OutOfRange);
    }
    if unique && stored > 0 && (min as i128) <= (stored as i128) {
        return Err(PythReceiverError::OutOfRange);
    }
    Ok(())
}

/// What a decoded price-feed message yields: its price data, if it passes
/// the freshness filter against the time stored for its feed.
pub open spec fn message_outcome(
    store: Map<Seq<u8>, PriceInfo>,
    m: PriceFeedMessage,
    min: u64,
    max: u64,
    unique: bool,
) -> Result<FeedPrice, PythReceiverError> {
    if admitted(
        m.publish_time as int,
        stored_time(store, m.feed_id@),
        min as int,
        max as int,
        unique,
    ) {
        Ok(FeedPrice { feed_id: m.feed_id, info: m.info() })
    } else {
        Err(PythReceiverError::OutOfRange)
    }
}

/// What one record of a bundle yields: its Merkle proof is checked against
/// the attested root, its leaf decoded, and the freshness filter applied.
pub open spec fn record_outcome(
    store: Map<Seq<u8>, PriceInfo>,
    root: Seq<u8>,
    record: RecordView,
    min: u64,
    max: u64,
    unique: bool,
) -> Result<FeedPrice, PythReceiverError> {
    if !merkle_accepts(root, record.leaf, record.path) {
        Err(PythReceiverError::InvalidMerkleProof)
    } else {
        match message_of(record.leaf) {
            Err(e) => Err(e),
            Ok(m) => message_outcome(store, m, min, max, unique),
        }
    }
}

/// What the first `n` records of a bundle yield: the first failure, or the
/// accepted price data by feed, a later record of a feed replacing an
/// earlier one.
pub open spec fn records_outcome(
    store: Map<Seq<u8>, PriceInfo>,
    root: Seq<u8>,
    records: Seq<RecordView>,
    n: nat,
    min: u64,
    max: u64,
    unique: bool,
) -> Result<Map<Seq<u8>, PriceInfo>, PythReceiverError>
    decreases n,
{
    if n == 0 {
        Ok(Map::empty())
    } else {
        match records_outcome(store, root, records, (n - 1) as nat, min, max, unique) {
            Err(e) => Err(e),
            Ok(acc) => match record_outcome(store, root, records[n - 1], min, max, unique) {
                Err(e) => Err(e),
                Ok(p) => Ok(acc.insert(p.feed_id@, p.info)),
            },
        }
    }
}

/// A failure among the first records is the failure of the whole list.
pub proof fn lemma_records_failure_stays(
    store: Map<Seq<u8>, PriceInfo>,
    root: Seq<u8>,
    records: Seq<RecordView>,
    n: nat,
    m: nat,
    min: u64,
    max: u64,
    unique: bool,
)
    requires
        n <= m,
        records_outcome(store, root, records, n, min, max, unique) is Err,
    ensures
        records_outcome(store, root, records, m, min, max, unique) == records_outcome(
            store,
            root,
            records,
            n,
            min,
            max,
            unique,
        ),
    decreases m,
{
    if n < m {
        lemma_records_failure_stays(store, root, records, n, (m - 1) as nat, min, max, unique);
    }
}

/// What one bundle yields, given the signature verifier's answer on its
/// envelope: the bundle is decoded, the envelope authenticated, the emitter
/// looked up among the authorized sources, and every record processed.
pub open spec fn bundle_outcome(
    store: Map<Seq<u8>, PriceInfo>,
    sources: Seq<DataSource>,
    bytes: Seq<u8>,
    accepted: bool,
    min: u64,
    max: u64,
    unique: bool,
) -> Result<Map<Seq<u8>, PriceInfo>, PythReceiverError> {
    match bundle_of(bytes) {
        None => Err(PythReceiverError::MalformedData),
        Some(b) => match authenticated(b.envelope, accepted) {
            Err(e) => Err(e),
            Ok(a) => if !listed(sources, a.emitter_chain, a.emitter_address) {
                Err(PythReceiverError::UnauthorizedSource)
            } else {
                records_outcome(store, a.root, b.records, b.records.len(), min, max, unique)
            },
        },
    }
}

/// Whether `(chain, address)` is one of the authorized sources. The match is
/// exact, on the chain and on all 32 bytes of the address.
pub fn authorize(sources: &Vec<DataSource>, chain: u16, address: &[u8; 32]) -> (r: Result<
    (),
    PythReceiverError,
>)
    ensures
        r == (if listed(sources@, chain, address@) {
            Ok::<(), PythReceiverError>(())
        } else {
            Err::<(), PythReceiverError>(PythReceiverError::UnauthorizedSource)
        }),
{
    let mut i: usize = 0;
    while i < sources.len()
        invariant
            i <= sources@.len(),
            forall|j: int|
                0 <= j < i ==> !((#[trigger] sources@[j]).chain_id == chain
                    && sources@[j].emitter_address@ == address@),
        decreases sources@.len() - i,
    {
        if sources[i].chain_id == chain && same_bytes(&sources[i].emitter_address, address) {
            return Ok(());
        }
        i += 1;
    }
    Err(PythReceiverError::UnauthorizedSource)
}

/// The time stored for feed `id`, 0 where the feed is unset.
pub fn stored_publish_time(store: &FeedMap, id: &[u8; 32]) -> (t: i64)
    requires
        store.wf(),
    ensures
        t == stored_time(store@, id@),
{
    match store.get(id) {
        Some(info) => info.publish_time,
        None => 0,
    }
}

/// Applies the freshness filter to a decoded price-feed message and hands
/// out its price data.
pub fn admit_message(
    store: &FeedMap,
    m: &PriceFeedMessage,
    min: u64,
    max: u64,
    unique: bool,
) -> (r: Result<FeedPrice, PythReceiverError>)
    requires
        store.wf(),
    ensures
        r == message_outcome(store@, *m, min, max, unique),
{
    let stored = stored_publish_time(store, &m.feed_id);
    match check_window(m.publish_time, stored, min, max, unique) {
        Err(e) => Err(e),
        Ok(()) => Ok(
            FeedPrice {
                feed_id: m.feed_id,
                info: PriceInfo {
                    publish_time: m.publish_time,
                    expo: m.exponent,
                    price: m.price,
                    conf: m.conf,
                    ema_price: m.ema_price,
                    ema_conf: m.ema_conf,
                },
            },
        ),
    }
}

/// Processes one record of a bundle against the attested root.
pub fn parse_record(
    store: &FeedMap,
    root: &[u8; 20],
    record: &ProvenRecord,
    min: u64,
    max: u64,
    unique: bool,
) -> (r: Result<FeedPrice, PythReceiverError>)
    requires
        store.wf(),
    ensures
        r == record_outcome(store@, root@, record@, min, max, unique),
{
    if !check_inclusion(root, record) {
        return Err(PythReceiverError::InvalidMerkleProof);
    }
    match decode_message(&record.leaf) {
        Err(e) => Err(e),
        Ok(m) => admit_message(store, &m, min, max, unique),
    }
}

/// Processes one bundle. `accepted` is the signature verifier's answer on
/// the bundle's envelope. Nothing is stored; the first failure ends the
/// call.
pub fn parse_bundle(
    store: &FeedMap,
    sources: &Vec<DataSource>,
    bytes: &Vec<u8>,
    accepted: bool,
    min: u64,
    max: u64,
    unique: bool,
) -> (r: Result<FeedMap, PythReceiverError>)
    requires
        store.wf(),
    ensures
        match bundle_outcome(store@, sources@, bytes@, accepted, min, max, unique) {
            Ok(m) => r matches Ok(found) && found.wf() && found@ == m,
            Err(e) => r matches Err(x) && x == e,
        },
        !has_magic(bytes@) ==> (r matches Err(x) && x == PythReceiverError::MalformedData),
{
    let bundle: UpdateBundle = match decode_bundle(bytes) {
        Err(e) => {
            return Err(e);
        },
        Ok(b) => b,
    };
    let attested = match authenticate(&bundle.envelope, accepted) {
        Err(e) => {
            return Err(e);
        },
        Ok(a) => a,
    };
    match authorize(sources, attested.emitter_chain, &attested.emitter_address) {
        Err(e) => {
            return Err(e);
        },
        Ok(()) => {},
    }
    let ghost records = bundle@.records;
    let mut found = FeedMap::new();
    let mut i: usize = 0;
    while i < bundle.records.len()
        invariant
            store.wf(),
            found.wf(),
            i <= bundle.records@.len(),
            records == bundle@.records,
            records.len() == bundle.records@.len(),
            bundle_of(bytes@) == Some(bundle@),
            authenticated(bundle@.envelope, accepted) == Ok::<
                AttestedView,
                PythReceiverError,
            >(attested@),
            listed(sources@, attested.emitter_chain, attested.emitter_address@),
            records_outcome(store@, attested.root@, records, i as nat, min, max, unique) == Ok::<
                Map<Seq<u8>, PriceInfo>,
                PythReceiverError,
            >(found@),
        decreases bundle.records@.len() - i,
    {
        assert(records[i as int] == bundle.records@[i as int]@);
        match parse_record(store, &attested.root, &bundle.records[i], min, max, unique) {
            Err(e) => {
                proof {
                    lemma_records_failure_stays(
                        store@,
                        attested.root@,
                        records,
                        (i + 1) as nat,
                        records.len(),
                        min,
                        max,
                        unique,
                    );
                }
                return Err(e);
            },
            Ok(p) => {
                found.insert(p.feed_id, p.info);
            },
        }
        i += 1;
    }
    Ok(found)
}

/// The store after the accepted records `found` were applied to it: a feed's
/// slot is replaced where it was unset or the record is strictly newer, and
/// kept otherwise.
pub open spec fn applied(store: Map<Seq<u8>, PriceInfo>, found: Map<Seq<u8>, PriceInfo>) -> Map<
    Seq<u8>,
    PriceInfo,
> {
    Map::new(
        |id: Seq<u8>| store.contains_key(id) || found.contains_key(id),
        |id: Seq<u8>|
            if found.contains_key(id) && (!store.contains_key(id) || found[id].publish_time
                > store[id].publish_time) {
                found[id]
            } else {
                store[id]
            },
    )
}

/// No feed that was set is lost, and none has moved back in time.
pub open spec fn never_regresses(
    before: Map<Seq<u8>, PriceInfo>,
    after: Map<Seq<u8>, PriceInfo>,
) -> bool {
    forall|id: Seq<u8>| #[trigger]
        before.contains_key(id) ==> after.contains_key(id) && after[id].publish_time
            >= before[id].publish_time
}

/// Stores the accepted records `found`, each only where it is strictly
/// newer than what its feed holds or the feed is unset.
pub fn apply_found(store: &mut FeedMap, found: &FeedMap)
    requires
        old(store).wf(),
        found.wf(),
    ensures
        final(store).wf(),
        final(store)@ == applied(old(store)@, found@),
        never_regresses(old(store)@, final(store)@),
{
    let ghost before = store@;
    let ghost entries = found.entries();
    proof {
        found.lemma_view();
        assert(entries.subrange(0, 0) =~= Seq::<FeedPrice>::empty());
        assert(entries_map(entries.subrange(0, 0)) =~= Map::<Seq<u8>, PriceInfo>::empty());
        assert(store@ =~= applied(before, entries_map(entries.subrange(0, 0))));
    }
    let mut i: usize = 0;
    while i < found.len()
        invariant
            store.wf(),
            found.wf(),
            entries == found.entries(),
            distinct_feeds(entries),
            i <= entries.len(),
            store@ == applied(before, entries_map(entries.subrange(0, i as int))),
        decreases entries.len() - i,
    {
        let e = found.entry(i);
        proof {
            lemma_prefix_step(entries, i as int);
        }
        let ghost seen = entries_map(entries.subrange(0, i as int));
        let replace = match store.get(&e.feed_id) {
            None => true,
            Some(held) => e.info.publish_time > held.publish_time,
        };
        if replace {
            store.insert(e.feed_id, e.info);
        }
        proof {
            assert(store@ =~= applied(before, seen.insert(e.feed_id@, e.info)));
        }
        i += 1;
    }
    proof {
        assert(entries.subrange(0, i as int) =~= entries);
    }
}

/// One more entry of a list with distinct feed ids adds its feed to the map
/// of the entries before it.
pub proof fn lemma_prefix_step(entries: Seq<FeedPrice>, i: int)
    requires
        distinct_feeds(entries),
        0 <= i < entries.len(),
    ensures
        !entries_map(entries.subrange(0, i)).contains_key(entries[i].feed_id@),
        entries_map(entries.subrange(0, i + 1)) == entries_map(entries.subrange(0, i)).insert(
            entries[i].feed_id@,
            entries[i].info,
        ),
{
    let head = entries.subrange(0, i);
    assert forall|a: int, b: int| 0 <= a < b < head.len() implies (#[trigger] head[a]).feed_id@
        != (#[trigger] head[b]).feed_id@ by {
        assert(entries[a].feed_id@ != entries[b].feed_id@);
    }
    if has_feed(head, entries[i].feed_id@) {
        let j = feed_index(head, entries[i].feed_id@);
        assert(entries[j].feed_id@ != entries[i].feed_id@);
    }
    assert(entries.subrange(0, i + 1) =~= head.push(entries[i]));
    lemma_push_entry(head, entries[i]);
}

/// Adds the accepted records `found` to `merged`, keeping what `merged`
/// already holds for a feed: the record met first wins.
pub fn merge_found(merged: &mut FeedMap, found: &FeedMap)
    requires
        old(merged).wf(),
        found.wf(),
    ensures
        final(merged).wf(),
        final(merged)@ == found@.union_prefer_right(old(merged)@),
{
    let ghost before = merged@;
    let ghost entries = found.entries();
    proof {
        found.lemma_view();
        assert(entries.subrange(0, 0) =~= Seq::<FeedPrice>::empty());
        assert(entries_map(entries.subrange(0, 0)) =~= Map::<Seq<u8>, PriceInfo>::empty());
        assert(merged@ =~= entries_map(entries.subrange(0, 0)).union_prefer_right(before));
    }
    let mut i: usize = 0;
    while i < found.len()
        invariant
            merged.wf(),
            found.wf(),
            entries == found.entries(),
            distinct_feeds(entries),
            i <= entries.len(),
            merged@ == entries_map(entries.subrange(0, i as int)).union_prefer_right(before),
        decreases entries.len() - i,
    {
        let e = found.entry(i);
        proof {
            lemma_prefix_step(entries, i as int);
        }
        let ghost seen = entries_map(entries.subrange(0, i as int));
        if merged.get(&e.feed_id).is_none() {
            merged.insert(e.feed_id, e.info);
        }
        proof {
            assert(merged@ =~= seen.insert(e.feed_id@, e.info).union_prefer_right(before));
        }
        i += 1;
    }
    proof {
        assert(entries.subrange(0, i as int) =~= entries);
    }
}

/// The signature verifier's answer on the envelope of bundle `i`; a bundle
/// without an answer counts as rejected.
pub open spec fn verdict_at(verdicts: Seq<bool>, i: int) -> bool {
    0 <= i < verdicts.len() && verdicts[i]
}

/// Where a batch of bundles stands: the store, the accepted price data by
/// feed (first met wins), and how many feeds the bundles yielded in total.
pub ghost struct BatchState {
    pub store: Map<Seq<u8>, PriceInfo>,
    pub merged: Map<Seq<u8>, PriceInfo>,
    pub count: nat,
}

/// What the first `n` bundles yield, processed in order. Each bundle sees
/// the store as the bundles before it left it; with `persist` its accepted
/// records are applied to the store.
pub open spec fn batch_outcome(
    store: Map<Seq<u8>, PriceInfo>,
    sources: Seq<DataSource>,
    bundles: Seq<Vec<u8>>,
    verdicts: Seq<bool>,
    n: nat,
    min: u64,
    max: u64,
    unique: bool,
    persist: bool,
) -> Result<BatchState, PythReceiverError>
    decreases n,
{
    if n == 0 {
        Ok(BatchState { store, merged: Map::empty(), count: 0 })
    } else {
        match batch_outcome(
            store,
            sources,
            bundles,
            verdicts,
            (n - 1) as nat,
            min,
            max,
            unique,
            persist,
        ) {
            Err(e) => Err(e),
            Ok(st) => match bundle_outcome(
                st.store,
                sources,
                bundles[n - 1]@,
                verdict_at(verdicts, n - 1),
                min,
                max,
                unique,
            ) {
                Err(e) => Err(e),
                Ok(found) => Ok(
                    BatchState {
                        store: if persist {
                            applied(st.store, found)
                        } else {
                            st.store
                        },
                        merged: found.union_prefer_right(st.merged),
                        count: st.count + found.dom().len(),
                    },
                ),
            },
        }
    }
}

/// A failure among the first bundles is the failure of the whole batch.
pub proof fn lemma_batch_failure_stays(
    store: Map<Seq<u8>, PriceInfo>,
    sources: Seq<DataSource>,
    bundles: Seq<Vec<u8>>,
    verdicts: Seq<bool>,
    n: nat,
    m: nat,
    min: u64,
    max: u64,
    unique: bool,
    persist: bool,
)
    requires
        n <= m,
        batch_outcome(store, sources, bundles, verdicts, n, min, max, unique, persist) is Err,
    ensures
        batch_outcome(store, sources, bundles, verdicts, m, min, max, unique, persist)
            == batch_outcome(store, sources, bundles, verdicts, n, min, max, unique, persist),
    decreases m,
{
    if n < m {
        lemma_batch_failure_stays(
            store,
            sources,
            bundles,
            verdicts,
            n,
            (m - 1) as nat,
            min,
            max,
            unique,
            persist,
        );
    }
}

/// What a batch of bundles yielded.
pub struct Batch {
    pub store: FeedMap,
    pub merged: FeedMap,
    pub count: u128,
}

/// Processes a batch of bundles in order, on a copy of `store`.
/// `verdicts[i]` is the signature verifier's answer on the envelope of
/// bundle `i`. The first failure ends the call.
pub fn run_batch(
    store: &FeedMap,
    sources: &Vec<DataSource>,
    bundles: &Vec<Vec<u8>>,
    verdicts: &Vec<bool>,
    min: u64,
    max: u64,
    unique: bool,
    persist: bool,
) -> (r: Result<Batch, PythReceiverError>)
    requires
        store.wf(),
    ensures
        match batch_outcome(
            store@,
            sources@,
            bundles@,
            verdicts@,
            bundles@.len(),
            min,
            max,
            unique,
            persist,
        ) {
            Ok(st) => r matches Ok(b) && b.store.wf() && b.merged.wf() && b.store@ == st.store
                && b.merged@ == st.merged && b.count == st.count,
            Err(e) => r matches Err(x) && x == e,
        },
{
    let mut work = store.copy();
    let mut merged = FeedMap::new();
    let mut count: u128 = 0;
    let mut i: usize = 0;
    while i < bundles.len()
        invariant
            work.wf(),
            merged.wf(),
            i <= bundles@.len(),
            count <= i * 0xffff_ffff_ffff_ffff,
            batch_outcome(
                store@,
                sources@,
                bundles@,
                verdicts@,
                i as nat,
                min,
                max,
                unique,
                persist,
            ) == Ok::<BatchState, PythReceiverError>(
                BatchState { store: work@, merged: merged@, count: count as nat },
            ),
        decreases bundles@.len() - i,
    {
        let accepted = i < verdicts.len() && verdicts[i];
        match parse_bundle(&work, sources, &bundles[i], accepted, min, max, unique) {
            Err(e) => {
                proof {
                    lemma_batch_failure_stays(
                        store@,
                        sources@,
                        bundles@,
                        verdicts@,
                        (i + 1) as nat,
                        bundles@.len(),
                        min,
                        max,
                        unique,
                        persist,
                    );
                }
                return Err(e);
            },
            Ok(found) => {
                proof {
                    found.lemma_view();
                    lemma_map_size(found.entries());
                }
                if persist {
                    apply_found(&mut work, &found);
                }
                merge_found(&mut merged, &found);
                count = count + found.len() as u128;
            },
        }
        i += 1;
    }
    Ok(Batch { store: work, merged, count })
}

/// The price data of the required feeds, in the order of `ids`; a feed
/// that the batch did not yield is `PriceFeedNotFound`.
pub open spec fn required_prices(merged: Map<Seq<u8>, PriceInfo>, ids: Seq<[u8; 32]>) -> Result<
    Seq<PriceInfo>,
    PythReceiverError,
> {
    if forall|i: int| 0 <= i < ids.len() ==> merged.contains_key(#[trigger] ids[i]@) {
        Ok(Seq::new(ids.len(), |i: int| merged[ids[i]@]))
    } else {
        Err(PythReceiverError::PriceFeedNotFound)
    }
}

/// Picks the price data of the required feeds out of what a batch yielded.
pub fn pick_required(merged: &FeedMap, ids: &Vec<[u8; 32]>) -> (r: Result<
    Vec<PriceInfo>,
    PythReceiverError,
>)
    requires
        merged.wf(),
    ensures
        match required_prices(merged@, ids@) {
            Ok(p) => r matches Ok(v) && v@ == p,
            Err(e) => r matches Err(x) && x == e,
        },
{
    let mut out: Vec<PriceInfo> = Vec::new();
    let mut i: usize = 0;
    while i < ids.len()
        invariant
            merged.wf(),
            i <= ids@.len(),
            out@.len() == i,
            forall|j: int| 0 <= j < i ==> merged@.contains_key(#[trigger] ids@[j]@),
            forall|j: int| 0 <= j < i ==> out@[j] == merged@[ids@[j]@],
        decreases ids@.len() - i,
    {
        match merged.get(&ids[i]) {
            None => {
                return Err(PythReceiverError::PriceFeedNotFound);
            },
            Some(info) => {
                out.push(info);
            },
        }
        i += 1;
    }
    assert(out@ =~= Seq::new(ids@.len(), |i: int| merged@[ids@[i]@]));
    Ok(out)
}

/// The feeds that the first `n` records name: the feed id of every leaf
/// that decodes to a price-feed message, in the order of the records.
/// Nothing is verified.
pub open spec fn named_feeds_upto(records: Seq<RecordView>, n: nat) -> Seq<[u8; 32]>
    decreases n,
{
    if n == 0 {
        Seq::empty()
    } else {
        let before = named_feeds_upto(records, (n - 1) as nat);
        match message_of(records[n - 1].leaf) {
            Ok(m) => before.push(m.feed_id),
            Err(_) => before,
        }
    }
}

/// The feeds that a bundle names; none where the bundle does not decode.
pub open spec fn named_feeds(bytes: Seq<u8>) -> Seq<[u8; 32]> {
    match bundle_of(bytes) {
        None => Seq::empty(),
        Some(b) => named_feeds_upto(b.records, b.records.len()),
    }
}

/// The feeds that a bundle names, read without verifying anything: these
/// are the slots of the store that processing the bundle can read or write.
pub fn feeds_named_in(bytes: &Vec<u8>) -> (r: Vec<[u8; 32]>)
    ensures
        r@ == named_feeds(bytes@),
{
    let mut out: Vec<[u8; 32]> = Vec::new();
    let bundle = match decode_bundle(bytes) {
        Err(_) => {
            return out;
        },
        Ok(b) => b,
    };
    let ghost records = bundle@.records;
    let mut i: usize = 0;
    while i < bundle.records.len()
        invariant
            i <= bundle.records@.len(),
            records == bundle@.records,
            records.len() == bundle.records@.len(),
            out@ == named_feeds_upto(records, i as nat),
        decreases bundle.records@.len() - i,
    {
        assert(records[i as int] == bundle.records@[i as int]@);
        match decode_message(&bundle.records[i].leaf) {
            Ok(m) => {
                out.push(m.feed_id);
            },
            Err(_) => {},
        }
        i += 1;
    }
    out
}

} // verus!
