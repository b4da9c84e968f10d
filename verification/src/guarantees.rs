use vstd::prelude::*;
use crate::pipeline::{
    applied, batch_outcome, bundle_outcome, lemma_batch_failure_stays, listed, never_regresses,
    BatchState,
};
use crate::receiver::{
    conditional_outcome, config_outcome, fee_outcome, lemma_total_failure_stays, some_fresher,
    total_updates, update_outcome, Settings,
};
use crate::types::{DataSource, PriceInfo, PythReceiverError};
use crate::wire::{bundle_of, has_magic, wire_commitment, wire_envelope};

verus! {

/// Storing never moves a feed back in time: a feed that is set stays set,
/// and its publish time afterwards is the later of the stored one and the
/// record's.
pub proof fn lemma_store_is_monotonic(
    store: Map<Seq<u8>, PriceInfo>,
    found: Map<Seq<u8>, PriceInfo>,
    id: Seq<u8>,
)
    requires
        store.contains_key(id),
    ensures
        applied(store, found).contains_key(id),
        applied(store, found)[id].publish_time >= store[id].publish_time,
        found.contains_key(id) ==> applied(store, found)[id].publish_time
            >= found[id].publish_time,
        applied(store, found)[id].publish_time == store[id].publish_time || (found.contains_key(id)
            && applied(store, found)[id].publish_time == found[id].publish_time),
        found.contains_key(id) && found[id].publish_time <= store[id].publish_time ==> applied(
            store,
            found,
        )[id] == store[id],
{
}

/// Storing the same records a second time changes nothing.
pub proof fn lemma_store_is_idempotent(
    store: Map<Seq<u8>, PriceInfo>,
    found: Map<Seq<u8>, PriceInfo>,
)
    ensures
        applied(applied(store, found), found) == applied(store, found),
{
    assert(applied(applied(store, found), found) =~= applied(store, found));
}

/// Over a whole batch, whether it stores or not, a feed that is set stays
/// set and its publish time does not decrease.
pub proof fn lemma_batch_is_monotonic(
    store: Map<Seq<u8>, PriceInfo>,
    sources: Seq<DataSource>,
    bundles: Seq<Vec<u8>>,
    verdicts: Seq<bool>,
    n: nat,
    min: u64,
    max: u64,
    unique: bool,
    persist: bool,
    id: Seq<u8>,
)
    requires
        store.contains_key(id),
    ensures
        batch_outcome(store, sources, bundles, verdicts, n, min, max, unique, persist) matches Ok(
            st,
        ) ==> st.store.contains_key(id) && st.store[id].publish_time >= store[id].publish_time,
    decreases n,
{
    if n > 0 {
        lemma_batch_is_monotonic(
            store,
            sources,
            bundles,
            verdicts,
            (n - 1) as nat,
            min,
            max,
            unique,
            persist,
            id,
        );
    }
}

/// A batch, whether it stores or not, loses no feed and moves none back in
/// time.
pub proof fn lemma_batch_never_regresses(
    store: Map<Seq<u8>, PriceInfo>,
    sources: Seq<DataSource>,
    bundles: Seq<Vec<u8>>,
    verdicts: Seq<bool>,
    n: nat,
    min: u64,
    max: u64,
    unique: bool,
    persist: bool,
)
    ensures
        batch_outcome(store, sources, bundles, verdicts, n, min, max, unique, persist) matches Ok(
            st,
        ) ==> never_regresses(store, st.store),
{
    assert forall|id: Seq<u8>| #[trigger] store.contains_key(id) implies (batch_outcome(
        store,
        sources,
        bundles,
        verdicts,
        n,
        min,
        max,
        unique,
        persist,
    ) matches Ok(st) ==> st.store.contains_key(id) && st.store[id].publish_time
        >= store[id].publish_time) by {
        lemma_batch_is_monotonic(store, sources, bundles, verdicts, n, min, max, unique, persist, id);
    }
}

/// Whatever a parse with or without storing, a paid update or a
/// conditional update leaves in the store, no feed is lost and none has
/// moved back in time.
pub proof fn lemma_calls_never_regress(
    store: Map<Seq<u8>, PriceInfo>,
    settings: Settings,
    bundles: Seq<Vec<u8>>,
    verdicts: Seq<bool>,
    ids: Seq<[u8; 32]>,
    times: Seq<u64>,
    min: u64,
    max: u64,
    unique: bool,
    exact: bool,
    persist: bool,
    payment: u128,
)
    ensures
        config_outcome(
            store,
            settings.sources,
            bundles,
            verdicts,
            ids,
            min,
            max,
            unique,
            exact,
            persist,
        ) matches Ok(out) ==> never_regresses(store, out.0),
        update_outcome(store, settings, bundles, verdicts, payment) matches Ok(after)
            ==> never_regresses(store, after),
        conditional_outcome(store, settings, bundles, verdicts, ids, times, payment) matches Ok(
            after,
        ) ==> never_regresses(store, after),
{
    lemma_batch_never_regresses(
        store,
        settings.sources,
        bundles,
        verdicts,
        bundles.len(),
        min,
        max,
        unique,
        persist,
    );
    lemma_batch_never_regresses(
        store,
        settings.sources,
        bundles,
        verdicts,
        bundles.len(),
        0,
        0,
        false,
        true,
    );
}

/// Among the bundles of one call the record met first wins: what a feed
/// has after the first `n` bundles, it has after any more.
pub proof fn lemma_first_record_wins(
    store: Map<Seq<u8>, PriceInfo>,
    sources: Seq<DataSource>,
    bundles: Seq<Vec<u8>>,
    verdicts: Seq<bool>,
    n: nat,
    m: nat,
    min: u64,
    max: u64,
    unique: bool,
    persist: bool,
    id: Seq<u8>,
)
    requires
        n <= m,
        batch_outcome(store, sources, bundles, verdicts, n, min, max, unique, persist) matches Ok(
            early,
        ) && early.merged.contains_key(id),
    ensures
        batch_outcome(store, sources, bundles, verdicts, m, min, max, unique, persist) matches Ok(
            late,
        ) ==> late.merged.contains_key(id) && late.merged[id] == batch_outcome(
            store,
            sources,
            bundles,
            verdicts,
            n,
            min,
            max,
            unique,
            persist,
        ).unwrap().merged[id],
    decreases m,
{
    if n < m {
        lemma_first_record_wins(
            store,
            sources,
            bundles,
            verdicts,
            n,
            (m - 1) as nat,
            min,
            max,
            unique,
            persist,
            id,
        );
    }
}

/// A bundle whose envelope decodes but names an emitter that is not an
/// authorized source is rejected, whatever the store, the filter and the
/// Merkle proofs of its records are. Where the verifier accepted the
/// envelope and its payload is a Merkle commitment, the error is
/// `UnauthorizedSource`.
pub proof fn lemma_unlisted_source_rejected(
    store: Map<Seq<u8>, PriceInfo>,
    sources: Seq<DataSource>,
    bytes: Seq<u8>,
    accepted: bool,
    min: u64,
    max: u64,
    unique: bool,
)
    requires
        bundle_of(bytes) matches Some(b) && (wire_envelope(b.envelope) matches Some(e)
            && !listed(sources, e.emitter_chain, e.emitter_address)),
    ensures
        bundle_outcome(store, sources, bytes, accepted, min, max, unique) is Err,
        accepted && wire_commitment(wire_envelope(bundle_of(bytes).unwrap().envelope).unwrap().payload)
            is Some ==> bundle_outcome(store, sources, bytes, accepted, min, max, unique) == Err::<
            Map<Seq<u8>, PriceInfo>,
            PythReceiverError,
        >(PythReceiverError::UnauthorizedSource),
{
}

/// A batch that holds a bundle from an emitter that is not authorized
/// fails as a whole.
pub proof fn lemma_batch_rejects_unlisted_source(
    store: Map<Seq<u8>, PriceInfo>,
    sources: Seq<DataSource>,
    bundles: Seq<Vec<u8>>,
    verdicts: Seq<bool>,
    i: int,
    min: u64,
    max: u64,
    unique: bool,
    persist: bool,
)
    requires
        0 <= i < bundles.len(),
        bundle_of(bundles[i]@) matches Some(b) && (wire_envelope(b.envelope) matches Some(e)
            && !listed(sources, e.emitter_chain, e.emitter_address)),
    ensures
        batch_outcome(
            store,
            sources,
            bundles,
            verdicts,
            bundles.len(),
            min,
            max,
            unique,
            persist,
        ) is Err,
{
    let upto = batch_outcome(store, sources, bundles, verdicts, (i + 1) as nat, min, max, unique, persist);
    assert(upto is Err);
    lemma_batch_failure_stays(
        store,
        sources,
        bundles,
        verdicts,
        (i + 1) as nat,
        bundles.len(),
        min,
        max,
        unique,
        persist,
    );
}

/// Input that is shorter than the magic or does not open with it is
/// malformed to every entry point that decodes a bundle: to the decoder,
/// to the processing of one bundle, and to the fee.
pub proof fn lemma_missing_magic_is_malformed(
    store: Map<Seq<u8>, PriceInfo>,
    sources: Seq<DataSource>,
    bytes: Seq<u8>,
    accepted: bool,
    min: u64,
    max: u64,
    unique: bool,
)
    requires
        !has_magic(bytes),
    ensures
        bytes.len() < 4 ==> !has_magic(bytes),
        bundle_of(bytes) is None,
        bundle_outcome(store, sources, bytes, accepted, min, max, unique) == Err::<
            Map<Seq<u8>, PriceInfo>,
            PythReceiverError,
        >(PythReceiverError::MalformedData),
{
}

/// A list of bundles one of which lacks the magic has no fee: asking for it
/// is `MalformedData`.
pub proof fn lemma_fee_needs_magic(bundles: Seq<Vec<u8>>, i: int, rate: u64, surcharge: u64)
    requires
        0 <= i < bundles.len(),
        !has_magic(bundles[i]@),
    ensures
        fee_outcome(bundles, rate, surcharge) == Err::<u128, PythReceiverError>(
            PythReceiverError::MalformedData,
        ),
{
    assert(total_updates(bundles, (i + 1) as nat) is None);
    lemma_total_failure_stays(bundles, (i + 1) as nat, bundles.len());
}

/// A batch whose first bundle lacks the magic is `MalformedData`.
pub proof fn lemma_batch_needs_magic(
    store: Map<Seq<u8>, PriceInfo>,
    sources: Seq<DataSource>,
    bundles: Seq<Vec<u8>>,
    verdicts: Seq<bool>,
    min: u64,
    max: u64,
    unique: bool,
    persist: bool,
)
    requires
        bundles.len() > 0,
        !has_magic(bundles[0]@),
    ensures
        batch_outcome(store, sources, bundles, verdicts, bundles.len(), min, max, unique, persist)
            == Err::<BatchState, PythReceiverError>(PythReceiverError::MalformedData),
{
    assert(batch_outcome(store, sources, bundles, verdicts, 0, min, max, unique, persist) is Ok);
    assert(batch_outcome(store, sources, bundles, verdicts, 1, min, max, unique, persist) == Err::<
        BatchState,
        PythReceiverError,
    >(PythReceiverError::MalformedData));
    lemma_batch_failure_stays(
        store,
        sources,
        bundles,
        verdicts,
        1,
        bundles.len(),
        min,
        max,
        unique,
        persist,
    );
}

/// Where no candidate time is later than what its feed stores, a
/// conditional update is `NoFreshData` whatever the bundles, the verifier's
/// answers and the payment are.
pub proof fn lemma_no_fresh_data(
    store: Map<Seq<u8>, PriceInfo>,
    settings: Settings,
    bundles: Seq<Vec<u8>>,
    verdicts: Seq<bool>,
    ids: Seq<[u8; 32]>,
    times: Seq<u64>,
    payment: u128,
)
    requires
        ids.len() == times.len(),
        ids.len() > 0,
        !some_fresher(store, ids, times),
    ensures
        conditional_outcome(store, settings, bundles, verdicts, ids, times, payment) == Err::<
            Map<Seq<u8>, PriceInfo>,
            PythReceiverError,
        >(PythReceiverError::NoFreshData),
{
}

} // verus!
