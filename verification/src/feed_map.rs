use vstd::prelude::*;
use crate::types::{same_bytes, FeedPrice, PriceInfo};

verus! {

/// A finite map from feed ids to price data, kept as a list of entries in
/// which no feed id occurs twice.
pub struct FeedMap {
    entries: Vec<FeedPrice>,
}

/// Whether some entry of `entries` is for feed `id`.
pub open spec fn has_feed(entries: Seq<FeedPrice>, id: Seq<u8>) -> bool {
    exists|i: int| 0 <= i < entries.len() && #[trigger] entries[i].feed_id@ == id
}

/// The position of an entry for feed `id`.
pub open spec fn feed_index(entries: Seq<FeedPrice>, id: Seq<u8>) -> int {
    choose|i: int| 0 <= i < entries.len() && #[trigger] entries[i].feed_id@ == id
}

/// No feed id occurs twice in `entries`.
pub open spec fn distinct_feeds(entries: Seq<FeedPrice>) -> bool {
    forall|i: int, j: int|
        0 <= i < j < entries.len() ==> #[trigger] entries[i].feed_id@ != #[trigger] entries[j].feed_id@
}

/// The map that a list of entries with distinct feed ids stands for.
pub open spec fn entries_map(entries: Seq<FeedPrice>) -> Map<Seq<u8>, PriceInfo> {
    Map::new(
        |id: Seq<u8>| has_feed(entries, id),
        |id: Seq<u8>| entries[feed_index(entries, id)].info,
    )
}

/// Every entry of a list with distinct feed ids is in the list's map.
pub proof fn lemma_entry_in_map(entries: Seq<FeedPrice>, i: int)
    requires
        distinct_feeds(entries),
        0 <= i < entries.len(),
    ensures
        entries_map(entries).contains_key(entries[i].feed_id@),
        entries_map(entries)[entries[i].feed_id@] == entries[i].info,
{
    let id = entries[i].feed_id@;
    assert(has_feed(entries, id));
    let j = feed_index(entries, id);
    assert(0 <= j < entries.len() && entries[j].feed_id@ == id);
    assert(j == i);
}

/// Appending an entry for a feed that the list lacks inserts it into the
/// list's map.
pub proof fn lemma_push_entry(before: Seq<FeedPrice>, entry: FeedPrice)
    requires
        distinct_feeds(before),
        !has_feed(before, entry.feed_id@),
    ensures
        distinct_feeds(before.push(entry)),
        entries_map(before.push(entry)) == entries_map(before).insert(
            entry.feed_id@,
            entry.info,
        ),
{
    let after = before.push(entry);
    let id = entry.feed_id@;
    assert forall|i: int, j: int| 0 <= i < j < after.len() implies (#[trigger] after[i]).feed_id@
        != (#[trigger] after[j]).feed_id@ by {
        if j < before.len() {
            assert(before[i].feed_id@ != before[j].feed_id@);
        } else {
            assert(before[i].feed_id@ != id);
        }
    }
    assert forall|k: Seq<u8>| has_feed(after, k) == (has_feed(before, k) || k == id) by {
        if has_feed(after, k) {
            let j = feed_index(after, k);
            if j < before.len() {
                assert(before[j].feed_id@ == k);
            }
        }
        if has_feed(before, k) {
            let j = feed_index(before, k);
            assert(after[j].feed_id@ == k);
        }
        if k == id {
            assert(after[before.len() as int].feed_id@ == k);
        }
    }
    assert forall|k: Seq<u8>| has_feed(after, k) implies entries_map(after)[k] == (if k == id {
        entry.info
    } else {
        entries_map(before)[k]
    }) by {
        let j = feed_index(after, k);
        lemma_entry_in_map(after, j);
        if j < before.len() {
            lemma_entry_in_map(before, j);
        }
    }
    assert(entries_map(after) =~= entries_map(before).insert(id, entry.info));
}

/// A list with distinct feed ids stands for a finite map with one key for
/// each entry.
pub proof fn lemma_map_size(entries: Seq<FeedPrice>)
    requires
        distinct_feeds(entries),
    ensures
        entries_map(entries).dom().finite(),
        entries_map(entries).dom().len() == entries.len(),
    decreases entries.len(),
{
    if entries.len() == 0 {
        assert(entries_map(entries).dom() =~= Set::<Seq<u8>>::empty());
    } else {
        let init = entries.drop_last();
        let last = entries.last();
        assert forall|i: int, j: int| 0 <= i < j < init.len() implies (#[trigger] init[i]).feed_id@
            != (#[trigger] init[j]).feed_id@ by {
            assert(entries[i].feed_id@ != entries[j].feed_id@);
        }
        lemma_map_size(init);
        if has_feed(init, last.feed_id@) {
            let j = feed_index(init, last.feed_id@);
            assert(entries[j].feed_id@ != entries[entries.len() - 1].feed_id@);
        }
        assert(entries =~= init.push(last));
        lemma_push_entry(init, last);
    }
}

impl View for FeedMap {
    type V = Map<Seq<u8>, PriceInfo>;

    closed spec fn view(&self) -> Map<Seq<u8>, PriceInfo> {
        entries_map(self.entries@)
    }
}

impl FeedMap {
    /// The entries, in the order in which their feeds were first inserted.
    pub closed spec fn entries(&self) -> Seq<FeedPrice> {
        self.entries@
    }

    /// The invariant: the entries have distinct feed ids, and the map is
    /// the one they stand for.
    pub closed spec fn wf(&self) -> bool {
        distinct_feeds(self.entries@)
    }

    /// `wf` and the view, spelled out over the entries.
    pub proof fn lemma_view(&self)
        ensures
            self.wf() == distinct_feeds(self.entries()),
            self@ == entries_map(self.entries()),
    {
    }

    pub fn new() -> (m: FeedMap)
        ensures
            m.wf(),
            m@ == Map::<Seq<u8>, PriceInfo>::empty(),
            m.entries().len() == 0,
    {
        let m = FeedMap { entries: Vec::new() };
        assert(m@ =~= Map::<Seq<u8>, PriceInfo>::empty());
        m
    }

    /// The number of feeds in the map.
    pub fn len(&self) -> (n: usize)
        requires
            self.wf(),
        ensures
            n == self@.dom().len(),
            n == self.entries().len(),
    {
        proof {
            lemma_map_size(self.entries@);
        }
        self.entries.len()
    }

    /// The entry at position `i`.
    pub(crate) fn entry(&self, i: usize) -> (e: FeedPrice)
        requires
            i < self.entries().len(),
        ensures
            e == self.entries()[i as int],
    {
        self.entries[i]
    }

    fn position(&self, id: &[u8; 32]) -> (r: Option<usize>)
        ensures
            match r {
                Some(i) => i < self.entries@.len() && self.entries@[i as int].feed_id@ == id@,
                None => !has_feed(self.entries@, id@),
            },
    {
        let mut i: usize = 0;
        while i < self.entries.len()
            invariant
                i <= self.entries@.len(),
                forall|j: int| 0 <= j < i ==> (#[trigger] self.entries@[j]).feed_id@ != id@,
            decreases self.entries@.len() - i,
        {
            if same_bytes(&self.entries[i].feed_id, id) {
                return Some(i);
            }
            i += 1;
        }
        None
    }

    /// The price data of feed `id`, if the map holds any.
    pub fn get(&self, id: &[u8; 32]) -> (r: Option<PriceInfo>)
        requires
            self.wf(),
        ensures
            r == (if self@.contains_key(id@) {
                Some(self@[id@])
            } else {
                None
            }),
    {
        match self.position(id) {
            Some(i) => {
                proof {
                    lemma_entry_in_map(self.entries@, i as int);
                }
                Some(self.entries[i].info)
            },
            None => None,
        }
    }

    /// Sets the price data of feed `id`, replacing what the map held for it.
    pub fn insert(&mut self, id: [u8; 32], info: PriceInfo)
        requires
            old(self).wf(),
        ensures
            final(self).wf(),
            final(self)@ == old(self)@.insert(id@, info),
            final(self).entries().len() == old(self).entries().len() + (if old(self)@.contains_key(
                id@,
            ) {
                0int
            } else {
                1int
            }),
    {
        let ghost before = self.entries@;
        let entry = FeedPrice { feed_id: id, info };
        match self.position(&id) {
            Some(i) => {
                self.entries[i] = entry;
                proof {
                    let after = self.entries@;
                    assert(after == before.update(i as int, entry));
                    assert(forall|j: int|
                        0 <= j < after.len() ==> (#[trigger] after[j]).feed_id@ == before[j].feed_id@);
                    assert(distinct_feeds(after));
                    lemma_entry_in_map(before, i as int);
                    assert forall|k: Seq<u8>| has_feed(after, k) == has_feed(before, k) by {
                        if has_feed(after, k) {
                            let j = feed_index(after, k);
                            assert(before[j].feed_id@ == k);
                        }
                        if has_feed(before, k) {
                            let j = feed_index(before, k);
                            assert(after[j].feed_id@ == k);
                        }
                    }
                    assert forall|k: Seq<u8>| has_feed(after, k) implies entries_map(after)[k] == (
                    if k == id@ {
                        info
                    } else {
                        entries_map(before)[k]
                    }) by {
                        let j = feed_index(after, k);
                        lemma_entry_in_map(after, j);
                        lemma_entry_in_map(before, j);
                    }
                    assert(entries_map(after) =~= entries_map(before).insert(id@, info));
                }
            },
            None => {
                self.entries.push(entry);
                proof {
                    assert(self.entries@ == before.push(entry));
                    lemma_push_entry(before, entry);
                }
            },
        }
    }

    /// A copy of the map.
    pub fn copy(&self) -> (m: FeedMap)
        ensures
            m.entries() == self.entries(),
            m@ == self@,
            m.wf() == self.wf(),
    {
        let mut entries: Vec<FeedPrice> = Vec::new();
        let mut i: usize = 0;
        while i < self.entries.len()
            invariant
                i <= self.entries@.len(),
                entries@ == self.entries@.subrange(0, i as int),
            decreases self.entries@.len() - i,
        {
            entries.push(self.entries[i]);
            assert(entries@ =~= self.entries@.subrange(0, i + 1));
            i += 1;
        }
        assert(entries@ =~= self.entries@);
        FeedMap { entries }
    }
}

} // verus!
