//! The content cache: at most `max_capacity` entries, each of weight one, each
//! served only until `ttl_secs` seconds after it was stored.
//!
//! The cache never reads a clock or a file: the caller passes the time, in
//! seconds, and loads the content. An expired entry is never returned; it
//! stays resident until a purge, which every completed load begins with. When
//! room is needed, the entry that was stored first leaves.

use vstd::prelude::*;
use crate::utils::error::LoadError;

verus! {

/// One cached content with the time at which it was stored.
pub struct CacheEntry {
    pub id: u32,
    pub content: Vec<u8>,
    pub inserted_at: u64,
}

/// The mathematical value of a [`CacheEntry`].
pub struct EntryView {
    pub id: u32,
    pub content: Seq<u8>,
    pub inserted_at: u64,
}

impl View for CacheEntry {
    type V = EntryView;

    open spec fn view(&self) -> EntryView {
        EntryView { id: self.id, content: self.content@, inserted_at: self.inserted_at }
    }
}

impl EntryView {
    /// An entry is served strictly before `inserted_at + ttl_secs`.
    pub open spec fn live(self, ttl_secs: u64, now: u64) -> bool {
        now < self.inserted_at + ttl_secs
    }
}

/// The mathematical value of a [`ContentCache`]: its entries, oldest first,
/// and the two limits it was made with.
pub struct CacheView {
    pub entries: Seq<EntryView>,
    pub max_capacity: u64,
    pub ttl_secs: u64,
}

impl CacheView {
    /// No more entries than the capacity, and no id twice.
    pub open spec fn wf(self) -> bool {
        &&& self.entries.len() <= self.max_capacity
        &&& forall|i: int, j: int|
            0 <= i < j < self.entries.len() ==> self.entries[i].id != self.entries[j].id
    }

    /// Whether an entry for `id` is resident, expired or not.
    pub open spec fn holds(self, id: u32) -> bool {
        exists|i: int| 0 <= i < self.entries.len() && self.entries[i].id == id
    }

    /// Where the entry for `id` stands, if one is resident.
    pub open spec fn slot(self, id: u32) -> int {
        choose|i: int| 0 <= i < self.entries.len() && self.entries[i].id == id
    }

    /// What a read of `id` at time `now` returns: the content of its entry if
    /// one is resident and not expired.
    pub open spec fn lookup(self, id: u32, now: u64) -> Option<Seq<u8>> {
        if self.holds(id) && self.entries[self.slot(id)].live(self.ttl_secs, now) {
            Some(self.entries[self.slot(id)].content)
        } else {
            None
        }
    }

    /// The weight of what is resident: one per entry.
    pub open spec fn total_weight(self) -> nat {
        self.entries.len()
    }

    /// The entries but the one for `id`.
    pub open spec fn without(self, id: u32) -> Seq<EntryView> {
        if self.holds(id) {
            self.entries.remove(self.slot(id))
        } else {
            self.entries
        }
    }

    /// The cache after `content` was stored for `id` at time `now`: an older
    /// entry for `id` is replaced, and if the cache is then full its oldest
    /// entry leaves. A cache of capacity zero stores nothing.
    pub open spec fn inserted(self, id: u32, content: Seq<u8>, now: u64) -> CacheView {
        if self.max_capacity == 0 {
            self
        } else {
            let kept = self.without(id);
            let room = if kept.len() >= self.max_capacity {
                kept.skip(1)
            } else {
                kept
            };
            CacheView {
                entries: room.push(EntryView { id, content, inserted_at: now }),
                ..self
            }
        }
    }

    /// The cache with every entry dropped.
    pub open spec fn invalidated(self) -> CacheView {
        CacheView { entries: Seq::empty(), ..self }
    }

    /// The cache with the entries dropped that are expired at `now`.
    pub open spec fn purged(self, now: u64) -> CacheView {
        CacheView { entries: live_entries(self.entries, self.ttl_secs, now), ..self }
    }

    /// The cache after a load for `id` ended with `loaded` at time `now`:
    /// content is stored once the expired entries are dropped, a failure
    /// changes nothing.
    pub open spec fn after_load(self, id: u32, now: u64, loaded: Result<Seq<u8>, LoadError>)
        -> CacheView {
        match loaded {
            Ok(content) => self.purged(now).inserted(id, content, now),
            Err(_) => self,
        }
    }
}

/// The entries that are not expired at `now`, in their order.
pub open spec fn live_entries(entries: Seq<EntryView>, ttl_secs: u64, now: u64) -> Seq<EntryView>
    decreases entries.len(),
{
    if entries.len() == 0 {
        Seq::empty()
    } else if entries.last().live(ttl_secs, now) {
        live_entries(entries.drop_last(), ttl_secs, now).push(entries.last())
    } else {
        live_entries(entries.drop_last(), ttl_secs, now)
    }
}

/// The outcome of a load, its content taken as a sequence of bytes.
pub open spec fn load_view(loaded: Result<Vec<u8>, LoadError>) -> Result<Seq<u8>, LoadError> {
    match loaded {
        Ok(content) => Ok(content@),
        Err(e) => Err(e),
    }
}

/// In a well-formed cache the entry that stands at `i` is the one that its id
/// is found at.
pub proof fn lemma_slot_is_unique(c: CacheView, i: int)
    requires
        c.wf(),
        0 <= i < c.entries.len(),
    ensures
        c.holds(c.entries[i].id),
        c.slot(c.entries[i].id) == i,
{
    let id = c.entries[i].id;
    assert(c.holds(id));
    let s = c.slot(id);
    assert(0 <= s < c.entries.len() && c.entries[s].id == id);
    if s < i {
        assert(c.entries[s].id != c.entries[i].id);
    } else if i < s {
        assert(c.entries[i].id != c.entries[s].id);
    }
}

/// Storing keeps the cache well-formed, and the stored entry is its last.
pub proof fn lemma_inserted_wf(c: CacheView, id: u32, content: Seq<u8>, now: u64)
    requires
        c.wf(),
    ensures
        c.inserted(id, content, now).wf(),
        c.max_capacity > 0 ==> c.inserted(id, content, now).entries.last() == (EntryView {
            id,
            content,
            inserted_at: now,
        }),
        c.max_capacity > 0 ==> c.inserted(id, content, now).holds(id),
{
    if c.max_capacity > 0 {
        let kept = c.without(id);
        assert(kept.len() <= c.max_capacity);
        assert forall|i: int| 0 <= i < kept.len() implies kept[i].id != id by {
            if c.holds(id) {
                let s = c.slot(id);
                let k = if i < s { i } else { i + 1 };
                assert(kept[i] == c.entries[k]);
                lemma_slot_is_unique(c, k);
            } else {
                assert(kept[i] == c.entries[i]);
            }
        }
        assert forall|i: int, j: int| 0 <= i < j < kept.len() implies kept[i].id != kept[j].id by {
            if c.holds(id) {
                let s = c.slot(id);
                let ki = if i < s { i } else { i + 1 };
                let kj = if j < s { j } else { j + 1 };
                assert(kept[i] == c.entries[ki]);
                assert(kept[j] == c.entries[kj]);
            }
        }
        let after = c.inserted(id, content, now);
        assert(after.entries[after.entries.len() - 1].id == id);
    }
}

/// What stays after a purge is live, was resident before, and is no more
/// than was resident.
pub proof fn lemma_live_entries_were_resident(
    entries: Seq<EntryView>,
    ttl_secs: u64,
    now: u64,
    k: int,
)
    requires
        0 <= k < live_entries(entries, ttl_secs, now).len(),
    ensures
        live_entries(entries, ttl_secs, now).len() <= entries.len(),
        live_entries(entries, ttl_secs, now)[k].live(ttl_secs, now),
        exists|j: int| 0 <= j < entries.len() && entries[j] == live_entries(entries, ttl_secs, now)[k],
    decreases entries.len(),
{
    if entries.len() > 0 {
        let rest = live_entries(entries.drop_last(), ttl_secs, now);
        if k < rest.len() {
            lemma_live_entries_were_resident(entries.drop_last(), ttl_secs, now, k);
            let j = choose|j: int|
                0 <= j < entries.drop_last().len() && entries.drop_last()[j] == rest[k];
            assert(entries[j] == live_entries(entries, ttl_secs, now)[k]);
        } else {
            lemma_live_entries_shrink(entries.drop_last(), ttl_secs, now);
            assert(entries[entries.len() - 1] == live_entries(entries, ttl_secs, now)[k]);
        }
    }
}

/// A purge leaves no more entries than there were.
pub proof fn lemma_live_entries_shrink(entries: Seq<EntryView>, ttl_secs: u64, now: u64)
    ensures
        live_entries(entries, ttl_secs, now).len() <= entries.len(),
    decreases entries.len(),
{
    if entries.len() > 0 {
        lemma_live_entries_shrink(entries.drop_last(), ttl_secs, now);
    }
}

/// Every resident entry that is live stays through a purge.
pub proof fn lemma_live_entry_stays(entries: Seq<EntryView>, ttl_secs: u64, now: u64, j: int)
    requires
        0 <= j < entries.len(),
        entries[j].live(ttl_secs, now),
    ensures
        exists|k: int|
            0 <= k < live_entries(entries, ttl_secs, now).len() && live_entries(
                entries,
                ttl_secs,
                now,
            )[k] == entries[j],
    decreases entries.len(),
{
    let rest = live_entries(entries.drop_last(), ttl_secs, now);
    if j == entries.len() - 1 {
        assert(live_entries(entries, ttl_secs, now)[rest.len() as int] == entries[j]);
    } else {
        lemma_live_entry_stays(entries.drop_last(), ttl_secs, now, j);
        let k = choose|k: int| 0 <= k < rest.len() && rest[k] == entries.drop_last()[j];
        assert(live_entries(entries, ttl_secs, now)[k] == entries[j]);
    }
}

/// A purge keeps the ids distinct.
pub proof fn lemma_live_entries_distinct(entries: Seq<EntryView>, ttl_secs: u64, now: u64)
    requires
        forall|i: int, j: int| 0 <= i < j < entries.len() ==> entries[i].id != entries[j].id,
    ensures
        forall|i: int, j: int|
            0 <= i < j < live_entries(entries, ttl_secs, now).len() ==> live_entries(
                entries,
                ttl_secs,
                now,
            )[i].id != live_entries(entries, ttl_secs, now)[j].id,
    decreases entries.len(),
{
    if entries.len() > 0 {
        let front = entries.drop_last();
        let rest = live_entries(front, ttl_secs, now);
        let all = live_entries(entries, ttl_secs, now);
        assert forall|i: int, j: int| 0 <= i < j < front.len() implies front[i].id
            != front[j].id by {
            assert(front[i] == entries[i] && front[j] == entries[j]);
        }
        lemma_live_entries_distinct(front, ttl_secs, now);
        assert forall|i: int, j: int| 0 <= i < j < all.len() implies all[i].id != all[j].id by {
            if j < rest.len() {
                assert(all[i] == rest[i] && all[j] == rest[j]);
            } else {
                lemma_live_entries_were_resident(front, ttl_secs, now, i);
                let w = choose|w: int| 0 <= w < front.len() && front[w] == rest[i];
                assert(entries[w] == all[i]);
                assert(all[j] == entries[entries.len() - 1]);
            }
        }
    }
}

/// A purge at `now` keeps the cache well-formed, frees weight or leaves it,
/// and changes the answer of no read at `now` or later.
pub proof fn lemma_purge_keeps_reads(c: CacheView, now: u64, id: u32, later: u64)
    requires
        c.wf(),
        now <= later,
    ensures
        c.purged(now).wf(),
        c.purged(now).total_weight() <= c.total_weight(),
        c.purged(now).lookup(id, later) == c.lookup(id, later),
{
    let p = c.purged(now);
    lemma_live_entries_shrink(c.entries, c.ttl_secs, now);
    lemma_live_entries_distinct(c.entries, c.ttl_secs, now);
    if p.holds(id) {
        let k = p.slot(id);
        lemma_live_entries_were_resident(c.entries, c.ttl_secs, now, k);
        let j = choose|j: int| 0 <= j < c.entries.len() && c.entries[j] == p.entries[k];
        lemma_slot_is_unique(c, j);
    } else if c.holds(id) {
        let j = c.slot(id);
        if c.entries[j].live(c.ttl_secs, now) {
            lemma_live_entry_stays(c.entries, c.ttl_secs, now, j);
            let k = choose|k: int| 0 <= k < p.entries.len() && p.entries[k] == c.entries[j];
            assert(p.entries[k].id == id);
        }
    }
}

/// Dropping everything twice is dropping everything once, and leaves nothing
/// resident.
pub proof fn lemma_invalidate_all_idempotent(c: CacheView)
    ensures
        c.invalidated().invalidated() == c.invalidated(),
        c.invalidated().total_weight() == 0,
        c.invalidated().wf(),
        forall|id: u32, now: u64| c.invalidated().lookup(id, now) is None,
{
}

/// An entry stored at `stored_at` is returned by every read before
/// `stored_at + ttl_secs` that no other store precedes, and by no read at or
/// after that time: such a read is a miss and goes back to the source.
pub proof fn lemma_entry_expires(c: CacheView, id: u32, content: Seq<u8>, stored_at: u64, now: u64)
    requires
        c.wf(),
        c.max_capacity > 0,
    ensures
        now < stored_at + c.ttl_secs ==> c.inserted(id, content, stored_at).lookup(id, now)
            == Some(content),
        now >= stored_at + c.ttl_secs ==> c.inserted(id, content, stored_at).lookup(id, now)
            is None,
{
    let after = c.inserted(id, content, stored_at);
    lemma_inserted_wf(c, id, content, stored_at);
    lemma_slot_is_unique(after, after.entries.len() - 1);
}

/// What a completed load stored at `stored_at` is returned by every read
/// before `stored_at + ttl_secs` that no other store precedes, and by no read
/// at or after that time; and whatever the load gave, the resident weight is
/// within the capacity afterwards.
pub proof fn lemma_loaded_content_expires(
    c: CacheView,
    id: u32,
    loaded: Result<Seq<u8>, LoadError>,
    stored_at: u64,
    now: u64,
)
    requires
        c.wf(),
    ensures
        c.after_load(id, stored_at, loaded).wf(),
        c.after_load(id, stored_at, loaded).total_weight() <= c.max_capacity,
        loaded matches Ok(content) ==> c.max_capacity > 0 ==> c.after_load(
            id,
            stored_at,
            loaded,
        ).lookup(id, now) == if now < stored_at + c.ttl_secs {
            Some(content)
        } else {
            None
        },
{
    lemma_purge_keeps_reads(c, stored_at, id, stored_at);
    match loaded {
        Ok(content) => {
            lemma_inserted_wf(c.purged(stored_at), id, content, stored_at);
            if c.max_capacity > 0 {
                lemma_entry_expires(c.purged(stored_at), id, content, stored_at, now);
            }
        },
        Err(_) => {},
    }
}

/// After any store the resident weight is within the capacity; and where the
/// cache was full and the id new, an entry that was resident has left.
pub proof fn lemma_capacity_respected(c: CacheView, id: u32, content: Seq<u8>, now: u64)
    requires
        c.wf(),
    ensures
        c.inserted(id, content, now).total_weight() <= c.max_capacity,
        (c.max_capacity > 0 && c.total_weight() == c.max_capacity && !c.holds(id)) ==> exists|
            victim: u32,
        |
            c.holds(victim) && !c.inserted(id, content, now).holds(victim),
{
    lemma_inserted_wf(c, id, content, now);
    if c.max_capacity > 0 && c.total_weight() == c.max_capacity && !c.holds(id) {
        let victim = c.entries[0].id;
        let after = c.inserted(id, content, now);
        assert(c.holds(victim));
        assert forall|j: int| 0 <= j < after.entries.len() implies after.entries[j].id
            != victim by {
            if j < after.entries.len() - 1 {
                assert(after.entries[j] == c.entries[j + 1]);
            }
        }
        assert(!after.holds(victim));
    }
}

/// A bounded, time-limited store of asset content, keyed by asset id.
pub struct ContentCache {
    entries: Vec<CacheEntry>,
    max_capacity: u64,
    ttl_secs: u64,
}

impl View for ContentCache {
    type V = CacheView;

    closed spec fn view(&self) -> CacheView {
        CacheView {
            entries: Seq::new(self.entries@.len(), |i: int| self.entries@[i]@),
            max_capacity: self.max_capacity,
            ttl_secs: self.ttl_secs,
        }
    }
}

impl ContentCache {
    /// The invariant that every method keeps.
    pub open spec fn wf(&self) -> bool {
        self@.wf()
    }

    /// An empty cache that holds at most `max_capacity` entries and serves
    /// each for `ttl_secs` seconds.
    pub fn new(max_capacity: u64, ttl_secs: u64) -> (r: ContentCache)
        ensures
            r.wf(),
            r@ == (CacheView { entries: Seq::empty(), max_capacity, ttl_secs }),
    {
        let r = ContentCache { entries: Vec::new(), max_capacity, ttl_secs };
        assert(r@.entries =~= Seq::empty());
        r
    }

    /// The capacity the cache was made with.
    pub fn max_capacity(&self) -> (r: u64)
        ensures
            r == self@.max_capacity,
    {
        self.max_capacity
    }

    /// The time to live the cache was made with, in seconds.
    pub fn ttl_secs(&self) -> (r: u64)
        ensures
            r == self@.ttl_secs,
    {
        self.ttl_secs
    }

    /// The number of resident entries, which is their weight.
    pub fn entry_count(&self) -> (r: usize)
        ensures
            r == self@.total_weight(),
    {
        self.entries.len()
    }

    fn position(&self, id: u32) -> (r: Option<usize>)
        requires
            self.wf(),
        ensures
            match r {
                Some(i) => self@.holds(id) && i == self@.slot(id) && i < self.entries@.len(),
                None => !self@.holds(id),
            },
    {
        let mut i: usize = 0;
        while i < self.entries.len()
            invariant
                self.wf(),
                i <= self.entries@.len(),
                forall|j: int| 0 <= j < i ==> self@.entries[j].id != id,
            decreases self.entries@.len() - i,
        {
            if self.entries[i].id == id {
                proof {
                    lemma_slot_is_unique(self@, i as int);
                }
                return Some(i);
            }
            i += 1;
        }
        None
    }

    /// The content cached for `id`, unless none is resident or it expired.
    pub fn get(&self, id: u32, now: u64) -> (r: Option<Vec<u8>>)
        requires
            self.wf(),
        ensures
            match r {
                Some(content) => self@.lookup(id, now) == Some(content@),
                None => self@.lookup(id, now) is None,
            },
    {
        match self.position(id) {
            Some(i) => {
                let entry = &self.entries[i];
                if now < entry.inserted_at || now - entry.inserted_at < self.ttl_secs {
                    let content = entry.content.clone();
                    assert(content@ =~= entry.content@);
                    Some(content)
                } else {
                    None
                }
            },
            None => None,
        }
    }

    /// Stores `content` for `id` at time `now`.
    pub fn insert(&mut self, id: u32, content: Vec<u8>, now: u64)
        requires
            old(self).wf(),
        ensures
            final(self).wf(),
            final(self)@ == old(self)@.inserted(id, content@, now),
            final(self)@.total_weight() <= final(self)@.max_capacity,
    {
        if self.max_capacity == 0 {
            return ;
        }
        let found = self.position(id);
        match found {
            Some(i) => {
                self.entries.remove(i);
            },
            None => {},
        }
        assert(self@.entries =~= old(self)@.without(id));
        let ghost kept = self@.entries;
        if self.entries.len() as u64 >= self.max_capacity {
            self.entries.remove(0);
            assert(self@.entries =~= kept.skip(1));
        }
        self.entries.push(CacheEntry { id, content, inserted_at: now });
        proof {
            assert(self@.entries =~= old(self)@.inserted(id, content@, now).entries);
            lemma_inserted_wf(old(self)@, id, content@, now);
        }
    }

    /// Drops the entries that are expired at `now`, and keeps the others in
    /// their order.
    pub fn purge_expired(&mut self, now: u64)
        requires
            old(self).wf(),
        ensures
            final(self).wf(),
            final(self)@ == old(self)@.purged(now),
    {
        let ghost before = self@.entries;
        let ghost ttl = self.ttl_secs;
        let ghost mut seen: int = 0;
        let mut i: usize = 0;
        assert(before.take(0) =~= Seq::empty());
        while i < self.entries.len()
            invariant
                self.ttl_secs == ttl,
                self.max_capacity == old(self).max_capacity,
                ttl == old(self).ttl_secs,
                before == old(self)@.entries,
                0 <= seen <= before.len(),
                i == live_entries(before.take(seen), ttl, now).len(),
                self@.entries =~= live_entries(before.take(seen), ttl, now) + before.skip(seen),
            decreases before.len() - seen,
        {
            let ghost current = self@.entries;
            assert(current[i as int] == before[seen]);
            assert(before.take(seen + 1).drop_last() =~= before.take(seen));
            assert(before.take(seen + 1).last() == before[seen]);
            let entry = &self.entries[i];
            let ghost stayed = live_entries(before.take(seen), ttl, now);
            if now < entry.inserted_at || now - entry.inserted_at < self.ttl_secs {
                assert(before[seen].live(ttl, now));
                assert(current =~= stayed.push(before[seen]) + before.skip(seen + 1));
                i += 1;
            } else {
                assert(!before[seen].live(ttl, now));
                self.entries.remove(i);
                assert(self@.entries =~= current.remove(i as int));
                assert(current.remove(i as int) =~= stayed + before.skip(seen + 1));
            }
            proof {
                seen = seen + 1;
            }
        }
        proof {
            lemma_live_entries_shrink(before.take(seen), ttl, now);
            assert(seen == before.len());
            assert(before.take(seen) =~= before);
            assert(self@.entries =~= live_entries(before, ttl, now));
            lemma_purge_keeps_reads(old(self)@, now, 0, now);
        }
    }

    /// Drops every entry.
    pub fn invalidate_all(&mut self)
        ensures
            final(self).wf(),
            final(self)@ == old(self)@.invalidated(),
    {
        self.entries.clear();
        assert(self@.entries =~= Seq::empty());
    }

    /// Ends a read that missed: content that was loaded is stored, after the
    /// expired entries are dropped, and returned; a failure is returned and
    /// changes nothing.
    pub fn complete_load(&mut self, id: u32, now: u64, loaded: Result<Vec<u8>, LoadError>) -> (r:
        Result<Vec<u8>, LoadError>)
        requires
            old(self).wf(),
        ensures
            final(self).wf(),
            final(self)@ == old(self)@.after_load(id, now, load_view(loaded)),
            load_view(r) == load_view(loaded),
    {
        match loaded {
            Ok(content) => {
                let stored = content.clone();
                assert(stored@ =~= content@);
                self.purge_expired(now);
                self.insert(id, stored, now);
                Ok(content)
            },
            Err(e) => Err(e),
        }
    }

    /// Returns the cached content of `id` if it is resident and not expired.
    /// Otherwise calls `loader` once, with `id`, and ends as
    /// [`ContentCache::complete_load`] does on what it returned.
    pub fn get_or_load<F: FnOnce(u32) -> Result<Vec<u8>, LoadError>>(
        &mut self,
        id: u32,
        now: u64,
        loader: F,
    ) -> (r: Result<Vec<u8>, LoadError>)
        requires
            old(self).wf(),
            old(self)@.lookup(id, now) is None ==> loader.requires((id,)),
        ensures
            final(self).wf(),
            match old(self)@.lookup(id, now) {
                Some(content) => load_view(r) == Ok::<Seq<u8>, LoadError>(content) && final(self)@
                    == old(self)@,
                None => exists|loaded: Result<Vec<u8>, LoadError>|
                    {
                        &&& loader.ensures((id,), loaded)
                        &&& load_view(r) == load_view(loaded)
                        &&& final(self)@ == old(self)@.after_load(id, now, load_view(loaded))
                    },
            },
    {
        match self.get(id, now) {
            Some(content) => Ok(content),
            None => {
                let loaded = loader(id);
                let ghost witness = loaded;
                let r = self.complete_load(id, now, loaded);
                assert(loader.ensures((id,), witness));
                r
            },
        }
    }
}

} // verus!
