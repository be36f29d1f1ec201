//! The service: the current inventory and the content cache, replaced and
//! emptied together on a reload, and the lookup that draws an asset at random.

use vstd::prelude::*;
use crate::models::meme::{Meme, MemeView};
use crate::services::cache::{
    CacheView,
    ContentCache,
    lemma_invalidate_all_idempotent,
    load_view,
};
use crate::services::inventory::{
    Generation,
    GenerationView,
    Listing,
    ListingView,
    countable,
    lemma_scan_counts_files,
    regular_files,
    scan_result,
};
use crate::utils::error::{InitError, LoadError, LookupError, ScanError, WatcherError};

verus! {

/// The mathematical value of a [`MemeService`].
pub struct ServiceView {
    pub generation: GenerationView,
    pub cache: CacheView,
    pub memes_dir: Seq<char>,
}

impl ServiceView {
    /// Both parts are well-formed.
    pub open spec fn wf(self) -> bool {
        self.generation.wf() && self.cache.wf()
    }

    /// The asset that `id` stands for: none in an empty inventory, none where
    /// the inventory lacks the id.
    pub open spec fn resolved(self, id: u32) -> Result<MemeView, LookupError> {
        if self.generation.total_count == 0 {
            Err(LookupError::Empty)
        } else if !self.generation.assets.contains_key(id) {
            Err(LookupError::NotFound)
        } else {
            Ok(self.generation.assets[id])
        }
    }

    /// The service after a rescan ended with `outcome`: a new inventory comes
    /// with an empty cache, a failure changes nothing.
    pub open spec fn reloaded(self, outcome: Result<GenerationView, ScanError>) -> ServiceView {
        match outcome {
            Ok(generation) => ServiceView {
                generation,
                cache: self.cache.invalidated(),
                memes_dir: self.memes_dir,
            },
            Err(_) => self,
        }
    }

    /// The service after a load for `id` ended with `loaded`.
    pub open spec fn after_load(self, id: u32, now: u64, loaded: Result<Seq<u8>, LoadError>)
        -> ServiceView {
        ServiceView { cache: self.cache.after_load(id, now, loaded), ..self }
    }

    /// The service after content that was loaded for `meme` comes back:
    /// it is stored only if the inventory still holds that very asset.
    pub open spec fn after_late_load(
        self,
        meme: MemeView,
        now: u64,
        loaded: Result<Seq<u8>, LoadError>,
    ) -> ServiceView {
        if self.resolved(meme.id) == Ok::<MemeView, LookupError>(meme) {
            self.after_load(meme.id, now, loaded)
        } else {
            self
        }
    }
}

/// How a lookup stands once the id is resolved and the cache was read.
#[derive(Debug)]
pub enum Lookup {
    /// The content was cached: the lookup is answered.
    Hit(Meme, Vec<u8>),
    /// The content has to be loaded from the asset's path.
    Miss(Meme),
}

/// How a lookup of `id` at time `now` begins: with the error of resolving
/// the id, with a miss, or with the cached content.
pub open spec fn begun(s: ServiceView, id: u32, now: u64) -> Result<
    (MemeView, Option<Seq<u8>>),
    LookupError,
> {
    match s.resolved(id) {
        Err(e) => Err(e),
        Ok(meme) => Ok((meme, s.cache.lookup(id, now))),
    }
}

/// A begun lookup, its asset and content taken by their values.
pub open spec fn lookup_view(r: Result<Lookup, LookupError>) -> Result<
    (MemeView, Option<Seq<u8>>),
    LookupError,
> {
    match r {
        Ok(Lookup::Hit(meme, content)) => Ok((meme@, Some(content@))),
        Ok(Lookup::Miss(meme)) => Ok((meme@, None)),
        Err(e) => Err(e),
    }
}

/// The answer to a lookup that had to load: the asset with the content, or
/// the failure of the load.
pub open spec fn loaded_answer(meme: MemeView, loaded: Result<Seq<u8>, LoadError>) -> Result<
    (MemeView, Seq<u8>),
    LookupError,
> {
    match loaded {
        Ok(content) => Ok((meme, content)),
        Err(e) => Err(LookupError::of_load(e)),
    }
}

/// An answer, its asset and content taken by their values.
pub open spec fn answer_view(answer: Result<(Meme, Vec<u8>), LookupError>) -> Result<
    (MemeView, Seq<u8>),
    LookupError,
> {
    match answer {
        Ok(pair) => Ok((pair.0@, pair.1@)),
        Err(e) => Err(e),
    }
}

/// A rescan, its inventory taken by its value.
pub open spec fn outcome_view(outcome: Result<Generation, ScanError>) -> Result<
    GenerationView,
    ScanError,
> {
    match outcome {
        Ok(generation) => Ok(generation@),
        Err(e) => Err(e),
    }
}

/// Why the service does not start, if it does not: a watcher that could not
/// be set up comes before a scan that failed.
pub open spec fn startup_failure(
    watcher: Result<(), WatcherError>,
    scan: Result<GenerationView, ScanError>,
) -> Option<InitError> {
    match watcher {
        Err(_) => Some(InitError::WatcherSetup),
        Ok(_) => match scan {
            Err(e) => Some(InitError::of_scan(e)),
            Ok(_) => None,
        },
    }
}

/// How a lookup of `id` at time `now` ends: with the error of resolving the
/// id; or with the cached content; or, on a miss, with what `loader` returned
/// for the asset's path, stored if it is content.
pub open spec fn serve_outcome<F: FnOnce(String) -> Result<Vec<u8>, LoadError>>(
    before: ServiceView,
    id: u32,
    now: u64,
    loader: F,
    answer: Result<(MemeView, Seq<u8>), LookupError>,
    after: ServiceView,
) -> bool {
    match before.resolved(id) {
        Err(e) => answer == Err::<(MemeView, Seq<u8>), LookupError>(e) && after == before,
        Ok(meme) => match before.cache.lookup(id, now) {
            Some(content) => answer == Ok::<(MemeView, Seq<u8>), LookupError>((meme, content))
                && after == before,
            None => exists|path: String, loaded: Result<Vec<u8>, LoadError>|
                {
                    &&& path@ == meme.path
                    &&& loader.ensures((path,), loaded)
                    &&& answer == loaded_answer(meme, load_view(loaded))
                    &&& after == before.after_load(id, now, load_view(loaded))
                },
        },
    }
}

/// Whether `loader` may be called with the path of every asset of `s`.
pub open spec fn loads_all<F: FnOnce(String) -> Result<Vec<u8>, LoadError>>(
    s: ServiceView,
    loader: F,
) -> bool {
    forall|id: u32, path: String|
        s.generation.assets.contains_key(id) && path@ == s.generation.assets[id].path
            ==> loader.requires((path,))
}

/// After a committed reload every id resolves in the new inventory and in no
/// other: what a lookup returns is an asset of the new inventory, under an id
/// below its count.
pub proof fn lemma_reload_replaces_inventory(s: ServiceView, generation: GenerationView, id: u32)
    requires
        generation.wf(),
    ensures
        s.reloaded(Ok(generation)).generation == generation,
        match s.reloaded(Ok(generation)).resolved(id) {
            Ok(meme) => id < generation.total_count && generation.assets.contains_key(id) && meme
                == generation.assets[id] && meme.id == id,
            Err(_) => !generation.assets.contains_key(id),
        },
{
}

/// A reload that failed leaves the inventory and the cache as they were.
pub proof fn lemma_failed_reload_keeps_state(s: ServiceView, e: ScanError)
    ensures
        s.reloaded(Err(e)) == s,
{
}

/// Right after a committed reload the cache returns nothing, for any id and
/// at any time: content stored under an id of the earlier inventory is never
/// served for the file that now has that id.
pub proof fn lemma_reload_empties_cache(
    s: ServiceView,
    generation: GenerationView,
    id: u32,
    now: u64,
)
    ensures
        s.reloaded(Ok(generation)).cache.lookup(id, now) is None,
        s.reloaded(Ok(generation)).cache.total_weight() == 0,
{
    lemma_invalidate_all_idempotent(s.cache);
}

/// Every lookup that succeeds returns an asset of the inventory it ran on,
/// under an id below its count.
pub proof fn lemma_served_id_in_range<F: FnOnce(String) -> Result<Vec<u8>, LoadError>>(
    before: ServiceView,
    id: u32,
    now: u64,
    loader: F,
    answer: Result<(MemeView, Seq<u8>), LookupError>,
    after: ServiceView,
)
    requires
        before.generation.wf(),
        serve_outcome(before, id, now, loader, answer, after),
    ensures
        after.generation == before.generation,
        answer matches Ok(pair) ==> pair.0.id == id && id < before.generation.total_count
            && before.generation.assets[id] == pair.0,
{
}

/// A service that runs on the inventory of a listing answers every lookup
/// with an id below the number of the listing's regular files, and a lookup
/// leaves the inventory as it was.
pub proof fn lemma_lookup_within_listing<F: FnOnce(String) -> Result<Vec<u8>, LoadError>>(
    listing: ListingView,
    before: ServiceView,
    id: u32,
    now: u64,
    loader: F,
    answer: Result<(MemeView, Seq<u8>), LookupError>,
    after: ServiceView,
)
    requires
        countable(listing),
        scan_result(listing) == Ok::<GenerationView, ScanError>(before.generation),
        serve_outcome(before, id, now, loader, answer, after),
    ensures
        after.generation == before.generation,
        answer matches Ok(pair) ==> listing matches ListingView::Entries(entries) && pair.0.id
            < regular_files(entries).len(),
{
    lemma_scan_counts_files(listing);
}

/// The inventory of one directory with the cache of its content.
pub struct MemeService {
    generation: Generation,
    content_cache: ContentCache,
    memes_dir: String,
}

impl View for MemeService {
    type V = ServiceView;

    closed spec fn view(&self) -> ServiceView {
        ServiceView {
            generation: self.generation@,
            cache: self.content_cache@,
            memes_dir: self.memes_dir@,
        }
    }
}

impl MemeService {
    /// The invariant that every method keeps.
    pub open spec fn wf(&self) -> bool {
        self@.wf()
    }

    /// Starts the service on the first listing of `memes_dir`, with an empty
    /// cache of `max_size` entries that each live `ttl_secs` seconds.
    ///
    /// `watcher` says whether the directory is being watched. The service
    /// starts only if it is and the listing holds a regular file.
    pub fn new(
        memes_dir: &str,
        max_size: u64,
        ttl_secs: u64,
        watcher: Result<(), WatcherError>,
        listing: &Listing,
    ) -> (r: Result<MemeService, InitError>)
        requires
            countable(listing@),
        ensures
            match r {
                Ok(service) => {
                    &&& startup_failure(watcher, scan_result(listing@)) is None
                    &&& service.wf()
                    &&& Ok::<GenerationView, ScanError>(service@.generation) == scan_result(
                        listing@,
                    )
                    &&& service@.cache == (CacheView {
                        entries: Seq::empty(),
                        max_capacity: max_size,
                        ttl_secs,
                    })
                    &&& service@.memes_dir == memes_dir@
                },
                Err(e) => startup_failure(watcher, scan_result(listing@)) == Some(e),
            },
    {
        match watcher {
            Err(_) => Err(InitError::WatcherSetup),
            Ok(_) => {
                let content_cache = ContentCache::new(max_size, ttl_secs);
                match Generation::rebuild(listing) {
                    Err(e) => Err(InitError::from_scan(e)),
                    Ok(generation) => Ok(
                        MemeService { generation, content_cache, memes_dir: memes_dir.to_owned() },
                    ),
                }
            },
        }
    }

    /// The directory the service was started on.
    pub fn memes_dir(&self) -> (r: &str)
        ensures
            r@ == self@.memes_dir,
    {
        self.memes_dir.as_str()
    }

    /// The number of assets in the current inventory.
    pub fn total_count(&self) -> (r: u32)
        ensures
            r == self@.generation.total_count,
    {
        self.generation.total_count()
    }

    /// The number of entries resident in the cache.
    pub fn cached_count(&self) -> (r: usize)
        ensures
            r == self@.cache.total_weight(),
    {
        self.content_cache.entry_count()
    }

    /// Ends a rescan: a new inventory replaces the current one and the cache
    /// is emptied, in one step; a failure is handed back and changes nothing.
    pub fn commit(&mut self, outcome: Result<Generation, ScanError>) -> (r: Result<(), ScanError>)
        requires
            old(self).wf(),
            outcome matches Ok(generation) ==> generation@.wf(),
        ensures
            final(self).wf(),
            final(self)@ == old(self)@.reloaded(outcome_view(outcome)),
            match r {
                Ok(_) => outcome is Ok,
                Err(e) => outcome_view(outcome) == Err::<GenerationView, ScanError>(e),
            },
    {
        match outcome {
            Ok(generation) => {
                self.generation = generation;
                self.content_cache.invalidate_all();
                Ok(())
            },
            Err(e) => Err(e),
        }
    }

    /// Scans `listing` and commits the result.
    pub fn reload_memes(&mut self, listing: &Listing) -> (r: Result<(), ScanError>)
        requires
            old(self).wf(),
            countable(listing@),
        ensures
            final(self).wf(),
            final(self)@ == old(self)@.reloaded(scan_result(listing@)),
            match r {
                Ok(_) => scan_result(listing@) is Ok,
                Err(e) => scan_result(listing@) == Err::<GenerationView, ScanError>(e),
            },
    {
        let outcome = Generation::rebuild(listing);
        self.commit(outcome)
    }

    /// Draws the id of the next asset: any id of the inventory, or `Empty`
    /// where it has none.
    pub fn draw(&self) -> (r: Result<u32, LookupError>)
        ensures
            match r {
                Ok(id) => id < self@.generation.total_count,
                Err(e) => e == LookupError::Empty && self@.generation.total_count == 0,
            },
    {
        let total: u32 = self.generation.total_count();
        if total == 0 {
            Err(LookupError::Empty)
        } else {
            Ok(draw_below(total))
        }
    }

    /// The asset that `id` stands for in the current inventory.
    pub fn resolve(&self, id: u32) -> (r: Result<Meme, LookupError>)
        ensures
            match r {
                Ok(meme) => self@.resolved(id) == Ok::<MemeView, LookupError>(meme@),
                Err(e) => self@.resolved(id) == Err::<MemeView, LookupError>(e),
            },
    {
        if self.generation.total_count() == 0 {
            return Err(LookupError::Empty);
        }
        match self.generation.get(id) {
            Some(meme) => Ok(meme.clone()),
            None => Err(LookupError::NotFound),
        }
    }

    /// The cached content of `id`, unless none is resident or it expired.
    pub fn cached(&self, id: u32, now: u64) -> (r: Option<Vec<u8>>)
        requires
            self.wf(),
        ensures
            match r {
                Some(content) => self@.cache.lookup(id, now) == Some(content@),
                None => self@.cache.lookup(id, now) is None,
            },
    {
        self.content_cache.get(id, now)
    }

    /// Begins a lookup of `id` without changing anything: resolves the id and
    /// reads the cache. After a miss the caller loads the content and hands
    /// it to [`MemeService::store_loaded`].
    pub fn begin(&self, id: u32, now: u64) -> (r: Result<Lookup, LookupError>)
        requires
            self.wf(),
        ensures
            lookup_view(r) == begun(self@, id, now),
    {
        match self.resolve(id) {
            Err(e) => Err(e),
            Ok(meme) => match self.content_cache.get(id, now) {
                Some(content) => Ok(Lookup::Hit(meme, content)),
                None => Ok(Lookup::Miss(meme)),
            },
        }
    }

    /// Ends a lookup whose content was loaded while the service was free to
    /// reload: the content is stored only if the inventory still holds `meme`
    /// as it was resolved, and the answer is the content or the failure.
    pub fn store_loaded(&mut self, meme: &Meme, now: u64, loaded: Result<Vec<u8>, LoadError>) -> (r:
        Result<Vec<u8>, LookupError>)
        requires
            old(self).wf(),
        ensures
            final(self).wf(),
            final(self)@ == old(self)@.after_late_load(meme@, now, load_view(loaded)),
            match r {
                Ok(content) => load_view(loaded) == Ok::<Seq<u8>, LoadError>(content@),
                Err(e) => loaded matches Err(cause) && e == LookupError::of_load(cause),
            },
    {
        let current = match self.resolve(meme.id) {
            Ok(found) => same_asset(&found, meme),
            Err(_) => false,
        };
        if current {
            match self.content_cache.complete_load(meme.id, now, loaded) {
                Ok(content) => Ok(content),
                Err(e) => Err(LookupError::from_load(e)),
            }
        } else {
            match loaded {
                Ok(content) => Ok(content),
                Err(e) => Err(LookupError::from_load(e)),
            }
        }
    }

    /// Looks `id` up: resolves it, takes its content from the cache or, on a
    /// miss, from `loader`, which is called once with the asset's path.
    pub fn serve<F: FnOnce(String) -> Result<Vec<u8>, LoadError>>(
        &mut self,
        id: u32,
        now: u64,
        loader: F,
    ) -> (r: Result<(Meme, Vec<u8>), LookupError>)
        requires
            old(self).wf(),
            loads_all(old(self)@, loader),
        ensures
            final(self).wf(),
            serve_outcome(old(self)@, id, now, loader, answer_view(r), final(self)@),
    {
        let meme = match self.resolve(id) {
            Ok(meme) => meme,
            Err(e) => {
                return Err(e);
            },
        };
        match self.content_cache.get(id, now) {
            Some(content) => Ok((meme, content)),
            None => {
                let path = meme.path.clone();
                let loaded = loader(path);
                let ghost witness = loaded;
                let r = match self.content_cache.complete_load(id, now, loaded) {
                    Ok(content) => Ok((meme, content)),
                    Err(e) => Err(LookupError::from_load(e)),
                };
                proof {
                    assert(loader.ensures((path,), witness));
                    assert(answer_view(r) == loaded_answer(meme@, load_view(witness)));
                    assert(self@ == old(self)@.after_load(id, now, load_view(witness)));
                }
                r
            },
        }
    }

    /// Returns an asset drawn at random from the current inventory, with its
    /// content: `Empty` where the inventory has none, otherwise what
    /// [`MemeService::serve`] gives for an id below the count.
    pub fn get_random<F: FnOnce(String) -> Result<Vec<u8>, LoadError>>(
        &mut self,
        now: u64,
        loader: F,
    ) -> (r: Result<(Meme, Vec<u8>), LookupError>)
        requires
            old(self).wf(),
            loads_all(old(self)@, loader),
        ensures
            final(self).wf(),
            final(self)@.generation == old(self)@.generation,
            old(self)@.generation.total_count == 0 ==> answer_view(r) == Err::<
                (MemeView, Seq<u8>),
                LookupError,
            >(LookupError::Empty) && final(self)@ == old(self)@,
            old(self)@.generation.total_count > 0 ==> exists|id: u32|
                id < old(self)@.generation.total_count && #[trigger] serve_outcome(
                    old(self)@,
                    id,
                    now,
                    loader,
                    answer_view(r),
                    final(self)@,
                ),
            r matches Ok(pair) ==> pair.0.id < old(self)@.generation.total_count && old(
                self,
            )@.generation.assets[pair.0.id] == pair.0@,
    {
        match self.draw() {
            Err(e) => Err(e),
            Ok(id) => self.serve(id, now, loader),
        }
    }
}

/// Whether two assets are the same in every field.
pub fn same_asset(a: &Meme, b: &Meme) -> (r: bool)
    ensures
        r == (a@ == b@),
{
    let r = a.id == b.id && a.size_bytes == b.size_bytes && a.path == b.path && a.mime_type
        == b.mime_type && a.filename == b.filename;
    r
}

/// Calls `fastrand::u32` on the range of the numbers below `bound`, which
/// draws one of them from the thread's generator. The call panics on an empty
/// range, so `bound` is not zero; of the number itself nothing is known but
/// that it lies in the range.
#[verifier::external_body]
fn draw_below(bound: u32) -> (r: u32)
    requires
        bound > 0,
    ensures
        r < bound,
{
    fastrand::u32(..bound)
}

} // verus!
