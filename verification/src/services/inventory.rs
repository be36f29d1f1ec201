//! The inventory: the regular files of one directory listing, numbered from
//! zero in the order of the listing. An inventory is built whole and never
//! changed afterwards.

use std::collections::HashMap;
use vstd::prelude::*;
use crate::models::meme::{Meme, MemeView};
use crate::utils::error::ScanError;

verus! {

broadcast use vstd::std_specs::hash::group_hash_axioms;

/// One entry of a directory listing.
#[derive(Debug)]
pub struct ScannedEntry {
    pub path: String,
    pub filename: String,
    pub is_file: bool,
    pub size_bytes: u64,
}

/// The mathematical value of a [`ScannedEntry`].
pub struct ScannedEntryView {
    pub path: Seq<char>,
    pub filename: Seq<char>,
    pub is_file: bool,
    pub size_bytes: u64,
}

impl View for ScannedEntry {
    type V = ScannedEntryView;

    open spec fn view(&self) -> ScannedEntryView {
        ScannedEntryView {
            path: self.path@,
            filename: self.filename@,
            is_file: self.is_file,
            size_bytes: self.size_bytes,
        }
    }
}

/// What listing the top level of the directory gave.
#[derive(Debug)]
pub enum Listing {
    /// Listing the directory, or classifying one of its entries, failed.
    Failed,
    /// The entries, in the order in which the directory gave them.
    Entries(Vec<ScannedEntry>),
}

/// The mathematical value of a [`Listing`].
pub enum ListingView {
    Failed,
    Entries(Seq<ScannedEntryView>),
}

/// The entries of a listing, each by its value.
pub open spec fn entry_views(entries: Seq<ScannedEntry>) -> Seq<ScannedEntryView> {
    Seq::new(entries.len(), |i: int| entries[i]@)
}

impl View for Listing {
    type V = ListingView;

    open spec fn view(&self) -> ListingView {
        match self {
            Listing::Failed => ListingView::Failed,
            Listing::Entries(entries) => ListingView::Entries(entry_views(entries@)),
        }
    }
}

/// The regular files among `entries`, in their order.
pub open spec fn regular_files(entries: Seq<ScannedEntryView>) -> Seq<ScannedEntryView>
    decreases entries.len(),
{
    if entries.len() == 0 {
        Seq::empty()
    } else if entries.last().is_file {
        regular_files(entries.drop_last()).push(entries.last())
    } else {
        regular_files(entries.drop_last())
    }
}

/// The media type that `mime_guess` gives for a path: the first type that its
/// table lists for the path's extension, `application/octet-stream` where it
/// lists none.
pub uninterp spec fn guessed_mime(path: Seq<char>) -> Seq<char>;

/// Calls `mime_guess::from_path` on `path`, takes the first guess or, where
/// there is none, the generic binary type (`first_or_octet_stream`), and
/// writes it out as text. Nothing is proved of the table: the contract only
/// gives the result its name.
#[verifier::external_body]
fn guess_mime(path: &str) -> (r: String)
    ensures
        r@ == guessed_mime(path@),
{
    mime_guess::from_path(path).first_or_octet_stream().to_string()
}

/// The asset that the file `entry` becomes under `id`, with `mime_type` as its
/// media type.
pub open spec fn asset_of(id: u32, entry: ScannedEntryView, mime_type: Seq<char>) -> MemeView {
    MemeView {
        id,
        path: entry.path,
        mime_type,
        filename: entry.filename,
        size_bytes: entry.size_bytes,
    }
}

/// Builds the asset for the file `entry` under `id`.
pub fn describe(id: u32, entry: &ScannedEntry, mime_type: String) -> (r: Meme)
    ensures
        r@ == asset_of(id, entry@, mime_type@),
{
    Meme {
        id,
        path: entry.path.clone(),
        mime_type,
        filename: entry.filename.clone(),
        size_bytes: entry.size_bytes,
    }
}

/// The mathematical value of a [`Generation`].
pub struct GenerationView {
    pub assets: Map<u32, MemeView>,
    pub total_count: u32,
}

impl GenerationView {
    /// The ids are exactly those below `total_count`, and each asset carries
    /// the id it is found under.
    pub open spec fn wf(self) -> bool {
        &&& forall|id: u32| self.assets.contains_key(id) <==> id < self.total_count
        &&& forall|id: u32| self.assets.contains_key(id) ==> (#[trigger] self.assets[id]).id == id
    }

    /// The inventory of nothing.
    pub open spec fn empty() -> GenerationView {
        GenerationView { assets: Map::empty(), total_count: 0 }
    }
}

/// The inventory that a list of entries gives: its regular files, numbered in
/// their order.
pub open spec fn scanned(entries: Seq<ScannedEntryView>) -> GenerationView {
    let files = regular_files(entries);
    GenerationView {
        assets: Map::new(
            |id: u32| id < files.len(),
            |id: u32| asset_of(id, files[id as int], guessed_mime(files[id as int].path)),
        ),
        total_count: files.len() as u32,
    }
}

/// What a scan returns for a listing: `Io` where listing failed, `Empty` where
/// it holds no regular file, otherwise the inventory of its regular files.
pub open spec fn scan_result(listing: ListingView) -> Result<GenerationView, ScanError> {
    match listing {
        ListingView::Failed => Err(ScanError::Io),
        ListingView::Entries(entries) => if regular_files(entries).len() == 0 {
            Err(ScanError::Empty)
        } else {
            Ok(scanned(entries))
        },
    }
}

/// Whether the regular files of a listing can be numbered by `u32`.
pub open spec fn countable(listing: ListingView) -> bool {
    match listing {
        ListingView::Failed => true,
        ListingView::Entries(entries) => regular_files(entries).len() <= u32::MAX,
    }
}

/// A longer listing has no fewer regular files.
pub proof fn lemma_regular_files_grow(entries: Seq<ScannedEntryView>, n: int)
    requires
        0 <= n <= entries.len(),
    ensures
        regular_files(entries.take(n)).len() <= regular_files(entries).len(),
        regular_files(entries).len() <= entries.len(),
    decreases entries.len(),
{
    if entries.len() > 0 {
        if n == entries.len() {
            assert(entries.take(n) =~= entries);
            lemma_regular_files_grow(entries.drop_last(), n - 1);
        } else {
            assert(entries.drop_last().take(n) =~= entries.take(n));
            lemma_regular_files_grow(entries.drop_last(), n);
        }
    } else {
        assert(entries.take(n) =~= entries);
    }
}

/// A scan succeeds exactly on a listing that was read and holds a regular
/// file; its inventory then has one asset for each regular file, under the
/// ids below their number, each with the name, path and size of its file.
pub proof fn lemma_scan_counts_files(listing: ListingView)
    requires
        countable(listing),
    ensures
        match scan_result(listing) {
            Ok(generation) => {
                &&& listing matches ListingView::Entries(entries)
                &&& generation.wf()
                &&& generation.total_count == regular_files(entries).len()
                &&& generation.total_count > 0
                &&& forall|id: u32|
                    id < generation.total_count ==> {
                        &&& (#[trigger] generation.assets[id]).path == regular_files(
                            entries,
                        )[id as int].path
                        &&& generation.assets[id].filename == regular_files(
                            entries,
                        )[id as int].filename
                        &&& generation.assets[id].size_bytes == regular_files(
                            entries,
                        )[id as int].size_bytes
                    }
            },
            Err(ScanError::Io) => listing is Failed,
            Err(ScanError::Empty) => listing matches ListingView::Entries(entries)
                && regular_files(entries).len() == 0,
        },
{
}

/// Every regular file of a listing is one of its entries, and is a regular
/// file.
pub proof fn lemma_regular_files_are_entries(entries: Seq<ScannedEntryView>, k: int)
    requires
        0 <= k < regular_files(entries).len(),
    ensures
        regular_files(entries)[k].is_file,
        entries.contains(regular_files(entries)[k]),
    decreases entries.len(),
{
    if entries.len() > 0 {
        let rest = regular_files(entries.drop_last());
        if entries.last().is_file && k == rest.len() {
            assert(entries[entries.len() - 1] == regular_files(entries)[k]);
        } else {
            lemma_regular_files_are_entries(entries.drop_last(), k);
            let w = choose|i: int|
                0 <= i < entries.drop_last().len() && entries.drop_last()[i] == rest[k];
            assert(entries[w] == regular_files(entries)[k]);
        }
    }
}

/// The inventory of a list of entries is well-formed and holds as many
/// assets as the list has regular files, where `u32` can number them.
pub proof fn lemma_scanned_wf(entries: Seq<ScannedEntryView>)
    requires
        regular_files(entries).len() <= u32::MAX,
    ensures
        scanned(entries).wf(),
        scanned(entries).total_count == regular_files(entries).len(),
{
}

impl Listing {
    /// The number of regular files in the listing; none where listing failed.
    pub fn file_count(&self) -> (r: usize)
        ensures
            match self@ {
                ListingView::Failed => r == 0,
                ListingView::Entries(entries) => r == regular_files(entries).len(),
            },
    {
        match self {
            Listing::Failed => 0,
            Listing::Entries(entries) => {
                let ghost views = entry_views(entries@);
                let mut count: usize = 0;
                let mut i: usize = 0;
                assert(views.take(0) =~= Seq::empty());
                while i < entries.len()
                    invariant
                        views == entry_views(entries@),
                        i <= entries.len(),
                        count == regular_files(views.take(i as int)).len(),
                    decreases entries.len() - i,
                {
                    proof {
                        lemma_regular_files_grow(views.take(i + 1), i + 1);
                        assert(views.take(i + 1).drop_last() =~= views.take(i as int));
                        assert(views.take(i + 1).last() == entries[i as int]@);
                    }
                    if entries[i].is_file {
                        count += 1;
                    }
                    i += 1;
                }
                proof {
                    assert(views.take(i as int) =~= views);
                }
                count
            },
        }
    }

    /// Whether the regular files of the listing can be numbered by `u32`, as
    /// [`Generation::rebuild`] asks.
    pub fn is_countable(&self) -> (r: bool)
        ensures
            r == countable(self@),
    {
        self.file_count() <= u32::MAX as usize
    }
}

/// One complete snapshot of the directory: the assets by id, and their number.
#[derive(Debug)]
pub struct Generation {
    memes: HashMap<u32, Meme>,
    total_count: u32,
}

impl View for Generation {
    type V = GenerationView;

    closed spec fn view(&self) -> GenerationView {
        GenerationView {
            assets: Map::new(|id: u32| self.memes@.contains_key(id), |id: u32| self.memes@[id]@),
            total_count: self.total_count,
        }
    }
}

impl Generation {
    /// The inventory of nothing.
    pub fn empty() -> (r: Generation)
        ensures
            r@ == GenerationView::empty(),
            r@.wf(),
    {
        let r = Generation { memes: HashMap::new(), total_count: 0 };
        assert(r@.assets =~= Map::empty());
        r
    }

    /// The number of assets.
    pub fn total_count(&self) -> (r: u32)
        ensures
            r == self@.total_count,
    {
        self.total_count
    }

    /// The asset with the given id, if the inventory has one.
    pub fn get(&self, id: u32) -> (r: Option<&Meme>)
        ensures
            match r {
                Some(meme) => self@.assets.contains_key(id) && meme@ == self@.assets[id],
                None => !self@.assets.contains_key(id),
            },
    {
        self.memes.get(&id)
    }

    /// Builds the inventory of a listing.
    ///
    /// Fails with `Io` where listing failed and with `Empty` where the listing
    /// holds no regular file.
    pub fn rebuild(listing: &Listing) -> (r: Result<Generation, ScanError>)
        requires
            countable(listing@),
        ensures
            match r {
                Ok(generation) => scan_result(listing@) == Ok::<GenerationView, ScanError>(
                    generation@,
                ) && generation@.wf(),
                Err(e) => scan_result(listing@) == Err::<GenerationView, ScanError>(e),
            },
    {
        match listing {
            Listing::Failed => Err(ScanError::Io),
            Listing::Entries(entries) => {
                let ghost views = entry_views(entries@);
                let mut memes: HashMap<u32, Meme> = HashMap::new();
                let mut count: u32 = 0;
                let mut i: usize = 0;
                assert(views.take(0) =~= Seq::empty());
                while i < entries.len()
                    invariant
                        views == entry_views(entries@),
                        regular_files(views).len() <= u32::MAX,
                        i <= entries.len(),
                        count == regular_files(views.take(i as int)).len(),
                        forall|id: u32| memes@.contains_key(id) <==> id < count,
                        forall|id: u32|
                            id < count ==> (#[trigger] memes@[id])@ == asset_of(
                                id,
                                regular_files(views.take(i as int))[id as int],
                                guessed_mime(regular_files(views.take(i as int))[id as int].path),
                            ),
                    decreases entries.len() - i,
                {
                    let entry = &entries[i];
                    proof {
                        lemma_regular_files_grow(views, i + 1);
                        assert(views.take(i + 1).drop_last() =~= views.take(i as int));
                        assert(views.take(i + 1).last() == entry@);
                    }
                    if entry.is_file {
                        let mime_type = guess_mime(entry.path.as_str());
                        let meme = describe(count, entry, mime_type);
                        memes.insert(count, meme);
                        count += 1;
                    }
                    i += 1;
                }
                proof {
                    assert(views.take(i as int) =~= views);
                }
                if count == 0 {
                    Err(ScanError::Empty)
                } else {
                    let generation = Generation { memes, total_count: count };
                    proof {
                        assert(generation@.assets =~= scanned(views).assets);
                        lemma_scanned_wf(views);
                    }
                    Ok(generation)
                }
            },
        }
    }
}

} // verus!
