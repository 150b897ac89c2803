//! The asset cache turns a remote `Asset` into a `CachedAsset`: a local file
//! (for HLS, a rewritten playlist whose segments sit beside it) under a cache
//! root, recorded by a row `(asset_id, relative_path)`.
//!
//! Cache state has two shapes, "row and file on disk" or "neither": a row
//! whose file is missing is stale, and is dropped so that the next fetch
//! downloads again. Only HLS sources can be cached; the other kinds of stream
//! are refused. Eviction is explicit.
//!
//! This module decides; the caller performs the database and file system
//! work that each decision names. Paths are carried as text with `/` as the
//! separator.

use vstd::prelude::*;

use crate::hls::HlsError;
use crate::provider::types::{
    asset_id_error_text, parse_urn, urn_text, Asset, AssetId, MediaStream, ProviderId, SpecAssetIdParseError,
};
use crate::text::{chars_of, concat_str, replace_char, replace_chars, split_char, split_on, string_of};

verus! {

/// A row of the asset cache table.
#[derive(Debug, Clone)]
pub struct AssetCacheEntry {
    /// The asset's URN.
    pub asset_id: String,
    /// Where its entry file lives, relative to the cache root, `/`-separated.
    pub relative_path: String,
}

/// An asset available on local disk.
#[derive(Debug, Clone)]
pub struct CachedAsset {
    pub id: AssetId,
    /// Path of the entry file: for HLS, the rewritten `playlist.m3u8`.
    pub local_path: String,
}

/// Why the cache could not produce an asset.
#[derive(Debug, Clone)]
pub enum AssetCacheError {
    /// The cache table could not be read or written (the store's message).
    Repo(String),
    /// Downloading the HLS stream failed.
    Hls(HlsError),
    /// A file system operation on `path` failed.
    Io { path: String, message: String },
    /// The asset's stream is of a kind that cannot be cached.
    UnsupportedSource(&'static str),
    /// A cache row whose asset id is not a valid URN.
    MalformedRow { asset_id: String, reason: String },
}

impl AssetCacheError {
    /// The error's message, as it is displayed to users.
    pub fn to_string(&self) -> (r: String)
        ensures
            match self {
                AssetCacheError::Repo(m) => r@ == m@,
                AssetCacheError::Hls(e) => r@ == crate::hls::error::hls_error_text(e@),
                AssetCacheError::Io { path, message } => r@ == "io error on "@ + path@ + ": "@
                    + message@,
                AssetCacheError::UnsupportedSource(k) => r@ == "unsupported asset source: "@ + k@,
                AssetCacheError::MalformedRow { asset_id, reason } => r@
                    == "malformed cache row for asset_id "@ + asset_id@ + ": "@ + reason@,
            },
    {
        match self {
            AssetCacheError::Repo(m) => m.clone(),
            AssetCacheError::Hls(e) => e.to_string(),
            AssetCacheError::Io { path, message } => {
                let a = concat_str("io error on ", path.as_str());
                let b = a.concat(": ");
                b.concat(message.as_str())
            },
            AssetCacheError::UnsupportedSource(k) => concat_str("unsupported asset source: ", k),
            AssetCacheError::MalformedRow { asset_id, reason } => {
                let a = concat_str("malformed cache row for asset_id ", asset_id.as_str());
                let b = a.concat(": ");
                b.concat(reason.as_str())
            },
        }
    }
}

/// The directory name of an asset: its URN with every `:` made `_`, which
/// is portable because URN segments are otherwise alphanumeric or dashes.
pub open spec fn dir_name_text(id: (ProviderId, Seq<char>)) -> Seq<char> {
    replace_char(urn_text(id), ':', '_')
}

/// Directory name on disk for an asset (see [`dir_name_text`]).
pub fn asset_dir_name(id: &AssetId) -> (r: String)
    ensures
        r@ == dir_name_text(id@),
{
    let urn = id.to_string();
    let v = chars_of(urn.as_str());
    let w = replace_chars(v.as_slice(), ':', '_');
    string_of(w.as_slice())
}

/// Appending a component to a path: a component that starts with `/`
/// replaces the path, and otherwise a single `/` separates the two.
pub open spec fn join_path(base: Seq<char>, seg: Seq<char>) -> Seq<char> {
    if seg.len() > 0 && seg[0] == '/' {
        seg
    } else if base.len() == 0 {
        seg
    } else if base.last() == '/' {
        base + seg
    } else {
        base + "/"@ + seg
    }
}

/// `base` with each of `segs` appended in turn.
pub open spec fn join_all(base: Seq<char>, segs: Seq<Seq<char>>) -> Seq<char>
    decreases segs.len(),
{
    if segs.len() == 0 {
        base
    } else {
        join_path(join_all(base, segs.drop_last()), segs.last())
    }
}

/// Appends `seg` to `base` (see [`join_path`]).
pub fn join(base: &str, seg: &str) -> (r: String)
    ensures
        r@ == join_path(base@, seg@),
{
    let b = chars_of(base);
    let s = chars_of(seg);
    if s.len() > 0 && s[0] == '/' {
        String::from_str(seg)
    } else if b.len() == 0 {
        String::from_str(seg)
    } else if b[b.len() - 1] == '/' {
        concat_str(base, seg)
    } else {
        let a = concat_str(base, "/");
        a.concat(seg)
    }
}

/// The text of a cache row's relative path: `<dir_name>/<entry file>`.
pub open spec fn relative_path_text(dir_name: Seq<char>, entry_filename: Seq<char>) -> Seq<char> {
    dir_name + "/"@ + entry_filename
}

/// A copy of an asset id.
fn copy_id(id: &AssetId) -> (r: AssetId)
    ensures
        r@ == id@,
{
    AssetId::new(id.provider(), String::from_str(id.body()))
}

/// The cached asset that a row stands for, under `cache_dir`: the row's
/// URN parsed back into an id, and its relative path appended one
/// `/`-separated segment at a time.
pub fn entry_to_cached(cache_dir: &str, entry: &AssetCacheEntry) -> (r: Result<CachedAsset, AssetCacheError>)
    ensures
        match parse_urn(entry.asset_id@) {
            Ok(id) => r matches Ok(c) && c.id@ == id && c.local_path@ == join_all(
                cache_dir@,
                split_on(entry.relative_path@, '/'),
            ),
            Err(e) => r matches Err(AssetCacheError::MalformedRow { asset_id, reason }) && asset_id@
                == entry.asset_id@ && reason@ == asset_id_error_text(e),
        },
{
    let id = match AssetId::parse(entry.asset_id.as_str()) {
        Ok(id) => id,
        Err(e) => {
            return Err(
                AssetCacheError::MalformedRow { asset_id: entry.asset_id.clone(), reason: e.to_string() },
            );
        },
    };
    let rel = chars_of(entry.relative_path.as_str());
    let segs = split_char(rel.as_slice(), '/');
    let ghost all = split_on(entry.relative_path@, '/');
    let mut path = String::from_str(cache_dir);
    let mut i: usize = 0;
    assert(all.take(0) =~= Seq::<Seq<char>>::empty());
    while i < segs.len()
        invariant
            crate::text::views_of(segs@) == all,
            i <= segs@.len(),
            path@ == join_all(cache_dir@, all.take(i as int)),
        decreases segs@.len() - i,
    {
        let seg = string_of(segs[i].as_slice());
        assert(seg@ == all[i as int]);
        path = join(path.as_str(), seg.as_str());
        assert(all.take(i + 1).drop_last() =~= all.take(i as int));
        i = i + 1;
    }
    assert(all.take(i as int) =~= all);
    Ok(CachedAsset { id, local_path: path })
}

/// What checking the entry file of a cache row found.
pub enum FileCheck {
    Present,
    Missing,
    /// Looking for the file failed, with this message.
    Failed(String),
}

/// How a lookup of an existing row concludes.
pub enum LookupOutcome {
    /// The asset is cached and its file is on disk.
    Cached(CachedAsset),
    /// The row's file is gone: drop the row and download again.
    StaleRow,
    Failed(AssetCacheError),
}

/// Concludes a lookup once the entry file of `cached` has been checked.
pub fn classify_lookup(cached: CachedAsset, check: FileCheck) -> (r: LookupOutcome)
    ensures
        match check {
            FileCheck::Present => r == LookupOutcome::Cached(cached),
            FileCheck::Missing => r is StaleRow,
            FileCheck::Failed(m) => r matches LookupOutcome::Failed(AssetCacheError::Io { path, message })
                && path@ == cached.local_path@ && message@ == m@,
        },
{
    match check {
        FileCheck::Present => LookupOutcome::Cached(cached),
        FileCheck::Missing => LookupOutcome::StaleRow,
        FileCheck::Failed(m) => LookupOutcome::Failed(AssetCacheError::Io { path: cached.local_path, message: m }),
    }
}

/// The playlist URL to download for a source, or the refusal of a source
/// that cannot be cached.
pub fn download_url(source: &MediaStream) -> (r: Result<String, AssetCacheError>)
    ensures
        match source {
            MediaStream::Hls { url_high, .. } => r matches Ok(u) && u@ == url_high@,
            MediaStream::DirectVideo { .. } => r matches Err(AssetCacheError::UnsupportedSource(k)) && k@
                == "direct_video"@,
            MediaStream::YouTubeDownload { .. } => r matches Err(AssetCacheError::UnsupportedSource(k))
                && k@ == "youtube_download"@,
        },
{
    match source {
        MediaStream::Hls { url_high, .. } => Ok(url_high.clone()),
        MediaStream::DirectVideo { .. } => Err(AssetCacheError::UnsupportedSource("direct_video")),
        MediaStream::YouTubeDownload { .. } => Err(AssetCacheError::UnsupportedSource("youtube_download")),
    }
}

/// The row to record and the asset to hand back once the stream of `id`
/// has been downloaded into `<cache_dir>/<dir_name>/`, its entry file named
/// `entry_filename`.
pub fn record_download(cache_dir: &str, id: &AssetId, entry_filename: &str) -> (r: (
    AssetCacheEntry,
    CachedAsset,
))
    ensures
        r.0.asset_id@ == urn_text(id@),
        r.0.relative_path@ == relative_path_text(dir_name_text(id@), entry_filename@),
        r.1.id@ == id@,
        r.1.local_path@ == join_path(join_path(cache_dir@, dir_name_text(id@)), entry_filename@),
{
    let dir_name = asset_dir_name(id);
    let a = concat_str(dir_name.as_str(), "/");
    let relative_path = a.concat(entry_filename);
    let dir = join(cache_dir, dir_name.as_str());
    let local_path = join(dir.as_str(), entry_filename);
    (AssetCacheEntry { asset_id: id.to_string(), relative_path }, CachedAsset { id: copy_id(id), local_path })
}

/// The directory that holds the files of `id` under `cache_dir`.
pub fn asset_dir(cache_dir: &str, id: &AssetId) -> (r: String)
    ensures
        r@ == join_path(cache_dir@, dir_name_text(id@)),
{
    let dir_name = asset_dir_name(id);
    join(cache_dir, dir_name.as_str())
}

/// What removing an asset's directory did.
pub enum DirRemoval {
    Removed,
    /// There was no such directory.
    NotFound,
    /// Removal failed, with this message.
    Failed(String),
}

/// How an eviction concludes: whether a row was deleted, unless removing
/// the directory `dir` failed for a reason other than its absence.
pub open spec fn evict_step(row_removed: bool, dir: String, removal: DirRemoval, r: Result<bool, AssetCacheError>) -> bool {
    match removal {
        DirRemoval::Failed(m) => r matches Err(AssetCacheError::Io { path, message }) && path@ == dir@ && message@
            == m@,
        _ => r == Ok::<bool, AssetCacheError>(row_removed),
    }
}

/// Concludes an eviction (see [`evict_step`]).
pub fn evict_outcome(row_removed: bool, dir: String, removal: DirRemoval) -> (r: Result<bool, AssetCacheError>)
    ensures
        evict_step(row_removed, dir, removal, r),
{
    match removal {
        DirRemoval::Failed(m) => Err(AssetCacheError::Io { path: dir, message: m }),
        _ => Ok(row_removed),
    }
}

/// What fetching an asset does next. A fetch reads the asset's row first
/// ([`fetch_after_row_read`]); each later step says what to do, and the
/// caller does it and hands the outcome to the matching `fetch_after_*`
/// function, until the fetch is [`FetchStep::Done`].
pub enum FetchStep {
    /// Look for the entry file of this cached asset.
    CheckFile(CachedAsset),
    /// The row's entry file is gone: delete the row, then download again.
    DropStaleRow,
    /// Create this directory for the asset's files.
    CreateDir(String),
    /// Download the HLS stream at `url` into `dir`.
    Download { url: String, dir: String },
    /// Record this row, then hand out the cached asset.
    WriteRow(AssetCacheEntry, CachedAsset),
    /// The fetch is over.
    Done(Result<CachedAsset, AssetCacheError>),
}

/// The directory of `asset` under `cache_dir`.
pub open spec fn asset_dir_text(cache_dir: Seq<char>, asset: Asset) -> Seq<char> {
    join_path(cache_dir, dir_name_text(asset.id@))
}

/// The step after reading the asset's row (`read`: the row, if any, or the
/// store's error): a row is turned into the cached asset it names, whose
/// file is then looked for; without a row the asset is downloaded, into a
/// directory that is created first.
pub open spec fn row_read_step(
    cache_dir: Seq<char>,
    asset: Asset,
    read: Result<Option<AssetCacheEntry>, String>,
    r: FetchStep,
) -> bool {
    match read {
        Err(m) => r matches FetchStep::Done(Err(AssetCacheError::Repo(x))) && x@ == m@,
        Ok(None) => r matches FetchStep::CreateDir(d) && d@ == asset_dir_text(cache_dir, asset),
        Ok(Some(e)) => match parse_urn(e.asset_id@) {
            Ok(id) => r matches FetchStep::CheckFile(c) && c.id@ == id && c.local_path@ == join_all(
                cache_dir,
                split_on(e.relative_path@, '/'),
            ),
            Err(pe) => r matches FetchStep::Done(Err(AssetCacheError::MalformedRow { asset_id, reason }))
                && asset_id@ == e.asset_id@ && reason@ == asset_id_error_text(pe),
        },
    }
}

/// The step after looking for the entry file of `cached` (see
/// [`classify_lookup`]): a file on disk is served; a missing one makes the
/// row stale; a failed look is an error.
pub open spec fn file_check_step(cached: CachedAsset, check: FileCheck, r: FetchStep) -> bool {
    match check {
        FileCheck::Present => r == FetchStep::Done(Ok(cached)),
        FileCheck::Missing => r is DropStaleRow,
        FileCheck::Failed(m) => r matches FetchStep::Done(Err(AssetCacheError::Io { path, message }))
            && path@ == cached.local_path@ && message@ == m@,
    }
}

/// The step after deleting a stale row: create the asset's directory and
/// download again, unless the store failed.
pub open spec fn row_drop_step(cache_dir: Seq<char>, asset: Asset, dropped: Result<bool, String>, r: FetchStep) -> bool {
    match dropped {
        Err(m) => r matches FetchStep::Done(Err(AssetCacheError::Repo(x))) && x@ == m@,
        Ok(_) => r matches FetchStep::CreateDir(d) && d@ == asset_dir_text(cache_dir, asset),
    }
}

/// The step after creating the asset's directory: download its HLS stream
/// into it (see [`download_url`]); a stream of another kind is refused.
pub open spec fn create_dir_step(cache_dir: Seq<char>, asset: Asset, created: Result<(), String>, r: FetchStep) -> bool {
    match created {
        Err(m) => r matches FetchStep::Done(Err(AssetCacheError::Io { path, message })) && path@
            == asset_dir_text(cache_dir, asset) && message@ == m@,
        Ok(_) => match asset.source {
            MediaStream::Hls { url_high, .. } => r matches FetchStep::Download { url, dir } && url@ == url_high@
                && dir@ == asset_dir_text(cache_dir, asset),
            MediaStream::DirectVideo { .. } => r matches FetchStep::Done(
                Err(AssetCacheError::UnsupportedSource(k)),
            ) && k@ == "direct_video"@,
            MediaStream::YouTubeDownload { .. } => r matches FetchStep::Done(
                Err(AssetCacheError::UnsupportedSource(k)),
            ) && k@ == "youtube_download"@,
        },
    }
}

/// The step after downloading (`downloaded`: the name of the entry file
/// written into the asset's directory, or the download's error): record the
/// row for it (see [`record_download`]).
pub open spec fn download_step(cache_dir: Seq<char>, asset: Asset, downloaded: Result<String, HlsError>, r: FetchStep) -> bool {
    match downloaded {
        Err(e) => r matches FetchStep::Done(Err(AssetCacheError::Hls(x))) && x@ == e@,
        Ok(f) => r matches FetchStep::WriteRow(row, c) && row.asset_id@ == urn_text(asset.id@)
            && row.relative_path@ == relative_path_text(dir_name_text(asset.id@), f@) && c.id@ == asset.id@
            && c.local_path@ == join_path(asset_dir_text(cache_dir, asset), f@),
    }
}

/// The step after recording the row of `cached`: the fetch hands it out,
/// unless the store failed.
pub open spec fn row_write_step(cached: CachedAsset, written: Result<(), String>, r: FetchStep) -> bool {
    match written {
        Err(m) => r matches FetchStep::Done(Err(AssetCacheError::Repo(x))) && x@ == m@,
        Ok(_) => r == FetchStep::Done(Ok(cached)),
    }
}

/// Begins a fetch of `asset` once its row has been read (see [`row_read_step`]).
pub fn fetch_after_row_read(cache_dir: &str, asset: &Asset, read: Result<Option<AssetCacheEntry>, String>) -> (r: FetchStep)
    ensures
        row_read_step(cache_dir@, *asset, read, r),
{
    match read {
        Err(m) => FetchStep::Done(Err(AssetCacheError::Repo(m))),
        Ok(None) => FetchStep::CreateDir(asset_dir(cache_dir, &asset.id)),
        Ok(Some(e)) => match entry_to_cached(cache_dir, &e) {
            Ok(c) => FetchStep::CheckFile(c),
            Err(x) => FetchStep::Done(Err(x)),
        },
    }
}

/// Goes on once the entry file of `cached` has been looked for (see
/// [`file_check_step`]).
pub fn fetch_after_file_check(cached: CachedAsset, check: FileCheck) -> (r: FetchStep)
    ensures
        file_check_step(cached, check, r),
{
    match classify_lookup(cached, check) {
        LookupOutcome::Cached(c) => FetchStep::Done(Ok(c)),
        LookupOutcome::StaleRow => FetchStep::DropStaleRow,
        LookupOutcome::Failed(e) => FetchStep::Done(Err(e)),
    }
}

/// Goes on once a stale row has been deleted (see [`row_drop_step`]).
pub fn fetch_after_row_drop(cache_dir: &str, asset: &Asset, dropped: Result<bool, String>) -> (r: FetchStep)
    ensures
        row_drop_step(cache_dir@, *asset, dropped, r),
{
    match dropped {
        Err(m) => FetchStep::Done(Err(AssetCacheError::Repo(m))),
        Ok(_) => FetchStep::CreateDir(asset_dir(cache_dir, &asset.id)),
    }
}

/// Goes on once the asset's directory has been created (see
/// [`create_dir_step`]).
pub fn fetch_after_create_dir(cache_dir: &str, asset: &Asset, created: Result<(), String>) -> (r: FetchStep)
    ensures
        create_dir_step(cache_dir@, *asset, created, r),
{
    let dir = asset_dir(cache_dir, &asset.id);
    match created {
        Err(m) => FetchStep::Done(Err(AssetCacheError::Io { path: dir, message: m })),
        Ok(_) => match download_url(&asset.source) {
            Ok(url) => FetchStep::Download { url, dir },
            Err(e) => FetchStep::Done(Err(e)),
        },
    }
}

/// Goes on once the stream has been downloaded (see [`download_step`]).
pub fn fetch_after_download(cache_dir: &str, asset: &Asset, downloaded: Result<String, HlsError>) -> (r: FetchStep)
    ensures
        download_step(cache_dir@, *asset, downloaded, r),
{
    match downloaded {
        Err(e) => FetchStep::Done(Err(AssetCacheError::Hls(e))),
        Ok(f) => {
            let (row, c) = record_download(cache_dir, &asset.id, f.as_str());
            FetchStep::WriteRow(row, c)
        },
    }
}

/// Ends the fetch once the row of `cached` has been recorded (see
/// [`row_write_step`]).
pub fn fetch_after_row_write(cached: CachedAsset, written: Result<(), String>) -> (r: FetchStep)
    ensures
        row_write_step(cached, written, r),
{
    match written {
        Err(m) => FetchStep::Done(Err(AssetCacheError::Repo(m))),
        Ok(_) => FetchStep::Done(Ok(cached)),
    }
}

/// A row recorded for a download reads back, under the same cache root, as
/// the very asset that the download handed out: its URN parses to the same
/// id, and its relative path rejoins to the same local path. This holds for
/// every id with a non-empty body and every entry file name, as long as
/// neither holds a `/`.
pub proof fn law_recorded_row_reads_back(
    cache_dir: Seq<char>,
    id: (ProviderId, Seq<char>),
    entry_filename: Seq<char>,
)
    requires
        id.1.len() > 0,
        forall|i: int| 0 <= i < id.1.len() ==> id.1[i] != '/',
        forall|i: int| 0 <= i < entry_filename.len() ==> entry_filename[i] != '/',
    ensures
        parse_urn(urn_text(id)) == Ok::<(ProviderId, Seq<char>), SpecAssetIdParseError>(id),
        join_all(cache_dir, split_on(relative_path_text(dir_name_text(id), entry_filename), '/'))
            == join_path(join_path(cache_dir, dir_name_text(id)), entry_filename),
{
    crate::provider::types::law_urn_round_trip(id);
    reveal_strlit("urn:");
    reveal_strlit(":");
    reveal_strlit("/");
    reveal_strlit("dam");
    reveal_strlit("joysound");
    reveal_strlit("you_tube");
    let urn = urn_text(id);
    let dir = dir_name_text(id);
    assert forall|j: int| 0 <= j < urn.len() implies urn[j] != '/' by {
        let name = crate::provider::types::provider_name(id.0);
        if j >= 4 + name.len() + 1 {
            assert(urn[j] == id.1[j - 4 - name.len() - 1]);
        }
    }
    assert forall|j: int| 0 <= j < dir.len() implies dir[j] != '/' by {
        assert(urn[j] != '/');
    }
    let rel = relative_path_text(dir, entry_filename);
    assert(rel[dir.len() as int] == '/');
    assert forall|j: int| 0 <= j < dir.len() implies rel[j] != '/' by {
        assert(rel[j] == dir[j]);
    }
    crate::text::lemma_first_index_unique(rel, '/', dir.len() as int);
    assert(rel.take(dir.len() as int) =~= dir);
    assert(rel.skip(dir.len() as int + 1) =~= entry_filename);
    crate::text::lemma_first_index_unique(entry_filename, '/', entry_filename.len() as int);
    let segs = split_on(rel, '/');
    assert(split_on(entry_filename, '/') =~= seq![entry_filename]);
    assert(segs =~= seq![dir, entry_filename]);
    assert(segs.drop_last() =~= seq![dir]);
    assert(segs.drop_last().drop_last() =~= Seq::<Seq<char>>::empty());
    let one: Seq<Seq<char>> = seq![dir];
    assert(one.drop_last() =~= Seq::<Seq<char>>::empty());
    assert(join_all(cache_dir, one.drop_last()) == cache_dir);
    assert(one.last() == dir);
    assert(join_all(cache_dir, one) == join_path(cache_dir, dir));
    assert(segs.drop_last() == one);
    assert(segs.last() == entry_filename);
}

/// An id and an entry file name that the read-back law covers: a non-empty
/// body, and no `/` in either.
pub open spec fn plain_names(id: (ProviderId, Seq<char>), entry_filename: Seq<char>) -> bool {
    &&& id.1.len() > 0
    &&& forall|i: int| 0 <= i < id.1.len() ==> id.1[i] != '/'
    &&& forall|i: int| 0 <= i < entry_filename.len() ==> entry_filename[i] != '/'
}

/// After a fetch that downloaded the asset and recorded its row, fetching it
/// again reads that row back as the very asset handed out, and, the file
/// being on disk, serves it as it is: no download is made.
pub proof fn law_second_fetch_is_served_from_cache(
    cache_dir: Seq<char>,
    asset: Asset,
    entry_filename: String,
    row: AssetCacheEntry,
    cached: CachedAsset,
    first_written: FetchStep,
    second_read: FetchStep,
    second_checked: FetchStep,
)
    requires
        plain_names(asset.id@, entry_filename@),
        download_step(cache_dir, asset, Ok(entry_filename), FetchStep::WriteRow(row, cached)),
        row_write_step(cached, Ok(()), first_written),
        row_read_step(cache_dir, asset, Ok(Some(row)), second_read),
        second_read matches FetchStep::CheckFile(c) && file_check_step(c, FileCheck::Present, second_checked),
    ensures
        first_written == FetchStep::Done(Ok(cached)),
        second_read matches FetchStep::CheckFile(c) && c.id@ == cached.id@ && c.local_path@ == cached.local_path@,
        second_checked matches FetchStep::Done(Ok(c)) && c.id@ == cached.id@ && c.local_path@
            == cached.local_path@,
{
    law_recorded_row_reads_back(cache_dir, asset.id@, entry_filename@);
}

/// When the file of a recorded row was lost, the next fetch finds it
/// missing, drops the row, creates the asset's directory, downloads the
/// stream once more into it, and records a row that reads back as the asset
/// it hands out, whose file the download wrote: row and file again.
pub proof fn law_lost_file_is_downloaded_again(
    cache_dir: Seq<char>,
    asset: Asset,
    found: CachedAsset,
    row_existed: bool,
    entry_filename: String,
    row: AssetCacheEntry,
    cached: CachedAsset,
    checked: FetchStep,
    dropped: FetchStep,
    created: FetchStep,
    written: FetchStep,
)
    requires
        asset.source is Hls,
        plain_names(asset.id@, entry_filename@),
        file_check_step(found, FileCheck::Missing, checked),
        row_drop_step(cache_dir, asset, Ok(row_existed), dropped),
        create_dir_step(cache_dir, asset, Ok(()), created),
        download_step(cache_dir, asset, Ok(entry_filename), FetchStep::WriteRow(row, cached)),
        row_write_step(cached, Ok(()), written),
    ensures
        checked is DropStaleRow,
        dropped matches FetchStep::CreateDir(d) && d@ == asset_dir_text(cache_dir, asset),
        created matches FetchStep::Download { url, dir } && dir@ == asset_dir_text(cache_dir, asset) && (
        asset.source matches MediaStream::Hls { url_high, .. } && url@ == url_high@),
        cached.local_path@ == join_path(asset_dir_text(cache_dir, asset), entry_filename@),
        parse_urn(row.asset_id@) == Ok::<(ProviderId, Seq<char>), SpecAssetIdParseError>(asset.id@),
        join_all(cache_dir, split_on(row.relative_path@, '/')) == cached.local_path@,
        written == FetchStep::Done(Ok(cached)),
{
    law_recorded_row_reads_back(cache_dir, asset.id@, entry_filename@);
}

/// A fetch hands out an asset only in two places: when the file of its row
/// was found on disk, and right after the row for a finished download was
/// recorded. Every other step goes on, or fails.
pub proof fn law_fetch_hands_out_only_what_is_on_disk(
    cache_dir: Seq<char>,
    asset: Asset,
    cached: CachedAsset,
    read: Result<Option<AssetCacheEntry>, String>,
    check: FileCheck,
    dropped: Result<bool, String>,
    created: Result<(), String>,
    downloaded: Result<String, HlsError>,
    written: Result<(), String>,
    s1: FetchStep,
    s2: FetchStep,
    s3: FetchStep,
    s4: FetchStep,
    s5: FetchStep,
    s6: FetchStep,
)
    requires
        row_read_step(cache_dir, asset, read, s1),
        file_check_step(cached, check, s2),
        row_drop_step(cache_dir, asset, dropped, s3),
        create_dir_step(cache_dir, asset, created, s4),
        download_step(cache_dir, asset, downloaded, s5),
        row_write_step(cached, written, s6),
    ensures
        !(s1 matches FetchStep::Done(Ok(_))),
        s2 matches FetchStep::Done(Ok(c)) ==> check is Present && c == cached,
        !(s3 matches FetchStep::Done(Ok(_))),
        !(s4 matches FetchStep::Done(Ok(_))),
        !(s5 matches FetchStep::Done(Ok(_))),
        s6 matches FetchStep::Done(Ok(c)) ==> written is Ok && c == cached,
{
}

/// Evicting an asset whose directory is removed, or was already gone,
/// answers whether a row was deleted; evicting it again, when the store
/// has no row left and the directory is gone, answers `false`.
pub proof fn law_evict_twice(
    dir: String,
    row_removed: bool,
    removal: DirRemoval,
    first: Result<bool, AssetCacheError>,
    second: Result<bool, AssetCacheError>,
)
    requires
        !(removal is Failed),
        evict_step(row_removed, dir, removal, first),
        evict_step(false, dir, DirRemoval::NotFound, second),
    ensures
        first == Ok::<bool, AssetCacheError>(row_removed),
        second == Ok::<bool, AssetCacheError>(false),
{
}

} // verus!
