//! The per-source cache of extensions.
//!
//! Each source's extensions are kept in `<cache>/<slug>.json` (or in numbered
//! batches under `<cache>/<slug>/`), together with the time they were fetched,
//! when they expire and the catalog's etag. Reading, writing and encoding the
//! files is the caller's part; what a file holds, and what is read back from
//! it, is decided here.

use vstd::prelude::*;

use crate::config::Config;
use crate::digest::{sha256_hex, sha256_lower_hex};
use crate::domain::{CacheEntry, Extension, ExtensionId};
use crate::error::MarketplaceError;
use crate::fetcher::{ttl_overflow_error, ttl_overflow_message};
use crate::paths::{join_path, join_spec};
use crate::text::{decimal_spec, join, join_spec as join_texts_spec, strings_view, u64_to_padded_decimal, zero_pad_spec};
use crate::time::{TimeSpan, Timestamp, MAX_TIMESTAMP_NANOS};

verus! {

/// Where the cache files of the sources live.
#[derive(Debug, Clone)]
pub struct CacheStore {
    root: String,
}

/// The file name of batch `index`: `batch-NNN.json`, the index padded to three digits.
pub open spec fn batch_file_spec(index: u32) -> Seq<char> {
    "batch-"@ + zero_pad_spec(decimal_spec(index as nat), 3) + ".json"@
}

impl View for CacheStore {
    type V = Seq<char>;

    /// The cache directory.
    closed spec fn view(&self) -> Seq<char> {
        self.root@
    }
}

impl CacheStore {
    /// A store rooted at the given directory.
    pub fn for_root(root: &str) -> (r: Self)
        ensures
            r@ == root@,
    {
        CacheStore { root: String::from_str(root) }
    }

    /// The store in the cache directory of the configuration (which the
    /// caller creates).
    pub fn new(config: &Config) -> (r: Self)
        ensures
            r@ == config@.cache_dir,
    {
        CacheStore { root: config.cache_dir().clone() }
    }

    /// The cache directory.
    pub fn root(&self) -> (r: &String)
        ensures
            r@ == self@,
    {
        &self.root
    }

    /// `<root>/<slug>.json`.
    pub fn cache_path(&self, source_slug: &str) -> (r: String)
        ensures
            r@ == join_spec(self@, source_slug@ + ".json"@),
    {
        let mut name = String::from_str(source_slug);
        name.append(".json");
        join_path(self.root.as_str(), name.as_str())
    }

    /// `<root>/<slug>/batch-NNN.json`.
    pub fn batch_path(&self, source_slug: &str, batch_index: u32) -> (r: String)
        ensures
            r@ == join_spec(join_spec(self@, source_slug@), batch_file_spec(batch_index)),
    {
        let dir = join_path(self.root.as_str(), source_slug);
        let name = batch_file_name(batch_index);
        join_path(dir.as_str(), name.as_str())
    }
}

fn batch_file_name(batch_index: u32) -> (r: String)
    ensures
        r@ == batch_file_spec(batch_index),
{
    let digits = u64_to_padded_decimal(batch_index as u64, 3);
    let mut name = String::from_str("batch-");
    name.append(digits.as_str());
    name.append(".json");
    name
}

/// `<slug>/batch-NNN.json`, how errors about a batch name it.
pub fn batch_label(source_slug: &str, batch_index: u32) -> (r: String)
    ensures
        r@ == source_slug@ + "/"@ + batch_file_spec(batch_index),
{
    let name = batch_file_name(batch_index);
    let mut label = String::from_str(source_slug);
    label.append("/");
    label.append(name.as_str());
    label
}

/// The contents of a cache file.
#[derive(Debug)]
pub struct CacheFile {
    pub fetched_at: Timestamp,
    pub expires_at: Timestamp,
    pub etag: Option<String>,
    pub extensions: Vec<Extension>,
}

/// What was read back from a cache file.
#[derive(Debug)]
pub struct CacheSnapshot {
    pub entry: CacheEntry,
    pub extensions: Vec<Extension>,
}

/// `e` stamped as fetched at `now` and expiring at `expires`.
pub open spec fn stamped(e: Extension, now: Timestamp, expires: Timestamp) -> Extension {
    Extension { last_synced_at: Some(now), cache_expires_at: Some(expires), ..e }
}

/// `f` holds `extensions`, fetched at `now`, kept for `ttl` and tagged `etag`,
/// each stamped with the fetch and expiry times.
pub open spec fn is_stamped_file(
    f: CacheFile,
    extensions: Seq<Extension>,
    etag: Option<String>,
    ttl: TimeSpan,
    now: Timestamp,
) -> bool {
    &&& f.fetched_at == now
    &&& f.expires_at.spec_nanos() == now.spec_nanos() + ttl.spec_nanos()
    &&& f.etag == etag
    &&& f.extensions@ == extensions.map_values(|e: Extension| stamped(e, now, f.expires_at))
}

/// The cache file for extensions fetched at `now` and kept for `ttl`: every
/// extension is stamped with the fetch and expiry times. Fails when the expiry
/// leaves the clock's range.
pub fn stamp_payload(
    source_slug: &str,
    extensions: Vec<Extension>,
    etag: Option<String>,
    ttl: TimeSpan,
    now: Timestamp,
) -> (r: Result<CacheFile, MarketplaceError>)
    ensures
        r is Ok <==> now.spec_nanos() + ttl.spec_nanos() <= MAX_TIMESTAMP_NANOS,
        r matches Err(MarketplaceError::Configuration(m)) ==> m@ == ttl_overflow_message(source_slug@),
        r matches Err(e) ==> e is Configuration,
        r matches Ok(f) ==> is_stamped_file(f, extensions@, etag, ttl, now),
{
    let expires_at = match now.checked_add(ttl) {
        Some(t) => t,
        None => return Err(ttl_overflow_error(source_slug)),
    };
    let ghost input = extensions@;
    let mut payload: Vec<Extension> = Vec::new();
    let mut rest = extensions;
    let n = rest.len();
    let mut i: usize = 0;
    assert(rest@.subrange(0, n as int) =~= input);
    while i < n
        invariant
            0 <= i <= n,
            n == input.len(),
            rest@ == input.subrange(i as int, n as int),
            payload@ == input.subrange(0, i as int).map_values(|e: Extension| stamped(e, now, expires_at)),
        decreases n - i,
    {
        let mut e = rest.remove(0);
        proof {
            assert(e == input[i as int]);
            assert(rest@ =~= input.subrange(i + 1, n as int));
        }
        e.cache_expires_at = Some(expires_at);
        e.last_synced_at = Some(now);
        payload.push(e);
        proof {
            assert(payload@ =~= input.subrange(0, i + 1).map_values(|e: Extension| stamped(e, now, expires_at)));
        }
        i = i + 1;
    }
    proof {
        assert(input.subrange(0, n as int) =~= input);
    }
    Ok(CacheFile { fetched_at: now, expires_at, etag, extensions: payload })
}

/// Index of the first extension without a checksum whose encoding failed.
pub open spec fn first_unencodable(exts: Seq<Extension>, encoded: Seq<Result<Vec<u8>, String>>) -> Option<int>
    decreases exts.len(),
{
    if exts.len() == 0 {
        None
    } else {
        match first_unencodable(exts.drop_last(), encoded) {
            Some(i) => Some(i),
            None => if exts.last().manifest_checksum@.len() == 0 && encoded[exts.len() - 1] is Err {
                Some(exts.len() - 1)
            } else {
                None
            },
        }
    }
}

/// The checksum `e` ends up with.
pub open spec fn checksum_of(e: Extension, encoded: Result<Vec<u8>, String>) -> Seq<char> {
    if e.manifest_checksum@.len() == 0 {
        match encoded {
            Ok(b) => sha256_lower_hex(b@),
            Err(_) => Seq::empty(),
        }
    } else {
        e.manifest_checksum@
    }
}

/// The reason of the error for an extension that could not be encoded.
pub open spec fn unencodable_reason(detail: Seq<char>) -> Seq<char> {
    "unable to serialize extension for checksum: "@ + detail
}

/// `e` reports that an extension of `context` could not be encoded.
pub open spec fn is_unencodable_error(e: MarketplaceError, context: Seq<char>, encoded: Result<Vec<u8>, String>) -> bool {
    match e {
        MarketplaceError::InvalidManifest { repository, reason } => match encoded {
            Err(detail) => repository@ == context && reason@ == unencodable_reason(detail@),
            Ok(_) => false,
        },
        _ => false,
    }
}

/// `a` and `b` are the same extension except, possibly, for the checksum.
pub open spec fn same_but_checksum(a: Extension, b: Extension) -> bool {
    a == Extension { manifest_checksum: a.manifest_checksum, ..b }
}

proof fn lemma_first_unencodable(exts: Seq<Extension>, encoded: Seq<Result<Vec<u8>, String>>, i: int)
    requires
        0 <= i <= exts.len(),
        forall|k: int| 0 <= k < i ==> !((#[trigger] exts[k]).manifest_checksum@.len() == 0 && encoded[k] is Err),
    ensures
        i < exts.len() && exts[i].manifest_checksum@.len() == 0 && encoded[i] is Err ==> first_unencodable(
            exts,
            encoded,
        ) == Some(i),
        i == exts.len() ==> first_unencodable(exts, encoded) is None,
    decreases exts.len(),
{
    if exts.len() > 0 {
        if i < exts.len() - 1 {
            lemma_first_unencodable(exts.drop_last(), encoded, i);
        } else {
            lemma_first_unencodable(exts.drop_last(), encoded, exts.len() - 1);
        }
    }
}

/// Fills in missing checksums: an extension without one gets the SHA-256 of
/// its encoding (`encoded[i]`, made by the caller with the checksum still
/// empty). Returns the extensions and their checksums in order, or, for the
/// first extension that needed a checksum and could not be encoded, an
/// invalid-manifest error naming `context`.
pub fn ensure_manifest_checksums(
    extensions: Vec<Extension>,
    encoded: &Vec<Result<Vec<u8>, String>>,
    context: &str,
) -> (r: Result<(Vec<Extension>, Vec<String>), MarketplaceError>)
    requires
        encoded@.len() == extensions@.len(),
    ensures
        match first_unencodable(extensions@, encoded@) {
            Some(i) => r matches Err(e) && is_unencodable_error(e, context@, encoded@[i]),
            None => r matches Ok((exts, sums)) && exts@.len() == extensions@.len() && sums@.len()
                == extensions@.len() && forall|k: int|
                0 <= k < exts@.len() ==> {
                    &&& same_but_checksum(#[trigger] exts@[k], extensions@[k])
                    &&& exts@[k].manifest_checksum@ == checksum_of(extensions@[k], encoded@[k])
                    &&& sums@[k]@ == exts@[k].manifest_checksum@
                },
        },
{
    let ghost input = extensions@;
    let mut out: Vec<Extension> = Vec::new();
    let mut sums: Vec<String> = Vec::new();
    let mut rest = extensions;
    let n = rest.len();
    let mut i: usize = 0;
    assert(rest@.subrange(0, n as int) =~= input);
    while i < n
        invariant
            0 <= i <= n,
            n == input.len(),
            encoded@.len() == n,
            input == extensions@,
            rest@ == input.subrange(i as int, n as int),
            out@.len() == i,
            sums@.len() == i,
            forall|k: int| 0 <= k < i ==> !((#[trigger] input[k]).manifest_checksum@.len() == 0 && encoded@[k] is Err),
            forall|k: int|
                0 <= k < i ==> {
                    &&& same_but_checksum(#[trigger] out@[k], input[k])
                    &&& out@[k].manifest_checksum@ == checksum_of(input[k], encoded@[k])
                    &&& sums@[k]@ == out@[k].manifest_checksum@
                },
        decreases n - i,
    {
        let mut e = rest.remove(0);
        proof {
            assert(e == input[i as int]);
            assert(rest@ =~= input.subrange(i + 1, n as int));
        }
        if e.manifest_checksum.as_str().is_empty() {
            match &encoded[i] {
                Ok(bytes) => {
                    e.manifest_checksum = sha256_hex(bytes.as_slice());
                },
                Err(detail) => {
                    proof {
                        assert(input[i as int].manifest_checksum@.len() == 0);
                        assert(encoded@[i as int] == Err::<Vec<u8>, String>(*detail));
                        lemma_first_unencodable(input, encoded@, i as int);
                        assert(first_unencodable(input, encoded@) == Some(i as int));
                    }
                    let mut reason = String::from_str("unable to serialize extension for checksum: ");
                    reason.append(detail.as_str());
                    let err = MarketplaceError::InvalidManifest { repository: String::from_str(context), reason };
                    assert(reason@ == unencodable_reason(detail@));
                    assert(is_unencodable_error(err, context@, encoded@[i as int]));
                    return Err(err);
                },
            }
        }
        sums.push(e.manifest_checksum.clone());
        out.push(e);
        i = i + 1;
    }
    proof {
        lemma_first_unencodable(input, encoded@, n as int);
    }
    Ok((out, sums))
}

/// The error for a cache file whose contents cannot be decoded.
pub fn invalid_cache_error(repository: &str, detail: &str) -> (r: MarketplaceError)
    ensures
        r matches MarketplaceError::InvalidManifest { repository: p, reason } && p@ == repository@ && reason@
            == "invalid cache file JSON: "@ + detail@,
{
    let mut reason = String::from_str("invalid cache file JSON: ");
    reason.append(detail);
    MarketplaceError::InvalidManifest { repository: String::from_str(repository), reason }
}

/// The error for a cache file that cannot be encoded.
pub fn unwritable_cache_error(repository: &str, detail: &str) -> (r: MarketplaceError)
    ensures
        r matches MarketplaceError::InvalidManifest { repository: p, reason } && p@ == repository@ && reason@
            == "unable to serialize cache: "@ + detail@,
{
    let mut reason = String::from_str("unable to serialize cache: ");
    reason.append(detail);
    MarketplaceError::InvalidManifest { repository: String::from_str(repository), reason }
}

fn extension_ids(extensions: &Vec<Extension>) -> (r: Vec<ExtensionId>)
    ensures
        r@.len() == extensions@.len(),
        forall|k: int| 0 <= k < r@.len() ==> (#[trigger] r@[k]).0@ == extensions@[k].id.0@,
{
    let mut ids: Vec<ExtensionId> = Vec::new();
    let mut i: usize = 0;
    while i < extensions.len()
        invariant
            0 <= i <= extensions@.len(),
            ids@.len() == i,
            forall|k: int| 0 <= k < i ==> (#[trigger] ids@[k]).0@ == extensions@[k].id.0@,
        decreases extensions@.len() - i,
    {
        ids.push(extensions[i].id.duplicate());
        i = i + 1;
    }
    ids
}

/// `snap` is what the cache file `file` at `path` of batch `batch_index` of
/// `source_slug` reads back as, with `encoded` the encodings of its extensions.
pub open spec fn is_snapshot_of(
    snap: CacheSnapshot,
    file: CacheFile,
    source_slug: Seq<char>,
    batch_index: u32,
    path: Seq<char>,
    encoded: Seq<Result<Vec<u8>, String>>,
) -> bool {
    &&& snap.extensions@.len() == file.extensions@.len()
    &&& forall|k: int|
        0 <= k < snap.extensions@.len() ==> {
            &&& same_but_checksum(#[trigger] snap.extensions@[k], file.extensions@[k])
            &&& snap.extensions@[k].manifest_checksum@ == checksum_of(file.extensions@[k], encoded[k])
        }
    &&& snap.entry.source_slug@ == source_slug
    &&& snap.entry.batch_index == batch_index
    &&& snap.entry.manifest_checksum@ == join_texts_spec(
        snap.extensions@.map_values(|e: Extension| e.manifest_checksum@),
        ";"@,
    )
    &&& snap.entry.payload_path@ == path
    &&& snap.entry.fetched_at == file.fetched_at
    &&& snap.entry.expires_at == file.expires_at
    &&& snap.entry.etag == file.etag
    &&& snap.entry.extension_ids@.len() == file.extensions@.len()
    &&& forall|k: int|
        0 <= k < snap.entry.extension_ids@.len() ==> (#[trigger] snap.entry.extension_ids@[k]).0@
            == file.extensions@[k].id.0@
}

/// What is read back from the cache file at `path` of batch `batch_index` of
/// `source_slug`: its extensions with their checksums filled in, and the
/// entry describing them (the checksums joined with `;`, the file's times,
/// etag and the extensions' identifiers). Fails as `ensure_manifest_checksums`
/// does.
pub fn snapshot_from_file(
    source_slug: &str,
    batch_index: u32,
    path: &str,
    file: CacheFile,
    encoded: &Vec<Result<Vec<u8>, String>>,
) -> (r: Result<CacheSnapshot, MarketplaceError>)
    requires
        encoded@.len() == file.extensions@.len(),
    ensures
        match first_unencodable(file.extensions@, encoded@) {
            Some(i) => r matches Err(e) && is_unencodable_error(e, source_slug@, encoded@[i]),
            None => r matches Ok(snap) && is_snapshot_of(snap, file, source_slug@, batch_index, path@, encoded@),
        },
{
    let ids = extension_ids(&file.extensions);
    let (extensions, sums) = match ensure_manifest_checksums(file.extensions, encoded, source_slug) {
        Ok(x) => x,
        Err(e) => return Err(e),
    };
    let joined = join(&sums, ";");
    proof {
        assert(sums@.map_values(|p: String| p@) =~= extensions@.map_values(|e: Extension| e.manifest_checksum@));
    }
    let entry = CacheEntry {
        source_slug: String::from_str(source_slug),
        batch_index,
        manifest_checksum: joined,
        payload_path: String::from_str(path),
        fetched_at: file.fetched_at,
        expires_at: file.expires_at,
        extension_ids: ids,
        etag: file.etag,
    };
    Ok(CacheSnapshot { entry, extensions })
}

} // verus!
