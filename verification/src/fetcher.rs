//! Synchronising a marketplace source: serving a fresh cache, fetching the
//! catalog and its manifests, honouring GitHub rate limits, and turning
//! manifests into extensions.
//!
//! The network, the disk and the clock are the caller's part. A
//! `SyncMachine` decides, event by event, what the caller does next and what
//! the synchronisation finally yields.

use vstd::prelude::*;

use crate::digest::{sha256_hex, sha256_lower_hex};
use crate::domain::{Extension, ExtensionId, InstallStatus, MarketplaceSource, RateLimitWindow, ValidationSummary};
use crate::domain::ValidationStatus;
use crate::error::MarketplaceError;
use crate::locator::opt_string_view;
use crate::manifest::{field_error_spec, invalid_json, invalid_json_reason_spec, manifest_of_fields, ExtensionManifest, ManifestFields};
use crate::text::chars_of;
use crate::time::{printable_instant, rfc3339_seconds_text, TimeSpan, Timestamp, MAX_TIMESTAMP_NANOS, RFC3339_LIMIT_SECS};

verus! {

// ---------------------------------------------------------------------------
// Unsigned decimal numbers, as `str::parse::<u64>` reads them

pub open spec fn is_digit(c: char) -> bool {
    '0' <= c && c <= '9'
}

pub open spec fn digit_value(c: char) -> nat {
    (c as int - '0' as int) as nat
}

/// The number the digits spell, most significant first.
pub open spec fn digits_value(s: Seq<char>) -> nat
    decreases s.len(),
{
    if s.len() == 0 {
        0
    } else {
        digits_value(s.drop_last()) * 10 + digit_value(s.last())
    }
}

/// The digits of an unsigned number text, after an optional `+`.
pub open spec fn unsigned_digits(s: Seq<char>) -> Seq<char> {
    if s.len() > 0 && s[0] == '+' {
        s.drop_first()
    } else {
        s
    }
}

/// The value of an unsigned decimal text no larger than `max`: an optional
/// `+` followed by at least one digit and nothing else.
pub open spec fn parse_unsigned_spec(s: Seq<char>, max: nat) -> Option<nat> {
    let d = unsigned_digits(s);
    if d.len() > 0 && (forall|i: int| 0 <= i < d.len() ==> #[trigger] is_digit(d[i])) && digits_value(d) <= max {
        Some(digits_value(d))
    } else {
        None
    }
}

proof fn lemma_digits_prefix_le(s: Seq<char>, i: int)
    requires
        0 <= i <= s.len(),
    ensures
        digits_value(s.subrange(0, i)) <= digits_value(s),
    decreases s.len(),
{
    if i < s.len() {
        lemma_digits_prefix_le(s.drop_last(), i);
        assert(s.drop_last().subrange(0, i) =~= s.subrange(0, i));
        let v = digits_value(s.drop_last());
        assert(v * 10 >= v) by (nonlinear_arith);
    } else {
        assert(s.subrange(0, i) =~= s);
    }
}

/// `text.parse::<u64>()`, successful or not.
pub fn parse_u64(text: &str) -> (r: Option<u64>)
    ensures
        match r {
            Some(v) => parse_unsigned_spec(text@, u64::MAX as nat) == Some(v as nat),
            None => parse_unsigned_spec(text@, u64::MAX as nat) is None,
        },
{
    let cs = chars_of(text);
    let start: usize = if cs.len() > 0 && cs[0] == '+' {
        1
    } else {
        0
    };
    let ghost d = unsigned_digits(text@);
    assert(d =~= cs@.subrange(start as int, cs@.len() as int));
    if start >= cs.len() {
        return None;
    }
    let mut acc: u64 = 0;
    let mut i: usize = start;
    assert(d.subrange(0, 0) =~= Seq::<char>::empty());
    while i < cs.len()
        invariant
            start <= i <= cs@.len(),
            start < cs@.len(),
            d == unsigned_digits(text@),
            d == cs@.subrange(start as int, cs@.len() as int),
            acc == digits_value(d.subrange(0, i - start)),
            forall|k: int| 0 <= k < i - start ==> #[trigger] is_digit(d[k]),
        decreases cs@.len() - i,
    {
        let c = cs[i];
        assert(c == d[i - start]);
        if !('0' <= c && c <= '9') {
            assert(!is_digit(d[i - start]));
            return None;
        }
        let digit: u64 = (c as u32 - '0' as u32) as u64;
        assert(d.subrange(0, i - start + 1).drop_last() =~= d.subrange(0, i - start as int));
        assert(digits_value(d.subrange(0, i - start + 1)) == acc * 10 + digit);
        if acc > 1_844_674_407_370_955_161u64 || (acc == 1_844_674_407_370_955_161u64 && digit > 5) {
            proof {
                lemma_digits_prefix_le(d, i - start + 1);
            }
            return None;
        }
        acc = acc * 10 + digit;
        i = i + 1;
    }
    assert(d.subrange(0, d.len() as int) =~= d);
    Some(acc)
}

/// `text.parse::<u32>()`, successful or not.
pub fn parse_u32(text: &str) -> (r: Option<u32>)
    ensures
        match r {
            Some(v) => parse_unsigned_spec(text@, u32::MAX as nat) == Some(v as nat),
            None => parse_unsigned_spec(text@, u32::MAX as nat) is None,
        },
{
    match parse_u64(text) {
        Some(v) => {
            if v <= 4_294_967_295u64 {
                Some(v as u32)
            } else {
                None
            }
        },
        None => None,
    }
}

// ---------------------------------------------------------------------------
// Rate limits

/// Status with which GitHub reports an exhausted rate limit.
pub const STATUS_FORBIDDEN: u16 = 403;

/// The reset second a `x-ratelimit-reset` header announces, if it holds a number.
pub open spec fn reset_secs_spec(header: Option<Seq<char>>) -> Option<nat> {
    match header {
        Some(h) => parse_unsigned_spec(h, u64::MAX as nat),
        None => None,
    }
}

/// The remaining requests a `x-ratelimit-remaining` header announces, if it holds a number.
pub open spec fn remaining_spec(header: Option<Seq<char>>) -> Option<nat> {
    match header {
        Some(h) => parse_unsigned_spec(h, u32::MAX as nat),
        None => None,
    }
}

/// Whether the reset time a header announces, if any, can be written in
/// RFC 3339 (it is before year 10000).
pub open spec fn reset_printable_spec(header: Option<Seq<char>>) -> bool {
    match reset_secs_spec(header) {
        Some(s) => s < RFC3339_LIMIT_SECS,
        None => true,
    }
}

/// Whether the reset time a header announces, if any, can be written in RFC 3339.
pub fn reset_printable(header: &Option<String>) -> (r: bool)
    ensures
        r == reset_printable_spec(opt_string_view(*header)),
{
    match header {
        Some(h) => match parse_u64(h.as_str()) {
            Some(s) => s < RFC3339_LIMIT_SECS,
            None => true,
        },
        None => true,
    }
}

/// The rate-limit window a response announces in its `x-ratelimit-reset`
/// (seconds since the epoch) and `x-ratelimit-remaining` headers; a header
/// that is missing or not a number leaves its part unknown.
pub fn extract_rate_limit(
    source_slug: &str,
    reset_header: &Option<String>,
    remaining_header: &Option<String>,
) -> (r: RateLimitWindow)
    requires
        reset_printable_spec(opt_string_view(*reset_header)),
    ensures
        r.source_slug@ == source_slug@,
        match reset_secs_spec(opt_string_view(*reset_header)) {
            Some(s) => r.reset_at matches Some(t) && t.spec_nanos() == s * 1_000_000_000,
            None => r.reset_at is None,
        },
        match remaining_spec(opt_string_view(*remaining_header)) {
            Some(n) => r.remaining_requests == Some(n as u32),
            None => r.remaining_requests is None,
        },
        r.limit is None,
{
    let reset_at = match reset_header {
        Some(h) => match parse_u64(h.as_str()) {
            Some(secs) => Some(Timestamp::from_unix_secs(secs)),
            None => None,
        },
        None => None,
    };
    let remaining = match remaining_header {
        Some(h) => parse_u32(h.as_str()),
        None => None,
    };
    RateLimitWindow::new(source_slug, reset_at, remaining)
}

/// The RFC 3339 text of a reset time announced by a header.
pub open spec fn reset_text_spec(header: Option<Seq<char>>) -> Option<Seq<char>> {
    match reset_secs_spec(header) {
        Some(s) => Some(rfc3339_seconds_text(s as int)),
        None => None,
    }
}

/// The error reporting that `source_slug` is rate limited, with the reset
/// time the response announced.
pub fn rate_limited_error(source_slug: &str, reset_header: &Option<String>) -> (r: MarketplaceError)
    requires
        reset_printable_spec(opt_string_view(*reset_header)),
    ensures
        r matches MarketplaceError::RateLimited { source_slug: s, reset_at } && s@ == source_slug@
            && opt_string_view(reset_at) == reset_text_spec(opt_string_view(*reset_header)),
{
    let window = extract_rate_limit(source_slug, reset_header, &None);
    let reset_at = match window.reset_at {
        Some(t) => {
            assert(printable_instant(t.spec_nanos()));
            Some(t.to_rfc3339())
        },
        None => None,
    };
    MarketplaceError::RateLimited { source_slug: String::from_str(source_slug), reset_at }
}

// ---------------------------------------------------------------------------
// Extensions from manifests

/// The cache lifetime of `hours` hours.
pub fn ttl_for_hours(hours: u16) -> (r: TimeSpan)
    ensures
        r.spec_nanos() == hours * 3600 * 1_000_000_000,
{
    TimeSpan::from_secs((hours as u64) * 3600)
}

/// The message of the error for a cache lifetime that overflows the clock.
pub open spec fn ttl_overflow_message(source_slug: Seq<char>) -> Seq<char> {
    "Cache TTL overflow for source '"@ + source_slug + "': TTL duration too large"@
}

/// The error for a cache lifetime that overflows the clock.
pub fn ttl_overflow_error(source_slug: &str) -> (r: MarketplaceError)
    ensures
        r matches MarketplaceError::Configuration(m) && m@ == ttl_overflow_message(source_slug@),
{
    let mut m = String::from_str("Cache TTL overflow for source '");
    m.append(source_slug);
    m.append("': TTL duration too large");
    MarketplaceError::Configuration(m)
}

/// `e` is the extension that `m` describes for source `slug`, synchronised
/// at `now`, expiring at `expires`, with the given checksum.
pub open spec fn extension_of_manifest(
    e: Extension,
    slug: Seq<char>,
    m: ExtensionManifest,
    checksum: Seq<char>,
    now: Timestamp,
    expires: Timestamp,
) -> bool {
    &&& e.id.0@ == slug + seq!['/'] + m.name@
    &&& e.source_slug@ == slug
    &&& e.extension_slug@ == m.name@
    &&& e.display_name@ == (match m.display_name {
        Some(d) => d@,
        None => m.name@,
    })
    &&& e.summary@ == m.description@
    &&& e.repository_url == m.repository
    &&& e.homepage_url == m.homepage
    &&& e.documentation_url == m.documentation
    &&& e.version == m.version
    &&& e.author@ == (match m.author {
        Some(a) => a@,
        None => Seq::<char>::empty(),
    })
    &&& e.license == m.license
    &&& e.categories == m.categories
    &&& e.tags == m.tags
    &&& e.compatibility == m.compatibility
    &&& e.install_status == InstallStatus::Unknown
    &&& e.manifest_checksum@ == checksum
    &&& e.readme_excerpt == m.readme
    &&& e.last_synced_at == Some(now)
    &&& e.cache_expires_at == Some(expires)
    &&& e.validation_summary.schema_status == ValidationStatus::Passed
    &&& e.validation_summary.semantic_status == ValidationStatus::Pending
    &&& e.validation_summary.errors@.len() == 0
    &&& e.validation_summary.last_checked == now
    &&& opt_string_view(e.manifest_path) == Some("."@)
}

/// The extension a manifest of `source` describes, synchronised at `now` and
/// cached for `ttl`; an error when `now + ttl` leaves the clock's range.
pub fn to_extension(
    source: &MarketplaceSource,
    manifest: ExtensionManifest,
    ttl: TimeSpan,
    checksum: String,
    now: Timestamp,
) -> (r: Result<Extension, MarketplaceError>)
    ensures
        r is Ok <==> now.spec_nanos() + ttl.spec_nanos() <= crate::time::MAX_TIMESTAMP_NANOS,
        r matches Err(MarketplaceError::Configuration(m)) ==> m@ == ttl_overflow_message(source.slug@),
        r matches Err(e) ==> e is Configuration,
        r matches Ok(e) ==> exists|expires: Timestamp|
            expires.spec_nanos() == now.spec_nanos() + ttl.spec_nanos() && #[trigger] extension_of_manifest(
                e,
                source.slug@,
                manifest,
                checksum@,
                now,
                expires,
            ),
{
    let expires_at = match now.checked_add(ttl) {
        Some(t) => t,
        None => return Err(ttl_overflow_error(source.slug.as_str())),
    };
    let id = ExtensionId::new(source.slug.as_str(), manifest.name.as_str());
    let display_name = match &manifest.display_name {
        Some(d) => d.clone(),
        None => manifest.name.clone(),
    };
    let author = match &manifest.author {
        Some(a) => a.clone(),
        None => String::new(),
    };
    let extension_slug = manifest.name.clone();
    let e = Extension {
        id,
        source_slug: source.slug.clone(),
        extension_slug,
        display_name,
        summary: manifest.description,
        repository_url: manifest.repository,
        homepage_url: manifest.homepage,
        documentation_url: manifest.documentation,
        version: manifest.version,
        author,
        license: manifest.license,
        categories: manifest.categories,
        tags: manifest.tags,
        compatibility: manifest.compatibility,
        install_status: InstallStatus::Unknown,
        manifest_checksum: checksum,
        readme_excerpt: manifest.readme,
        last_synced_at: Some(now),
        cache_expires_at: Some(expires_at),
        validation_summary: ValidationSummary::new_pending(now),
        manifest_path: Some(String::from_str(".")),
    };
    proof {
        reveal_strlit(".");
        assert(extension_of_manifest(e, source.slug@, manifest, checksum@, now, expires_at));
    }
    Ok(e)
}

/// The message of the error for a catalog body that is not a list of
/// manifest URLs (what the parser said is `detail`).
pub open spec fn invalid_catalog_message(source_slug: Seq<char>, detail: Seq<char>) -> Seq<char> {
    "Invalid catalog for "@ + source_slug + ": configuration error: invalid catalog payload: "@ + detail
}

/// The error for a catalog body that is not a list of manifest URLs.
pub fn invalid_catalog_error(source_slug: &str, detail: &str) -> (r: MarketplaceError)
    ensures
        r matches MarketplaceError::Configuration(m) && m@ == invalid_catalog_message(source_slug@, detail@),
{
    let mut m = String::from_str("Invalid catalog for ");
    m.append(source_slug);
    m.append(": configuration error: invalid catalog payload: ");
    m.append(detail);
    MarketplaceError::Configuration(m)
}

/// Whether a cached snapshot expiring at `expires_at` may still be served at `now`.
pub fn cache_is_fresh(expires_at: Timestamp, now: Timestamp) -> (r: bool)
    ensures
        r == (now.spec_nanos() < expires_at.spec_nanos()),
{
    now.is_before(&expires_at)
}

// ---------------------------------------------------------------------------
// The synchronisation of one source

/// What the caller learned while carrying out the last action.
#[derive(Debug)]
pub enum SyncEvent {
    /// The synchronisation starts.
    Begin,
    /// The cached snapshot of the source (its expiry and extensions), if
    /// there is one, and the time it was looked at.
    CacheLoaded { snapshot: Result<Option<(Timestamp, Vec<Extension>)>, MarketplaceError>, now: Timestamp },
    /// A request was answered: its status and the headers the synchronisation
    /// reads; or it failed with the given message.
    Responded(Result<ResponseHead, String>),
    /// The body of the last answer, or the message of the failure to read it.
    BodyRead(Result<String, String>),
    /// The manifest URLs a catalog body lists, or the parser's message.
    CatalogParsed(Result<Vec<String>, String>),
    /// The fields of a manifest body, or the parser's message, and the time
    /// they were decoded.
    ManifestDecoded { fields: Result<ManifestFields, String>, now: Timestamp },
    /// The pause after a rate limit is over.
    Waited,
    /// Whether the extensions were written to the cache.
    CacheSaved(Result<(), MarketplaceError>),
}

/// The status and headers of an answer.
#[derive(Debug, Clone)]
pub struct ResponseHead {
    pub status: u16,
    /// `x-ratelimit-reset`, when present and text.
    pub reset_header: Option<String>,
    /// `x-ratelimit-remaining`, when present and text.
    pub remaining_header: Option<String>,
    /// `ETag`, when present and text.
    pub etag: Option<String>,
}

/// What the caller does next.
#[derive(Debug)]
pub enum SyncAction {
    /// Read the cached snapshot of the source.
    LoadCache,
    /// Request the catalog at `url` (`Accept: application/json`).
    FetchCatalog { url: String },
    /// Read the body of the last answer.
    ReadBody,
    /// Parse a catalog body into its manifest URLs.
    ParseCatalog { body: String },
    /// Request the manifest at `url`.
    FetchManifest { url: String },
    /// Decode a manifest body into its fields.
    DecodeManifest { body: String },
    /// Pause for `seconds` seconds.
    Wait { seconds: u64 },
    /// Write the extensions gathered so far (see `SyncMachine::extensions`)
    /// to the cache of the source, with the catalog's etag and the lifetime.
    SaveCache { etag: Option<String>, ttl: TimeSpan },
    /// The synchronisation is over with this result.
    Finish(Result<Vec<Extension>, MarketplaceError>),
}

/// Where a synchronisation stands.
#[derive(Debug, Clone, Copy, PartialEq, Eq, Structural)]
pub enum SyncPhase {
    Idle,
    LoadingCache,
    FetchingCatalog,
    ReadingCatalog,
    ParsingCatalog,
    FetchingManifest,
    ReadingManifest,
    DecodingManifest,
    Waiting,
    Saving,
    Done,
}

/// Whether an event is one the phase waits for, with what it requires.
pub open spec fn accepts(phase: SyncPhase, event: SyncEvent) -> bool {
    match phase {
        SyncPhase::Idle => event is Begin,
        SyncPhase::LoadingCache => event is CacheLoaded,
        SyncPhase::FetchingCatalog | SyncPhase::FetchingManifest => match event {
            SyncEvent::Responded(Ok(head)) => head.status == STATUS_FORBIDDEN ==> reset_printable_spec(
                opt_string_view(head.reset_header),
            ),
            SyncEvent::Responded(Err(_)) => true,
            _ => false,
        },
        SyncPhase::ReadingCatalog | SyncPhase::ReadingManifest => event is BodyRead,
        SyncPhase::ParsingCatalog => event is CatalogParsed,
        SyncPhase::DecodingManifest => event is ManifestDecoded,
        SyncPhase::Waiting => event is Waited,
        SyncPhase::Saving => event is CacheSaved,
        SyncPhase::Done => false,
    }
}

/// The synchronisation of one source.
#[derive(Debug)]
pub struct SyncMachine {
    source: MarketplaceSource,
    ttl: TimeSpan,
    phase: SyncPhase,
    etag: Option<String>,
    urls: Vec<String>,
    next: usize,
    extensions: Vec<Extension>,
    body: String,
    pending: Option<MarketplaceError>,
}

/// `a` requests the catalog at `url`.
pub open spec fn fetch_catalog_action(a: SyncAction, url: Seq<char>) -> bool {
    match a {
        SyncAction::FetchCatalog { url: u } => u@ == url,
        _ => false,
    }
}

/// `a` requests the manifest at `url`.
pub open spec fn fetch_manifest_action(a: SyncAction, url: Seq<char>) -> bool {
    match a {
        SyncAction::FetchManifest { url: u } => u@ == url,
        _ => false,
    }
}

/// `a` parses `body` as a catalog.
pub open spec fn parse_catalog_action(a: SyncAction, body: Seq<char>) -> bool {
    match a {
        SyncAction::ParseCatalog { body: b } => b@ == body,
        _ => false,
    }
}

/// `a` decodes `body` as a manifest.
pub open spec fn decode_action(a: SyncAction, body: Seq<char>) -> bool {
    match a {
        SyncAction::DecodeManifest { body: b } => b@ == body,
        _ => false,
    }
}

/// `a` saves the gathered extensions with `etag` and `ttl`.
pub open spec fn save_action(a: SyncAction, etag: Option<Seq<char>>, ttl: TimeSpan) -> bool {
    match a {
        SyncAction::SaveCache { etag: e, ttl: t } => opt_string_view(e) == etag && t == ttl,
        _ => false,
    }
}

/// `p` holds the rate-limit error of `slug` with the given reset text.
pub open spec fn pending_is(p: Option<MarketplaceError>, slug: Seq<char>, reset_at: Option<Seq<char>>) -> bool {
    match p {
        Some(MarketplaceError::RateLimited { source_slug, reset_at: r }) => source_slug@ == slug && opt_string_view(r)
            == reset_at,
        _ => false,
    }
}

/// `p` holds a rate-limit error.
pub open spec fn pending_rate_limit(p: Option<MarketplaceError>) -> bool {
    match p {
        Some(MarketplaceError::RateLimited { .. }) => true,
        _ => false,
    }
}

/// `a` ends the synchronisation with `exts`.
pub open spec fn finish_ok_action(a: SyncAction, exts: Seq<Extension>) -> bool {
    match a {
        SyncAction::Finish(Ok(v)) => v@ == exts,
        _ => false,
    }
}

/// `a` is a network failure during `operation` with `message` at `url`.
pub open spec fn network_failure(a: SyncAction, operation: Seq<char>, message: Seq<char>, url: Seq<char>) -> bool {
    match a {
        SyncAction::Finish(Err(MarketplaceError::Network { operation: o, message: m, url: u })) => o@ == operation
            && m@ == message && opt_string_view(u) == Some(url),
        _ => false,
    }
}

impl SyncMachine {
    #[verifier::type_invariant]
    spec fn well_formed(self) -> bool {
        &&& self.next <= self.urls@.len()
        &&& self.phase == SyncPhase::Waiting ==> pending_rate_limit(self.pending)
        &&& (self.phase == SyncPhase::FetchingManifest || self.phase == SyncPhase::ReadingManifest
            || self.phase == SyncPhase::DecodingManifest) ==> self.next < self.urls@.len()
    }

    pub closed spec fn phase_spec(&self) -> SyncPhase {
        self.phase
    }

    pub closed spec fn source_spec(&self) -> MarketplaceSource {
        self.source
    }

    pub closed spec fn ttl_spec(&self) -> TimeSpan {
        self.ttl
    }

    /// The catalog's etag, once the catalog answered.
    pub closed spec fn etag_spec(&self) -> Option<Seq<char>> {
        opt_string_view(self.etag)
    }

    /// The manifest URLs of the catalog.
    pub closed spec fn urls_spec(&self) -> Seq<Seq<char>> {
        self.urls@.map_values(|u: String| u@)
    }

    /// How many manifests were turned into extensions.
    pub closed spec fn next_spec(&self) -> int {
        self.next as int
    }

    /// The extensions gathered so far.
    pub closed spec fn extensions_spec(&self) -> Seq<Extension> {
        self.extensions@
    }

    /// The error reported once the pause after a rate limit is over.
    pub closed spec fn pending_spec(&self) -> Option<MarketplaceError> {
        self.pending
    }

    /// The body of the manifest being decoded.
    pub closed spec fn body_spec(&self) -> Seq<char> {
        self.body@
    }

    /// A synchronisation of `source` whose cache lives for `ttl`.
    pub fn new(source: MarketplaceSource, ttl: TimeSpan) -> (r: Self)
        ensures
            r.phase_spec() == SyncPhase::Idle,
            r.source_spec() == source,
            r.ttl_spec() == ttl,
            r.urls_spec().len() == 0,
            r.next_spec() == 0,
            r.extensions_spec().len() == 0,
            r.etag_spec() is None,
    {
        SyncMachine {
            source,
            ttl,
            phase: SyncPhase::Idle,
            etag: None,
            urls: Vec::new(),
            next: 0,
            extensions: Vec::new(),
            body: String::new(),
            pending: None,
        }
    }

    /// Where the synchronisation stands.
    pub fn phase(&self) -> (r: SyncPhase)
        ensures
            r == self.phase_spec(),
    {
        self.phase
    }

    /// The extensions gathered so far.
    pub fn extensions(&self) -> (r: &Vec<Extension>)
        ensures
            r@ == self.extensions_spec(),
    {
        &self.extensions
    }

    fn finish(&mut self, result: Result<Vec<Extension>, MarketplaceError>) -> (r: SyncAction)
        ensures
            final(self).phase == SyncPhase::Done,
            final(self).source == old(self).source,
            final(self).ttl == old(self).ttl,
            final(self).urls == old(self).urls,
            final(self).next == old(self).next,
            final(self).etag == old(self).etag,
            r == SyncAction::Finish(result),
    {
        proof {
            use_type_invariant(&*self);
        }
        self.phase = SyncPhase::Done;
        SyncAction::Finish(result)
    }

    /// Requests the next manifest, or saves the cache when all were read.
    fn advance(&mut self) -> (r: SyncAction)
        requires
            old(self).next <= old(self).urls@.len(),
        ensures
            final(self).source == old(self).source,
            final(self).ttl == old(self).ttl,
            final(self).urls == old(self).urls,
            final(self).next == old(self).next,
            final(self).etag == old(self).etag,
            final(self).extensions == old(self).extensions,
            old(self).next < old(self).urls@.len() ==> final(self).phase == SyncPhase::FetchingManifest
                && fetch_manifest_action(r, old(self).urls@[old(self).next as int]@),
            old(self).next == old(self).urls@.len() ==> final(self).phase == SyncPhase::Saving
                && save_action(r, opt_string_view(old(self).etag), old(self).ttl),
    {
        proof {
            use_type_invariant(&*self);
        }
        if self.next < self.urls.len() {
            self.phase = SyncPhase::FetchingManifest;
            SyncAction::FetchManifest { url: self.urls[self.next].clone() }
        } else {
            self.phase = SyncPhase::Saving;
            let etag = match &self.etag {
                Some(e) => Some(e.clone()),
                None => None,
            };
            SyncAction::SaveCache { etag, ttl: self.ttl }
        }
    }

    /// Takes in what the caller learned and says what it does next.
    pub fn step(&mut self, event: SyncEvent) -> (r: SyncAction)
        requires
            accepts(old(self).phase_spec(), event),
        ensures
            final(self).source_spec() == old(self).source_spec(),
            final(self).ttl_spec() == old(self).ttl_spec(),
            // Starting: look at the cache first.
            old(self).phase_spec() == SyncPhase::Idle ==> final(self).phase_spec() == SyncPhase::LoadingCache
                && r is LoadCache,
            // The cache: a failure ends the synchronisation; a snapshot that has
            // not expired is the result; otherwise the catalog is requested.
            old(self).phase_spec() == SyncPhase::LoadingCache ==> match event {
                SyncEvent::CacheLoaded { snapshot, now } => match snapshot {
                    Err(e) => r == SyncAction::Finish(Err(e)),
                    Ok(Some((expires, exts))) => if now.spec_nanos() < expires.spec_nanos() {
                        r == SyncAction::Finish(Ok(exts))
                    } else {
                        final(self).phase_spec() == SyncPhase::FetchingCatalog && fetch_catalog_action(
                            r,
                            old(self).source_spec().url@.serialization,
                        )
                    },
                    Ok(None) => final(self).phase_spec() == SyncPhase::FetchingCatalog
                        && fetch_catalog_action(r, old(self).source_spec().url@.serialization),
                },
                _ => true,
            },
            // The catalog's answer: a failure is a network error; a 403 is a
            // rate limit; otherwise its etag is kept and its body read.
            old(self).phase_spec() == SyncPhase::FetchingCatalog ==> match event {
                SyncEvent::Responded(Err(m)) => network_failure(
                    r,
                    "catalog_fetch"@,
                    m@,
                    old(self).source_spec().url@.serialization,
                ),
                SyncEvent::Responded(Ok(head)) => if head.status == STATUS_FORBIDDEN {
                    r matches SyncAction::Finish(Err(MarketplaceError::RateLimited { source_slug, reset_at }))
                        && source_slug@ == old(self).source_spec().slug@ && opt_string_view(reset_at)
                        == reset_text_spec(opt_string_view(head.reset_header))
                } else {
                    final(self).phase_spec() == SyncPhase::ReadingCatalog && r is ReadBody && final(self).etag_spec()
                        == opt_string_view(head.etag)
                },
                _ => true,
            },
            old(self).phase_spec() == SyncPhase::ReadingCatalog ==> match event {
                SyncEvent::BodyRead(Err(m)) => network_failure(
                    r,
                    "catalog_read_body"@,
                    m@,
                    old(self).source_spec().url@.serialization,
                ),
                SyncEvent::BodyRead(Ok(body)) => final(self).phase_spec() == SyncPhase::ParsingCatalog
                    && parse_catalog_action(r, body@),
                _ => true,
            },
            // The catalog's manifest URLs are requested one after the other;
            // an empty catalog goes straight to the cache.
            old(self).phase_spec() == SyncPhase::ParsingCatalog ==> match event {
                SyncEvent::CatalogParsed(Err(detail)) => r matches SyncAction::Finish(
                    Err(MarketplaceError::Configuration(m)),
                ) && m@ == invalid_catalog_message(old(self).source_spec().slug@, detail@),
                SyncEvent::CatalogParsed(Ok(urls)) => final(self).urls_spec() == urls@.map_values(|u: String| u@)
                    && final(self).next_spec() == 0 && final(self).extensions_spec().len() == 0 && if urls@.len()
                    > 0 {
                    final(self).phase_spec() == SyncPhase::FetchingManifest && fetch_manifest_action(r, urls@[0]@)
                } else {
                    final(self).phase_spec() == SyncPhase::Saving && save_action(r, old(self).etag_spec(), old(self).ttl_spec())
                },
                _ => true,
            },
            // A manifest's answer: a failure is a network error; a 403 waits
            // five seconds and then reports the rate limit.
            old(self).phase_spec() == SyncPhase::FetchingManifest ==> match event {
                SyncEvent::Responded(Err(m)) => network_failure(
                    r,
                    "manifest_fetch"@,
                    m@,
                    old(self).urls_spec()[old(self).next_spec()],
                ),
                SyncEvent::Responded(Ok(head)) => if head.status == STATUS_FORBIDDEN {
                    final(self).phase_spec() == SyncPhase::Waiting && r == SyncAction::Wait { seconds: 5 }
                        && pending_is(
                        final(self).pending_spec(),
                        old(self).source_spec().slug@,
                        reset_text_spec(opt_string_view(head.reset_header)),
                    )
                } else {
                    final(self).phase_spec() == SyncPhase::ReadingManifest && r is ReadBody
                },
                _ => true,
            },
            old(self).phase_spec() == SyncPhase::ReadingManifest ==> match event {
                SyncEvent::BodyRead(Err(m)) => network_failure(
                    r,
                    "manifest_read_body"@,
                    m@,
                    old(self).urls_spec()[old(self).next_spec()],
                ),
                SyncEvent::BodyRead(Ok(body)) => final(self).phase_spec() == SyncPhase::DecodingManifest
                    && final(self).body_spec() == body@ && decode_action(r, body@),
                _ => true,
            },
            // A decoded manifest becomes the next extension, checksummed by
            // the SHA-256 of its body; the next manifest is requested, or the
            // cache saved after the last one.
            old(self).phase_spec() == SyncPhase::DecodingManifest ==> match event {
                SyncEvent::ManifestDecoded { fields: Err(detail), now } => r matches SyncAction::Finish(
                    Err(MarketplaceError::InvalidManifest { repository, reason }),
                ) && repository@ == old(self).urls_spec()[old(self).next_spec()] && reason@
                    == invalid_json_reason_spec(detail@),
                SyncEvent::ManifestDecoded { fields: Ok(fields), now } => match field_error_spec(fields) {
                    Some(msg) => r matches SyncAction::Finish(
                        Err(MarketplaceError::InvalidManifest { repository, reason }),
                    ) && repository@ == old(self).urls_spec()[old(self).next_spec()] && reason@
                        == invalid_json_reason_spec(msg),
                    None => if now.spec_nanos() + old(self).ttl_spec().spec_nanos() > MAX_TIMESTAMP_NANOS {
                        r matches SyncAction::Finish(Err(MarketplaceError::Configuration(m)))
                            && m@ == ttl_overflow_message(old(self).source_spec().slug@)
                    } else {
                        &&& final(self).next_spec() == old(self).next_spec() + 1
                        &&& final(self).urls_spec() == old(self).urls_spec()
                        &&& final(self).extensions_spec().len() == old(self).extensions_spec().len() + 1
                        &&& final(self).extensions_spec().drop_last() == old(self).extensions_spec()
                        &&& exists|m: ExtensionManifest, expires: Timestamp|
                            #![trigger manifest_of_fields(fields, m), extension_of_manifest(final(self).extensions_spec().last(), old(self).source_spec().slug@, m, sha256_lower_hex(vstd::utf8::encode_utf8(old(self).body_spec())), now, expires)]
                            manifest_of_fields(fields, m) && expires.spec_nanos() == now.spec_nanos()
                                + old(self).ttl_spec().spec_nanos() && extension_of_manifest(
                                final(self).extensions_spec().last(),
                                old(self).source_spec().slug@,
                                m,
                                sha256_lower_hex(vstd::utf8::encode_utf8(old(self).body_spec())),
                                now,
                                expires,
                            )
                        &&& if final(self).next_spec() < final(self).urls_spec().len() {
                            final(self).phase_spec() == SyncPhase::FetchingManifest && fetch_manifest_action(
                                r,
                                final(self).urls_spec()[final(self).next_spec()],
                            )
                        } else {
                            final(self).phase_spec() == SyncPhase::Saving && save_action(r, old(self).etag_spec(), old(self).ttl_spec())
                        }
                    }
                },
                _ => true,
            },
            old(self).phase_spec() == SyncPhase::Waiting ==> (old(self).pending_spec() matches Some(e) && r
                == SyncAction::Finish(Err(e))),
            // Saving: the gathered extensions are the result, unless the cache
            // could not be written.
            old(self).phase_spec() == SyncPhase::Saving ==> match event {
                SyncEvent::CacheSaved(Err(e)) => r == SyncAction::Finish(Err(e)),
                SyncEvent::CacheSaved(Ok(())) => finish_ok_action(r, old(self).extensions_spec()),
                _ => true,
            },
    {
        proof {
            use_type_invariant(&*self);
        }
        match self.phase {
            SyncPhase::Idle => {
                self.phase = SyncPhase::LoadingCache;
                SyncAction::LoadCache
            },
            SyncPhase::LoadingCache => match event {
                SyncEvent::CacheLoaded { snapshot, now } => match snapshot {
                    Err(e) => self.finish(Err(e)),
                    Ok(Some((expires, exts))) => {
                        if cache_is_fresh(expires, now) {
                            self.finish(Ok(exts))
                        } else {
                            self.phase = SyncPhase::FetchingCatalog;
                            SyncAction::FetchCatalog { url: self.source.url.to_text() }
                        }
                    },
                    Ok(None) => {
                        self.phase = SyncPhase::FetchingCatalog;
                        SyncAction::FetchCatalog { url: self.source.url.to_text() }
                    },
                },
                _ => self.finish(Err(MarketplaceError::Todo)),
            },
            SyncPhase::FetchingCatalog => match event {
                SyncEvent::Responded(Err(m)) => {
                    let url = self.source.url.to_text();
                    let e = MarketplaceError::network("catalog_fetch", m.as_str(), Some(url));
                    self.finish(Err(e))
                },
                SyncEvent::Responded(Ok(head)) => {
                    if head.status == STATUS_FORBIDDEN {
                        let e = rate_limited_error(self.source.slug.as_str(), &head.reset_header);
                        self.finish(Err(e))
                    } else {
                        self.etag = head.etag;
                        self.phase = SyncPhase::ReadingCatalog;
                        SyncAction::ReadBody
                    }
                },
                _ => self.finish(Err(MarketplaceError::Todo)),
            },
            SyncPhase::ReadingCatalog => match event {
                SyncEvent::BodyRead(Err(m)) => {
                    let url = self.source.url.to_text();
                    let e = MarketplaceError::network("catalog_read_body", m.as_str(), Some(url));
                    self.finish(Err(e))
                },
                SyncEvent::BodyRead(Ok(body)) => {
                    self.phase = SyncPhase::ParsingCatalog;
                    SyncAction::ParseCatalog { body }
                },
                _ => self.finish(Err(MarketplaceError::Todo)),
            },
            SyncPhase::ParsingCatalog => match event {
                SyncEvent::CatalogParsed(Err(detail)) => {
                    let e = invalid_catalog_error(self.source.slug.as_str(), detail.as_str());
                    self.finish(Err(e))
                },
                SyncEvent::CatalogParsed(Ok(urls)) => {
                    self.next = 0;
                    self.urls = urls;
                    self.extensions = Vec::new();
                    self.advance()
                },
                _ => self.finish(Err(MarketplaceError::Todo)),
            },
            SyncPhase::FetchingManifest => match event {
                SyncEvent::Responded(Err(m)) => {
                    let url = self.urls[self.next].clone();
                    let e = MarketplaceError::network("manifest_fetch", m.as_str(), Some(url));
                    self.finish(Err(e))
                },
                SyncEvent::Responded(Ok(head)) => {
                    if head.status == STATUS_FORBIDDEN {
                        let e = rate_limited_error(self.source.slug.as_str(), &head.reset_header);
                        self.pending = Some(e);
                        self.phase = SyncPhase::Waiting;
                        SyncAction::Wait { seconds: 5 }
                    } else {
                        self.phase = SyncPhase::ReadingManifest;
                        SyncAction::ReadBody
                    }
                },
                _ => self.finish(Err(MarketplaceError::Todo)),
            },
            SyncPhase::ReadingManifest => match event {
                SyncEvent::BodyRead(Err(m)) => {
                    let url = self.urls[self.next].clone();
                    let e = MarketplaceError::network("manifest_read_body", m.as_str(), Some(url));
                    self.finish(Err(e))
                },
                SyncEvent::BodyRead(Ok(body)) => {
                    let copy = body.clone();
                    self.body = body;
                    self.phase = SyncPhase::DecodingManifest;
                    SyncAction::DecodeManifest { body: copy }
                },
                _ => self.finish(Err(MarketplaceError::Todo)),
            },
            SyncPhase::DecodingManifest => match event {
                SyncEvent::ManifestDecoded { fields, now } => {
                    let ghost before = *self;
                    let ghost fv = fields;
                    let r = self.take_manifest(fields, now);
                    proof {
                        if let Ok(f) = fv {
                            if !(r matches SyncAction::Finish(Err(_))) {
                                let (m, expires) = choose|m: ExtensionManifest, expires: Timestamp|
                                    #![trigger manifest_of_fields(f, m), extension_of_manifest(self.extensions@.last(), before.source.slug@, m, sha256_lower_hex(vstd::utf8::encode_utf8(before.body@)), now, expires)]
                                    manifest_of_fields(f, m) && expires.spec_nanos() == now.spec_nanos()
                                        + before.ttl.spec_nanos() && extension_of_manifest(
                                        self.extensions@.last(),
                                        before.source.slug@,
                                        m,
                                        sha256_lower_hex(vstd::utf8::encode_utf8(before.body@)),
                                        now,
                                        expires,
                                    );
                                assert(manifest_of_fields(f, m));
                                assert(extension_of_manifest(
                                    self.extensions_spec().last(),
                                    before.source_spec().slug@,
                                    m,
                                    sha256_lower_hex(vstd::utf8::encode_utf8(before.body_spec())),
                                    now,
                                    expires,
                                ));
                            }
                        }
                    }
                    r
                },
                _ => self.finish(Err(MarketplaceError::Todo)),
            },
            SyncPhase::Waiting => {
                self.phase = SyncPhase::Done;
                let mut pending: Option<MarketplaceError> = None;
                std::mem::swap(&mut pending, &mut self.pending);
                match pending {
                    Some(e) => self.finish(Err(e)),
                    None => self.finish(Err(MarketplaceError::Todo)),
                }
            },
            SyncPhase::Saving => match event {
                SyncEvent::CacheSaved(Err(e)) => self.finish(Err(e)),
                SyncEvent::CacheSaved(Ok(())) => {
                    let mut exts: Vec<Extension> = Vec::new();
                    std::mem::swap(&mut exts, &mut self.extensions);
                    self.finish(Ok(exts))
                },
                _ => self.finish(Err(MarketplaceError::Todo)),
            },
            SyncPhase::Done => SyncAction::Finish(Err(MarketplaceError::Todo)),
        }
    }

    fn take_manifest(&mut self, fields: Result<ManifestFields, String>, now: Timestamp) -> (r: SyncAction)
        requires
            old(self).phase == SyncPhase::DecodingManifest,
        ensures
            final(self).source == old(self).source,
            final(self).ttl == old(self).ttl,
            match fields {
                Err(detail) => r matches SyncAction::Finish(Err(MarketplaceError::InvalidManifest { repository, reason }))
                    && repository@ == old(self).urls@[old(self).next as int]@ && reason@ == invalid_json_reason_spec(
                    detail@,
                ),
                Ok(fields) => match field_error_spec(fields) {
                    Some(msg) => r matches SyncAction::Finish(
                        Err(MarketplaceError::InvalidManifest { repository, reason }),
                    ) && repository@ == old(self).urls@[old(self).next as int]@ && reason@ == invalid_json_reason_spec(msg),
                    None => if now.spec_nanos() + old(self).ttl.spec_nanos() > MAX_TIMESTAMP_NANOS {
                        r matches SyncAction::Finish(Err(MarketplaceError::Configuration(m)))
                            && m@ == ttl_overflow_message(old(self).source.slug@)
                    } else {
                        &&& final(self).next == old(self).next + 1
                        &&& final(self).urls == old(self).urls
                        &&& final(self).etag == old(self).etag
                        &&& final(self).extensions@.len() == old(self).extensions@.len() + 1
                        &&& final(self).extensions@.drop_last() == old(self).extensions@
                        &&& exists|m: ExtensionManifest, expires: Timestamp|
                            #![trigger manifest_of_fields(fields, m), extension_of_manifest(final(self).extensions@.last(), old(self).source.slug@, m, sha256_lower_hex(vstd::utf8::encode_utf8(old(self).body@)), now, expires)]
                            manifest_of_fields(fields, m) && expires.spec_nanos() == now.spec_nanos()
                                + old(self).ttl.spec_nanos() && extension_of_manifest(
                                final(self).extensions@.last(),
                                old(self).source.slug@,
                                m,
                                sha256_lower_hex(vstd::utf8::encode_utf8(old(self).body@)),
                                now,
                                expires,
                            )
                        &&& if final(self).next < final(self).urls@.len() {
                            final(self).phase == SyncPhase::FetchingManifest && fetch_manifest_action(
                                r,
                                final(self).urls@[final(self).next as int]@,
                            )
                        } else {
                            final(self).phase == SyncPhase::Saving && save_action(r, opt_string_view(old(self).etag), old(self).ttl)
                        }
                    }
                },
            },
    {
        proof {
            use_type_invariant(&*self);
        }
        let url = self.urls[self.next].clone();
        let next = self.next;
        let n_urls = self.urls.len();
        assert(next < n_urls);
        match fields {
            Err(detail) => self.finish(Err(invalid_json(url.as_str(), detail.as_str()))),
            Ok(fields) => {
                let ghost fv = fields;
                match ExtensionManifest::from_fields(fields, url.as_str()) {
                    Err(e) => self.finish(Err(e)),
                    Ok((manifest, _validation)) => {
                        let ghost mv = manifest;
                        let checksum = sha256_hex(self.body.as_str().as_bytes());
                        let ghost cs = checksum@;
                        match to_extension(&self.source, manifest, self.ttl, checksum, now) {
                            Err(e) => self.finish(Err(e)),
                            Ok(ext) => {
                                let ghost ev = ext;
                                let ghost before = self.extensions@;
                                let mut exts: Vec<Extension> = Vec::new();
                                std::mem::swap(&mut exts, &mut self.extensions);
                                exts.push(ext);
                                self.extensions = exts;
                                self.phase = SyncPhase::Saving;
                                self.next = next + 1;
                                proof {
                                    assert(self.extensions@.drop_last() =~= before);
                                    assert(self.extensions@.last() == ev);
                                    let expires = choose|expires: Timestamp|
                                        expires.spec_nanos() == now.spec_nanos() + self.ttl.spec_nanos()
                                            && #[trigger] extension_of_manifest(
                                            ev,
                                            self.source.slug@,
                                            mv,
                                            cs,
                                            now,
                                            expires,
                                        );
                                    assert(manifest_of_fields(fv, mv));
                                    assert(extension_of_manifest(self.extensions@.last(), self.source.slug@, mv, cs, now, expires));
                                }
                                self.advance()
                            },
                        }
                    },
                }
            },
        }
    }
}

} // verus!
