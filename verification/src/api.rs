//! Payloads of the REST API and the mapping of failures to HTTP answers.
//!
//! Routing and serving are the caller's part; what a request is answered is
//! decided here.

use vstd::prelude::*;

use crate::catalog::{entries_view, ListEntry, ListEntryView, ListRequest, ListResponse};
use crate::error::MarketplaceError;
use crate::locator::opt_string_view;
use crate::text::{contains, contains_spec, decimal_spec, strings_view, u64_to_decimal};
use crate::time::{parse_rfc3339, printable_instant, rfc3339_instant, rfc3339_seconds_text, Timestamp};

verus! {

/// Query parameters of `GET /marketplace/extensions`.
#[derive(Debug, Clone, Default)]
pub struct ListQueryParams {
    /// Search term matched against names and descriptions.
    pub search: Option<String>,
    /// Category filter.
    pub category: Option<String>,
    /// Source slug filter.
    pub source: Option<String>,
    /// Whether only installed extensions are listed.
    pub installed_only: bool,
    /// Whether filtering happens before fetching.
    pub prefetch_filter: bool,
}

/// One extension of a listing answer.
#[derive(Debug, Clone)]
pub struct ExtensionSummary {
    pub namespace: String,
    pub display_name: String,
    pub description: String,
    pub version: String,
    pub source: String,
    pub installed: bool,
    pub categories: Vec<String>,
    pub tags: Vec<String>,
}

impl View for ExtensionSummary {
    type V = ListEntryView;

    open spec fn view(&self) -> ListEntryView {
        ListEntryView {
            namespace: self.namespace@,
            display_name: self.display_name@,
            description: self.description@,
            version: self.version@,
            source: self.source@,
            installed: self.installed,
            categories: strings_view(self.categories@),
            tags: strings_view(self.tags@),
        }
    }
}

pub open spec fn summaries_view(v: Seq<ExtensionSummary>) -> Seq<ListEntryView> {
    v.map_values(|e: ExtensionSummary| e@)
}

/// Answer of `GET /marketplace/extensions`.
#[derive(Debug)]
pub struct ExtensionListResponse {
    pub extensions: Vec<ExtensionSummary>,
    pub warnings: Vec<String>,
}

/// Additional information of an error answer, by kind of error.
#[derive(Debug, Clone)]
pub enum ErrorDetails {
    RateLimit { source_slug: String, reset_at: Option<String>, retry_after: Option<u64> },
    Network { operation: Option<String>, url: Option<String> },
    Io { path: Option<String>, operation: Option<String> },
    Configuration { parameter: Option<String>, value: Option<String> },
    /// Named text values, in the order they were added.
    Generic { context: Vec<(String, String)> },
}

/// What an error answer says.
#[derive(Debug, Clone)]
pub struct ErrorDetail {
    pub code: String,
    pub message: String,
    pub details: Option<ErrorDetails>,
}

/// The body of an error answer.
#[derive(Debug, Clone)]
pub struct ErrorResponse {
    pub error: ErrorDetail,
    pub request_id: Option<String>,
    pub timestamp: String,
}

/// What the library reads of error details.
pub enum ErrorDetailsView {
    RateLimit { source_slug: Seq<char>, reset_at: Option<Seq<char>>, retry_after: Option<int> },
    Network { operation: Option<Seq<char>>, url: Option<Seq<char>> },
    Io { path: Option<Seq<char>>, operation: Option<Seq<char>> },
    Configuration { parameter: Option<Seq<char>>, value: Option<Seq<char>> },
    Generic { context: Seq<(Seq<char>, Seq<char>)> },
}

/// What the library reads of an error detail.
pub struct ErrorDetailView {
    pub code: Seq<char>,
    pub message: Seq<char>,
    pub details: Option<ErrorDetailsView>,
}

pub open spec fn pairs_view(v: Seq<(String, String)>) -> Seq<(Seq<char>, Seq<char>)> {
    v.map_values(|p: (String, String)| (p.0@, p.1@))
}

pub open spec fn opt_u64_view(o: Option<u64>) -> Option<int> {
    match o {
        Some(n) => Some(n as int),
        None => None,
    }
}

impl View for ErrorDetails {
    type V = ErrorDetailsView;

    open spec fn view(&self) -> ErrorDetailsView {
        match *self {
            ErrorDetails::RateLimit { source_slug, reset_at, retry_after } => ErrorDetailsView::RateLimit {
                source_slug: source_slug@,
                reset_at: opt_string_view(reset_at),
                retry_after: opt_u64_view(retry_after),
            },
            ErrorDetails::Network { operation, url } => ErrorDetailsView::Network {
                operation: opt_string_view(operation),
                url: opt_string_view(url),
            },
            ErrorDetails::Io { path, operation } => ErrorDetailsView::Io {
                path: opt_string_view(path),
                operation: opt_string_view(operation),
            },
            ErrorDetails::Configuration { parameter, value } => ErrorDetailsView::Configuration {
                parameter: opt_string_view(parameter),
                value: opt_string_view(value),
            },
            ErrorDetails::Generic { context } => ErrorDetailsView::Generic { context: pairs_view(context@) },
        }
    }
}

impl View for ErrorDetail {
    type V = ErrorDetailView;

    open spec fn view(&self) -> ErrorDetailView {
        ErrorDetailView {
            code: self.code@,
            message: self.message@,
            details: match self.details {
                Some(d) => Some(d@),
                None => None,
            },
        }
    }
}

// ---------------------------------------------------------------------------
// HTTP status codes used by the API

pub const STATUS_BAD_REQUEST: u16 = 400;
pub const STATUS_UNAUTHORIZED: u16 = 401;
pub const STATUS_NOT_FOUND: u16 = 404;
pub const STATUS_UNPROCESSABLE_ENTITY: u16 = 422;
pub const STATUS_TOO_MANY_REQUESTS: u16 = 429;
pub const STATUS_INTERNAL_SERVER_ERROR: u16 = 500;
pub const STATUS_NOT_IMPLEMENTED: u16 = 501;
pub const STATUS_BAD_GATEWAY: u16 = 502;

// ---------------------------------------------------------------------------
// Error mapping

/// The configuration parameter and value a configuration message is about,
/// recognised by known phrases.
pub open spec fn config_context_spec(message: Seq<char>) -> (Option<Seq<char>>, Option<Seq<char>>) {
    if contains_spec(message, "Cache TTL overflow"@) {
        (Some("cache_ttl_hours"@), Some("overflow"@))
    } else if contains_spec(message, "invalid catalog"@) {
        (Some("catalog_url"@), Some("invalid"@))
    } else {
        (None, None)
    }
}

/// Extracts the configuration parameter and value from a configuration
/// error message.
pub fn extract_config_context(message: &str) -> (r: (Option<String>, Option<String>))
    ensures
        (opt_string_view(r.0), opt_string_view(r.1)) == config_context_spec(message@),
{
    proof {
        reveal_strlit("Cache TTL overflow");
        reveal_strlit("invalid catalog");
    }
    if contains(message, "Cache TTL overflow") {
        (Some(String::from_str("cache_ttl_hours")), Some(String::from_str("overflow")))
    } else if contains(message, "invalid catalog") {
        (Some(String::from_str("catalog_url")), Some(String::from_str("invalid")))
    } else {
        (None, None)
    }
}

/// Seconds to wait until an instant (whole seconds, rounded down), zero when
/// it has passed, or `None` when there is no instant.
pub open spec fn retry_after_spec(instant: Option<int>, now: int) -> Option<int> {
    match instant {
        Some(t) => Some(if t > now { (t - now) / 1_000_000_000 } else { 0 }),
        None => None,
    }
}

/// Seconds to wait until `instant` (seconds and nanoseconds after the epoch)
/// as seen at `now`; `None` when there is no instant.
pub fn retry_after_from(instant: Option<(u64, u32)>, now: Timestamp) -> (r: Option<u64>)
    requires
        instant matches Some((s, n)) ==> s < crate::time::RFC3339_LIMIT_SECS && n < 1_000_000_000,
    ensures
        opt_u64_view(r) == retry_after_spec(
            match instant {
                Some((s, n)) => Some(s * 1_000_000_000 + n),
                None => None,
            },
            now.spec_nanos(),
        ),
{
    match instant {
        None => None,
        Some((secs, nanos)) => {
            let t: i128 = (secs as i128) * 1_000_000_000 + (nanos as i128);
            let n = now.unix_nanos();
            if t > n {
                let wait: i128 = (t - n) / 1_000_000_000;
                assert(wait <= u64::MAX) by (nonlinear_arith)
                    requires
                        wait == (t - n) / 1_000_000_000,
                        t - n <= 253_402_300_800_000_000_000 + 9_223_372_036_854_775_808_000_000_000,
                        t - n > 0,
                ;
                Some(wait as u64)
            } else {
                Some(0)
            }
        },
    }
}

/// Seconds until a reset time given as RFC 3339 text, as seen at `now`.
pub open spec fn reset_retry_spec(reset_at: Option<Seq<char>>, now: int) -> Option<int> {
    match reset_at {
        Some(text) => retry_after_spec(rfc3339_instant(text), now),
        None => None,
    }
}

/// The HTTP status and error detail a marketplace error is answered with, at `now`.
pub open spec fn error_answer_spec(err: MarketplaceError, now: int) -> (u16, ErrorDetailView) {
    match err {
        MarketplaceError::ExtensionNotFound { id } => (
            STATUS_NOT_FOUND,
            ErrorDetailView {
                code: "EXTENSION_NOT_FOUND"@,
                message: "Extension '"@ + id@ + "' not found"@,
                details: None,
            },
        ),
        MarketplaceError::SourceNotFound { slug } => (
            STATUS_NOT_FOUND,
            ErrorDetailView {
                code: "SOURCE_NOT_FOUND"@,
                message: "Source '"@ + slug@ + "' not found"@,
                details: None,
            },
        ),
        MarketplaceError::RateLimited { source_slug, reset_at } => (
            STATUS_TOO_MANY_REQUESTS,
            ErrorDetailView {
                code: "RATE_LIMITED"@,
                message: "Rate limit exceeded for source '"@ + source_slug@ + "'"@,
                details: Some(
                    ErrorDetailsView::RateLimit {
                        source_slug: source_slug@,
                        reset_at: opt_string_view(reset_at),
                        retry_after: reset_retry_spec(opt_string_view(reset_at), now),
                    },
                ),
            },
        ),
        MarketplaceError::AuthenticationRequired { slug } => (
            STATUS_UNAUTHORIZED,
            ErrorDetailView {
                code: "AUTHENTICATION_REQUIRED"@,
                message: "Authentication required for source '"@ + slug@ + "'"@,
                details: None,
            },
        ),
        MarketplaceError::InvalidManifest { repository, reason } => (
            STATUS_UNPROCESSABLE_ENTITY,
            ErrorDetailView {
                code: "INVALID_MANIFEST"@,
                message: "Invalid manifest for repository '"@ + repository@ + "': "@ + reason@,
                details: Some(
                    ErrorDetailsView::Generic {
                        context: seq![("repository"@, repository@), ("reason"@, reason@)],
                    },
                ),
            },
        ),
        MarketplaceError::Network { operation, message, url } => (
            STATUS_BAD_GATEWAY,
            ErrorDetailView {
                code: "NETWORK_ERROR"@,
                message: message@,
                details: Some(ErrorDetailsView::Network { operation: Some(operation@), url: opt_string_view(url) }),
            },
        ),
        MarketplaceError::Io { path, message } => (
            STATUS_INTERNAL_SERVER_ERROR,
            ErrorDetailView {
                code: "IO_ERROR"@,
                message: "I/O error: "@ + message@,
                details: Some(ErrorDetailsView::Io { path: Some(path@), operation: Some("file operation"@) }),
            },
        ),
        MarketplaceError::Configuration(message) => (
            STATUS_BAD_REQUEST,
            ErrorDetailView {
                code: "CONFIGURATION_ERROR"@,
                message: "Configuration error"@,
                details: Some(
                    ErrorDetailsView::Configuration {
                        parameter: config_context_spec(message@).0,
                        value: config_context_spec(message@).1,
                    },
                ),
            },
        ),
        MarketplaceError::Todo => (
            STATUS_NOT_IMPLEMENTED,
            ErrorDetailView { code: "NOT_IMPLEMENTED"@, message: "Operation not yet implemented"@, details: None },
        ),
    }
}

fn text(s: &str) -> (r: String)
    ensures
        r@ == s@,
{
    String::from_str(s)
}

fn text3(a: &str, b: &str, c: &str) -> (r: String)
    ensures
        r@ == a@ + b@ + c@,
{
    let mut s = String::from_str(a);
    s.append(b);
    s.append(c);
    s
}

fn copy_opt(o: &Option<String>) -> (r: Option<String>)
    ensures
        opt_string_view(r) == opt_string_view(*o),
{
    match o {
        Some(s) => Some(s.clone()),
        None => None,
    }
}

/// The HTTP status and error detail for a marketplace error, as seen at `now`
/// (which only the retry hint of a rate limit depends on).
pub fn map_marketplace_error_to_response_at(error: &MarketplaceError, now: Timestamp) -> (r: (u16, ErrorDetail))
    ensures
        (r.0, r.1@) == error_answer_spec(*error, now.spec_nanos()),
{
    proof {
        reveal_strlit("EXTENSION_NOT_FOUND");
        reveal_strlit("SOURCE_NOT_FOUND");
        reveal_strlit("RATE_LIMITED");
        reveal_strlit("AUTHENTICATION_REQUIRED");
        reveal_strlit("INVALID_MANIFEST");
        reveal_strlit("NETWORK_ERROR");
        reveal_strlit("IO_ERROR");
        reveal_strlit("CONFIGURATION_ERROR");
        reveal_strlit("NOT_IMPLEMENTED");
    }
    match error {
        MarketplaceError::ExtensionNotFound { id } => (
            STATUS_NOT_FOUND,
            ErrorDetail {
                code: text("EXTENSION_NOT_FOUND"),
                message: text3("Extension '", id.as_str(), "' not found"),
                details: None,
            },
        ),
        MarketplaceError::SourceNotFound { slug } => (
            STATUS_NOT_FOUND,
            ErrorDetail {
                code: text("SOURCE_NOT_FOUND"),
                message: text3("Source '", slug.as_str(), "' not found"),
                details: None,
            },
        ),
        MarketplaceError::RateLimited { source_slug, reset_at } => {
            let retry_after = match reset_at {
                Some(s) => {
                    let instant = parse_rfc3339(s.as_str());
                    retry_after_from(instant, now)
                },
                None => None,
            };
            (
                STATUS_TOO_MANY_REQUESTS,
                ErrorDetail {
                    code: text("RATE_LIMITED"),
                    message: text3("Rate limit exceeded for source '", source_slug.as_str(), "'"),
                    details: Some(
                        ErrorDetails::RateLimit {
                            source_slug: source_slug.clone(),
                            reset_at: copy_opt(reset_at),
                            retry_after,
                        },
                    ),
                },
            )
        },
        MarketplaceError::AuthenticationRequired { slug } => (
            STATUS_UNAUTHORIZED,
            ErrorDetail {
                code: text("AUTHENTICATION_REQUIRED"),
                message: text3("Authentication required for source '", slug.as_str(), "'"),
                details: None,
            },
        ),
        MarketplaceError::InvalidManifest { repository, reason } => {
            let mut message = text3("Invalid manifest for repository '", repository.as_str(), "': ");
            message.append(reason.as_str());
            let mut context: Vec<(String, String)> = Vec::new();
            context.push((text("repository"), repository.clone()));
            context.push((text("reason"), reason.clone()));
            proof {
                assert(pairs_view(context@) =~= seq![("repository"@, repository@), ("reason"@, reason@)]);
            }
            (
                STATUS_UNPROCESSABLE_ENTITY,
                ErrorDetail {
                    code: text("INVALID_MANIFEST"),
                    message,
                    details: Some(ErrorDetails::Generic { context }),
                },
            )
        },
        MarketplaceError::Network { operation, message, url } => (
            STATUS_BAD_GATEWAY,
            ErrorDetail {
                code: text("NETWORK_ERROR"),
                message: message.clone(),
                details: Some(ErrorDetails::Network { operation: Some(operation.clone()), url: copy_opt(url) }),
            },
        ),
        MarketplaceError::Io { path, message } => {
            let mut m = text("I/O error: ");
            m.append(message.as_str());
            (
                STATUS_INTERNAL_SERVER_ERROR,
                ErrorDetail {
                    code: text("IO_ERROR"),
                    message: m,
                    details: Some(ErrorDetails::Io { path: Some(path.clone()), operation: Some(text("file operation")) }),
                },
            )
        },
        MarketplaceError::Configuration(message) => {
            let (parameter, value) = extract_config_context(message.as_str());
            (
                STATUS_BAD_REQUEST,
                ErrorDetail {
                    code: text("CONFIGURATION_ERROR"),
                    message: text("Configuration error"),
                    details: Some(ErrorDetails::Configuration { parameter, value }),
                },
            )
        },
        MarketplaceError::Todo => (
            STATUS_NOT_IMPLEMENTED,
            ErrorDetail {
                code: text("NOT_IMPLEMENTED"),
                message: text("Operation not yet implemented"),
                details: None,
            },
        ),
    }
}

/// The HTTP status and error detail for a marketplace error, at the current
/// time of the system clock.
pub fn map_marketplace_error_to_response(error: &MarketplaceError) -> (r: (u16, ErrorDetail))
    ensures
        exists|now: Timestamp| (r.0, r.1@) == #[trigger] error_answer_spec(*error, now.spec_nanos()),
{
    let now = Timestamp::now();
    let r = map_marketplace_error_to_response_at(error, now);
    assert((r.0, r.1@) == error_answer_spec(*error, now.spec_nanos()));
    r
}

/// The answer to a failure that is not a marketplace error.
pub open spec fn generic_answer_spec(error_text: Seq<char>) -> (u16, ErrorDetailView) {
    (
        STATUS_INTERNAL_SERVER_ERROR,
        ErrorDetailView {
            code: "INTERNAL_ERROR"@,
            message: "An internal error occurred"@,
            details: Some(ErrorDetailsView::Generic { context: seq![("error"@, error_text)] }),
        },
    )
}

/// The HTTP status and error detail for a failure that is not a marketplace
/// error, given the failure's message.
pub fn map_generic_error_to_response(error_text: &str) -> (r: (u16, ErrorDetail))
    ensures
        (r.0, r.1@) == generic_answer_spec(error_text@),
{
    proof {
        reveal_strlit("INTERNAL_ERROR");
    }
    let mut context: Vec<(String, String)> = Vec::new();
    context.push((text("error"), String::from_str(error_text)));
    proof {
        assert(pairs_view(context@) =~= seq![("error"@, error_text@)]);
    }
    (
        STATUS_INTERNAL_SERVER_ERROR,
        ErrorDetail {
            code: text("INTERNAL_ERROR"),
            message: text("An internal error occurred"),
            details: Some(ErrorDetails::Generic { context }),
        },
    )
}

/// A failure of a request handler: a marketplace error, or any other failure
/// with its message.
#[derive(Debug)]
pub enum HandlerFailure {
    Marketplace(MarketplaceError),
    Other(String),
}

/// The answer to a handler failure, as seen at `now`.
pub open spec fn failure_answer_spec(failure: HandlerFailure, now: int) -> (u16, ErrorDetailView) {
    match failure {
        HandlerFailure::Marketplace(e) => error_answer_spec(e, now),
        HandlerFailure::Other(t) => generic_answer_spec(t@),
    }
}

/// The HTTP status and error body for a handler failure at `now`, carrying
/// the request id and the time of the answer.
pub fn map_error_to_response(failure: &HandlerFailure, request_id: Option<String>, now: Timestamp) -> (r: (
    u16,
    ErrorResponse,
))
    requires
        printable_instant(now.spec_nanos()),
    ensures
        (r.0, r.1.error@) == failure_answer_spec(*failure, now.spec_nanos()),
        opt_string_view(r.1.request_id) == opt_string_view(request_id),
        r.1.timestamp@ == rfc3339_seconds_text(now.spec_nanos() / 1_000_000_000),
{
    let timestamp = now.to_rfc3339();
    let (status, error) = match failure {
        HandlerFailure::Marketplace(e) => map_marketplace_error_to_response_at(e, now),
        HandlerFailure::Other(t) => map_generic_error_to_response(t.as_str()),
    };
    (status, ErrorResponse { error, request_id, timestamp })
}

/// The request id of a request received at `now`: `req-` and the whole
/// seconds since the epoch (zero for a clock before the epoch).
pub open spec fn request_id_spec(now: int) -> Seq<char> {
    "req-"@ + decimal_spec(if now >= 0 { (now / 1_000_000_000) as nat } else { 0 })
}

/// The request id of a request received at `now`.
pub fn request_id_at(now: Timestamp) -> (r: String)
    ensures
        r@ == request_id_spec(now.spec_nanos()),
{
    let n = now.unix_nanos();
    let secs: u64 = if n >= 0 {
        let s = n / 1_000_000_000;
        assert(s <= u64::MAX);
        s as u64
    } else {
        0
    };
    let digits = u64_to_decimal(secs);
    let mut r = String::from_str("req-");
    r.append(digits.as_str());
    r
}

/// The answer of an endpoint that is not implemented yet.
pub open spec fn not_implemented_spec(message: Seq<char>) -> ErrorDetailView {
    ErrorDetailView { code: "NOT_IMPLEMENTED"@, message, details: None }
}

/// Answer of the listing endpoint of a router built without a catalog.
pub fn not_implemented_list_response(now: Timestamp) -> (r: (u16, ErrorResponse))
    requires
        printable_instant(now.spec_nanos()),
    ensures
        r.0 == STATUS_NOT_IMPLEMENTED,
        r.1.error@ == not_implemented_spec(
            "Extensions API not yet fully initialized. Use router_with_state() to enable."@,
        ),
        r.1.request_id is None,
        r.1.timestamp@ == rfc3339_seconds_text(now.spec_nanos() / 1_000_000_000),
{
    proof {
        reveal_strlit("NOT_IMPLEMENTED");
    }
    (
        STATUS_NOT_IMPLEMENTED,
        ErrorResponse {
            error: ErrorDetail {
                code: text("NOT_IMPLEMENTED"),
                message: text("Extensions API not yet fully initialized. Use router_with_state() to enable."),
                details: None,
            },
            request_id: None,
            timestamp: now.to_rfc3339(),
        },
    )
}

/// Answer of the endpoints that are not implemented yet.
pub fn not_implemented_response(now: Timestamp) -> (r: (u16, ErrorResponse))
    requires
        printable_instant(now.spec_nanos()),
    ensures
        r.0 == STATUS_NOT_IMPLEMENTED,
        r.1.error@ == not_implemented_spec("endpoint not yet implemented"@),
        r.1.request_id is None,
        r.1.timestamp@ == rfc3339_seconds_text(now.spec_nanos() / 1_000_000_000),
{
    proof {
        reveal_strlit("NOT_IMPLEMENTED");
    }
    (
        STATUS_NOT_IMPLEMENTED,
        ErrorResponse {
            error: ErrorDetail {
                code: text("NOT_IMPLEMENTED"),
                message: text("endpoint not yet implemented"),
                details: None,
            },
            request_id: None,
            timestamp: now.to_rfc3339(),
        },
    )
}

// ---------------------------------------------------------------------------
// Listing

/// The listing request a query asks for: its filters, the default page.
pub fn list_request_from_params<'a>(params: &'a ListQueryParams) -> (r: ListRequest<'a>)
    ensures
        crate::catalog::opt_str_view(r.search) == opt_string_view(params.search),
        crate::catalog::opt_str_view(r.category) == opt_string_view(params.category),
        crate::catalog::opt_str_view(r.source) == opt_string_view(params.source),
        r.installed_only == params.installed_only,
        r.prefetch_filter == params.prefetch_filter,
        r.page is None,
        r.page_size is None,
{
    ListRequest {
        search: match &params.search {
            Some(s) => Some(s.as_str()),
            None => None,
        },
        category: match &params.category {
            Some(s) => Some(s.as_str()),
            None => None,
        },
        source: match &params.source {
            Some(s) => Some(s.as_str()),
            None => None,
        },
        installed_only: params.installed_only,
        prefetch_filter: params.prefetch_filter,
        page: None,
        page_size: None,
    }
}

/// The listing answer for a listing page: its entries, field by field, and its warnings.
pub fn extension_list_response(response: ListResponse) -> (r: ExtensionListResponse)
    ensures
        summaries_view(r.extensions@) == entries_view(response.entries@),
        r.warnings@ == response.warnings@,
{
    let ghost entries = response.entries@;
    let mut extensions: Vec<ExtensionSummary> = Vec::new();
    let mut rest = response.entries;
    let n = rest.len();
    assert(rest@.subrange(0, n as int) =~= entries);
    let mut i: usize = 0;
    while i < n
        invariant
            0 <= i <= n,
            n == entries.len(),
            rest@ == entries.subrange(i as int, n as int),
            summaries_view(extensions@) == entries_view(entries.subrange(0, i as int)),
        decreases n - i,
    {
        let entry = rest.remove(0);
        proof {
            assert(entry == entries[i as int]);
            assert(rest@ =~= entries.subrange(i + 1, n as int));
        }
        let ghost before = extensions@;
        extensions.push(
            ExtensionSummary {
                namespace: entry.namespace,
                display_name: entry.display_name,
                description: entry.description,
                version: entry.version,
                source: entry.source,
                installed: entry.installed,
                categories: entry.categories,
                tags: entry.tags,
            },
        );
        proof {
            assert(entries.subrange(0, i + 1) =~= entries.subrange(0, i as int).push(entries[i as int]));
            assert(summaries_view(extensions@) =~= summaries_view(before).push(entries[i as int]@));
            assert(entries_view(entries.subrange(0, i + 1)) =~= entries_view(entries.subrange(0, i as int)).push(
                entries[i as int]@,
            ));
        }
        i = i + 1;
    }
    proof {
        assert(entries.subrange(0, n as int) =~= entries);
    }
    ExtensionListResponse { extensions, warnings: response.warnings }
}

} // verus!
