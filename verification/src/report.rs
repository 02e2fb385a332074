//! The `status` command: what it reports of the marketplace and how the
//! report reads.
//!
//! Looking at the disk and probing the network is the caller's part; it hands
//! in what it saw, and the report is decided and written here.

use vstd::prelude::*;

use crate::domain::{MarketplaceSource, RetryJob};
use crate::locator::opt_string_view;
use crate::status::{LoggedError, StatusSnapshot};
use crate::telemetry::TelemetrySnapshot;
use crate::text::{
    contains, contains_spec, decimal_spec, ends_with, ends_with_spec, join, join_spec, sort_strings, sort_texts_spec,
    starts_with, starts_with_spec, strings_view, u64_to_decimal,
};
use crate::time::{printable_instant, rfc3339_seconds_text, Timestamp};

verus! {

/// Options of the `status` command.
#[derive(Debug, Clone)]
pub struct StatusOptions {
    pub json: bool,
}

/// Whether a source answered the network probe.
#[derive(Debug, Clone)]
pub struct NetworkStatus {
    pub reachable: bool,
    pub checked_source: Option<String>,
    pub message: Option<String>,
}

/// Installed extensions and installs in progress, each sorted by name.
#[derive(Debug, Clone, Default)]
pub struct InstalledSummary {
    pub total: usize,
    pub extensions: Vec<String>,
    pub installing: Vec<String>,
}

/// The refresh queue: how many jobs wait, and when the earliest is due.
#[derive(Debug, Clone)]
pub struct RefreshQueueStatus {
    pub pending_jobs: usize,
    pub next_job_due: Option<String>,
}

/// A recorded error as the report shows it.
#[derive(Debug, Clone)]
pub struct LastErrorView {
    pub source_slug: String,
    pub message: String,
    pub occurred_at: String,
}

/// Everything the `status` command reports.
#[derive(Debug, Clone)]
pub struct StatusReport {
    pub cache_dir_exists: bool,
    pub network: NetworkStatus,
    pub installed_extensions: InstalledSummary,
    pub refresh_queue: RefreshQueueStatus,
    pub last_errors: Vec<LastErrorView>,
    pub telemetry: TelemetrySnapshot,
}

// ---------------------------------------------------------------------------
// Network

/// Index of the first enabled source.
pub open spec fn first_enabled(s: Seq<MarketplaceSource>) -> Option<int>
    decreases s.len(),
{
    if s.len() == 0 {
        None
    } else {
        match first_enabled(s.drop_last()) {
            Some(i) => Some(i),
            None => if s.last().enabled {
                Some(s.len() - 1)
            } else {
                None
            },
        }
    }
}

proof fn lemma_first_enabled(s: Seq<MarketplaceSource>, i: int)
    requires
        0 <= i <= s.len(),
        forall|k: int| 0 <= k < i ==> !(#[trigger] s[k]).enabled,
    ensures
        i < s.len() && s[i].enabled ==> first_enabled(s) == Some(i),
        i == s.len() ==> first_enabled(s) is None,
    decreases s.len(),
{
    if s.len() > 0 {
        if i < s.len() {
            if i < s.len() - 1 {
                lemma_first_enabled(s.drop_last(), i);
            } else {
                lemma_first_enabled(s.drop_last(), s.len() - 1);
            }
        } else {
            lemma_first_enabled(s.drop_last(), s.len() - 1);
        }
    }
}

/// The source the network probe checks: the first enabled one.
pub fn network_probe_target(sources: &Vec<MarketplaceSource>) -> (r: Option<usize>)
    ensures
        match r {
            Some(i) => first_enabled(sources@) == Some(i as int),
            None => first_enabled(sources@) is None,
        },
{
    let mut i: usize = 0;
    while i < sources.len()
        invariant
            0 <= i <= sources@.len(),
            forall|k: int| 0 <= k < i ==> !(#[trigger] sources@[k]).enabled,
        decreases sources@.len() - i,
    {
        if sources[i].enabled {
            proof {
                lemma_first_enabled(sources@, i as int);
            }
            return Some(i);
        }
        i = i + 1;
    }
    proof {
        lemma_first_enabled(sources@, i as int);
    }
    None
}

/// The network status when no source is enabled: nothing to check.
pub fn network_skipped() -> (r: NetworkStatus)
    ensures
        r.reachable,
        r.checked_source is None,
        opt_string_view(r.message) == Some("No sources configured; network check skipped"@),
{
    NetworkStatus {
        reachable: true,
        checked_source: None,
        message: Some(String::from_str("No sources configured; network check skipped")),
    }
}

/// What probing a source with a `HEAD` request gave.
#[derive(Debug, Clone)]
pub enum ProbeOutcome {
    /// No HTTP client could be built; the client error's message.
    ClientFailed(String),
    /// The source answered with this status code and its text (`404 Not Found`).
    Answered { status: u16, status_text: String },
    /// The request failed; the error's message.
    Failed(String),
}

/// Whether an answer counts as fine: a success or `405 Method Not Allowed`.
pub open spec fn probe_fine(status: u16) -> bool {
    (200 <= status && status <= 299) || status == 405
}

/// The network status a probe of the source `slug` at `url` shows.
pub open spec fn network_status_spec(slug: Seq<char>, url: Seq<char>, outcome: ProbeOutcome) -> (
    bool,
    Option<Seq<char>>,
    Option<Seq<char>>,
) {
    match outcome {
        ProbeOutcome::ClientFailed(e) => (false, Some(slug), Some("Failed to create HTTP client: "@ + e@)),
        ProbeOutcome::Answered { status, status_text } => (
            true,
            Some(slug),
            if probe_fine(status) {
                None
            } else {
                Some("HTTP "@ + status_text@ + " from "@ + url)
            },
        ),
        ProbeOutcome::Failed(e) => (false, Some(slug), Some(e@)),
    }
}

/// The network status after probing `source`.
pub fn network_status_from(source: &MarketplaceSource, outcome: ProbeOutcome) -> (r: NetworkStatus)
    ensures
        (r.reachable, opt_string_view(r.checked_source), opt_string_view(r.message)) == network_status_spec(
            source.slug@,
            source.url@.serialization,
            outcome,
        ),
{
    let slug = source.slug.clone();
    match outcome {
        ProbeOutcome::ClientFailed(e) => {
            let mut m = String::from_str("Failed to create HTTP client: ");
            m.append(e.as_str());
            NetworkStatus { reachable: false, checked_source: Some(slug), message: Some(m) }
        },
        ProbeOutcome::Answered { status, status_text } => {
            let fine = (200 <= status && status <= 299) || status == 405;
            let message = if fine {
                None
            } else {
                let mut m = String::from_str("HTTP ");
                m.append(status_text.as_str());
                m.append(" from ");
                m.append(source.url.as_str());
                Some(m)
            };
            NetworkStatus { reachable: true, checked_source: Some(slug), message }
        },
        ProbeOutcome::Failed(e) => NetworkStatus { reachable: false, checked_source: Some(slug), message: Some(e) },
    }
}

// ---------------------------------------------------------------------------
// Installed extensions

/// What the caller saw of one entry of the extensions directory.
#[derive(Debug, Clone)]
pub struct DirEntryInfo {
    /// The entry's name, when it is valid UTF-8.
    pub name: Option<String>,
    pub is_dir: bool,
    /// Whether the entry holds a `.installing` marker.
    pub has_installing_marker: bool,
    /// Whether the entry holds a `.gemini-extension-install.json` record.
    pub has_install_record: bool,
}

/// Whether an extension directory looks like an install in progress: a
/// `.tmp` name, a name containing `install`, or an `.installing` marker.
pub open spec fn looks_installing_spec(name: Seq<char>, has_marker: bool) -> bool {
    ends_with_spec(name, ".tmp"@) || contains_spec(name, "install"@) || has_marker
}

/// Whether an extension directory looks like an install in progress.
pub fn looks_installing(name: &str, has_installing_marker: bool) -> (r: bool)
    ensures
        r == looks_installing_spec(name@, has_installing_marker),
{
    if ends_with(name, ".tmp") || contains(name, "install") {
        return true;
    }
    has_installing_marker
}

/// The name of an entry the summary considers: a directory with a UTF-8
/// name not starting with a dot.
pub open spec fn considered_name(e: DirEntryInfo) -> Option<Seq<char>> {
    if !e.is_dir {
        None
    } else {
        match e.name {
            Some(n) => if starts_with_spec(n@, "."@) {
                None
            } else {
                Some(n@)
            },
            None => None,
        }
    }
}

/// Names of the entries that look like installs in progress, in directory order.
pub open spec fn installing_names(s: Seq<DirEntryInfo>) -> Seq<Seq<char>>
    decreases s.len(),
{
    if s.len() == 0 {
        Seq::empty()
    } else {
        let prev = installing_names(s.drop_last());
        let e = s.last();
        match considered_name(e) {
            Some(n) => if looks_installing_spec(n, e.has_installing_marker) {
                prev.push(n)
            } else {
                prev
            },
            None => prev,
        }
    }
}

/// Names of the installed entries (with an install record, not in
/// progress), in directory order.
pub open spec fn installed_names(s: Seq<DirEntryInfo>) -> Seq<Seq<char>>
    decreases s.len(),
{
    if s.len() == 0 {
        Seq::empty()
    } else {
        let prev = installed_names(s.drop_last());
        let e = s.last();
        match considered_name(e) {
            Some(n) => if !looks_installing_spec(n, e.has_installing_marker) && e.has_install_record {
                prev.push(n)
            } else {
                prev
            },
            None => prev,
        }
    }
}

/// Summarises the extensions directory; `None` when there is no such
/// directory or it cannot be read.
pub fn installed_extensions(entries: Option<Vec<DirEntryInfo>>) -> (r: InstalledSummary)
    ensures
        match entries {
            None => r.total == 0 && r.extensions@.len() == 0 && r.installing@.len() == 0,
            Some(v) => {
                &&& strings_view(r.extensions@) == sort_texts_spec(installed_names(v@))
                &&& strings_view(r.installing@) == sort_texts_spec(installing_names(v@))
                &&& r.total == r.extensions@.len()
            },
        },
{
    let entries = match entries {
        None => return InstalledSummary { total: 0, extensions: Vec::new(), installing: Vec::new() },
        Some(v) => v,
    };
    let mut extensions: Vec<String> = Vec::new();
    let mut installing: Vec<String> = Vec::new();
    let mut i: usize = 0;
    while i < entries.len()
        invariant
            0 <= i <= entries@.len(),
            strings_view(extensions@) == installed_names(entries@.subrange(0, i as int)),
            strings_view(installing@) == installing_names(entries@.subrange(0, i as int)),
        decreases entries@.len() - i,
    {
        let e = &entries[i];
        let ghost prefix = entries@.subrange(0, i + 1);
        proof {
            assert(prefix.drop_last() =~= entries@.subrange(0, i as int));
            assert(prefix.last() == entries@[i as int]);
        }
        if e.is_dir {
            match &e.name {
                Some(n) => {
                    if !starts_with(n.as_str(), ".") {
                        if looks_installing(n.as_str(), e.has_installing_marker) {
                            installing.push(n.clone());
                            proof {
                                assert(strings_view(installing@) =~= installing_names(entries@.subrange(0, i as int)).push(n@));
                            }
                        } else if e.has_install_record {
                            extensions.push(n.clone());
                            proof {
                                assert(strings_view(extensions@) =~= installed_names(entries@.subrange(0, i as int)).push(n@));
                            }
                        }
                    }
                },
                None => {},
            }
        }
        i = i + 1;
    }
    proof {
        assert(entries@.subrange(0, entries@.len() as int) =~= entries@);
    }
    let extensions = sort_strings(extensions);
    let installing = sort_strings(installing);
    let total = extensions.len();
    InstalledSummary { total, extensions, installing }
}

// ---------------------------------------------------------------------------
// Refresh queue

/// The earliest scheduled time of the jobs, in nanoseconds.
pub open spec fn earliest_schedule(s: Seq<RetryJob>) -> int
    recommends
        s.len() > 0,
    decreases s.len(),
{
    if s.len() <= 1 {
        s[0].scheduled_for.spec_nanos()
    } else {
        let rest = earliest_schedule(s.drop_last());
        let last = s.last().scheduled_for.spec_nanos();
        if last < rest {
            last
        } else {
            rest
        }
    }
}

/// Whether the earliest job of a queue, if any, is due at a printable time.
pub open spec fn queue_printable(queue: Option<Vec<RetryJob>>) -> bool {
    match queue {
        Some(q) => q@.len() > 0 ==> printable_instant(earliest_schedule(q@)),
        None => true,
    }
}

/// The refresh queue as the report shows it; `None` when the queue file is
/// missing or unreadable. The earliest job's time must be printable.
pub fn refresh_queue_status(queue: Option<Vec<RetryJob>>) -> (r: RefreshQueueStatus)
    requires
        queue_printable(queue),
    ensures
        match queue {
            None => r.pending_jobs == 0 && r.next_job_due is None,
            Some(q) => r.pending_jobs == q@.len() && if q@.len() == 0 {
                r.next_job_due is None
            } else {
                opt_string_view(r.next_job_due) == Some(
                    rfc3339_seconds_text(earliest_schedule(q@) / 1_000_000_000),
                )
            },
        },
{
    let q = match queue {
        None => return RefreshQueueStatus { pending_jobs: 0, next_job_due: None },
        Some(q) => q,
    };
    if q.len() == 0 {
        return RefreshQueueStatus { pending_jobs: 0, next_job_due: None };
    }
    let mut best = q[0].scheduled_for;
    let mut i: usize = 1;
    while i < q.len()
        invariant
            1 <= i <= q@.len(),
            best.spec_nanos() == earliest_schedule(q@.subrange(0, i as int)),
        decreases q@.len() - i,
    {
        proof {
            assert(q@.subrange(0, i + 1).drop_last() =~= q@.subrange(0, i as int));
        }
        if q[i].scheduled_for.is_before(&best) {
            best = q[i].scheduled_for;
        }
        i = i + 1;
    }
    proof {
        assert(q@.subrange(0, q@.len() as int) =~= q@);
    }
    let due = best.to_rfc3339();
    RefreshQueueStatus { pending_jobs: q.len(), next_job_due: Some(due) }
}

// ---------------------------------------------------------------------------
// Recorded errors

/// Whether every recorded error happened at a printable time.
pub open spec fn errors_printable(errors: Seq<LoggedError>) -> bool {
    forall|i: int| 0 <= i < errors.len() ==> printable_instant(#[trigger] errors[i].occurred_at.spec_nanos())
}

/// The recorded errors as the report shows them, in order, with their time
/// in RFC 3339.
pub fn last_error_views(snapshot: &StatusSnapshot) -> (r: Vec<LastErrorView>)
    requires
        errors_printable(snapshot.last_errors@),
    ensures
        r@.len() == snapshot.last_errors@.len(),
        forall|i: int|
            0 <= i < r@.len() ==> {
                &&& (#[trigger] r@[i]).source_slug@ == snapshot.last_errors@[i].source_slug@
                &&& r@[i].message@ == snapshot.last_errors@[i].message@
                &&& r@[i].occurred_at@ == rfc3339_seconds_text(
                    snapshot.last_errors@[i].occurred_at.spec_nanos() / 1_000_000_000,
                )
            },
{
    let mut out: Vec<LastErrorView> = Vec::new();
    let mut i: usize = 0;
    while i < snapshot.last_errors.len()
        invariant
            0 <= i <= snapshot.last_errors@.len(),
            errors_printable(snapshot.last_errors@),
            out@.len() == i,
            forall|k: int|
                0 <= k < i ==> {
                    &&& (#[trigger] out@[k]).source_slug@ == snapshot.last_errors@[k].source_slug@
                    &&& out@[k].message@ == snapshot.last_errors@[k].message@
                    &&& out@[k].occurred_at@ == rfc3339_seconds_text(
                        snapshot.last_errors@[k].occurred_at.spec_nanos() / 1_000_000_000,
                    )
                },
        decreases snapshot.last_errors@.len() - i,
    {
        let e = &snapshot.last_errors[i];
        assert(printable_instant(snapshot.last_errors@[i as int].occurred_at.spec_nanos()));
        out.push(
            LastErrorView {
                source_slug: e.source_slug.clone(),
                message: e.message.clone(),
                occurred_at: e.occurred_at.to_rfc3339(),
            },
        );
        i = i + 1;
    }
    out
}

// ---------------------------------------------------------------------------
// The human-readable report

pub open spec fn dec(n: int) -> Seq<char> {
    decimal_spec(n as nat)
}

pub open spec fn network_lines(n: NetworkStatus) -> Seq<Seq<char>> {
    if n.reachable {
        seq![
            match n.checked_source {
                Some(slug) => "Network: OK (checked "@ + slug@ + ")"@,
                None => "Network: OK"@,
            },
        ] + match n.message {
            Some(m) => seq!["  note: "@ + m@],
            None => Seq::empty(),
        }
    } else {
        seq!["Network: ERROR"@] + match n.message {
            Some(m) => seq!["  reason: "@ + m@],
            None => Seq::empty(),
        }
    }
}

pub open spec fn installed_lines(s: InstalledSummary) -> Seq<Seq<char>> {
    seq!["Installed extensions: "@ + dec(s.total as int)] + (if s.extensions@.len() > 0 {
        seq!["  "@ + join_spec(strings_view(s.extensions@), ", "@)]
    } else {
        Seq::empty()
    }) + seq![
        if s.installing@.len() == 0 {
            "Installs in progress: none"@
        } else {
            "Installs in progress: "@ + join_spec(strings_view(s.installing@), ", "@)
        },
    ]
}

pub open spec fn queue_lines(q: RefreshQueueStatus) -> Seq<Seq<char>> {
    seq!["Refresh queue: "@ + dec(q.pending_jobs as int) + " pending"@] + match q.next_job_due {
        Some(d) => seq!["  next run at "@ + d@],
        None => Seq::empty(),
    }
}

/// The two lines of each recorded error.
pub open spec fn error_entry_lines(errors: Seq<LastErrorView>) -> Seq<Seq<char>>
    decreases errors.len(),
{
    if errors.len() == 0 {
        Seq::empty()
    } else {
        let e = errors.last();
        error_entry_lines(errors.drop_last()) + seq![
            "  "@ + e.source_slug@ + " at "@ + e.occurred_at@,
            "    "@ + e.message@,
        ]
    }
}

pub open spec fn error_lines(errors: Seq<LastErrorView>) -> Seq<Seq<char>> {
    if errors.len() == 0 {
        seq!["Recent errors: none"@]
    } else {
        seq!["Recent errors:"@] + error_entry_lines(errors)
    }
}

/// `term (count)` for the first three search terms.
pub open spec fn top_search_parts(terms: Seq<(String, u64)>) -> Seq<Seq<char>> {
    terms.take(if terms.len() < 3 {
        terms.len() as int
    } else {
        3
    }).map_values(|t: (String, u64)| t.0@ + " ("@ + dec(t.1 as int) + ")"@)
}

pub open spec fn telemetry_lines(t: TelemetrySnapshot) -> Seq<Seq<char>> {
    seq![
        "Telemetry:"@,
        "  cache hits: "@ + dec(t.cache_hits as int) + " | cache misses: "@ + dec(t.cache_misses as int),
        "  rate-limit waits: "@ + dec(t.rate_limit_waits as int) + " | refresh queue depth: "@ + dec(
            t.refresh_queue_depth as int,
        ),
        if t.search_terms@.len() == 0 {
            "  top searches: none recorded"@
        } else {
            "  top searches: "@ + join_spec(top_search_parts(t.search_terms@), ", "@)
        },
    ]
}

/// The lines of the human-readable report.
pub open spec fn status_lines_spec(r: StatusReport) -> Seq<Seq<char>> {
    seq![
        "Marketplace Status"@,
        "------------------"@,
        "Cache directory: "@ + if r.cache_dir_exists {
            "ready"@
        } else {
            "missing"@
        },
    ] + network_lines(r.network) + installed_lines(r.installed_extensions) + queue_lines(r.refresh_queue)
        + error_lines(r.last_errors@) + telemetry_lines(r.telemetry)
}

fn push_line(lines: &mut Vec<String>, line: String)
    ensures
        strings_view(final(lines)@) == strings_view(old(lines)@).push(line@),
{
    lines.push(line);
    proof {
        assert(strings_view(final(lines)@) =~= strings_view(old(lines)@).push(line@));
    }
}

fn num(n: u64) -> (r: String)
    ensures
        r@ == dec(n as int),
{
    u64_to_decimal(n)
}

fn network_report(n: &NetworkStatus, lines: &mut Vec<String>)
    ensures
        strings_view(final(lines)@) == strings_view(old(lines)@) + network_lines(*n),
{
    let ghost start = strings_view(lines@);
    if n.reachable {
        let first = match &n.checked_source {
            Some(slug) => {
                let mut l = String::from_str("Network: OK (checked ");
                l.append(slug.as_str());
                l.append(")");
                l
            },
            None => String::from_str("Network: OK"),
        };
        push_line(lines, first);
        match &n.message {
            Some(m) => {
                let mut l = String::from_str("  note: ");
                l.append(m.as_str());
                push_line(lines, l);
            },
            None => {},
        }
    } else {
        push_line(lines, String::from_str("Network: ERROR"));
        match &n.message {
            Some(m) => {
                let mut l = String::from_str("  reason: ");
                l.append(m.as_str());
                push_line(lines, l);
            },
            None => {},
        }
    }
    proof {
        assert(strings_view(lines@) =~= start + network_lines(*n));
    }
}

fn installed_report(s: &InstalledSummary, lines: &mut Vec<String>)
    ensures
        strings_view(final(lines)@) == strings_view(old(lines)@) + installed_lines(*s),
{
    let ghost start = strings_view(lines@);
    let mut first = String::from_str("Installed extensions: ");
    let total = num(s.total as u64);
    first.append(total.as_str());
    push_line(lines, first);
    if s.extensions.len() > 0 {
        let mut l = String::from_str("  ");
        let j = join(&s.extensions, ", ");
        l.append(j.as_str());
        push_line(lines, l);
    }
    if s.installing.len() == 0 {
        push_line(lines, String::from_str("Installs in progress: none"));
    } else {
        let mut l = String::from_str("Installs in progress: ");
        let j = join(&s.installing, ", ");
        l.append(j.as_str());
        push_line(lines, l);
    }
    proof {
        assert(strings_view(lines@) =~= start + installed_lines(*s));
    }
}

fn queue_report(q: &RefreshQueueStatus, lines: &mut Vec<String>)
    ensures
        strings_view(final(lines)@) == strings_view(old(lines)@) + queue_lines(*q),
{
    let ghost start = strings_view(lines@);
    let mut first = String::from_str("Refresh queue: ");
    let pending = num(q.pending_jobs as u64);
    first.append(pending.as_str());
    first.append(" pending");
    push_line(lines, first);
    match &q.next_job_due {
        Some(d) => {
            let mut l = String::from_str("  next run at ");
            l.append(d.as_str());
            push_line(lines, l);
        },
        None => {},
    }
    proof {
        assert(strings_view(lines@) =~= start + queue_lines(*q));
    }
}

fn errors_report(errors: &Vec<LastErrorView>, lines: &mut Vec<String>)
    ensures
        strings_view(final(lines)@) == strings_view(old(lines)@) + error_lines(errors@),
{
    let ghost start = strings_view(lines@);
    if errors.len() == 0 {
        push_line(lines, String::from_str("Recent errors: none"));
        proof {
            assert(strings_view(lines@) =~= start + error_lines(errors@));
        }
        return;
    }
    push_line(lines, String::from_str("Recent errors:"));
    let ghost head = strings_view(lines@);
    let mut i: usize = 0;
    proof {
        assert(error_entry_lines(errors@.subrange(0, 0)) =~= Seq::<Seq<char>>::empty());
        assert(head =~= head + Seq::<Seq<char>>::empty());
    }
    while i < errors.len()
        invariant
            0 <= i <= errors@.len(),
            strings_view(lines@) == head + error_entry_lines(errors@.subrange(0, i as int)),
        decreases errors@.len() - i,
    {
        let e = &errors[i];
        let mut a = String::from_str("  ");
        a.append(e.source_slug.as_str());
        a.append(" at ");
        a.append(e.occurred_at.as_str());
        push_line(lines, a);
        let mut b = String::from_str("    ");
        b.append(e.message.as_str());
        push_line(lines, b);
        proof {
            assert(errors@.subrange(0, i + 1).drop_last() =~= errors@.subrange(0, i as int));
            assert(strings_view(lines@) =~= head + error_entry_lines(errors@.subrange(0, i + 1)));
        }
        i = i + 1;
    }
    proof {
        assert(errors@.subrange(0, errors@.len() as int) =~= errors@);
        assert(strings_view(lines@) =~= start + error_lines(errors@));
    }
}

fn telemetry_report(t: &TelemetrySnapshot, lines: &mut Vec<String>)
    ensures
        strings_view(final(lines)@) == strings_view(old(lines)@) + telemetry_lines(*t),
{
    let ghost start = strings_view(lines@);
    push_line(lines, String::from_str("Telemetry:"));
    let mut a = String::from_str("  cache hits: ");
    let hits = num(t.cache_hits);
    a.append(hits.as_str());
    a.append(" | cache misses: ");
    let misses = num(t.cache_misses);
    a.append(misses.as_str());
    push_line(lines, a);
    let mut b = String::from_str("  rate-limit waits: ");
    let waits = num(t.rate_limit_waits);
    b.append(waits.as_str());
    b.append(" | refresh queue depth: ");
    let depth = num(t.refresh_queue_depth);
    b.append(depth.as_str());
    push_line(lines, b);
    if t.search_terms.len() == 0 {
        push_line(lines, String::from_str("  top searches: none recorded"));
    } else {
        let n: usize = if t.search_terms.len() < 3 {
            t.search_terms.len()
        } else {
            3
        };
        let mut parts: Vec<String> = Vec::new();
        let mut i: usize = 0;
        while i < n
            invariant
                0 <= i <= n,
                n <= t.search_terms@.len(),
                strings_view(parts@) == t.search_terms@.take(i as int).map_values(
                    |x: (String, u64)| x.0@ + " ("@ + dec(x.1 as int) + ")"@,
                ),
            decreases n - i,
        {
            let (term, count) = &t.search_terms[i];
            let mut p = term.clone();
            p.append(" (");
            let c = num(*count);
            p.append(c.as_str());
            p.append(")");
            let ghost before = strings_view(parts@);
            push_line(&mut parts, p);
            proof {
                assert(t.search_terms@.take(i + 1) =~= t.search_terms@.take(i as int).push(t.search_terms@[i as int]));
                assert(strings_view(parts@) =~= t.search_terms@.take(i + 1).map_values(
                    |x: (String, u64)| x.0@ + " ("@ + dec(x.1 as int) + ")"@,
                ));
            }
            i = i + 1;
        }
        let mut l = String::from_str("  top searches: ");
        let j = join(&parts, ", ");
        l.append(j.as_str());
        push_line(lines, l);
    }
    proof {
        assert(strings_view(lines@) =~= start + telemetry_lines(*t));
    }
}

/// The human-readable report, line by line.
pub fn render_status_lines(report: &StatusReport) -> (r: Vec<String>)
    ensures
        strings_view(r@) == status_lines_spec(*report),
{
    let mut lines: Vec<String> = Vec::new();
    push_line(&mut lines, String::from_str("Marketplace Status"));
    push_line(&mut lines, String::from_str("------------------"));
    let mut c = String::from_str("Cache directory: ");
    if report.cache_dir_exists {
        c.append("ready");
    } else {
        c.append("missing");
    }
    push_line(&mut lines, c);
    let ghost head = strings_view(lines@);
    network_report(&report.network, &mut lines);
    installed_report(&report.installed_extensions, &mut lines);
    queue_report(&report.refresh_queue, &mut lines);
    errors_report(&report.last_errors, &mut lines);
    telemetry_report(&report.telemetry, &mut lines);
    proof {
        assert(strings_view(lines@) =~= status_lines_spec(*report));
    }
    lines
}

} // verus!
