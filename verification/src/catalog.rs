//! Catalog listing: turning the extensions fetched from each source into a
//! filtered, namespace-ordered and paginated list.
//!
//! Fetching is the caller's part; it reports each enabled source's outcome
//! as a `FetchResult`, and this module decides everything else.

use vstd::prelude::*;

use crate::domain::{
    Extension, InstallStatus, MarketplaceSource, OutputFormat, SearchMode, UserPreferences,
    is_installed_status,
};
use crate::error::MarketplaceError;
use crate::locator::{Url, url_parse, UrlView};
use crate::preferences::PreferencesService;
use crate::text::{
    chars_of, clone_strings, concat, contains, contains_spec, starts_with, starts_with_spec,
    str_eq, strings_view, to_lowercase, unicode_lowercase,
};

verus! {

/// Page size used when the request names none.
pub const DEFAULT_PAGE_SIZE: usize = 25;

/// Parameters of a catalog listing.
#[derive(Debug, Default)]
pub struct ListRequest<'a> {
    pub search: Option<&'a str>,
    pub category: Option<&'a str>,
    pub source: Option<&'a str>,
    pub installed_only: bool,
    pub prefetch_filter: bool,
    pub page: Option<usize>,
    pub page_size: Option<usize>,
}

/// One row of a listing.
#[derive(Debug)]
pub struct ListEntry {
    pub namespace: String,
    pub display_name: String,
    pub description: String,
    pub version: String,
    pub source: String,
    pub installed: bool,
    pub categories: Vec<String>,
    pub tags: Vec<String>,
}

/// What the library reads of a listing row.
pub struct ListEntryView {
    pub namespace: Seq<char>,
    pub display_name: Seq<char>,
    pub description: Seq<char>,
    pub version: Seq<char>,
    pub source: Seq<char>,
    pub installed: bool,
    pub categories: Seq<Seq<char>>,
    pub tags: Seq<Seq<char>>,
}

impl View for ListEntry {
    type V = ListEntryView;

    open spec fn view(&self) -> ListEntryView {
        ListEntryView {
            namespace: self.namespace@,
            display_name: self.display_name@,
            description: self.description@,
            version: self.version@,
            source: self.source@,
            installed: self.installed,
            categories: strings_view(self.categories@),
            tags: strings_view(self.tags@),
        }
    }
}

pub open spec fn entries_view(v: Seq<ListEntry>) -> Seq<ListEntryView> {
    v.map_values(|e: ListEntry| e@)
}

/// A page of a listing, with the warnings gathered while fetching.
#[derive(Debug, Default)]
pub struct ListResponse {
    pub entries: Vec<ListEntry>,
    pub warnings: Vec<String>,
    pub page: usize,
    pub page_size: usize,
    pub total_entries: usize,
    pub total_pages: usize,
    pub used_cached_data: bool,
}

// ---------------------------------------------------------------------------
// Ordering by namespace

/// Whether `a` sorts at or before `b`: character-wise lexicographic order,
/// which is the byte order of their UTF-8 encodings (`String::cmp`).
pub open spec fn lex_le(a: Seq<char>, b: Seq<char>) -> bool
    decreases a.len(),
{
    if a.len() == 0 {
        true
    } else if b.len() == 0 {
        false
    } else if a[0] != b[0] {
        (a[0] as int) < (b[0] as int)
    } else {
        lex_le(a.drop_first(), b.drop_first())
    }
}

/// Every string sorts at or before itself.
pub proof fn lemma_lex_le_refl(a: Seq<char>)
    ensures
        lex_le(a, a),
    decreases a.len(),
{
    if a.len() > 0 {
        lemma_lex_le_refl(a.drop_first());
    }
}

/// Any two strings are ordered one way or the other.
pub proof fn lemma_lex_total(a: Seq<char>, b: Seq<char>)
    ensures
        lex_le(a, b) || lex_le(b, a),
    decreases a.len(),
{
    if a.len() > 0 && b.len() > 0 {
        if a[0] == b[0] {
            lemma_lex_total(a.drop_first(), b.drop_first());
        } else {
            assert((a[0] as int) != (b[0] as int));
        }
    }
}

/// Strings ordered both ways are equal.
pub proof fn lemma_lex_antisym(a: Seq<char>, b: Seq<char>)
    requires
        lex_le(a, b),
        lex_le(b, a),
    ensures
        a == b,
    decreases a.len(),
{
    if a.len() > 0 && b.len() > 0 {
        if a[0] == b[0] {
            lemma_lex_antisym(a.drop_first(), b.drop_first());
            assert(a =~= seq![a[0]] + a.drop_first());
            assert(b =~= seq![b[0]] + b.drop_first());
        }
    } else {
        assert(a.len() == 0 && b.len() == 0);
        assert(a =~= b);
    }
}

/// The order is transitive.
pub proof fn lemma_lex_trans(a: Seq<char>, b: Seq<char>, c: Seq<char>)
    requires
        lex_le(a, b),
        lex_le(b, c),
    ensures
        lex_le(a, c),
    decreases a.len(),
{
    if a.len() > 0 && b.len() > 0 && c.len() > 0 {
        if a[0] == b[0] && b[0] == c[0] {
            lemma_lex_trans(a.drop_first(), b.drop_first(), c.drop_first());
        }
    }
}

/// Whether `a` sorts at or before `b`.
pub fn str_lex_le(a: &str, b: &str) -> (r: bool)
    ensures
        r == lex_le(a@, b@),
{
    let ca = chars_of(a);
    let cb = chars_of(b);
    let mut i: usize = 0;
    proof {
        assert(ca@.subrange(0, ca@.len() as int) =~= ca@);
        assert(cb@.subrange(0, cb@.len() as int) =~= cb@);
    }
    while i < ca.len() && i < cb.len() && ca[i] == cb[i]
        invariant
            0 <= i <= ca@.len(),
            i <= cb@.len(),
            lex_le(ca@, cb@) == lex_le(ca@.subrange(i as int, ca@.len() as int), cb@.subrange(i as int, cb@.len() as int)),
        decreases ca@.len() - i,
    {
        proof {
            let x = ca@.subrange(i as int, ca@.len() as int);
            let y = cb@.subrange(i as int, cb@.len() as int);
            assert(x.drop_first() =~= ca@.subrange(i + 1, ca@.len() as int));
            assert(y.drop_first() =~= cb@.subrange(i + 1, cb@.len() as int));
        }
        i = i + 1;
    }
    proof {
        assert(ca@.subrange(0, ca@.len() as int) =~= ca@);
        assert(cb@.subrange(0, cb@.len() as int) =~= cb@);
    }
    if i == ca.len() {
        true
    } else if i == cb.len() {
        false
    } else {
        let x = ca[i];
        let y = cb[i];
        proof {
            let xs = ca@.subrange(i as int, ca@.len() as int);
            let ys = cb@.subrange(i as int, cb@.len() as int);
            assert(xs[0] == ca@[i as int]);
            assert(ys[0] == cb@[i as int]);
        }
        x < y
    }
}

/// `x` inserted after every entry whose namespace sorts at or before its own.
pub open spec fn insert_by_namespace(s: Seq<ListEntryView>, x: ListEntryView) -> Seq<ListEntryView>
    decreases s.len(),
{
    if s.len() == 0 {
        seq![x]
    } else if lex_le(s.last().namespace, x.namespace) {
        s.push(x)
    } else {
        insert_by_namespace(s.drop_last(), x).push(s.last())
    }
}

/// The entries stably sorted by namespace (`sort_by` on `namespace.cmp`).
pub open spec fn sort_by_namespace(s: Seq<ListEntryView>) -> Seq<ListEntryView>
    decreases s.len(),
{
    if s.len() == 0 {
        Seq::empty()
    } else {
        insert_by_namespace(sort_by_namespace(s.drop_last()), s.last())
    }
}

proof fn lemma_insert_ns_at(s: Seq<ListEntryView>, x: ListEntryView, j: int)
    requires
        0 <= j <= s.len(),
        forall|k: int| j <= k < s.len() ==> !lex_le(#[trigger] s[k].namespace, x.namespace),
        j > 0 ==> lex_le(s[j - 1].namespace, x.namespace),
    ensures
        insert_by_namespace(s, x) == s.subrange(0, j) + seq![x] + s.subrange(j, s.len() as int),
    decreases s.len(),
{
    if s.len() == 0 {
        assert(seq![x] =~= s.subrange(0, j) + seq![x] + s.subrange(j, s.len() as int));
    } else if j == s.len() {
        assert(s.push(x) =~= s.subrange(0, j) + seq![x] + s.subrange(j, s.len() as int));
    } else {
        let init = s.drop_last();
        assert(!lex_le(s[s.len() - 1].namespace, x.namespace));
        lemma_insert_ns_at(init, x, j);
        assert(insert_by_namespace(init, x).push(s.last()) =~= s.subrange(0, j) + seq![x] + s.subrange(
            j,
            s.len() as int,
        ));
    }
}

fn insert_entry(v: &mut Vec<ListEntry>, entry: ListEntry)
    ensures
        entries_view(final(v)@) == insert_by_namespace(entries_view(old(v)@), entry@),
{
    let ghost s = entries_view(v@);
    let mut j = v.len();
    while j > 0 && !str_lex_le(v[j - 1].namespace.as_str(), entry.namespace.as_str())
        invariant
            j <= v@.len(),
            s == entries_view(v@),
            forall|k: int| j <= k < s.len() ==> !lex_le(#[trigger] s[k].namespace, entry@.namespace),
        decreases j,
    {
        proof {
            assert(s[j - 1] == v@[j - 1]@);
        }
        j = j - 1;
    }
    proof {
        if j > 0 {
            assert(s[j - 1] == v@[j - 1]@);
        }
        lemma_insert_ns_at(s, entry@, j as int);
    }
    v.insert(j, entry);
    proof {
        assert(entries_view(v@) =~= s.subrange(0, j as int) + seq![entry@] + s.subrange(j as int, s.len() as int));
    }
}

/// The entries stably sorted by namespace.
pub fn sort_entries(entries: Vec<ListEntry>) -> (r: Vec<ListEntry>)
    ensures
        entries_view(r@) == sort_by_namespace(entries_view(entries@)),
{
    let ghost s = entries_view(entries@);
    let mut out: Vec<ListEntry> = Vec::new();
    let mut rest = entries;
    let n = rest.len();
    let mut i: usize = 0;
    assert(s.subrange(0, n as int) =~= s);
    while i < n
        invariant
            0 <= i <= n,
            n == s.len(),
            entries_view(rest@) == s.subrange(i as int, n as int),
            rest@.len() == n - i,
            entries_view(out@) == sort_by_namespace(s.subrange(0, i as int)),
        decreases n - i,
    {
        let ghost before = rest@;
        proof {
            assert(entries_view(before)[0] == before[0]@);
        }
        let e = rest.remove(0);
        proof {
            assert forall|m: int| 0 <= m < rest@.len() implies #[trigger] entries_view(rest@)[m] == s[i + 1 + m] by {
                assert(entries_view(before)[m + 1] == before[m + 1]@);
            }
            assert(entries_view(rest@) =~= s.subrange(i + 1, n as int));
            assert(s.subrange(0, i + 1).drop_last() =~= s.subrange(0, i as int));
        }
        insert_entry(&mut out, e);
        i = i + 1;
    }
    out
}

// ---------------------------------------------------------------------------
// Filtering

/// Lowercase form of an optional filter value.
pub open spec fn lower_opt(o: Option<Seq<char>>) -> Option<Seq<char>> {
    match o {
        Some(v) => Some(unicode_lowercase(v)),
        None => None,
    }
}

pub open spec fn opt_str_view(o: Option<&str>) -> Option<Seq<char>> {
    match o {
        Some(v) => Some(v@),
        None => None,
    }
}

/// Whether an entry passes the request's filters. `search`, `category` and
/// `source` are the lowercased filter values: the search term must occur in
/// the lowercased display name or description, some lowercased category must
/// equal the category, and the lowercased source slug must equal the source
/// or the lowercased namespace must start with `source/`.
pub open spec fn entry_matches(
    e: ListEntryView,
    search: Option<Seq<char>>,
    category: Option<Seq<char>>,
    source: Option<Seq<char>>,
    installed_only: bool,
) -> bool {
    &&& search matches Some(q) ==> (contains_spec(unicode_lowercase(e.display_name), q)
        || contains_spec(unicode_lowercase(e.description), q))
    &&& category matches Some(c) ==> exists|k: int|
        0 <= k < e.categories.len() && #[trigger] unicode_lowercase(e.categories[k]) == c
    &&& source matches Some(s) ==> (unicode_lowercase(e.source) == s || starts_with_spec(
        unicode_lowercase(e.namespace),
        s + seq!['/'],
    ))
    &&& installed_only ==> e.installed
}

/// The entries that pass the filters, in order.
pub open spec fn filter_matching(
    s: Seq<ListEntryView>,
    search: Option<Seq<char>>,
    category: Option<Seq<char>>,
    source: Option<Seq<char>>,
    installed_only: bool,
) -> Seq<ListEntryView>
    decreases s.len(),
{
    if s.len() == 0 {
        Seq::empty()
    } else {
        let prev = filter_matching(s.drop_last(), search, category, source, installed_only);
        if entry_matches(s.last(), search, category, source, installed_only) {
            prev.push(s.last())
        } else {
            prev
        }
    }
}

/// What `filter_entries` returns: the matching entries, stably sorted by namespace.
pub open spec fn filter_entries_spec(s: Seq<ListEntryView>, request: ListRequest) -> Seq<ListEntryView> {
    sort_by_namespace(
        filter_matching(
            s,
            lower_opt(opt_str_view(request.search)),
            lower_opt(opt_str_view(request.category)),
            lower_opt(opt_str_view(request.source)),
            request.installed_only,
        ),
    )
}

fn has_category(categories: &Vec<String>, category: &str) -> (r: bool)
    ensures
        r == exists|k: int| 0 <= k < strings_view(categories@).len() && #[trigger] unicode_lowercase(strings_view(categories@)[k]) == category@,
{
    let mut i: usize = 0;
    while i < categories.len()
        invariant
            0 <= i <= categories@.len(),
            forall|k: int| 0 <= k < i ==> #[trigger] unicode_lowercase(strings_view(categories@)[k]) != category@,
        decreases categories@.len() - i,
    {
        let lowered = to_lowercase(categories[i].as_str());
        if str_eq(lowered.as_str(), category) {
            proof {
                assert(unicode_lowercase(strings_view(categories@)[i as int]) == category@);
            }
            return true;
        }
        proof {
            assert(unicode_lowercase(strings_view(categories@)[i as int]) != category@);
        }
        i = i + 1;
    }
    false
}

fn matches_entry(
    entry: &ListEntry,
    search: &Option<String>,
    category: &Option<String>,
    source: &Option<String>,
    installed_only: bool,
) -> (r: bool)
    ensures
        r == entry_matches(
            entry@,
            crate::locator::opt_string_view(*search),
            crate::locator::opt_string_view(*category),
            crate::locator::opt_string_view(*source),
            installed_only,
        ),
{
    if let Some(q) = search {
        let name = to_lowercase(entry.display_name.as_str());
        let description = to_lowercase(entry.description.as_str());
        if !contains(name.as_str(), q.as_str()) && !contains(description.as_str(), q.as_str()) {
            return false;
        }
    }
    if let Some(c) = category {
        if !has_category(&entry.categories, c.as_str()) {
            return false;
        }
    }
    if let Some(s) = source {
        let slug = to_lowercase(entry.source.as_str());
        let slug_matches = str_eq(slug.as_str(), s.as_str());
        let namespace = to_lowercase(entry.namespace.as_str());
        let prefix = concat(s.as_str(), "/");
        proof {
            reveal_strlit("/");
            assert(prefix@ =~= s@ + seq!['/']);
        }
        let namespace_matches = starts_with(namespace.as_str(), prefix.as_str());
        if !slug_matches && !namespace_matches {
            return false;
        }
    }
    if installed_only && !entry.installed {
        return false;
    }
    true
}

fn lower_option(o: Option<&str>) -> (r: Option<String>)
    ensures
        crate::locator::opt_string_view(r) == lower_opt(opt_str_view(o)),
{
    match o {
        Some(v) => Some(to_lowercase(v)),
        None => None,
    }
}

/// Keeps the entries that pass the request's filters and sorts them by namespace.
pub fn filter_entries(entries: Vec<ListEntry>, request: &ListRequest) -> (r: Vec<ListEntry>)
    ensures
        entries_view(r@) == filter_entries_spec(entries_view(entries@), *request),
{
    let search = lower_option(request.search);
    let category = lower_option(request.category);
    let source = lower_option(request.source);
    let ghost s = entries_view(entries@);
    let ghost q = crate::locator::opt_string_view(search);
    let ghost c = crate::locator::opt_string_view(category);
    let ghost so = crate::locator::opt_string_view(source);
    let mut kept: Vec<ListEntry> = Vec::new();
    let mut rest = entries;
    let n = rest.len();
    let mut i: usize = 0;
    assert(s.subrange(0, n as int) =~= s);
    while i < n
        invariant
            0 <= i <= n,
            n == s.len(),
            q == crate::locator::opt_string_view(search),
            c == crate::locator::opt_string_view(category),
            so == crate::locator::opt_string_view(source),
            entries_view(rest@) == s.subrange(i as int, n as int),
            rest@.len() == n - i,
            entries_view(kept@) == filter_matching(s.subrange(0, i as int), q, c, so, request.installed_only),
        decreases n - i,
    {
        let ghost before = rest@;
        proof {
            assert(entries_view(before)[0] == before[0]@);
        }
        let e = rest.remove(0);
        proof {
            assert forall|m: int| 0 <= m < rest@.len() implies #[trigger] entries_view(rest@)[m] == s[i + 1 + m] by {
                assert(entries_view(before)[m + 1] == before[m + 1]@);
            }
            assert(entries_view(rest@) =~= s.subrange(i + 1, n as int));
            assert(s.subrange(0, i + 1).drop_last() =~= s.subrange(0, i as int));
            assert(e@ == s[i as int]);
        }
        if matches_entry(&e, &search, &category, &source, request.installed_only) {
            kept.push(e);
            proof {
                assert(entries_view(kept@) =~= filter_matching(s.subrange(0, i + 1), q, c, so, request.installed_only));
            }
        }
        i = i + 1;
    }
    sort_entries(kept)
}

// ---------------------------------------------------------------------------
// Paging

/// The effective page size: the requested one (25 by default), at least 1.
pub open spec fn page_size_spec(requested: Option<usize>) -> int {
    let p = match requested {
        Some(v) => v as int,
        None => DEFAULT_PAGE_SIZE as int,
    };
    if p < 1 { 1 } else { p }
}

/// Number of pages for `total` entries: at least one.
pub open spec fn total_pages_spec(total: int, page_size: int) -> int {
    let pages = (total + page_size - 1) / page_size;
    if pages < 1 { 1 } else { pages }
}

/// The page served: the requested one (1 by default), at least 1, at most the last.
pub open spec fn page_spec(requested: Option<usize>, total_pages: int) -> int {
    let p = match requested {
        Some(v) => v as int,
        None => 1,
    };
    let p1 = if p < 1 { 1 } else { p };
    if p1 > total_pages { total_pages } else { p1 }
}

/// Index of the first entry of the page (`page_size * (page - 1)`, saturating).
pub open spec fn page_start_spec(page_size: int, page: int) -> int {
    let s = page_size * (page - 1);
    if s > usize::MAX { usize::MAX as int } else { s }
}

/// The entries of the page: `page_size` entries from `start`, fewer at the end.
pub open spec fn page_slice(s: Seq<ListEntryView>, start: int, page_size: int) -> Seq<ListEntryView> {
    if start >= s.len() {
        Seq::empty()
    } else if start + page_size >= s.len() {
        s.subrange(start, s.len() as int)
    } else {
        s.subrange(start, start + page_size)
    }
}

/// Whether paging `total` entries with the requested page size stays within
/// machine integers (the page count is computed as `(total + size - 1) / size`).
pub open spec fn paging_fits(total: int, requested_size: Option<usize>) -> bool {
    total + page_size_spec(requested_size) - 1 <= usize::MAX
}

// ---------------------------------------------------------------------------
// Entries from fetched extensions

/// The listing row for an extension of a source.
pub open spec fn entry_of_spec(source_slug: Seq<char>, ext: Extension) -> ListEntryView {
    ListEntryView {
        namespace: ext.id.0@,
        display_name: ext.display_name@,
        description: ext.summary@,
        version: ext.version@,
        source: source_slug,
        installed: is_installed_status(ext.install_status),
        categories: strings_view(ext.categories@),
        tags: strings_view(ext.tags@),
    }
}

pub open spec fn entries_of_spec(source_slug: Seq<char>, exts: Seq<Extension>) -> Seq<ListEntryView> {
    exts.map_values(|e: Extension| entry_of_spec(source_slug, e))
}

/// Listing rows for the extensions of a source.
pub fn make_entries(source_slug: &str, extensions: Vec<Extension>) -> (r: Vec<ListEntry>)
    ensures
        entries_view(r@) == entries_of_spec(source_slug@, extensions@),
{
    let ghost exts = extensions@;
    let mut out: Vec<ListEntry> = Vec::new();
    let mut rest = extensions;
    let n = rest.len();
    let mut i: usize = 0;
    while i < n
        invariant
            0 <= i <= n,
            n == exts.len(),
            rest@ == exts.subrange(i as int, n as int),
            entries_view(out@) == entries_of_spec(source_slug@, exts.subrange(0, i as int)),
        decreases n - i,
    {
        let ext = rest.remove(0);
        proof {
            assert(rest@ =~= exts.subrange(i + 1, n as int));
        }
        let installed = match &ext.install_status {
            InstallStatus::Installed { .. } => true,
            InstallStatus::UpdateAvailable { .. } => true,
            _ => false,
        };
        let entry = ListEntry {
            namespace: ext.id.0,
            display_name: ext.display_name,
            description: ext.summary,
            version: ext.version.to_text(),
            source: String::from_str(source_slug),
            installed,
            categories: ext.categories,
            tags: ext.tags,
        };
        let ghost before = entries_view(out@);
        out.push(entry);
        proof {
            assert(entries_view(out@) =~= before.push(entry_of_spec(source_slug@, exts[i as int])));
            assert(entries_of_spec(source_slug@, exts.subrange(0, i + 1)) =~= entries_of_spec(
                source_slug@,
                exts.subrange(0, i as int),
            ).push(entry_of_spec(source_slug@, exts[i as int])));
        }
        i = i + 1;
    }
    assert(exts.subrange(0, n as int) =~= exts);
    out
}

/// The outcome of fetching one source: fresh extensions, or cached ones with
/// a warning explaining why.
#[derive(Debug)]
pub enum FetchResult {
    Fresh(Vec<Extension>),
    Cached { extensions: Vec<Extension>, warning: String },
}

/// The warning for a fetch failure that may fall back to cached data, or
/// `None` for failures that are reported as they are.
pub open spec fn fallback_warning_spec(source_slug: Seq<char>, err: MarketplaceError) -> Option<Seq<char>> {
    match err {
        MarketplaceError::RateLimited { source_slug: s, reset_at } => Some(
            "Source "@ + s@ + " is rate limited"@ + match reset_at {
                Some(ts) => " (resets at "@ + ts@ + ")"@,
                None => Seq::empty(),
            },
        ),
        MarketplaceError::Network { operation, message, url } => Some(
            "Network error for "@ + source_slug + " during "@ + operation@ + ": "@ + message@ + match url {
                Some(u) => " ("@ + u@ + ")"@,
                None => Seq::empty(),
            },
        ),
        _ => None,
    }
}

/// The warning for a fetch failure of `source_slug` that may fall back to
/// cached data: rate limits and network failures. Other failures get `None`.
pub fn fallback_warning(source_slug: &str, err: &MarketplaceError) -> (r: Option<String>)
    ensures
        crate::locator::opt_string_view(r) == fallback_warning_spec(source_slug@, *err),
{
    match err {
        MarketplaceError::RateLimited { source_slug: s, reset_at } => {
            let mut w = String::from_str("Source ");
            w.append(s.as_str());
            w.append(" is rate limited");
            match reset_at {
                Some(ts) => {
                    let mut tail = String::from_str(" (resets at ");
                    tail.append(ts.as_str());
                    tail.append(")");
                    w.append(tail.as_str());
                },
                None => {
                    assert(w@ + Seq::<char>::empty() =~= w@);
                },
            }
            Some(w)
        },
        MarketplaceError::Network { operation, message, url } => {
            let mut w = String::from_str("Network error for ");
            w.append(source_slug);
            w.append(" during ");
            w.append(operation.as_str());
            w.append(": ");
            w.append(message.as_str());
            match url {
                Some(u) => {
                    let mut tail = String::from_str(" (");
                    tail.append(u.as_str());
                    tail.append(")");
                    w.append(tail.as_str());
                },
                None => {
                    assert(w@ + Seq::<char>::empty() =~= w@);
                },
            }
            Some(w)
        },
        _ => None,
    }
}

/// Decides a failed fetch: rate limits and network failures fall back to the
/// cached extensions of the source with a warning; without cached data the
/// fetch error is returned; a failure to read the cache is returned as is;
/// every other failure is returned unchanged.
pub fn resolve_failed_fetch(
    source_slug: &str,
    err: MarketplaceError,
    cached: Result<Option<Vec<Extension>>, MarketplaceError>,
) -> (r: Result<FetchResult, MarketplaceError>)
    ensures
        match fallback_warning_spec(source_slug@, err) {
            None => r == Err::<FetchResult, MarketplaceError>(err),
            Some(w) => match cached {
                Ok(Some(exts)) => r matches Ok(FetchResult::Cached { extensions, warning })
                    && extensions == exts && warning@ == w,
                Ok(None) => r == Err::<FetchResult, MarketplaceError>(err),
                Err(e) => r == Err::<FetchResult, MarketplaceError>(e),
            },
        },
{
    match fallback_warning(source_slug, &err) {
        None => Err(err),
        Some(warning) => match cached {
            Ok(Some(extensions)) => Ok(FetchResult::Cached { extensions, warning }),
            Ok(None) => Err(err),
            Err(e) => Err(e),
        },
    }
}

/// One enabled source and what fetching it produced.
#[derive(Debug)]
pub struct SourceFetch {
    pub source_slug: String,
    pub result: FetchResult,
}

/// Rows of all fetched sources, in source order.
pub open spec fn all_entries_spec(results: Seq<SourceFetch>) -> Seq<ListEntryView>
    decreases results.len(),
{
    if results.len() == 0 {
        Seq::empty()
    } else {
        let r = results.last();
        all_entries_spec(results.drop_last()) + match r.result {
            FetchResult::Fresh(exts) => entries_of_spec(r.source_slug@, exts@),
            FetchResult::Cached { extensions, .. } => entries_of_spec(r.source_slug@, extensions@),
        }
    }
}

/// Warnings of the sources served from cache, in source order.
pub open spec fn all_warnings_spec(results: Seq<SourceFetch>) -> Seq<Seq<char>>
    decreases results.len(),
{
    if results.len() == 0 {
        Seq::empty()
    } else {
        let prev = all_warnings_spec(results.drop_last());
        match results.last().result {
            FetchResult::Fresh(_) => prev,
            FetchResult::Cached { warning, .. } => prev.push(warning@),
        }
    }
}

/// The rows and warnings of the fetch outcomes of the enabled sources, in
/// source order: every source's extensions become rows, and each source
/// served from its cache adds its warning.
pub fn gather_entries(results: Vec<SourceFetch>) -> (r: (Vec<ListEntry>, Vec<String>))
    ensures
        entries_view(r.0@) == all_entries_spec(results@),
        strings_view(r.1@) == all_warnings_spec(results@),
{
    let ghost rs = results@;
    let mut entries: Vec<ListEntry> = Vec::new();
    let mut warnings: Vec<String> = Vec::new();
    let mut rest = results;
    let n = rest.len();
    let mut i: usize = 0;
    assert(entries_view(entries@) =~= Seq::empty());
    assert(strings_view(warnings@) =~= Seq::empty());
    while i < n
        invariant
            0 <= i <= n,
            n == rs.len(),
            rest@ == rs.subrange(i as int, n as int),
            entries_view(entries@) == all_entries_spec(rs.subrange(0, i as int)),
            strings_view(warnings@) == all_warnings_spec(rs.subrange(0, i as int)),
        decreases n - i,
    {
        let item = rest.remove(0);
        proof {
            assert(rest@ =~= rs.subrange(i + 1, n as int));
            assert(rs.subrange(0, i + 1).drop_last() =~= rs.subrange(0, i as int));
            assert(rs.subrange(0, i + 1).last() == item);
        }
        let ghost before_entries = entries_view(entries@);
        let ghost before_warnings = strings_view(warnings@);
        let SourceFetch { source_slug, result } = item;
        match result {
            FetchResult::Fresh(exts) => {
                let mut made = make_entries(source_slug.as_str(), exts);
                entries.append(&mut made);
                proof {
                    assert(entries_view(entries@) =~= before_entries + entries_of_spec(source_slug@, rs[i as int].result->Fresh_0@));
                }
            },
            FetchResult::Cached { extensions, warning } => {
                warnings.push(warning);
                let mut made = make_entries(source_slug.as_str(), extensions);
                entries.append(&mut made);
                proof {
                    assert(entries_view(entries@) =~= before_entries + entries_of_spec(source_slug@, rs[i as int].result->extensions@));
                    assert(strings_view(warnings@) =~= before_warnings.push(rs[i as int].result->warning@));
                }
            },
        }
        i = i + 1;
    }
    assert(rs.subrange(0, n as int) =~= rs);
    (entries, warnings)
}

/// One page of the filtered, sorted rows: the page asked for (the first by
/// default, the last when beyond it) of the requested size (25 by default,
/// at least 1), with the warnings of the sources served from cache.
pub fn page_entries(filtered: Vec<ListEntry>, warnings: Vec<String>, request: &ListRequest) -> (r: ListResponse)
    requires
        paging_fits(filtered@.len() as int, request.page_size),
    ensures
        ({
            let size = page_size_spec(request.page_size);
            let pages = total_pages_spec(filtered@.len() as int, size);
            let page = page_spec(request.page, pages);
            &&& r.total_entries == filtered@.len()
            &&& r.page_size == size
            &&& r.total_pages == pages
            &&& r.page == page
            &&& entries_view(r.entries@) == page_slice(entries_view(filtered@), page_start_spec(size, page), size)
            &&& r.warnings@ == warnings@
            &&& r.used_cached_data == (warnings@.len() > 0)
        }),
{
    let total_entries = filtered.len();
    assert(total_entries == entries_view(filtered@).len());
    let page_size = match request.page_size {
        Some(p) => if p < 1 { 1 } else { p },
        None => DEFAULT_PAGE_SIZE,
    };
    proof {
        assert(page_size == page_size_spec(request.page_size));
    }
    let pages = (total_entries + (page_size - 1)) / page_size;
    let total_pages = if pages < 1 { 1 } else { pages };
    let requested_page = match request.page {
        Some(p) => if p < 1 { 1 } else { p },
        None => 1,
    };
    let page = if requested_page > total_pages { total_pages } else { requested_page };
    let start = if page - 1 > usize::MAX / page_size {
        usize::MAX
    } else {
        proof {
            assert(page_size * (page - 1) <= usize::MAX) by (nonlinear_arith)
                requires
                    page - 1 <= usize::MAX / page_size,
                    page_size >= 1,
            ;
        }
        page_size * (page - 1)
    };
    proof {
        if page - 1 > usize::MAX / page_size {
            assert(page_size * (page - 1) > usize::MAX) by (nonlinear_arith)
                requires
                    page - 1 > usize::MAX / page_size,
                    page_size >= 1,
            ;
        }
    }
    let mut paged: Vec<ListEntry> = Vec::new();
    let mut rest_entries = filtered;
    let ghost fs = entries_view(rest_entries@);
    let mut k: usize = 0;
    while k < total_entries
        invariant
            0 <= k <= total_entries,
            total_entries == fs.len(),
            entries_view(rest_entries@) == fs.subrange(k as int, total_entries as int),
            rest_entries@.len() == total_entries - k,
            entries_view(paged@) == page_slice(fs.subrange(0, k as int), start as int, page_size as int),
        decreases total_entries - k,
    {
        let ghost before = rest_entries@;
        proof {
            assert(entries_view(before)[0] == before[0]@);
        }
        let e = rest_entries.remove(0);
        proof {
            assert forall|m: int| 0 <= m < rest_entries@.len() implies #[trigger] entries_view(rest_entries@)[m] == fs[k + 1 + m] by {
                assert(entries_view(before)[m + 1] == before[m + 1]@);
            }
            assert(entries_view(rest_entries@) =~= fs.subrange(k + 1, total_entries as int));
        }
        let ghost before_paged = entries_view(paged@);
        if k >= start && k - start < page_size {
            proof {
                assert(e@ == fs[k as int]);
                let pre = fs.subrange(0, k as int);
                let post = fs.subrange(0, k + 1);
                if start < k {
                    assert(page_slice(pre, start as int, page_size as int) =~= pre.subrange(start as int, k as int));
                } else {
                    assert(page_slice(pre, start as int, page_size as int) =~= Seq::<ListEntryView>::empty());
                }
                assert(page_slice(post, start as int, page_size as int) =~= post.subrange(start as int, k + 1));
                assert(post.subrange(start as int, k + 1) =~= page_slice(pre, start as int, page_size as int).push(fs[k as int]));
            }
            paged.push(e);
            proof {
                assert(entries_view(paged@) =~= page_slice(fs.subrange(0, k + 1), start as int, page_size as int));
            }
        } else {
            proof {
                assert(page_slice(fs.subrange(0, k + 1), start as int, page_size as int) =~= page_slice(
                    fs.subrange(0, k as int),
                    start as int,
                    page_size as int,
                ));
            }
        }
        k = k + 1;
    }
    assert(fs.subrange(0, total_entries as int) =~= fs);
    let used_cached_data = warnings.len() > 0;
    ListResponse {
        entries: paged,
        warnings,
        page,
        page_size,
        total_entries,
        total_pages,
        used_cached_data,
    }
}


/// Builds the listing page from the fetch outcomes of the enabled sources:
/// rows of every source, filtered and sorted by namespace, then paged.
pub fn list_from_results(results: Vec<SourceFetch>, request: &ListRequest) -> (r: ListResponse)
    requires
        paging_fits(filter_entries_spec(all_entries_spec(results@), *request).len() as int, request.page_size),
    ensures
        ({
            let filtered = filter_entries_spec(all_entries_spec(results@), *request);
            let size = page_size_spec(request.page_size);
            let pages = total_pages_spec(filtered.len() as int, size);
            let page = page_spec(request.page, pages);
            &&& r.total_entries == filtered.len()
            &&& r.page_size == size
            &&& r.total_pages == pages
            &&& r.page == page
            &&& entries_view(r.entries@) == page_slice(filtered, page_start_spec(size, page), size)
            &&& strings_view(r.warnings@) == all_warnings_spec(results@)
            &&& r.used_cached_data == (all_warnings_spec(results@).len() > 0)
        }),
{
    let (entries, warnings) = gather_entries(results);
    let filtered = filter_entries(entries, request);
    proof {
        assert(filtered@.len() == entries_view(filtered@).len());
    }
    page_entries(filtered, warnings, request)
}

// ---------------------------------------------------------------------------
// Defaults

/// Preferences used by the listing commands: a 24-hour cache TTL, no refresh
/// on launch, local filtering and table output.
pub fn default_preferences() -> (r: PreferencesService)
    ensures
        r@ == (UserPreferences {
            cache_ttl_hours: 24,
            auto_refresh_on_launch: false,
            search_mode: SearchMode::LocalFilter,
            output_format: OutputFormat::Table,
        }),
{
    PreferencesService::new(UserPreferences {
        cache_ttl_hours: 24,
        auto_refresh_on_launch: false,
        search_mode: SearchMode::LocalFilter,
        output_format: OutputFormat::Table,
    })
}

/// Index of the curated catalog.
pub const DEFAULT_CATALOG_URL: &'static str = "https://raw.githubusercontent.com/athola/gemini-marketplace/main/index.json";

/// The sources listed by default: the curated source at the catalog URL
/// given by `GEMINI_MARKETPLACE_SOURCE_URL` (`override_url`) when that parses,
/// else at the curated catalog URL. `None` when neither parses.
pub fn default_sources(override_url: Option<String>) -> (r: Option<Vec<MarketplaceSource>>)
    ensures
        ({
            let base = match override_url {
                Some(u) => u@,
                None => DEFAULT_CATALOG_URL@,
            };
            match url_parse(base) {
                Ok(u) => r matches Some(v) && v@.len() == 1 && v@[0]@ == crate::domain::default_curated_view(u),
                Err(_) => match url_parse(DEFAULT_CATALOG_URL@) {
                    Ok(u) => r matches Some(v) && v@.len() == 1 && v@[0]@ == crate::domain::default_curated_view(u),
                    Err(_) => r is None,
                },
            }
        }),
{
    let base = match override_url {
        Some(u) => u,
        None => String::from_str(DEFAULT_CATALOG_URL),
    };
    let url = match Url::parse(base.as_str()) {
        Ok(u) => u,
        Err(_) => match Url::parse(DEFAULT_CATALOG_URL) {
            Ok(u) => u,
            Err(_) => return None,
        },
    };
    let mut v: Vec<MarketplaceSource> = Vec::new();
    v.push(MarketplaceSource::default_curated(url));
    Some(v)
}

} // verus!
