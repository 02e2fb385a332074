//! Options of the `list`, `search`, `cache` and `sources` commands, and what
//! they print.
//!
//! Running the commands (reading options, fetching, printing) is the
//! caller's part.

use vstd::prelude::*;

use crate::catalog::{ListEntry, ListRequest, ListResponse};
use crate::domain::{MarketplaceSource, SearchMode, SourceType, SyncStatus};
use crate::locator::{opt_string_view, Url, UrlView};
use crate::text::{
    contains_spec, decimal_spec, replace_char, replace_char_spec, sort_strings, sort_texts_spec, str_eq, strings_view,
    to_lowercase, unicode_lowercase, u64_to_decimal,
};

verus! {

/// Options of the `list` command.
#[derive(Debug, Clone)]
pub struct ListOptions {
    pub search: Option<String>,
    pub category: Option<String>,
    pub source: Option<String>,
    pub installed_only: bool,
    pub json: bool,
}

/// Options of the `search` command.
#[derive(Debug, Default)]
pub struct SearchOptions {
    pub keyword: Option<String>,
    pub category: Option<String>,
    pub source: Option<String>,
    pub installed_only: bool,
    pub json: bool,
}

/// Options of `cache refresh`.
#[derive(Debug, Default)]
pub struct CacheRefreshOptions {
    pub force: bool,
    pub source: Option<String>,
    pub json: bool,
}

/// Options of `cache ttl set`.
#[derive(Debug)]
pub struct CacheTtlSetOptions {
    pub hours: u16,
}

/// A search is a listing filtered by its keyword.
pub fn list_options_for_search(options: SearchOptions) -> (r: ListOptions)
    ensures
        r.search == options.keyword,
        r.category == options.category,
        r.source == options.source,
        r.installed_only == options.installed_only,
        r.json == options.json,
{
    ListOptions {
        search: options.keyword,
        category: options.category,
        source: options.source,
        installed_only: options.installed_only,
        json: options.json,
    }
}

/// The listing request of the `list` command: its filters, pre-fetch
/// filtering when the preferences ask for it, the default page.
pub fn list_request_for_options<'a>(opts: &'a ListOptions, mode: SearchMode) -> (r: ListRequest<'a>)
    ensures
        crate::catalog::opt_str_view(r.search) == opt_string_view(opts.search),
        crate::catalog::opt_str_view(r.category) == opt_string_view(opts.category),
        crate::catalog::opt_str_view(r.source) == opt_string_view(opts.source),
        r.installed_only == opts.installed_only,
        r.prefetch_filter == (mode == SearchMode::PreFetchFilter),
        r.page is None,
        r.page_size is None,
{
    ListRequest {
        search: match &opts.search {
            Some(s) => Some(s.as_str()),
            None => None,
        },
        category: match &opts.category {
            Some(s) => Some(s.as_str()),
            None => None,
        },
        source: match &opts.source {
            Some(s) => Some(s.as_str()),
            None => None,
        },
        installed_only: opts.installed_only,
        prefetch_filter: mode == SearchMode::PreFetchFilter,
        page: None,
        page_size: None,
    }
}

// ---------------------------------------------------------------------------
// The listing table

/// `s` padded with spaces on the right to `width` characters (`{:<width}`).
pub open spec fn pad_right(s: Seq<char>, width: nat) -> Seq<char> {
    if s.len() >= width {
        s
    } else {
        s + Seq::new((width - s.len()) as nat, |i: int| ' ')
    }
}

/// The texts in order of first appearance, each once.
pub open spec fn distinct_texts(s: Seq<Seq<char>>) -> Seq<Seq<char>>
    decreases s.len(),
{
    if s.len() == 0 {
        Seq::empty()
    } else {
        let prev = distinct_texts(s.drop_last());
        if prev.contains(s.last()) {
            prev
        } else {
            prev.push(s.last())
        }
    }
}

/// The row of an entry: `name (version)` padded to 40 characters, then its description.
pub open spec fn entry_row(e: ListEntry) -> Seq<char> {
    pad_right(e.display_name@ + " ("@ + e.version@ + ")"@, 40) + " "@ + e.description@
}

/// The rows of the entries from `source`, in order.
pub open spec fn group_rows(entries: Seq<ListEntry>, source: Seq<char>) -> Seq<Seq<char>>
    decreases entries.len(),
{
    if entries.len() == 0 {
        Seq::empty()
    } else {
        let prev = group_rows(entries.drop_last(), source);
        if entries.last().source@ == source {
            prev.push(entry_row(entries.last()))
        } else {
            prev
        }
    }
}

/// The block of one source: its name, the column headings, a rule, its rows
/// and a blank line.
pub open spec fn group_block(entries: Seq<ListEntry>, source: Seq<char>) -> Seq<Seq<char>> {
    seq![
        "Source: "@ + source,
        pad_right("Extension"@, 40) + " "@ + "Description"@,
        Seq::new(80, |i: int| '-'),
    ] + group_rows(entries, source) + seq![Seq::<char>::empty()]
}

/// The blocks of the given sources, in order.
pub open spec fn group_blocks(entries: Seq<ListEntry>, sources: Seq<Seq<char>>) -> Seq<Seq<char>>
    decreases sources.len(),
{
    if sources.len() == 0 {
        Seq::empty()
    } else {
        group_blocks(entries, sources.drop_last()) + group_block(entries, sources.last())
    }
}

/// The sources of the entries, each once, in ascending order.
pub open spec fn table_sources(entries: Seq<ListEntry>) -> Seq<Seq<char>> {
    sort_texts_spec(distinct_texts(entries.map_values(|e: ListEntry| e.source@)))
}

/// The lines of the listing table: a summary, a note when cached data was
/// used, then one block per source in ascending order of source.
pub open spec fn table_lines_spec(r: ListResponse) -> Seq<Seq<char>> {
    seq![
        "Page "@ + decimal_spec(r.page as nat) + " of "@ + decimal_spec(r.total_pages as nat) + " (showing "@
            + decimal_spec(r.entries@.len()) + " of "@ + decimal_spec(r.total_entries as nat) + " extensions)"@,
    ] + (if r.used_cached_data {
        seq!["Note: using cached data while sources refresh."@]
    } else {
        Seq::empty()
    }) + if r.entries@.len() == 0 {
        seq!["No extensions found."@]
    } else {
        group_blocks(r.entries@, table_sources(r.entries@))
    }
}

fn push_line(lines: &mut Vec<String>, line: String)
    ensures
        strings_view(final(lines)@) == strings_view(old(lines)@).push(line@),
{
    lines.push(line);
    proof {
        assert(strings_view(final(lines)@) =~= strings_view(old(lines)@).push(line@));
    }
}

fn num(n: usize) -> (r: String)
    ensures
        r@ == decimal_spec(n as nat),
{
    u64_to_decimal(n as u64)
}

/// `s` padded with spaces on the right to `width` characters.
pub fn pad(s: &str, width: usize) -> (r: String)
    ensures
        r@ == pad_right(s@, width as nat),
{
    let n = crate::text::chars_of(s).len();
    let mut out = String::from_str(s);
    if n < width {
        let mut k: usize = n;
        while k < width
            invariant
                n <= k <= width,
                n == s@.len(),
                out@ == s@ + Seq::new((k - n) as nat, |i: int| ' '),
            decreases width - k,
        {
            out.append(" ");
            proof {
                reveal_strlit(" ");
                assert(out@ =~= s@ + Seq::new((k + 1 - n) as nat, |i: int| ' '));
            }
            k = k + 1;
        }
    }
    out
}

fn rule(width: usize) -> (r: String)
    ensures
        r@ == Seq::new(width as nat, |i: int| '-'),
{
    let mut out = String::new();
    let mut k: usize = 0;
    while k < width
        invariant
            k <= width,
            out@ == Seq::new(k as nat, |i: int| '-'),
        decreases width - k,
    {
        out.append("-");
        proof {
            reveal_strlit("-");
            assert(out@ =~= Seq::new((k + 1) as nat, |i: int| '-'));
        }
        k = k + 1;
    }
    out
}

fn distinct_sources(entries: &Vec<ListEntry>) -> (r: Vec<String>)
    ensures
        strings_view(r@) == distinct_texts(entries@.map_values(|e: ListEntry| e.source@)),
{
    let ghost all = entries@.map_values(|e: ListEntry| e.source@);
    let mut out: Vec<String> = Vec::new();
    let mut i: usize = 0;
    while i < entries.len()
        invariant
            0 <= i <= entries@.len(),
            all == entries@.map_values(|e: ListEntry| e.source@),
            strings_view(out@) == distinct_texts(all.subrange(0, i as int)),
        decreases entries@.len() - i,
    {
        let src = &entries[i].source;
        let mut seen = false;
        let mut j: usize = 0;
        while j < out.len()
            invariant
                0 <= j <= out@.len(),
                seen == exists|k: int| 0 <= k < j && #[trigger] out@[k]@ == src@,
            decreases out@.len() - j,
        {
            if str_eq(out[j].as_str(), src.as_str()) {
                seen = true;
            }
            j = j + 1;
        }
        proof {
            assert(all.subrange(0, i + 1).drop_last() =~= all.subrange(0, i as int));
            assert(all[i as int] == src@);
            let prev = distinct_texts(all.subrange(0, i as int));
            if seen {
                let k = choose|k: int| 0 <= k < out@.len() && #[trigger] out@[k]@ == src@;
                assert(prev[k] == src@);
            } else {
                assert forall|k: int| 0 <= k < prev.len() implies prev[k] != src@ by {
                    assert(prev[k] == out@[k]@);
                }
            }
        }
        if !seen {
            push_line(&mut out, src.clone());
        }
        i = i + 1;
    }
    proof {
        assert(all.subrange(0, entries@.len() as int) =~= all);
    }
    out
}

fn row(e: &ListEntry) -> (r: String)
    ensures
        r@ == entry_row(*e),
{
    let mut name = e.display_name.clone();
    name.append(" (");
    name.append(e.version.as_str());
    name.append(")");
    let mut r = pad(name.as_str(), 40);
    r.append(" ");
    r.append(e.description.as_str());
    r
}

fn push_group(entries: &Vec<ListEntry>, source: &String, lines: &mut Vec<String>)
    ensures
        strings_view(final(lines)@) == strings_view(old(lines)@) + group_block(entries@, source@),
{
    let ghost start = strings_view(lines@);
    let mut head = String::from_str("Source: ");
    head.append(source.as_str());
    push_line(lines, head);
    let mut cols = pad("Extension", 40);
    cols.append(" ");
    cols.append("Description");
    push_line(lines, cols);
    push_line(lines, rule(80));
    let ghost mid = strings_view(lines@);
    let mut i: usize = 0;
    proof {
        assert(entries@.subrange(0, 0) =~= Seq::<ListEntry>::empty());
        assert(mid =~= mid + group_rows(entries@.subrange(0, 0), source@));
    }
    while i < entries.len()
        invariant
            0 <= i <= entries@.len(),
            strings_view(lines@) == mid + group_rows(entries@.subrange(0, i as int), source@),
        decreases entries@.len() - i,
    {
        proof {
            assert(entries@.subrange(0, i + 1).drop_last() =~= entries@.subrange(0, i as int));
        }
        if str_eq(entries[i].source.as_str(), source.as_str()) {
            push_line(lines, row(&entries[i]));
            proof {
                assert(strings_view(lines@) =~= mid + group_rows(entries@.subrange(0, i + 1), source@));
            }
        }
        i = i + 1;
    }
    proof {
        assert(entries@.subrange(0, entries@.len() as int) =~= entries@);
    }
    push_line(lines, String::new());
    proof {
        assert(strings_view(lines@) =~= start + group_block(entries@, source@));
    }
}

/// The lines of the listing table for a listing page.
pub fn render_table(response: &ListResponse) -> (r: Vec<String>)
    ensures
        strings_view(r@) == table_lines_spec(*response),
{
    let mut lines: Vec<String> = Vec::new();
    let mut head = String::from_str("Page ");
    head.append(num(response.page).as_str());
    head.append(" of ");
    head.append(num(response.total_pages).as_str());
    head.append(" (showing ");
    head.append(num(response.entries.len()).as_str());
    head.append(" of ");
    head.append(num(response.total_entries).as_str());
    head.append(" extensions)");
    push_line(&mut lines, head);
    if response.used_cached_data {
        push_line(&mut lines, String::from_str("Note: using cached data while sources refresh."));
    }
    let ghost start = strings_view(lines@);
    if response.entries.len() == 0 {
        push_line(&mut lines, String::from_str("No extensions found."));
        proof {
            assert(strings_view(lines@) =~= table_lines_spec(*response));
        }
        return lines;
    }
    let sources = sort_strings(distinct_sources(&response.entries));
    let mut k: usize = 0;
    proof {
        assert(strings_view(sources@).subrange(0, 0) =~= Seq::<Seq<char>>::empty());
        assert(start =~= start + group_blocks(response.entries@, strings_view(sources@).subrange(0, 0)));
    }
    while k < sources.len()
        invariant
            0 <= k <= sources@.len(),
            strings_view(lines@) == start + group_blocks(response.entries@, strings_view(sources@).subrange(0, k as int)),
        decreases sources@.len() - k,
    {
        push_group(&response.entries, &sources[k], &mut lines);
        proof {
            let sv = strings_view(sources@);
            assert(sv.subrange(0, k + 1).drop_last() =~= sv.subrange(0, k as int));
            assert(sv.subrange(0, k + 1).last() == sources@[k as int]@);
            assert(strings_view(lines@) =~= start + group_blocks(response.entries@, sv.subrange(0, k + 1)));
        }
        k = k + 1;
    }
    proof {
        assert(strings_view(sources@).subrange(0, sources@.len() as int) =~= strings_view(sources@));
        assert(strings_view(lines@) =~= table_lines_spec(*response));
    }
    lines
}

// ---------------------------------------------------------------------------
// Sources

/// The name of a source type as the `sources` listing prints it.
pub open spec fn source_type_label_spec(t: SourceType) -> Seq<char> {
    match t {
        SourceType::GithubRepo => "github_repo"@,
        SourceType::GitUrl => "git_url"@,
        SourceType::LocalPath => "local_path"@,
    }
}

/// The name of a source type as the `sources` listing prints it.
pub fn source_type_label(t: SourceType) -> (r: &'static str)
    ensures
        r@ == source_type_label_spec(t),
{
    match t {
        SourceType::GithubRepo => "github_repo",
        SourceType::GitUrl => "git_url",
        SourceType::LocalPath => "local_path",
    }
}

pub open spec fn yes_no(b: bool) -> Seq<char> {
    if b {
        "yes"@
    } else {
        "no"@
    }
}

/// The block printed for one source.
pub open spec fn source_block(s: MarketplaceSource) -> Seq<char> {
    "- "@ + s.slug@ + " ("@ + s.display_name@ + ")\n  URL: "@ + s.url@.serialization + "\n  Enabled: "@ + yes_no(
        s.enabled,
    ) + "\n  Requires Auth: "@ + yes_no(s.requires_auth) + "\n"@
}

/// What `sources list` prints: a note when there are no sources, otherwise a
/// heading and one block per source.
pub open spec fn source_list_spec(sources: Seq<MarketplaceSource>) -> Seq<Seq<char>> {
    if sources.len() == 0 {
        seq!["No marketplace sources configured."@]
    } else {
        seq!["Marketplace Sources:\n"@] + sources.map_values(|s: MarketplaceSource| source_block(s))
    }
}

/// The lines `sources list` prints.
pub fn render_sources(sources: &Vec<MarketplaceSource>) -> (r: Vec<String>)
    ensures
        strings_view(r@) == source_list_spec(sources@),
{
    let mut lines: Vec<String> = Vec::new();
    if sources.len() == 0 {
        push_line(&mut lines, String::from_str("No marketplace sources configured."));
        proof {
            assert(strings_view(lines@) =~= source_list_spec(sources@));
        }
        return lines;
    }
    push_line(&mut lines, String::from_str("Marketplace Sources:\n"));
    let mut i: usize = 0;
    while i < sources.len()
        invariant
            0 <= i <= sources@.len(),
            sources@.len() > 0,
            strings_view(lines@) == seq!["Marketplace Sources:\n"@] + sources@.subrange(0, i as int).map_values(
                |s: MarketplaceSource| source_block(s),
            ),
        decreases sources@.len() - i,
    {
        let s = &sources[i];
        let mut b = String::from_str("- ");
        b.append(s.slug.as_str());
        b.append(" (");
        b.append(s.display_name.as_str());
        b.append(")\n  URL: ");
        b.append(s.url.as_str());
        b.append("\n  Enabled: ");
        b.append(if s.enabled {
            "yes"
        } else {
            "no"
        });
        b.append("\n  Requires Auth: ");
        b.append(if s.requires_auth {
            "yes"
        } else {
            "no"
        });
        b.append("\n");
        push_line(&mut lines, b);
        proof {
            assert(sources@.subrange(0, i + 1) =~= sources@.subrange(0, i as int).push(sources@[i as int]));
            assert(strings_view(lines@) =~= seq!["Marketplace Sources:\n"@] + sources@.subrange(0, i + 1).map_values(
                |s: MarketplaceSource| source_block(s),
            ));
        }
        i = i + 1;
    }
    proof {
        assert(sources@.subrange(0, sources@.len() as int) =~= sources@);
    }
    lines
}

/// `s` without every trailing repetition of `suffix` (`str::trim_end_matches`).
pub open spec fn trim_end_matches_spec(s: Seq<char>, suffix: Seq<char>) -> Seq<char>
    decreases s.len(),
{
    if suffix.len() > 0 && suffix.len() <= s.len() && s.subrange(s.len() - suffix.len(), s.len() as int) == suffix {
        trim_end_matches_spec(s.subrange(0, s.len() - suffix.len()), suffix)
    } else {
        s
    }
}

/// The last non-empty segment of a path.
pub open spec fn last_nonempty(segs: Seq<Seq<char>>) -> Option<Seq<char>>
    decreases segs.len(),
{
    if segs.len() == 0 {
        None
    } else if segs.last().len() > 0 {
        Some(segs.last())
    } else {
        last_nonempty(segs.drop_last())
    }
}

/// The slug a source URL gets: its last non-empty path segment without
/// `.git` suffixes, lower-cased; otherwise its host, lower-cased with dots
/// turned into dashes.
pub open spec fn derive_slug_spec(url: UrlView) -> Option<Seq<char>> {
    match url.path_segments {
        Some(segs) => match last_nonempty(segs) {
            Some(last) => Some(unicode_lowercase(trim_end_matches_spec(last, ".git"@))),
            None => host_slug(url),
        },
        None => host_slug(url),
    }
}

pub open spec fn host_slug(url: UrlView) -> Option<Seq<char>> {
    match url.host {
        Some(h) => Some(replace_char_spec(unicode_lowercase(h), '.', '-')),
        None => None,
    }
}

fn trim_git_suffixes(s: &str) -> (r: String)
    ensures
        r@ == trim_end_matches_spec(s@, ".git"@),
{
    proof {
        reveal_strlit(".git");
    }
    let mut cs = crate::text::chars_of(s);
    loop
        invariant
            trim_end_matches_spec(cs@, ".git"@) == trim_end_matches_spec(s@, ".git"@),
        decreases cs@.len(),
    {
        proof {
            reveal_strlit(".git");
        }
        let n = cs.len();
        if n >= 4 && cs[n - 4] == '.' && cs[n - 3] == 'g' && cs[n - 2] == 'i' && cs[n - 1] == 't' {
            proof {
                assert(cs@.subrange(n - 4, n as int) =~= ".git"@);
            }
            cs = crate::text::chars_slice(&cs, 0, n - 4);
        } else {
            proof {
                if n >= 4 {
                    assert(cs@.subrange(n - 4, n as int) != ".git"@) by {
                        let t = cs@.subrange(n - 4, n as int);
                        assert(t[0] == cs@[n - 4]);
                        assert(t[1] == cs@[n - 3]);
                        assert(t[2] == cs@[n - 2]);
                        assert(t[3] == cs@[n - 1]);
                    }
                }
            }
            return crate::text::string_from_chars(&cs);
        }
    }
}

fn last_nonempty_segment(segs: &Vec<String>) -> (r: Option<usize>)
    ensures
        match r {
            Some(i) => i < segs@.len() && last_nonempty(strings_view(segs@)) == Some(segs@[i as int]@),
            None => last_nonempty(strings_view(segs@)) is None,
        },
{
    let mut i = segs.len();
    assert(strings_view(segs@).subrange(0, i as int) =~= strings_view(segs@));
    while i > 0
        invariant
            i <= segs@.len(),
            last_nonempty(strings_view(segs@)) == last_nonempty(strings_view(segs@).subrange(0, i as int)),
        decreases i,
    {
        let ghost sv = strings_view(segs@).subrange(0, i as int);
        assert(sv.last() == segs@[i - 1]@);
        if !segs[i - 1].as_str().is_empty() {
            return Some(i - 1);
        }
        assert(sv.drop_last() =~= strings_view(segs@).subrange(0, i - 1));
        i = i - 1;
    }
    None
}

/// The slug for a source at `url`, or the message of the failure to find one.
pub fn derive_slug(url: &Url) -> (r: Result<String, String>)
    ensures
        match derive_slug_spec(url@) {
            Some(s) => r matches Ok(x) && x@ == s,
            None => r matches Err(m) && m@ == "unable to derive slug from URL"@,
        },
{
    if let Some(segs) = url.path_segments() {
        proof {
            assert(strings_view(segs@) =~= segs@.map_values(|s: String| s@));
        }
        if let Some(i) = last_nonempty_segment(segs) {
            let trimmed = trim_git_suffixes(segs[i].as_str());
            return Ok(to_lowercase(trimmed.as_str()));
        }
    }
    match url.host_str() {
        Some(h) => {
            let lower = to_lowercase(h);
            Ok(replace_char(lower.as_str(), '.', '-'))
        },
        None => Err(String::from_str("unable to derive slug from URL")),
    }
}

/// The type of a source at `url`: a GitHub repository for `http` and
/// `https`, a git URL otherwise.
pub fn infer_source_type(url: &Url) -> (r: SourceType)
    ensures
        r == (if url@.scheme == "http"@ || url@.scheme == "https"@ {
            SourceType::GithubRepo
        } else {
            SourceType::GitUrl
        }),
{
    if str_eq(url.scheme(), "http") || str_eq(url.scheme(), "https") {
        SourceType::GithubRepo
    } else {
        SourceType::GitUrl
    }
}

/// The source `sources add` registers for `url`: enabled, idle, with the
/// derived slug, the given display name (the slug when none), the inferred
/// type, a recursion depth of 5, and the given authentication need.
pub fn source_for_url(url: Url, display_name: Option<String>, requires_auth: bool) -> (r: Result<
    MarketplaceSource,
    String,
>)
    ensures
        match derive_slug_spec(url@) {
            None => r matches Err(m) && m@ == "unable to derive slug from URL"@,
            Some(slug) => r matches Ok(s) && {
                &&& s.slug@ == slug
                &&& s.display_name@ == (match display_name {
                    Some(d) => d@,
                    None => slug,
                })
                &&& s.url@ == url@
                &&& s.source_type == (if url@.scheme == "http"@ || url@.scheme == "https"@ {
                    SourceType::GithubRepo
                } else {
                    SourceType::GitUrl
                })
                &&& !s.default
                &&& s.enabled
                &&& s.requires_auth == requires_auth
                &&& s.last_sync_status is Idle
                &&& s.recursion_depth == 5
            },
        },
{
    let slug = match derive_slug(&url) {
        Ok(s) => s,
        Err(m) => return Err(m),
    };
    let name = match display_name {
        Some(d) => d,
        None => slug.clone(),
    };
    let source_type = infer_source_type(&url);
    let source = MarketplaceSource::new(slug.as_str(), name.as_str(), url, source_type, true, 5);
    let source = source.with_sync_status(SyncStatus::Idle);
    Ok(source.with_requires_auth(requires_auth))
}

} // verus!
