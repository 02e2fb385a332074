//! The `show` command: finding one extension by its identifier and
//! describing it.
//!
//! Fetching, recording status and printing are the caller's part.

use vstd::prelude::*;

use crate::catalog::{fallback_warning, fallback_warning_spec, FetchResult};
use crate::domain::{Extension, MarketplaceSource};
use crate::error::{error_message_spec, MarketplaceError};
use crate::locator::opt_string_view;
use crate::text::{join, join_spec, split_once, split_once_spec, str_eq, strings_view, trim, trim_spec};

verus! {

/// Options of the `show` command.
#[derive(Debug, Clone)]
pub struct ShowOptions {
    /// `SOURCE/EXTENSION`.
    pub id: String,
    pub json: bool,
}

/// The source and extension parts of an identifier, trimmed; a part is
/// empty when missing.
pub open spec fn id_parts(id: Seq<char>) -> (Seq<char>, Seq<char>) {
    match split_once_spec(id, '/') {
        Some((a, b)) => (trim_spec(a), trim_spec(b)),
        None => (trim_spec(id), Seq::empty()),
    }
}

/// The message of the error for an identifier without both parts.
pub open spec fn invalid_id_message(id: Seq<char>) -> Seq<char> {
    "invalid extension id '"@ + id + "', expected SOURCE/EXTENSION"@
}

/// Splits `SOURCE/EXTENSION` into its trimmed parts; both must be non-empty.
pub fn parse_id(id: &str) -> (r: Result<(String, String), MarketplaceError>)
    ensures
        match r {
            Ok((s, e)) => id_parts(id@) == (s@, e@) && s@.len() > 0 && e@.len() > 0,
            Err(MarketplaceError::Configuration(m)) => m@ == invalid_id_message(id@) && (id_parts(id@).0.len()
                == 0 || id_parts(id@).1.len() == 0),
            Err(_) => false,
        },
{
    let (source, extension) = match split_once(id, '/') {
        Some((a, b)) => (trim(a.as_str()), trim(b.as_str())),
        None => (trim(id), String::new()),
    };
    if source.as_str().is_empty() || extension.as_str().is_empty() {
        let mut m = String::from_str("invalid extension id '");
        m.append(id);
        m.append("', expected SOURCE/EXTENSION");
        return Err(MarketplaceError::Configuration(m));
    }
    Ok((source, extension))
}

/// Index of the first source with the given slug.
pub open spec fn source_index(s: Seq<MarketplaceSource>, slug: Seq<char>) -> Option<int>
    decreases s.len(),
{
    if s.len() == 0 {
        None
    } else {
        match source_index(s.drop_last(), slug) {
            Some(i) => Some(i),
            None => if s.last().slug@ == slug {
                Some(s.len() - 1)
            } else {
                None
            },
        }
    }
}

proof fn lemma_source_index(s: Seq<MarketplaceSource>, slug: Seq<char>, i: int)
    requires
        0 <= i <= s.len(),
        forall|k: int| 0 <= k < i ==> (#[trigger] s[k]).slug@ != slug,
    ensures
        i < s.len() && s[i].slug@ == slug ==> source_index(s, slug) == Some(i),
        i == s.len() ==> source_index(s, slug) is None,
    decreases s.len(),
{
    if s.len() > 0 {
        if i < s.len() - 1 {
            lemma_source_index(s.drop_last(), slug, i);
        } else {
            lemma_source_index(s.drop_last(), slug, s.len() - 1);
        }
    }
}

/// The source with the given slug, or `SourceNotFound`.
pub fn find_source(sources: &Vec<MarketplaceSource>, slug: &str) -> (r: Result<usize, MarketplaceError>)
    ensures
        match r {
            Ok(i) => source_index(sources@, slug@) == Some(i as int),
            Err(MarketplaceError::SourceNotFound { slug: s }) => source_index(sources@, slug@) is None && s@
                == slug@,
            Err(_) => false,
        },
{
    let mut i: usize = 0;
    while i < sources.len()
        invariant
            0 <= i <= sources@.len(),
            forall|k: int| 0 <= k < i ==> (#[trigger] sources@[k]).slug@ != slug@,
        decreases sources@.len() - i,
    {
        if str_eq(sources[i].slug.as_str(), slug) {
            proof {
                lemma_source_index(sources@, slug@, i as int);
            }
            return Ok(i);
        }
        i = i + 1;
    }
    proof {
        lemma_source_index(sources@, slug@, i as int);
    }
    Err(MarketplaceError::SourceNotFound { slug: String::from_str(slug) })
}

/// Whether an extension answers to the extension part or the full identifier.
pub open spec fn answers_to(e: Extension, extension_slug: Seq<char>, id: Seq<char>) -> bool {
    e.extension_slug@ == extension_slug || e.id.0@ == id
}

/// Index of the first extension answering to the identifier.
pub open spec fn extension_index(s: Seq<Extension>, extension_slug: Seq<char>, id: Seq<char>) -> Option<int>
    decreases s.len(),
{
    if s.len() == 0 {
        None
    } else {
        match extension_index(s.drop_last(), extension_slug, id) {
            Some(i) => Some(i),
            None => if answers_to(s.last(), extension_slug, id) {
                Some(s.len() - 1)
            } else {
                None
            },
        }
    }
}

proof fn lemma_extension_index(s: Seq<Extension>, x: Seq<char>, id: Seq<char>, i: int)
    requires
        0 <= i <= s.len(),
        forall|k: int| 0 <= k < i ==> !answers_to(#[trigger] s[k], x, id),
    ensures
        i < s.len() && answers_to(s[i], x, id) ==> extension_index(s, x, id) == Some(i),
        i == s.len() ==> extension_index(s, x, id) is None,
    decreases s.len(),
{
    if s.len() > 0 {
        if i < s.len() - 1 {
            lemma_extension_index(s.drop_last(), x, id, i);
        } else {
            lemma_extension_index(s.drop_last(), x, id, s.len() - 1);
        }
    }
}

/// The first extension whose slug is `extension_slug` or whose identifier is
/// `id`, or `ExtensionNotFound` for `id`.
pub fn find_extension(extensions: &Vec<Extension>, extension_slug: &str, id: &str) -> (r: Result<
    usize,
    MarketplaceError,
>)
    ensures
        match r {
            Ok(i) => extension_index(extensions@, extension_slug@, id@) == Some(i as int),
            Err(MarketplaceError::ExtensionNotFound { id: x }) => extension_index(
                extensions@,
                extension_slug@,
                id@,
            ) is None && x@ == id@,
            Err(_) => false,
        },
{
    let mut i: usize = 0;
    while i < extensions.len()
        invariant
            0 <= i <= extensions@.len(),
            forall|k: int| 0 <= k < i ==> !answers_to(#[trigger] extensions@[k], extension_slug@, id@),
        decreases extensions@.len() - i,
    {
        let e = &extensions[i];
        if str_eq(e.extension_slug.as_str(), extension_slug) || str_eq(e.id.0.as_str(), id) {
            proof {
                lemma_extension_index(extensions@, extension_slug@, id@, i as int);
            }
            return Ok(i);
        }
        i = i + 1;
    }
    proof {
        lemma_extension_index(extensions@, extension_slug@, id@, i as int);
    }
    Err(MarketplaceError::ExtensionNotFound { id: String::from_str(id) })
}

/// What fetching the source gave the `show` command.
#[derive(Debug)]
pub struct FetchOutcome {
    pub extensions: Vec<Extension>,
    pub warnings: Vec<String>,
    pub used_cached_data: bool,
}

/// The note recorded in the status store for a failed fetch: the fallback
/// warning for rate limits and network failures, otherwise the error's message.
pub open spec fn failure_note_spec(source_slug: Seq<char>, err: MarketplaceError) -> Seq<char> {
    match fallback_warning_spec(source_slug, err) {
        Some(w) => w,
        None => error_message_spec(err),
    }
}

/// The note recorded in the status store for a failed fetch of `source_slug`.
pub fn failure_note(source_slug: &str, err: &MarketplaceError) -> (r: String)
    ensures
        r@ == failure_note_spec(source_slug@, *err),
{
    match fallback_warning(source_slug, err) {
        Some(w) => w,
        None => err.message(),
    }
}

/// Whether a failed fetch may fall back to the cache (rate limits and
/// network failures).
pub fn may_use_cache(source_slug: &str, err: &MarketplaceError) -> (r: bool)
    ensures
        r == fallback_warning_spec(source_slug@, *err) is Some,
{
    fallback_warning(source_slug, err).is_some()
}

/// The outcome of a fetch: fresh extensions without warnings, or cached ones
/// with the warning that explains why.
pub fn outcome_of(fetch: FetchResult) -> (r: FetchOutcome)
    ensures
        match fetch {
            FetchResult::Fresh(exts) => r.extensions == exts && r.warnings@.len() == 0 && !r.used_cached_data,
            FetchResult::Cached { extensions, warning } => r.extensions == extensions && strings_view(
                r.warnings@,
            ) == seq![warning@] && r.used_cached_data,
        },
{
    match fetch {
        FetchResult::Fresh(extensions) => FetchOutcome { extensions, warnings: Vec::new(), used_cached_data: false },
        FetchResult::Cached { extensions, warning } => {
            let ghost w = warning@;
            let mut warnings: Vec<String> = Vec::new();
            warnings.push(warning);
            proof {
                assert(strings_view(warnings@) =~= seq![w]);
            }
            FetchOutcome { extensions, warnings, used_cached_data: true }
        },
    }
}

/// The lines written to standard error: one per warning.
pub open spec fn show_warning_lines(warnings: Seq<String>) -> Seq<Seq<char>> {
    warnings.map_values(|w: String| "warning: "@ + w@)
}

/// The lines describing an extension.
pub open spec fn show_lines_spec(e: Extension, used_cached_data: bool) -> Seq<Seq<char>> {
    seq![
        "Extension: "@ + e.display_name@ + " ("@ + e.version@ + ")"@,
        "Namespace: "@ + e.id.0@,
        "Source: "@ + e.source_slug@,
        "Author: "@ + e.author@,
        "Description: "@ + e.summary@,
        "Repository: "@ + e.repository_url@.serialization,
    ] + match e.homepage_url {
        Some(u) => seq!["Homepage: "@ + u@.serialization],
        None => Seq::empty(),
    } + match e.documentation_url {
        Some(u) => seq!["Docs: "@ + u@.serialization],
        None => Seq::empty(),
    } + (if e.categories@.len() > 0 {
        seq!["Categories: "@ + join_spec(strings_view(e.categories@), ", "@)]
    } else {
        Seq::empty()
    }) + (if e.compatibility@.len() > 0 {
        seq!["Compatibility: "@ + join_spec(strings_view(e.compatibility@), ", "@)]
    } else {
        Seq::empty()
    }) + (if used_cached_data {
        seq!["Note: using cached data while sources refresh."@]
    } else {
        Seq::empty()
    }) + match e.readme_excerpt {
        Some(r) => seq!["\nREADME (excerpt):\n"@ + r@],
        None => Seq::empty(),
    }
}

fn push_text(lines: &mut Vec<String>, line: String)
    ensures
        strings_view(final(lines)@) == strings_view(old(lines)@).push(line@),
{
    lines.push(line);
    proof {
        assert(strings_view(final(lines)@) =~= strings_view(old(lines)@).push(line@));
    }
}

fn labelled(label: &str, value: &str) -> (r: String)
    ensures
        r@ == label@ + value@,
{
    let mut s = String::from_str(label);
    s.append(value);
    s
}

/// The lines of standard error (the warnings) and of standard output (the
/// description) of the human-readable answer.
pub fn render_show(e: &Extension, outcome: &FetchOutcome) -> (r: (Vec<String>, Vec<String>))
    ensures
        strings_view(r.0@) == show_warning_lines(outcome.warnings@),
        strings_view(r.1@) == show_lines_spec(*e, outcome.used_cached_data),
{
    let mut errs: Vec<String> = Vec::new();
    let mut i: usize = 0;
    while i < outcome.warnings.len()
        invariant
            0 <= i <= outcome.warnings@.len(),
            strings_view(errs@) == show_warning_lines(outcome.warnings@.subrange(0, i as int)),
        decreases outcome.warnings@.len() - i,
    {
        push_text(&mut errs, labelled("warning: ", outcome.warnings[i].as_str()));
        proof {
            assert(outcome.warnings@.subrange(0, i + 1) =~= outcome.warnings@.subrange(0, i as int).push(
                outcome.warnings@[i as int],
            ));
            assert(strings_view(errs@) =~= show_warning_lines(outcome.warnings@.subrange(0, i + 1)));
        }
        i = i + 1;
    }
    proof {
        assert(outcome.warnings@.subrange(0, outcome.warnings@.len() as int) =~= outcome.warnings@);
    }
    let mut out: Vec<String> = Vec::new();
    let mut first = labelled("Extension: ", e.display_name.as_str());
    first.append(" (");
    let v = e.version.to_text();
    first.append(v.as_str());
    first.append(")");
    push_text(&mut out, first);
    push_text(&mut out, labelled("Namespace: ", e.id.0.as_str()));
    push_text(&mut out, labelled("Source: ", e.source_slug.as_str()));
    push_text(&mut out, labelled("Author: ", e.author.as_str()));
    push_text(&mut out, labelled("Description: ", e.summary.as_str()));
    push_text(&mut out, labelled("Repository: ", e.repository_url.as_str()));
    if let Some(u) = &e.homepage_url {
        push_text(&mut out, labelled("Homepage: ", u.as_str()));
    }
    if let Some(u) = &e.documentation_url {
        push_text(&mut out, labelled("Docs: ", u.as_str()));
    }
    if e.categories.len() > 0 {
        let j = join(&e.categories, ", ");
        push_text(&mut out, labelled("Categories: ", j.as_str()));
    }
    if e.compatibility.len() > 0 {
        let j = join(&e.compatibility, ", ");
        push_text(&mut out, labelled("Compatibility: ", j.as_str()));
    }
    if outcome.used_cached_data {
        push_text(&mut out, String::from_str("Note: using cached data while sources refresh."));
    }
    if let Some(r) = &e.readme_excerpt {
        push_text(&mut out, labelled("\nREADME (excerpt):\n", r.as_str()));
    }
    proof {
        assert(strings_view(out@) =~= show_lines_spec(*e, outcome.used_cached_data));
    }
    (errs, out)
}

} // verus!
