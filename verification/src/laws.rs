//! Properties of the marketplace that span operations or hold of every
//! state, stated over the models the operations' contracts use.

use vstd::prelude::*;

use crate::api::error_answer_spec;
use crate::show::show_lines_spec;
use crate::text::join_spec;
use crate::commands::{source_block, source_list_spec, yes_no};
use crate::domain::MarketplaceSource;
use crate::validation::{category_findings_spec, manifest_findings_spec};
use crate::manifest::ExtensionManifest;
use crate::text::strings_view;
use crate::report::earliest_schedule;
use crate::domain::RetryJob;
use crate::preferences::loaded_preferences;
use crate::domain::UserPreferences;
use crate::show::id_parts;
use crate::text::{contains_spec, first_index_spec, lemma_first_index, starts_with_spec, trim_spec};
use crate::cache::{is_snapshot_of, is_stamped_file, same_but_checksum, stamped, CacheFile, CacheSnapshot};
use crate::catalog::{entry_matches, filter_entries_spec, filter_matching, lower_opt, opt_str_view, ListRequest, insert_by_namespace, lemma_lex_le_refl, lemma_lex_total, lemma_lex_trans, lex_le, page_slice, page_spec, page_start_spec, sort_by_namespace, total_pages_spec, ListEntryView};
use crate::domain::{dedup_case_insensitive_spec, lemma_dedup_keys, key_seen, CacheEntry};
use crate::error::MarketplaceError;
use crate::fetcher::{digit_value, digits_value, is_digit, parse_unsigned_spec, unsigned_digits};
use crate::refresh::{due_count, insert_by_schedule, is_schedule_sorted, lemma_due_count, lemma_insert_sorted, lemma_sort_of_sorted, lemma_sort_sorted, lemma_without_sorted, sort_by_schedule, without_job_id};
use crate::domain::RetryJobView;
use crate::sources::{first_default, first_with_slug, lemma_first_default, lemma_first_with_slug, without_slug};
use crate::domain::MarketplaceSourceView;
use crate::status::{without_source, LoggedErrorView};
use crate::text::{decimal_spec, digit_char_spec, insert_text_spec, sort_texts_spec, unicode_lowercase};
use crate::time::{TimeSpan, Timestamp};
use crate::domain::Extension;

verus! {

// ---------------------------------------------------------------------------
// The refresh queue

/// Queueing a job into a schedule-ordered queue leaves it ordered, holding
/// the job, and holding no other job with its identifier.
pub proof fn law_queue_refresh_keeps_one_job_per_id(q: Seq<RetryJobView>, job: RetryJobView)
    requires
        is_schedule_sorted(q),
    ensures
        is_schedule_sorted(sort_by_schedule(without_job_id(q, job.job_id).push(job))),
        sort_by_schedule(without_job_id(q, job.job_id).push(job)).contains(job),
        forall|k: int|
            0 <= k < sort_by_schedule(without_job_id(q, job.job_id).push(job)).len() && (#[trigger] sort_by_schedule(
                without_job_id(q, job.job_id).push(job),
            )[k]).job_id == job.job_id ==> sort_by_schedule(without_job_id(q, job.job_id).push(job))[k] == job,
{
    broadcast use vstd::seq_lib::group_to_multiset_ensures;
    let w = without_job_id(q, job.job_id);
    let p = w.push(job);
    let r = sort_by_schedule(p);
    lemma_without_sorted(q, job.job_id);
    lemma_sort_sorted(p);
    assert(p.to_multiset().count(job) > 0) by {
        assert(p[p.len() - 1] == job);
    }
    assert(r.to_multiset().count(job) > 0);
    assert forall|k: int| 0 <= k < r.len() && (#[trigger] r[k]).job_id == job.job_id implies r[k] == job by {
        assert(r.to_multiset().count(r[k]) > 0);
        assert(p.contains(r[k]));
        let m = choose|m: int| 0 <= m < p.len() && p[m] == r[k];
        if m < w.len() {
            assert(w[m].job_id != job.job_id);
        }
    }
}

/// No two queued jobs share an identifier.
pub open spec fn job_ids_distinct(s: Seq<RetryJobView>) -> bool {
    forall|i: int, j: int| 0 <= i < j < s.len() ==> (#[trigger] s[i]).job_id != (#[trigger] s[j]).job_id
}

/// How many queued jobs have identifier `id`.
pub open spec fn jobs_with_id(s: Seq<RetryJobView>, id: Seq<char>) -> nat
    decreases s.len(),
{
    if s.len() == 0 {
        0
    } else if s.last().job_id == id {
        jobs_with_id(s.drop_last(), id) + 1
    } else {
        jobs_with_id(s.drop_last(), id)
    }
}

proof fn lemma_without_len(s: Seq<RetryJobView>, id: Seq<char>)
    ensures
        without_job_id(s, id).len() + jobs_with_id(s, id) == s.len(),
    decreases s.len(),
{
    if s.len() > 0 {
        lemma_without_len(s.drop_last(), id);
    }
}

proof fn lemma_no_job_with_id(s: Seq<RetryJobView>, id: Seq<char>)
    requires
        forall|k: int| 0 <= k < s.len() ==> (#[trigger] s[k]).job_id != id,
    ensures
        jobs_with_id(s, id) == 0,
    decreases s.len(),
{
    if s.len() > 0 {
        assert(s[s.len() - 1].job_id != id);
        let init = s.drop_last();
        assert forall|k: int| 0 <= k < init.len() implies (#[trigger] init[k]).job_id != id by {
            assert(init[k] == s[k]);
        }
        lemma_no_job_with_id(init, id);
    }
}

proof fn lemma_distinct_at_most_one(s: Seq<RetryJobView>, id: Seq<char>)
    requires
        job_ids_distinct(s),
    ensures
        jobs_with_id(s, id) <= 1,
    decreases s.len(),
{
    if s.len() > 0 {
        let init = s.drop_last();
        assert(job_ids_distinct(init)) by {
            assert forall|i: int, j: int| 0 <= i < j < init.len() implies (#[trigger] init[i]).job_id != (#[trigger] init[j]).job_id by {
                assert(init[i] == s[i] && init[j] == s[j]);
            }
        }
        if s.last().job_id == id {
            assert forall|k: int| 0 <= k < init.len() implies (#[trigger] init[k]).job_id != id by {
                assert(init[k] == s[k]);
                assert(s[k].job_id != s[s.len() - 1].job_id);
            }
            lemma_no_job_with_id(init, id);
        } else {
            lemma_distinct_at_most_one(init, id);
        }
    }
}

proof fn lemma_without_distinct(s: Seq<RetryJobView>, id: Seq<char>)
    requires
        is_schedule_sorted(s),
        job_ids_distinct(s),
    ensures
        job_ids_distinct(without_job_id(s, id)),
    decreases s.len(),
{
    if s.len() > 0 {
        let init = s.drop_last();
        assert(is_schedule_sorted(init));
        assert(job_ids_distinct(init)) by {
            assert forall|i: int, j: int| 0 <= i < j < init.len() implies (#[trigger] init[i]).job_id != (#[trigger] init[j]).job_id by {
                assert(init[i] == s[i] && init[j] == s[j]);
            }
        }
        lemma_without_distinct(init, id);
        lemma_without_sorted(init, id);
        let w = without_job_id(init, id);
        if s.last().job_id != id {
            let r = w.push(s.last());
            assert forall|i: int, j: int| 0 <= i < j < r.len() implies (#[trigger] r[i]).job_id != (#[trigger] r[j]).job_id by {
                if j == w.len() {
                    assert(r[i] == w[i]);
                    assert(init.contains(w[i]));
                    let m = choose|m: int| 0 <= m < init.len() && init[m] == w[i];
                    assert(s[m].job_id != s[s.len() - 1].job_id);
                } else {
                    assert(r[i] == w[i] && r[j] == w[j]);
                }
            }
        }
    }
}

proof fn lemma_insert_distinct(w: Seq<RetryJobView>, x: RetryJobView)
    requires
        is_schedule_sorted(w),
        job_ids_distinct(w),
        forall|k: int| 0 <= k < w.len() ==> (#[trigger] w[k]).job_id != x.job_id,
    ensures
        job_ids_distinct(insert_by_schedule(w, x)),
    decreases w.len(),
{
    broadcast use vstd::seq_lib::group_to_multiset_ensures;

    if w.len() == 0 {
    } else if w.last().scheduled_for <= x.scheduled_for {
        let r = w.push(x);
        assert forall|i: int, j: int| 0 <= i < j < r.len() implies (#[trigger] r[i]).job_id != (#[trigger] r[j]).job_id by {
            assert(r[i] == w[i]);
            if j < w.len() {
                assert(r[j] == w[j]);
            }
        }
    } else {
        let init = w.drop_last();
        assert(is_schedule_sorted(init));
        assert(job_ids_distinct(init)) by {
            assert forall|i: int, j: int| 0 <= i < j < init.len() implies (#[trigger] init[i]).job_id != (#[trigger] init[j]).job_id by {
                assert(init[i] == w[i] && init[j] == w[j]);
            }
        }
        assert forall|k: int| 0 <= k < init.len() implies (#[trigger] init[k]).job_id != x.job_id by {
            assert(init[k] == w[k]);
        }
        lemma_insert_distinct(init, x);
        lemma_insert_sorted(init, x);
        let mid = insert_by_schedule(init, x);
        let r = mid.push(w.last());
        assert forall|i: int, j: int| 0 <= i < j < r.len() implies (#[trigger] r[i]).job_id != (#[trigger] r[j]).job_id by {
            if j == mid.len() {
                assert(r[i] == mid[i]);
                assert(mid.to_multiset().count(mid[i]) > 0);
                assert(init.to_multiset().insert(x).count(mid[i]) > 0);
                if mid[i] != x {
                    assert(init.to_multiset().count(mid[i]) > 0);
                    let m = choose|m: int| 0 <= m < init.len() && init[m] == mid[i];
                    assert(w[m].job_id != w[w.len() - 1].job_id);
                } else {
                    assert(w[w.len() - 1].job_id != x.job_id);
                }
            } else {
                assert(r[i] == mid[i] && r[j] == mid[j]);
            }
        }
    }
}

/// Queueing a job into any queue (always kept in schedule order) leaves
/// exactly the jobs of other identifiers and the new job: every job with the
/// new job's identifier is replaced, so the length drops by their number and
/// grows by one.
pub proof fn law_queue_refresh_length(q: Seq<RetryJobView>, job: RetryJobView)
    requires
        is_schedule_sorted(q),
    ensures
        insert_by_schedule(without_job_id(q, job.job_id), job).to_multiset() == without_job_id(q, job.job_id).push(
            job,
        ).to_multiset(),
        insert_by_schedule(without_job_id(q, job.job_id), job).len() == q.len() - jobs_with_id(q, job.job_id) + 1,
{
    broadcast use vstd::seq_lib::group_to_multiset_ensures;

    let w = without_job_id(q, job.job_id);
    lemma_without_sorted(q, job.job_id);
    lemma_insert_sorted(w, job);
    lemma_without_len(q, job.job_id);
}

/// Queueing a job into a queue whose identifiers are distinct keeps them
/// distinct, and replaces at most one job.
pub proof fn law_queue_refresh_replaces_at_most_one(q: Seq<RetryJobView>, job: RetryJobView)
    requires
        is_schedule_sorted(q),
        job_ids_distinct(q),
    ensures
        job_ids_distinct(insert_by_schedule(without_job_id(q, job.job_id), job)),
        jobs_with_id(q, job.job_id) <= 1,
{
    let w = without_job_id(q, job.job_id);
    lemma_without_sorted(q, job.job_id);
    lemma_without_distinct(q, job.job_id);
    lemma_insert_distinct(w, job);
    lemma_distinct_at_most_one(q, job.job_id);
}

/// A schedule-ordered queue handed out by `flush` and loaded back by
/// `RefreshService::new` (which sorts what it loads) is the same queue.
pub proof fn law_queue_reload_keeps_jobs(q: Seq<RetryJobView>)
    requires
        is_schedule_sorted(q),
    ensures
        sort_by_schedule(q) == q,
{
    lemma_sort_of_sorted(q);
}

/// Draining at `now` splits a schedule-ordered queue: the drained jobs are
/// its front, all due at `now`, and the jobs left are all scheduled later.
pub proof fn law_drain_due_splits_queue(q: Seq<RetryJobView>, now: int)
    requires
        is_schedule_sorted(q),
    ensures
        q.take(due_count(q, now) as int) + q.skip(due_count(q, now) as int) == q,
        forall|k: int| 0 <= k < due_count(q, now) ==> (#[trigger] q[k]).scheduled_for <= now,
        forall|k: int|
            0 <= k < q.skip(due_count(q, now) as int).len() ==> (#[trigger] q.skip(due_count(q, now) as int)[k]).scheduled_for
                > now,
{
    lemma_due_count(q, now);
    let d = due_count(q, now) as int;
    assert(q.take(d) + q.skip(d) =~= q);
    assert forall|k: int| 0 <= k < q.skip(d).len() implies (#[trigger] q.skip(d)[k]).scheduled_for > now by {
        assert(q.skip(d)[k] == q[d + k]);
    }
}

// ---------------------------------------------------------------------------
// The status store

proof fn lemma_without_source_drops(s: Seq<LoggedErrorView>, slug: Seq<char>)
    ensures
        forall|k: int| 0 <= k < without_source(s, slug).len() ==> (#[trigger] without_source(s, slug)[k]).source_slug != slug,
        without_source(without_source(s, slug), slug) == without_source(s, slug),
    decreases s.len(),
{
    if s.len() > 0 {
        lemma_without_source_drops(s.drop_last(), slug);
        let prev = without_source(s.drop_last(), slug);
        if s.last().source_slug != slug {
            let r = prev.push(s.last());
            assert(r.drop_last() =~= prev);
            assert forall|k: int| 0 <= k < r.len() implies (#[trigger] r[k]).source_slug != slug by {
                if k < prev.len() {
                    assert(r[k] == prev[k]);
                }
            }
        }
    }
}

/// Recording an error of a source leaves exactly one error of that source,
/// the new one, last.
pub proof fn law_record_error_keeps_one_per_source(errors: Seq<LoggedErrorView>, new: LoggedErrorView)
    ensures
        without_source(errors, new.source_slug).push(new).last() == new,
        forall|k: int|
            0 <= k < without_source(errors, new.source_slug).push(new).len() - 1 ==> (#[trigger] without_source(
                errors,
                new.source_slug,
            ).push(new)[k]).source_slug != new.source_slug,
{
    lemma_without_source_drops(errors, new.source_slug);
    let w = without_source(errors, new.source_slug);
    assert forall|k: int| 0 <= k < w.push(new).len() - 1 implies (#[trigger] w.push(new)[k]).source_slug
        != new.source_slug by {
        assert(w.push(new)[k] == w[k]);
    }
}

/// Clearing the errors of a source leaves none of them, and clearing again
/// changes nothing.
pub proof fn law_clear_error_forgets_source(errors: Seq<LoggedErrorView>, slug: Seq<char>)
    ensures
        forall|k: int| 0 <= k < without_source(errors, slug).len() ==> (#[trigger] without_source(errors, slug)[k]).source_slug
            != slug,
        without_source(without_source(errors, slug), slug) == without_source(errors, slug),
{
    lemma_without_source_drops(errors, slug);
}

// ---------------------------------------------------------------------------
// The source registry

/// No two sources share a slug.
pub open spec fn slugs_distinct(s: Seq<MarketplaceSourceView>) -> bool {
    forall|i: int, j: int| 0 <= i < j < s.len() ==> s[i].slug != s[j].slug
}

/// Adding a source whose slug is new keeps slugs distinct, and the source is
/// then found by its slug, last.
pub proof fn law_add_source_keeps_slugs_distinct(s: Seq<MarketplaceSourceView>, src: MarketplaceSourceView)
    requires
        slugs_distinct(s),
        first_with_slug(s, src.slug) is None,
    ensures
        slugs_distinct(s.push(src)),
        first_with_slug(s.push(src), src.slug) == Some(s.len() as int),
{
    lemma_first_with_slug(s, src.slug);
    lemma_first_with_slug(s.push(src), src.slug);
    let t = s.push(src);
    assert(t[s.len() as int] == src);
    if let Some(i) = first_with_slug(t, src.slug) {
        if i < s.len() {
            assert(t[i] == s[i]);
        }
    }
    assert forall|i: int, j: int| 0 <= i < j < t.len() implies t[i].slug != t[j].slug by {
        if j == s.len() {
            assert(s[i].slug != src.slug);
        }
    }
}

/// Removing a source that is not the default keeps the default source
/// registered, and leaves no source with the removed slug.
pub proof fn law_default_survives_removal(s: Seq<MarketplaceSourceView>, slug: Seq<char>)
    requires
        slugs_distinct(s),
        first_default(s) is Some,
        first_with_slug(s, slug) matches Some(i) && !s[i].default,
    ensures
        first_default(without_slug(s, slug)) is Some,
        first_with_slug(without_slug(s, slug), slug) is None,
{
    broadcast use vstd::seq_lib::group_filter_ensures;
    lemma_first_default(s);
    lemma_first_with_slug(s, slug);
    let d = first_default(s)->0;
    let i = first_with_slug(s, slug)->0;
    assert(s[d].slug != slug) by {
        if s[d].slug == slug {
            if d < i {
            } else if d > i {
                assert(s[i].slug != s[d].slug);
            }
        }
    }
    let pred = |x: MarketplaceSourceView| x.slug != slug;
    let w = without_slug(s, slug);
    assert(w == s.filter(pred));
    s.lemma_filter_contains(pred, d);
    assert(w.contains(s[d]));
    lemma_first_default(w);
    let m = choose|m: int| 0 <= m < w.len() && w[m] == s[d];
    assert(w[m].default);
    lemma_first_with_slug(w, slug);
    if first_with_slug(w, slug) is Some {
        let k = first_with_slug(w, slug)->0;
        s.lemma_filter_pred(pred, k);
    }
}

// ---------------------------------------------------------------------------
// Cache freshness

/// Once a cache entry is stale it stays stale: staleness at `t1` implies
/// staleness at every later `t2`.
pub proof fn law_staleness_is_permanent(entry: CacheEntry, t1: Timestamp, t2: Timestamp)
    requires
        entry.expires_at.spec_nanos() <= t1.spec_nanos(),
        t1.spec_nanos() <= t2.spec_nanos(),
    ensures
        entry.expires_at.spec_nanos() <= t2.spec_nanos(),
{
}

// ---------------------------------------------------------------------------
// Listing

proof fn lemma_insert_ns_members(s: Seq<ListEntryView>, x: ListEntryView)
    ensures
        forall|k: int| 0 <= k < insert_by_namespace(s, x).len() ==> (#[trigger] insert_by_namespace(s, x)[k] == x
            || s.contains(insert_by_namespace(s, x)[k])),
        insert_by_namespace(s, x).len() == s.len() + 1,
    decreases s.len(),
{
    if s.len() > 0 && !lex_le(s.last().namespace, x.namespace) {
        lemma_insert_ns_members(s.drop_last(), x);
        let mid = insert_by_namespace(s.drop_last(), x);
        let r = mid.push(s.last());
        assert forall|k: int| 0 <= k < r.len() implies (#[trigger] r[k] == x || s.contains(r[k])) by {
            if k < mid.len() {
                assert(r[k] == mid[k]);
                if mid[k] != x {
                    assert(s.drop_last().contains(mid[k]));
                    let m = choose|m: int| 0 <= m < s.drop_last().len() && s.drop_last()[m] == mid[k];
                    assert(s[m] == mid[k]);
                }
            } else {
                assert(s[s.len() - 1] == r[k]);
            }
        }
    } else if s.len() > 0 {
        let r = s.push(x);
        assert forall|k: int| 0 <= k < r.len() implies (#[trigger] r[k] == x || s.contains(r[k])) by {
            if k < s.len() {
                assert(s[k] == r[k]);
            }
        }
    }
}

proof fn lemma_sort_ns_members(s: Seq<ListEntryView>)
    ensures
        forall|k: int| 0 <= k < sort_by_namespace(s).len() ==> s.contains(#[trigger] sort_by_namespace(s)[k]),
    decreases s.len(),
{
    if s.len() > 0 {
        lemma_sort_ns_members(s.drop_last());
        let prev = sort_by_namespace(s.drop_last());
        lemma_insert_ns_members(prev, s.last());
        let r = sort_by_namespace(s);
        assert forall|k: int| 0 <= k < r.len() implies s.contains(#[trigger] r[k]) by {
            if r[k] == s.last() {
                assert(s[s.len() - 1] == r[k]);
            } else {
                assert(prev.contains(r[k]));
                let m = choose|m: int| 0 <= m < prev.len() && prev[m] == r[k];
                assert(s.drop_last().contains(prev[m]));
                let n = choose|n: int| 0 <= n < s.drop_last().len() && s.drop_last()[n] == prev[m];
                assert(s[n] == r[k]);
            }
        }
    }
}

proof fn lemma_filter_matching_members(
    s: Seq<ListEntryView>,
    search: Option<Seq<char>>,
    category: Option<Seq<char>>,
    source: Option<Seq<char>>,
    installed_only: bool,
)
    ensures
        forall|k: int|
            0 <= k < filter_matching(s, search, category, source, installed_only).len() ==> entry_matches(
                #[trigger] filter_matching(s, search, category, source, installed_only)[k],
                search,
                category,
                source,
                installed_only,
            ),
    decreases s.len(),
{
    if s.len() > 0 {
        lemma_filter_matching_members(s.drop_last(), search, category, source, installed_only);
        let prev = filter_matching(s.drop_last(), search, category, source, installed_only);
        let r = filter_matching(s, search, category, source, installed_only);
        assert forall|k: int| 0 <= k < r.len() implies entry_matches(#[trigger] r[k], search, category, source, installed_only) by {
            if k < prev.len() {
                assert(r[k] == prev[k]);
            }
        }
    }
}

/// A listing page only shows entries that pass the request's filters: every
/// entry of any page of the sorted, filtered entries matches.
pub proof fn law_listing_shows_only_matches(
    s: Seq<ListEntryView>,
    search: Option<Seq<char>>,
    category: Option<Seq<char>>,
    source: Option<Seq<char>>,
    installed_only: bool,
    start: int,
    page_size: int,
)
    requires
        0 <= start,
        0 <= page_size,
    ensures
        forall|k: int|
            0 <= k < page_slice(sort_by_namespace(filter_matching(s, search, category, source, installed_only)), start, page_size).len()
                ==> entry_matches(
                #[trigger] page_slice(sort_by_namespace(filter_matching(s, search, category, source, installed_only)), start, page_size)[k],
                search,
                category,
                source,
                installed_only,
            ),
{
    let f = filter_matching(s, search, category, source, installed_only);
    let sorted = sort_by_namespace(f);
    lemma_filter_matching_members(s, search, category, source, installed_only);
    lemma_sort_ns_members(f);
    let page = page_slice(sorted, start, page_size);
    assert forall|k: int| 0 <= k < page.len() implies entry_matches(#[trigger] page[k], search, category, source, installed_only) by {
        assert(page[k] == sorted[start + k]);
        assert(f.contains(sorted[start + k]));
        let m = choose|m: int| 0 <= m < f.len() && f[m] == sorted[start + k];
    }
}

/// The entries of `s` whose namespace is `k`, in their order in `s`.
pub open spec fn with_namespace(s: Seq<ListEntryView>, k: Seq<char>) -> Seq<ListEntryView>
    decreases s.len(),
{
    if s.len() == 0 {
        Seq::empty()
    } else if s.last().namespace == k {
        with_namespace(s.drop_last(), k).push(s.last())
    } else {
        with_namespace(s.drop_last(), k)
    }
}

/// Namespaces never decrease along `s`.
pub open spec fn namespace_sorted(s: Seq<ListEntryView>) -> bool {
    forall|i: int, j: int| 0 <= i <= j < s.len() ==> lex_le(#[trigger] s[i].namespace, #[trigger] s[j].namespace)
}

proof fn lemma_insert_ns_keeps_ties(s: Seq<ListEntryView>, x: ListEntryView, k: Seq<char>)
    ensures
        with_namespace(insert_by_namespace(s, x), k) == (if x.namespace == k {
            with_namespace(s, k).push(x)
        } else {
            with_namespace(s, k)
        }),
    decreases s.len(),
{
    if s.len() == 0 {
        assert(seq![x].drop_last() =~= Seq::<ListEntryView>::empty());
        assert(with_namespace(Seq::<ListEntryView>::empty(), k) =~= Seq::<ListEntryView>::empty());
        if x.namespace == k {
            assert(Seq::<ListEntryView>::empty().push(x) =~= seq![x]);
        }
    } else if lex_le(s.last().namespace, x.namespace) {
        assert(s.push(x).drop_last() =~= s);
    } else {
        let init = s.drop_last();
        lemma_insert_ns_keeps_ties(init, x, k);
        lemma_lex_le_refl(x.namespace);
        let mid = insert_by_namespace(init, x);
        assert(mid.push(s.last()).drop_last() =~= mid);
        assert(s.last().namespace != x.namespace);
    }
}

proof fn lemma_insert_ns_sorted(s: Seq<ListEntryView>, x: ListEntryView)
    requires
        namespace_sorted(s),
    ensures
        namespace_sorted(insert_by_namespace(s, x)),
    decreases s.len(),
{
    lemma_lex_le_refl(x.namespace);
    if s.len() == 0 {
        let r = seq![x];
        assert forall|i: int, j: int| 0 <= i <= j < r.len() implies lex_le(#[trigger] r[i].namespace, #[trigger] r[j].namespace) by {}
    } else if lex_le(s.last().namespace, x.namespace) {
        let r = s.push(x);
        assert forall|i: int, j: int| 0 <= i <= j < r.len() implies lex_le(#[trigger] r[i].namespace, #[trigger] r[j].namespace) by {
            if j == s.len() && i < s.len() {
                assert(lex_le(s[i].namespace, s[s.len() - 1].namespace));
                lemma_lex_trans(s[i].namespace, s.last().namespace, x.namespace);
            } else if i < s.len() {
                assert(r[i] == s[i] && r[j] == s[j]);
            }
        }
    } else {
        let init = s.drop_last();
        assert(namespace_sorted(init)) by {
            assert forall|i: int, j: int| 0 <= i <= j < init.len() implies lex_le(#[trigger] init[i].namespace, #[trigger] init[j].namespace) by {
                assert(init[i] == s[i] && init[j] == s[j]);
            }
        }
        lemma_insert_ns_sorted(init, x);
        lemma_insert_ns_members(init, x);
        lemma_lex_total(s.last().namespace, x.namespace);
        let mid = insert_by_namespace(init, x);
        let r = mid.push(s.last());
        lemma_lex_le_refl(s.last().namespace);
        assert forall|i: int, j: int| 0 <= i <= j < r.len() implies lex_le(#[trigger] r[i].namespace, #[trigger] r[j].namespace) by {
            if j == mid.len() && i < mid.len() {
                assert(r[i] == mid[i]);
                if mid[i] != x {
                    assert(init.contains(mid[i]));
                    let m = choose|m: int| 0 <= m < init.len() && init[m] == mid[i];
                    assert(lex_le(s[m].namespace, s[s.len() - 1].namespace));
                }
            } else if j < mid.len() {
                assert(r[i] == mid[i] && r[j] == mid[j]);
            }
        }
    }
}

proof fn lemma_insert_ns_multiset(s: Seq<ListEntryView>, x: ListEntryView)
    ensures
        insert_by_namespace(s, x).to_multiset() =~= s.to_multiset().insert(x),
    decreases s.len(),
{
    broadcast use vstd::seq_lib::group_to_multiset_ensures;

    if s.len() == 0 {
        assert(seq![x] =~= Seq::<ListEntryView>::empty().push(x));
    } else if lex_le(s.last().namespace, x.namespace) {
    } else {
        let init = s.drop_last();
        lemma_insert_ns_multiset(init, x);
        assert(init.push(s.last()) =~= s);
    }
}

proof fn lemma_sort_ns_stable(s: Seq<ListEntryView>)
    ensures
        namespace_sorted(sort_by_namespace(s)),
        sort_by_namespace(s).to_multiset() =~= s.to_multiset(),
        forall|k: Seq<char>| #[trigger] with_namespace(sort_by_namespace(s), k) == with_namespace(s, k),
    decreases s.len(),
{
    broadcast use vstd::seq_lib::group_to_multiset_ensures;

    if s.len() == 0 {
        assert(s =~= Seq::<ListEntryView>::empty());
    } else {
        let init = s.drop_last();
        lemma_sort_ns_stable(init);
        let prev = sort_by_namespace(init);
        lemma_insert_ns_sorted(prev, s.last());
        lemma_insert_ns_multiset(prev, s.last());
        assert(init.push(s.last()) =~= s);
        assert forall|k: Seq<char>| #[trigger] with_namespace(sort_by_namespace(s), k) == with_namespace(s, k) by {
            lemma_insert_ns_keeps_ties(prev, s.last(), k);
            assert(with_namespace(prev, k) == with_namespace(init, k));
        }
    }
}

/// The listing's order is a stable sort by namespace: the sorted entries
/// ascend by namespace, hold the same entries as many times as before, and
/// keep the entries of each namespace in their original order.
pub proof fn law_listing_order_is_stable_sort(s: Seq<ListEntryView>)
    ensures
        namespace_sorted(sort_by_namespace(s)),
        sort_by_namespace(s).to_multiset() == s.to_multiset(),
        forall|k: Seq<char>| #[trigger] with_namespace(sort_by_namespace(s), k) == with_namespace(s, k),
{
    lemma_sort_ns_stable(s);
}

proof fn lemma_page_start_within(n: int, ps: int, page: int)
    requires
        n >= 0,
        ps >= 1,
        1 <= page <= total_pages_spec(n, ps),
    ensures
        (page - 1) * ps <= n,
{
    let t = (n + ps - 1) / ps;
    if page > 1 {
        assert(page <= t);
        assert(t * ps <= n + ps - 1) by (nonlinear_arith)
            requires
                t == (n + ps - 1) / ps,
                ps >= 1,
                n >= 0,
        ;
        assert((page - 1) * ps <= (t - 1) * ps) by (nonlinear_arith)
            requires
                page <= t,
                ps >= 1,
        ;
        assert((t - 1) * ps == t * ps - ps) by (nonlinear_arith);
    } else {
        assert((page - 1) * ps == 0) by (nonlinear_arith)
            requires
                page == 1,
        ;
    }
}

// ---------------------------------------------------------------------------
// Searching the listing

proof fn lemma_filter_matching_contains(
    s: Seq<ListEntryView>,
    search: Option<Seq<char>>,
    category: Option<Seq<char>>,
    source: Option<Seq<char>>,
    installed_only: bool,
    e: ListEntryView,
)
    ensures
        filter_matching(s, search, category, source, installed_only).contains(e) <==> (s.contains(e) && entry_matches(
            e,
            search,
            category,
            source,
            installed_only,
        )),
    decreases s.len(),
{
    if s.len() > 0 {
        let init = s.drop_last();
        lemma_filter_matching_contains(init, search, category, source, installed_only, e);
        let prev = filter_matching(init, search, category, source, installed_only);
        assert(s =~= init.push(s.last()));
        if s.contains(e) && e != s.last() {
            let k = choose|k: int| 0 <= k < s.len() && s[k] == e;
            assert(init[k] == e);
        }
        if init.contains(e) {
            let k = choose|k: int| 0 <= k < init.len() && init[k] == e;
            assert(s[k] == e);
        }
        if entry_matches(s.last(), search, category, source, installed_only) {
            let r = prev.push(s.last());
            if r.contains(e) && e != s.last() {
                let k = choose|k: int| 0 <= k < r.len() && r[k] == e;
                assert(prev[k] == e);
            }
            if prev.contains(e) {
                let k = choose|k: int| 0 <= k < prev.len() && prev[k] == e;
                assert(r[k] == e);
            }
            if e == s.last() {
                assert(r[r.len() - 1] == e);
                assert(s[s.len() - 1] == e);
            }
        } else if e == s.last() {
            assert(s[s.len() - 1] == e);
        }
    }
}

proof fn lemma_listed_iff(s: Seq<ListEntryView>, request: ListRequest, e: ListEntryView)
    ensures
        filter_entries_spec(s, request).contains(e) <==> (s.contains(e) && entry_matches(
            e,
            lower_opt(opt_str_view(request.search)),
            lower_opt(opt_str_view(request.category)),
            lower_opt(opt_str_view(request.source)),
            request.installed_only,
        )),
{
    broadcast use vstd::seq_lib::group_to_multiset_ensures;

    let f = filter_matching(
        s,
        lower_opt(opt_str_view(request.search)),
        lower_opt(opt_str_view(request.category)),
        lower_opt(opt_str_view(request.source)),
        request.installed_only,
    );
    lemma_sort_ns_stable(f);
    lemma_filter_matching_contains(
        s,
        lower_opt(opt_str_view(request.search)),
        lower_opt(opt_str_view(request.category)),
        lower_opt(opt_str_view(request.source)),
        request.installed_only,
        e,
    );
    assert(sort_by_namespace(f).to_multiset().count(e) == f.to_multiset().count(e));
}

/// A search keeps exactly the entries whose lowercased display name or
/// lowercased description contains the lowercased keyword: an entry listed
/// under a search always holds the keyword in one of the two, and an entry
/// holding it in its description is listed whatever the other filters
/// allow it to be; with no other filter, the search alone decides.
pub proof fn law_search_matches_name_or_description(s: Seq<ListEntryView>, request: ListRequest, e: ListEntryView)
    ensures
        request.search matches Some(t) ==> (filter_entries_spec(s, request).contains(e) ==> (contains_spec(
            unicode_lowercase(e.display_name),
            unicode_lowercase(t@),
        ) || contains_spec(unicode_lowercase(e.description), unicode_lowercase(t@)))),
        request.search matches Some(t) ==> (s.contains(e) && contains_spec(
            unicode_lowercase(e.description),
            unicode_lowercase(t@),
        ) && entry_matches(
            e,
            None,
            lower_opt(opt_str_view(request.category)),
            lower_opt(opt_str_view(request.source)),
            request.installed_only,
        ) ==> filter_entries_spec(s, request).contains(e)),
        request.search matches Some(t) ==> (request.category is None && request.source is None
            && !request.installed_only ==> (filter_entries_spec(s, request).contains(e) <==> (s.contains(e) && (
        contains_spec(unicode_lowercase(e.display_name), unicode_lowercase(t@)) || contains_spec(
            unicode_lowercase(e.description),
            unicode_lowercase(t@),
        ))))),
{
    lemma_listed_iff(s, request, e);
}

/// The page served is the window of the filtered entries it names: for any
/// entries, the entries from `(page - 1) * size` up to `page * size` or the
/// end, whichever comes first.
#[verifier::spinoff_prover]
pub proof fn law_listing_page_is_window(s: Seq<ListEntryView>, requested_page: Option<usize>, page_size: int)
    requires
        page_size >= 1,
        s.len() + page_size - 1 <= usize::MAX,
    ensures
        ({
            let page = page_spec(requested_page, total_pages_spec(s.len() as int, page_size));
            let start = (page - 1) * page_size;
            let end = if page * page_size < s.len() { page * page_size } else { s.len() as int };
            &&& 0 <= start <= s.len()
            &&& page_start_spec(page_size, page) == start
            &&& page_slice(s, page_start_spec(page_size, page), page_size) == s.subrange(start, end)
        }),
{
    let n = s.len() as int;
    let pages = total_pages_spec(n, page_size);
    let page = page_spec(requested_page, pages);
    assert(1 <= page <= pages);
    lemma_page_start_within(n, page_size, page);
    let start = (page - 1) * page_size;
    assert(start >= 0) by (nonlinear_arith)
        requires
            page >= 1,
            page_size >= 1,
            start == (page - 1) * page_size,
    ;
    assert(page * page_size == start + page_size) by (nonlinear_arith)
        requires
            start == (page - 1) * page_size,
    ;
    assert(page_start_spec(page_size, page) == start);
    let end = if page * page_size < n { page * page_size } else { n };
    if start >= n {
        assert(page_slice(s, start, page_size) =~= s.subrange(start, end));
    } else if start + page_size >= n {
        assert(page_slice(s, start, page_size) =~= s.subrange(start, end));
    } else {
        assert(page_slice(s, start, page_size) =~= s.subrange(start, end));
    }
}

/// The page served is always a real page (between the first and the last),
/// there is at least one page, and no page holds more entries than the page size.
pub proof fn law_paging_bounds(s: Seq<ListEntryView>, requested_page: Option<usize>, page_size: int, start: int)
    requires
        page_size >= 1,
        0 <= start,
    ensures
        total_pages_spec(s.len() as int, page_size) >= 1,
        1 <= page_spec(requested_page, total_pages_spec(s.len() as int, page_size)) <= total_pages_spec(
            s.len() as int,
            page_size,
        ),
        page_slice(s, start, page_size).len() <= page_size,
{
}

// ---------------------------------------------------------------------------
// Numbers

proof fn lemma_digit_char(d: nat)
    requires
        d < 10,
    ensures
        is_digit(digit_char_spec(d)),
        digit_value(digit_char_spec(d)) == d,
{
}

proof fn lemma_decimal_digits(n: nat)
    ensures
        decimal_spec(n).len() > 0,
        forall|i: int| 0 <= i < decimal_spec(n).len() ==> is_digit(#[trigger] decimal_spec(n)[i]),
        digits_value(decimal_spec(n)) == n,
    decreases n,
{
    if n < 10 {
        lemma_digit_char(n);
        assert(decimal_spec(n) =~= seq![digit_char_spec(n)]);
        assert(decimal_spec(n).drop_last() =~= Seq::<char>::empty());
        assert(digits_value(Seq::<char>::empty()) == 0);
        assert(decimal_spec(n).last() == digit_char_spec(n));
        assert(digits_value(decimal_spec(n)) == digits_value(decimal_spec(n).drop_last()) * 10 + digit_value(
            decimal_spec(n).last(),
        ));
    } else {
        lemma_decimal_digits(n / 10);
        lemma_digit_char(n % 10);
        let p = decimal_spec(n / 10);
        let d = decimal_spec(n);
        assert(d == p.push(digit_char_spec(n % 10)));
        assert(d.drop_last() =~= p);
        assert forall|i: int| 0 <= i < d.len() implies is_digit(#[trigger] d[i]) by {
            if i < p.len() {
                assert(d[i] == p[i]);
            }
        }
        assert(digits_value(d) == digits_value(d.drop_last()) * 10 + digit_value(d.last()));
        assert(d.last() == digit_char_spec(n % 10));
        assert(n == (n / 10) * 10 + n % 10);
    }
}

/// Reading back the decimal text of a number gives the number: every number
/// up to the parser's maximum round-trips through printing and parsing.
pub proof fn law_decimal_round_trip(n: nat, max: nat)
    requires
        n <= max,
    ensures
        parse_unsigned_spec(decimal_spec(n), max) == Some(n),
{
    lemma_decimal_digits(n);
    let d = decimal_spec(n);
    assert(is_digit(d[0]));
    assert(unsigned_digits(d) == d);
}

// ---------------------------------------------------------------------------
// The API

/// Every marketplace error is answered with a client or server error status.
pub proof fn law_errors_answer_with_failure_status(err: MarketplaceError, now: int)
    ensures
        400 <= error_answer_spec(err, now).0 <= 599,
{
}

// ---------------------------------------------------------------------------
// Categories and sorting

/// Deduplicating categories case-insensitively leaves no two entries that
/// agree after lowercasing.
pub proof fn law_dedup_leaves_distinct_keys(items: Seq<Seq<char>>)
    ensures
        forall|i: int, j: int|
            0 <= i < j < dedup_case_insensitive_spec(items).len() ==> unicode_lowercase(
                #[trigger] dedup_case_insensitive_spec(items)[i],
            ) != unicode_lowercase(#[trigger] dedup_case_insensitive_spec(items)[j]),
    decreases items.len(),
{
    if items.len() > 0 {
        let init = items.drop_last();
        law_dedup_leaves_distinct_keys(init);
        let prev = dedup_case_insensitive_spec(init);
        let key = unicode_lowercase(items.last());
        assert forall|k: int| 0 <= k < init.len() implies init[k] == items[k] by {}
        if !key_seen(items, items.len() - 1, key) {
            lemma_dedup_keys(init, key);
            let r = prev.push(items.last());
            assert forall|i: int, j: int| 0 <= i < j < r.len() implies unicode_lowercase(#[trigger] r[i])
                != unicode_lowercase(#[trigger] r[j]) by {
                if j == r.len() - 1 {
                    assert(r[i] == prev[i]);
                    if unicode_lowercase(prev[i]) == key {
                        assert(key_seen(init, init.len() as int, key));
                        let k = choose|k: int| 0 <= k < init.len() && #[trigger] unicode_lowercase(init[k]) == key;
                        assert(unicode_lowercase(items[k]) == key);
                    }
                } else {
                    assert(r[i] == prev[i]);
                    assert(r[j] == prev[j]);
                }
            }
        }
    }
}

proof fn lemma_insert_text_members(s: Seq<Seq<char>>, x: Seq<char>)
    ensures
        forall|k: int| 0 <= k < insert_text_spec(s, x).len() ==> (#[trigger] insert_text_spec(s, x)[k] == x || s.contains(
            insert_text_spec(s, x)[k],
        )),
        insert_text_spec(s, x).len() == s.len() + 1,
    decreases s.len(),
{
    if s.len() > 0 && !lex_le(s.last(), x) {
        lemma_insert_text_members(s.drop_last(), x);
        let mid = insert_text_spec(s.drop_last(), x);
        let r = mid.push(s.last());
        assert forall|k: int| 0 <= k < r.len() implies (#[trigger] r[k] == x || s.contains(r[k])) by {
            if k < mid.len() {
                assert(r[k] == mid[k]);
                if mid[k] != x {
                    assert(s.drop_last().contains(mid[k]));
                    let m = choose|m: int| 0 <= m < s.drop_last().len() && s.drop_last()[m] == mid[k];
                    assert(s[m] == mid[k]);
                }
            } else {
                assert(s[s.len() - 1] == r[k]);
            }
        }
    } else if s.len() > 0 {
        let r = s.push(x);
        assert forall|k: int| 0 <= k < r.len() implies (#[trigger] r[k] == x || s.contains(r[k])) by {
            if k < s.len() {
                assert(s[k] == r[k]);
            }
        }
    }
}

/// Whether texts are in ascending order.
pub open spec fn texts_ascending(s: Seq<Seq<char>>) -> bool {
    forall|i: int, j: int| 0 <= i < j < s.len() ==> lex_le(s[i], s[j])
}

proof fn lemma_insert_text_sorted(s: Seq<Seq<char>>, x: Seq<char>)
    requires
        texts_ascending(s),
    ensures
        texts_ascending(insert_text_spec(s, x)),
    decreases s.len(),
{
    if s.len() > 0 {
        if lex_le(s.last(), x) {
            let r = s.push(x);
            assert forall|i: int, j: int| 0 <= i < j < r.len() implies lex_le(r[i], r[j]) by {
                if j == r.len() - 1 {
                    if i < s.len() - 1 {
                        crate::catalog::lemma_lex_trans(s[i], s.last(), x);
                    }
                }
            }
        } else {
            let init = s.drop_last();
            assert(texts_ascending(init));
            lemma_insert_text_sorted(init, x);
            lemma_insert_text_members(init, x);
            let mid = insert_text_spec(init, x);
            let r = mid.push(s.last());
            crate::catalog::lemma_lex_total(s.last(), x);
            assert forall|i: int, j: int| 0 <= i < j < r.len() implies lex_le(r[i], r[j]) by {
                if j == r.len() - 1 {
                    assert(r[i] == mid[i]);
                    if mid[i] != x {
                        assert(init.contains(mid[i]));
                        let m = choose|m: int| 0 <= m < init.len() && init[m] == mid[i];
                        assert(lex_le(s[m], s[s.len() - 1]));
                    }
                } else {
                    assert(r[i] == mid[i]);
                    assert(r[j] == mid[j]);
                }
            }
        }
    }
}

/// Sorting texts yields them in ascending order (as the installed and
/// in-progress extension lists of the status report are shown).
pub proof fn law_sorted_texts_ascend(s: Seq<Seq<char>>)
    ensures
        texts_ascending(sort_texts_spec(s)),
    decreases s.len(),
{
    if s.len() > 0 {
        law_sorted_texts_ascend(s.drop_last());
        lemma_insert_text_sorted(sort_texts_spec(s.drop_last()), s.last());
    }
}

/// A batch written to the cache and read back keeps its fetch time, its time
/// to live and its etag; it lists the extensions that were written, in their
/// order and unchanged but for their checksums, each stamped with the batch's
/// fetch and expiry times.
pub proof fn law_cache_batch_reads_back(
    file: CacheFile,
    snap: CacheSnapshot,
    extensions: Seq<Extension>,
    etag: Option<String>,
    ttl: TimeSpan,
    now: Timestamp,
    source_slug: Seq<char>,
    batch_index: u32,
    path: Seq<char>,
    encoded: Seq<Result<Vec<u8>, String>>,
)
    requires
        is_stamped_file(file, extensions, etag, ttl, now),
        is_snapshot_of(snap, file, source_slug, batch_index, path, encoded),
    ensures
        snap.entry.fetched_at == now,
        snap.entry.expires_at.spec_nanos() - snap.entry.fetched_at.spec_nanos() == ttl.spec_nanos(),
        snap.entry.etag == etag,
        snap.extensions@.len() == extensions.len(),
        forall|k: int|
            0 <= k < extensions.len() ==> {
                &&& same_but_checksum(#[trigger] snap.extensions@[k], stamped(extensions[k], now, snap.entry.expires_at))
                &&& snap.extensions@[k].cache_expires_at == Some(snap.entry.expires_at)
                &&& snap.extensions@[k].last_synced_at == Some(snap.entry.fetched_at)
                &&& snap.entry.extension_ids@[k].0@ == extensions[k].id.0@
            },
{
    assert forall|k: int| 0 <= k < extensions.len() implies {
        &&& same_but_checksum(#[trigger] snap.extensions@[k], stamped(extensions[k], now, snap.entry.expires_at))
        &&& snap.extensions@[k].cache_expires_at == Some(snap.entry.expires_at)
        &&& snap.extensions@[k].last_synced_at == Some(snap.entry.fetched_at)
        &&& snap.entry.extension_ids@[k].0@ == extensions[k].id.0@
    } by {
        assert(file.extensions@[k] == stamped(extensions[k], now, file.expires_at));
        assert(same_but_checksum(snap.extensions@[k], file.extensions@[k]));
    }
}

/// An identifier `SOURCE/EXTENSION` built from a source slug that holds no
/// `/` and two slugs without surrounding whitespace parses back into the two
/// slugs.
pub proof fn law_extension_id_parses_back(source: Seq<char>, slug: Seq<char>)
    requires
        !source.contains('/'),
        trim_spec(source) == source,
        trim_spec(slug) == slug,
    ensures
        id_parts(source + seq!['/'] + slug) == (source, slug),
{
    let id = source + seq!['/'] + slug;
    lemma_first_index(id, '/');
    assert(id[source.len() as int] == '/');
    assert forall|k: int| 0 <= k < source.len() implies id[k] != '/' by {
        assert(id[k] == source[k]);
    }
    assert(first_index_spec(id, '/') == Some(source.len() as int));
    assert(id.subrange(0, source.len() as int) =~= source);
    assert(id.subrange(source.len() as int + 1, id.len() as int) =~= slug);
}

// ---------------------------------------------------------------------------
// The status report

/// The time the status report gives for the next refresh is the earliest
/// schedule in the queue: some queued job is scheduled then, and no queued
/// job is scheduled earlier.
pub proof fn law_next_job_due_is_earliest(q: Seq<RetryJob>)
    requires
        q.len() > 0,
    ensures
        forall|k: int| 0 <= k < q.len() ==> earliest_schedule(q) <= (#[trigger] q[k]).scheduled_for.spec_nanos(),
        exists|k: int| 0 <= k < q.len() && earliest_schedule(q) == (#[trigger] q[k]).scheduled_for.spec_nanos(),
    decreases q.len(),
{
    if q.len() > 1 {
        let init = q.drop_last();
        law_next_job_due_is_earliest(init);
        assert forall|k: int| 0 <= k < q.len() implies earliest_schedule(q) <= (#[trigger] q[k]).scheduled_for.spec_nanos() by {
            if k < init.len() {
                assert(init[k] == q[k]);
            }
        }
        let j = choose|j: int| 0 <= j < init.len() && earliest_schedule(init) == (#[trigger] init[j]).scheduled_for.spec_nanos();
        if q.last().scheduled_for.spec_nanos() < earliest_schedule(init) {
            assert(earliest_schedule(q) == q[q.len() - 1].scheduled_for.spec_nanos());
        } else {
            assert(init[j] == q[j]);
            assert(earliest_schedule(q) == q[j].scheduled_for.spec_nanos());
        }
    } else {
        assert(earliest_schedule(q) == q[0].scheduled_for.spec_nanos());
    }
}

// ---------------------------------------------------------------------------
// Manifest validation

/// A manifest without an author, or whose author is blank once trimmed, gets
/// the finding `semantic::author` ("Author is required for provenance.", at
/// `/author`), so its semantic check fails; a manifest with a non-blank author
/// gets no such finding.
#[verifier::spinoff_prover]
#[verifier::rlimit(50)]
pub proof fn law_missing_author_is_a_finding(m: ExtensionManifest)
    ensures
        (m.author is None || trim_spec(m.author->0@).len() == 0) ==> manifest_findings_spec(m).contains(
            ("semantic::author"@, "Author is required for provenance."@, "/author"@),
        ),
        (m.author is None || trim_spec(m.author->0@).len() == 0) ==> manifest_findings_spec(m).len() > 0,
        (m.author matches Some(a) && trim_spec(a@).len() > 0) ==> !manifest_findings_spec(m).contains(
            ("semantic::author"@, "Author is required for provenance."@, "/author"@),
        ),
{
    let name = m.name@;
    let description = m.description@;
    let author = crate::locator::opt_string_view(m.author);
    let categories = strings_view(m.categories@);
    let scheme = m.repository@.scheme;
    let item: (Seq<char>, Seq<char>, Seq<char>) = ("semantic::author"@, "Author is required for provenance."@, "/author"@);
    let f1: Seq<(Seq<char>, Seq<char>, Seq<char>)> = if trim_spec(name).len() == 0 || trim_spec(name).len() > 80 {
        seq![("semantic::name"@, "Name must be 1-80 characters (got "@ + decimal_spec(name.len()) + ")"@, "/name"@)]
    } else {
        Seq::empty()
    };
    let f2: Seq<(Seq<char>, Seq<char>, Seq<char>)> = if description.len() == 0 || description.len() > 512 {
        seq![(
            "semantic::description"@,
            "Description must be 1-512 characters (got "@ + decimal_spec(description.len()) + ")"@,
            "/description"@,
        )]
    } else {
        Seq::empty()
    };
    let missing = !(author matches Some(a) && trim_spec(a).len() > 0);
    let f3: Seq<(Seq<char>, Seq<char>, Seq<char>)> = if !missing {
        Seq::empty()
    } else {
        seq![item]
    };
    let rest = manifest_findings_spec(m).subrange((f1.len() + f2.len() + f3.len()) as int, manifest_findings_spec(m).len() as int);
    assert(manifest_findings_spec(m) =~= f1 + f2 + f3 + rest);
    if missing {
        assert(manifest_findings_spec(m)[(f1.len() + f2.len()) as int] == item);
    } else {
        reveal_strlit("semantic::author");
        reveal_strlit("semantic::name");
        reveal_strlit("semantic::description");
        reveal_strlit("semantic::categories");
        reveal_strlit("semantic::category_length");
        reveal_strlit("semantic::repository_scheme");
        assert("semantic::author"@[10] == 'a');
        assert("semantic::name"@[10] == 'n');
        assert("semantic::description"@[10] == 'd');
        assert("semantic::categories"@[10] == 'c');
        assert("semantic::category_length"@[10] == 'c');
        assert("semantic::repository_scheme"@[10] == 'r');
        lemma_no_author_code(categories);
        if manifest_findings_spec(m).contains(item) {
            let k = choose|k: int| 0 <= k < manifest_findings_spec(m).len() && manifest_findings_spec(m)[k] == item;
            let all = manifest_findings_spec(m);
            if k < f1.len() {
                assert(all[k] == f1[k]);
                assert(f1[k].0[10] == 'n');
            } else if k < f1.len() + f2.len() {
                assert(all[k] == f2[k - f1.len()]);
                assert(f2[k - f1.len()].0[10] == 'd');
            } else {
                assert(all[k] == rest[k - f1.len() - f2.len()]);
                let f4: Seq<(Seq<char>, Seq<char>, Seq<char>)> = if categories.len() == 0 {
                    seq![("semantic::categories"@, "At least one category is required for discovery."@, "/categories"@)]
                } else {
                    Seq::empty()
                };
                let f5: Seq<(Seq<char>, Seq<char>, Seq<char>)> = if scheme != "https"@ {
                    seq![("semantic::repository_scheme"@, "Repository URLs must use HTTPS."@, "/repository"@)]
                } else {
                    Seq::empty()
                };
                let c = category_findings_spec(categories);
                assert(rest =~= f4 + c + f5);
                let j = k - f1.len() - f2.len();
                if j < f4.len() {
                    assert(rest[j] == f4[j]);
                    assert(rest[j].0[10] == 'c');
                } else if j < f4.len() + c.len() {
                    assert(rest[j] == c[j - f4.len()]);
                    assert(c[j - f4.len()].0[10] == 'c');
                } else {
                    assert(rest[j] == f5[j - f4.len() - c.len()]);
                    assert(rest[j].0[10] == 'r');
                }
            }
        }
    }
}

proof fn lemma_no_author_code(cats: Seq<Seq<char>>)
    ensures
        forall|k: int| 0 <= k < category_findings_spec(cats).len() ==> (#[trigger] category_findings_spec(cats)[k]).0
            == "semantic::category_length"@,
    decreases cats.len(),
{
    if cats.len() > 0 {
        lemma_no_author_code(cats.drop_last());
        let prev = category_findings_spec(cats.drop_last());
        let r = category_findings_spec(cats);
        assert forall|k: int| 0 <= k < r.len() implies (#[trigger] r[k]).0 == "semantic::category_length"@ by {
            if k < prev.len() {
                assert(r[k] == prev[k]);
            }
        }
    }
}

// ---------------------------------------------------------------------------
// Listing sources

/// `sources list` prints one block per source after its heading, in order,
/// and the `Enabled:` field of a source's block reads `yes` exactly when the
/// source is enabled and `no` otherwise.
pub proof fn law_source_listing_shows_enabled_flag(s: Seq<MarketplaceSource>, i: int)
    requires
        0 <= i < s.len(),
    ensures
        source_list_spec(s).len() == s.len() + 1,
        ({
            let line = source_list_spec(s)[i + 1];
            let head = "- "@ + s[i].slug@ + " ("@ + s[i].display_name@ + ")\n  URL: "@ + s[i].url@.serialization
                + "\n  Enabled: "@;
            &&& starts_with_spec(line, head)
            &&& line.len() >= head.len() + 3
            &&& (line.subrange(head.len() as int, head.len() as int + 3) == "yes"@ <==> s[i].enabled)
            &&& (!s[i].enabled ==> line.subrange(head.len() as int, head.len() as int + 3) == "no\n"@)
        }),
{
    reveal_strlit("yes");
    reveal_strlit("no");
    reveal_strlit("no\n");
    reveal_strlit("\n  Requires Auth: ");
    let line = source_list_spec(s)[i + 1];
    let head = "- "@ + s[i].slug@ + " ("@ + s[i].display_name@ + ")\n  URL: "@ + s[i].url@.serialization
        + "\n  Enabled: "@;
    let tail = "\n  Requires Auth: "@ + yes_no(s[i].requires_auth) + "\n"@;
    assert(line == source_block(s[i]));
    if s[i].enabled {
        assert(line =~= head + "yes"@ + tail);
        assert(line.subrange(0, head.len() as int) =~= head);
        assert(line.subrange(head.len() as int, head.len() as int + 3) =~= "yes"@);
    } else {
        assert(line =~= head + "no"@ + tail);
        assert(line.subrange(0, head.len() as int) =~= head);
        assert(line.subrange(head.len() as int, head.len() as int + 3) =~= "no\n"@);
        assert("no\n"@ != "yes"@) by {
            assert("no\n"@[0] != "yes"@[0]);
        }
    }
}

// ---------------------------------------------------------------------------
// Showing an extension

proof fn lemma_not_prefixed(s: Seq<char>, p: Seq<char>, i: int)
    requires
        0 <= i < p.len(),
        i < s.len(),
        s[i] != p[i],
    ensures
        !starts_with_spec(s, p),
{
    if starts_with_spec(s, p) {
        assert(s.subrange(0, p.len() as int)[i] == s[i]);
    }
}

/// No line of `lines` starts with `p`.
spec fn none_prefixed(lines: Seq<Seq<char>>, p: Seq<char>) -> bool {
    forall|k: int| 0 <= k < lines.len() ==> !starts_with_spec(#[trigger] lines[k], p)
}

proof fn lemma_none_prefixed_concat(a: Seq<Seq<char>>, b: Seq<Seq<char>>, p: Seq<char>)
    requires
        none_prefixed(a, p),
        none_prefixed(b, p),
    ensures
        none_prefixed(a + b, p),
{
    assert forall|k: int| 0 <= k < (a + b).len() implies !starts_with_spec(#[trigger] (a + b)[k], p) by {
        if k < a.len() {
            assert((a + b)[k] == a[k]);
        } else {
            assert((a + b)[k] == b[k - a.len()]);
        }
    }
}

proof fn lemma_show_line_heads(e: Extension, used_cached_data: bool)
    ensures
        ({
            let base = seq![
                "Extension: "@ + e.display_name@ + " ("@ + e.version@ + ")"@,
                "Namespace: "@ + e.id.0@,
                "Source: "@ + e.source_slug@,
                "Author: "@ + e.author@,
                "Description: "@ + e.summary@,
                "Repository: "@ + e.repository_url@.serialization,
            ];
            let tail = (if e.categories@.len() > 0 {
                seq!["Categories: "@ + join_spec(strings_view(e.categories@), ", "@)]
            } else {
                Seq::empty()
            }) + (if e.compatibility@.len() > 0 {
                seq!["Compatibility: "@ + join_spec(strings_view(e.compatibility@), ", "@)]
            } else {
                Seq::empty()
            }) + (if used_cached_data {
                seq!["Note: using cached data while sources refresh."@]
            } else {
                Seq::empty()
            }) + match e.readme_excerpt {
                Some(r) => seq!["\nREADME (excerpt):\n"@ + r@],
                None => Seq::empty(),
            };
            &&& none_prefixed(base, "Homepage: "@)
            &&& none_prefixed(base, "Docs: "@)
            &&& none_prefixed(tail, "Homepage: "@)
            &&& none_prefixed(tail, "Docs: "@)
        }),
{
    reveal_strlit("Homepage: ");
    reveal_strlit("Docs: ");
    reveal_strlit("Extension: ");
    reveal_strlit("Namespace: ");
    reveal_strlit("Source: ");
    reveal_strlit("Author: ");
    reveal_strlit("Description: ");
    reveal_strlit("Repository: ");
    reveal_strlit("Categories: ");
    reveal_strlit("Compatibility: ");
    reveal_strlit("Note: using cached data while sources refresh.");
    reveal_strlit("\nREADME (excerpt):\n");
    let h = "Homepage: "@;
    let d = "Docs: "@;
    let base = seq![
        "Extension: "@ + e.display_name@ + " ("@ + e.version@ + ")"@,
        "Namespace: "@ + e.id.0@,
        "Source: "@ + e.source_slug@,
        "Author: "@ + e.author@,
        "Description: "@ + e.summary@,
        "Repository: "@ + e.repository_url@.serialization,
    ];
    assert forall|k: int| 0 <= k < base.len() implies !starts_with_spec(#[trigger] base[k], h) && !starts_with_spec(
        base[k],
        d,
    ) by {
        lemma_not_prefixed(base[k], h, 0);
        if k == 4 {
            lemma_not_prefixed(base[k], d, 1);
        } else {
            lemma_not_prefixed(base[k], d, 0);
        }
    }
    let c: Seq<Seq<char>> = if e.categories@.len() > 0 {
        seq!["Categories: "@ + join_spec(strings_view(e.categories@), ", "@)]
    } else {
        Seq::empty()
    };
    let cm: Seq<Seq<char>> = if e.compatibility@.len() > 0 {
        seq!["Compatibility: "@ + join_spec(strings_view(e.compatibility@), ", "@)]
    } else {
        Seq::empty()
    };
    let n: Seq<Seq<char>> = if used_cached_data {
        seq!["Note: using cached data while sources refresh."@]
    } else {
        Seq::empty()
    };
    let rd: Seq<Seq<char>> = match e.readme_excerpt {
        Some(r) => seq!["\nREADME (excerpt):\n"@ + r@],
        None => Seq::empty(),
    };
    assert forall|k: int| 0 <= k < c.len() implies !starts_with_spec(#[trigger] c[k], h) && !starts_with_spec(c[k], d) by {
        lemma_not_prefixed(c[k], h, 0);
        lemma_not_prefixed(c[k], d, 0);
    }
    assert forall|k: int| 0 <= k < cm.len() implies !starts_with_spec(#[trigger] cm[k], h) && !starts_with_spec(cm[k], d) by {
        lemma_not_prefixed(cm[k], h, 0);
        lemma_not_prefixed(cm[k], d, 0);
    }
    assert forall|k: int| 0 <= k < n.len() implies !starts_with_spec(#[trigger] n[k], h) && !starts_with_spec(n[k], d) by {
        lemma_not_prefixed(n[k], h, 0);
        lemma_not_prefixed(n[k], d, 0);
    }
    assert forall|k: int| 0 <= k < rd.len() implies !starts_with_spec(#[trigger] rd[k], h) && !starts_with_spec(rd[k], d) by {
        lemma_not_prefixed(rd[k], h, 0);
        lemma_not_prefixed(rd[k], d, 0);
    }
    lemma_none_prefixed_concat(c, cm, h);
    lemma_none_prefixed_concat(c + cm, n, h);
    lemma_none_prefixed_concat(c + cm + n, rd, h);
    lemma_none_prefixed_concat(c, cm, d);
    lemma_none_prefixed_concat(c + cm, n, d);
    lemma_none_prefixed_concat(c + cm + n, rd, d);
}

/// Showing an extension prints its homepage on the one line that starts with
/// `Homepage: `, and its documentation URL on the one line that starts with
/// `Docs: `; a line starting so is there exactly when the extension has that
/// URL.
pub proof fn law_show_prints_homepage_and_docs(e: Extension, used_cached_data: bool)
    ensures
        e.homepage_url matches Some(u) ==> show_lines_spec(e, used_cached_data).contains("Homepage: "@ + u@.serialization),
        e.documentation_url matches Some(u) ==> show_lines_spec(e, used_cached_data).contains(
            "Docs: "@ + u@.serialization,
        ),
        forall|k: int|
            0 <= k < show_lines_spec(e, used_cached_data).len() && starts_with_spec(
                #[trigger] show_lines_spec(e, used_cached_data)[k],
                "Homepage: "@,
            ) ==> (e.homepage_url matches Some(u) && show_lines_spec(e, used_cached_data)[k] == "Homepage: "@
                + u@.serialization),
        forall|k: int|
            0 <= k < show_lines_spec(e, used_cached_data).len() && starts_with_spec(
                #[trigger] show_lines_spec(e, used_cached_data)[k],
                "Docs: "@,
            ) ==> (e.documentation_url matches Some(u) && show_lines_spec(e, used_cached_data)[k] == "Docs: "@
                + u@.serialization),
{
    reveal_strlit("Homepage: ");
    reveal_strlit("Docs: ");
    lemma_show_line_heads(e, used_cached_data);
    let h = "Homepage: "@;
    let d = "Docs: "@;
    let base = seq![
        "Extension: "@ + e.display_name@ + " ("@ + e.version@ + ")"@,
        "Namespace: "@ + e.id.0@,
        "Source: "@ + e.source_slug@,
        "Author: "@ + e.author@,
        "Description: "@ + e.summary@,
        "Repository: "@ + e.repository_url@.serialization,
    ];
    let hp: Seq<Seq<char>> = match e.homepage_url {
        Some(u) => seq!["Homepage: "@ + u@.serialization],
        None => Seq::empty(),
    };
    let dp: Seq<Seq<char>> = match e.documentation_url {
        Some(u) => seq!["Docs: "@ + u@.serialization],
        None => Seq::empty(),
    };
    let tail = (if e.categories@.len() > 0 {
        seq!["Categories: "@ + join_spec(strings_view(e.categories@), ", "@)]
    } else {
        Seq::empty()
    }) + (if e.compatibility@.len() > 0 {
        seq!["Compatibility: "@ + join_spec(strings_view(e.compatibility@), ", "@)]
    } else {
        Seq::empty()
    }) + (if used_cached_data {
        seq!["Note: using cached data while sources refresh."@]
    } else {
        Seq::empty()
    }) + match e.readme_excerpt {
        Some(r) => seq!["\nREADME (excerpt):\n"@ + r@],
        None => Seq::empty(),
    };
    let lines = show_lines_spec(e, used_cached_data);
    assert(lines =~= base + hp + dp + tail);
    // The documentation line does not start with `Homepage: `, nor the homepage line with `Docs: `.
    assert forall|k: int| 0 <= k < dp.len() implies !starts_with_spec(#[trigger] dp[k], h) by {
        lemma_not_prefixed(dp[k], h, 0);
    }
    assert forall|k: int| 0 <= k < hp.len() implies !starts_with_spec(#[trigger] hp[k], d) by {
        lemma_not_prefixed(hp[k], d, 0);
    }
    assert forall|k: int| 0 <= k < lines.len() && starts_with_spec(#[trigger] lines[k], h) implies (
    e.homepage_url matches Some(u) && lines[k] == h + u@.serialization) by {
        if k < base.len() {
            assert(lines[k] == base[k]);
        } else if k < base.len() + hp.len() {
            assert(lines[k] == hp[k - base.len()]);
        } else if k < base.len() + hp.len() + dp.len() {
            assert(lines[k] == dp[k - base.len() - hp.len()]);
        } else {
            assert(lines[k] == tail[k - base.len() - hp.len() - dp.len()]);
        }
    }
    assert forall|k: int| 0 <= k < lines.len() && starts_with_spec(#[trigger] lines[k], d) implies (
    e.documentation_url matches Some(u) && lines[k] == d + u@.serialization) by {
        if k < base.len() {
            assert(lines[k] == base[k]);
        } else if k < base.len() + hp.len() {
            assert(lines[k] == hp[k - base.len()]);
        } else if k < base.len() + hp.len() + dp.len() {
            assert(lines[k] == dp[k - base.len() - hp.len()]);
        } else {
            assert(lines[k] == tail[k - base.len() - hp.len() - dp.len()]);
        }
    }
    if e.homepage_url is Some {
        assert(lines[base.len() as int] == hp[0]);
    }
    if e.documentation_url is Some {
        assert(lines[(base.len() + hp.len()) as int] == dp[0]);
    }
}

// ---------------------------------------------------------------------------
// Preferences

/// Preferences handed out by `save` and loaded back by
/// `PreferencesService::load` are the preferences saved, field for field.
pub proof fn law_saved_preferences_load_back(p: UserPreferences)
    ensures
        loaded_preferences(Some(p)) == p,
{
}

} // verus!
