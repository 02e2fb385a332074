//! The refresh queue: scheduled source refreshes, kept in schedule order.
//!
//! The queue is always ordered by `scheduled_for`; among jobs scheduled for
//! the same instant, the one queued earlier comes first. Persisting the queue
//! is the caller's task: `queue_refresh` always changes it, and `drain_due`
//! changes it exactly when it returns jobs.

use vstd::prelude::*;

use crate::config::Config;
use crate::domain::{RetryJob, RetryJobView};
use crate::paths::{join_path, join_spec};
use crate::text::str_eq;
use crate::time::Timestamp;

verus! {

/// Name of the file the queue is persisted to, inside the configuration directory.
pub const QUEUE_FILE: &'static str = "refresh_queue.json";

pub open spec fn jobs_view(v: Seq<RetryJob>) -> Seq<RetryJobView> {
    v.map_values(|j: RetryJob| j@)
}

/// Whether the jobs are in schedule order.
pub open spec fn is_schedule_sorted(s: Seq<RetryJobView>) -> bool {
    forall|i: int, j: int| 0 <= i <= j < s.len() ==> s[i].scheduled_for <= s[j].scheduled_for
}

/// `x` inserted after every job scheduled no later than it (one step of a
/// stable insertion sort).
pub open spec fn insert_by_schedule(s: Seq<RetryJobView>, x: RetryJobView) -> Seq<RetryJobView>
    decreases s.len(),
{
    if s.len() == 0 {
        seq![x]
    } else if s.last().scheduled_for <= x.scheduled_for {
        s.push(x)
    } else {
        insert_by_schedule(s.drop_last(), x).push(s.last())
    }
}

/// The jobs stably sorted by schedule (`sort_by` on `scheduled_for`).
pub open spec fn sort_by_schedule(s: Seq<RetryJobView>) -> Seq<RetryJobView>
    decreases s.len(),
{
    if s.len() == 0 {
        Seq::empty()
    } else {
        insert_by_schedule(sort_by_schedule(s.drop_last()), s.last())
    }
}

/// The jobs whose identifier differs from `id`, in order.
pub open spec fn without_job_id(s: Seq<RetryJobView>, id: Seq<char>) -> Seq<RetryJobView>
    decreases s.len(),
{
    if s.len() == 0 {
        Seq::empty()
    } else if s.last().job_id == id {
        without_job_id(s.drop_last(), id)
    } else {
        without_job_id(s.drop_last(), id).push(s.last())
    }
}

/// How many jobs at the front are scheduled at or before `now`.
pub open spec fn due_count(s: Seq<RetryJobView>, now: int) -> nat
    decreases s.len(),
{
    if s.len() > 0 && s[0].scheduled_for <= now {
        1 + due_count(s.drop_first(), now)
    } else {
        0
    }
}

/// Inserting keeps schedule order and adds exactly the new job.
pub proof fn lemma_insert_sorted(s: Seq<RetryJobView>, x: RetryJobView)
    requires
        is_schedule_sorted(s),
    ensures
        is_schedule_sorted(insert_by_schedule(s, x)),
        insert_by_schedule(s, x).to_multiset() == s.to_multiset().insert(x),
        insert_by_schedule(s, x).len() == s.len() + 1,
    decreases s.len(),
{
    broadcast use vstd::seq_lib::group_to_multiset_ensures;
    if s.len() == 0 {
        assert(seq![x] =~= Seq::<RetryJobView>::empty().push(x));
    } else if s.last().scheduled_for <= x.scheduled_for {
        let r = s.push(x);
        assert forall|i: int, j: int| 0 <= i <= j < r.len() implies r[i].scheduled_for <= r[j].scheduled_for by {
            if j == r.len() - 1 && i < j {
                assert(s[i].scheduled_for <= s[s.len() - 1].scheduled_for);
            }
        }
    } else {
        let init = s.drop_last();
        assert(is_schedule_sorted(init));
        lemma_insert_sorted(init, x);
        let mid = insert_by_schedule(init, x);
        let r = mid.push(s.last());
        assert forall|k: int| 0 <= k < mid.len() implies mid[k].scheduled_for <= s.last().scheduled_for by {
            assert(mid.to_multiset().count(mid[k]) > 0);
            assert(init.to_multiset().insert(x).count(mid[k]) > 0);
            if mid[k] != x {
                assert(init.to_multiset().count(mid[k]) > 0);
                assert(init.contains(mid[k]));
                let m = choose|m: int| 0 <= m < init.len() && init[m] == mid[k];
                assert(s[m].scheduled_for <= s[s.len() - 1].scheduled_for);
            }
        }
        assert forall|i: int, j: int| 0 <= i <= j < r.len() implies r[i].scheduled_for <= r[j].scheduled_for by {
            if j == r.len() - 1 && i < j {
                assert(mid[i].scheduled_for <= s.last().scheduled_for);
            }
        }
        assert(s =~= init.push(s.last()));
    }
}

/// Sorting yields a schedule-ordered permutation.
pub proof fn lemma_sort_sorted(s: Seq<RetryJobView>)
    ensures
        is_schedule_sorted(sort_by_schedule(s)),
        sort_by_schedule(s).to_multiset() == s.to_multiset(),
        sort_by_schedule(s).len() == s.len(),
    decreases s.len(),
{
    broadcast use vstd::seq_lib::group_to_multiset_ensures;
    if s.len() > 0 {
        lemma_sort_sorted(s.drop_last());
        lemma_insert_sorted(sort_by_schedule(s.drop_last()), s.last());
        assert(s =~= s.drop_last().push(s.last()));
    }
}

/// Sorting a schedule-ordered sequence changes nothing.
pub proof fn lemma_sort_of_sorted(s: Seq<RetryJobView>)
    requires
        is_schedule_sorted(s),
    ensures
        sort_by_schedule(s) == s,
    decreases s.len(),
{
    if s.len() > 0 {
        let init = s.drop_last();
        assert(is_schedule_sorted(init));
        lemma_sort_of_sorted(init);
        if init.len() > 0 {
            assert(init.last().scheduled_for <= s.last().scheduled_for);
        }
        assert(s =~= init.push(s.last()));
    }
}

/// Inserting at the position found by scanning back past later-scheduled jobs.
proof fn lemma_insert_at(s: Seq<RetryJobView>, x: RetryJobView, j: int)
    requires
        0 <= j <= s.len(),
        forall|k: int| j <= k < s.len() ==> s[k].scheduled_for > x.scheduled_for,
        j > 0 ==> s[j - 1].scheduled_for <= x.scheduled_for,
    ensures
        insert_by_schedule(s, x) == s.subrange(0, j) + seq![x] + s.subrange(j, s.len() as int),
    decreases s.len(),
{
    if s.len() == 0 {
        assert(seq![x] =~= s.subrange(0, j) + seq![x] + s.subrange(j, s.len() as int));
    } else if j == s.len() {
        assert(s.push(x) =~= s.subrange(0, j) + seq![x] + s.subrange(j, s.len() as int));
    } else {
        let init = s.drop_last();
        lemma_insert_at(init, x, j);
        assert(insert_by_schedule(init, x).push(s.last()) =~= s.subrange(0, j) + seq![x] + s.subrange(
            j,
            s.len() as int,
        ));
    }
}

/// Dropping the jobs of one identifier keeps schedule order.
pub proof fn lemma_without_sorted(s: Seq<RetryJobView>, id: Seq<char>)
    requires
        is_schedule_sorted(s),
    ensures
        is_schedule_sorted(without_job_id(s, id)),
        forall|k: int| 0 <= k < without_job_id(s, id).len() ==> s.contains(#[trigger] without_job_id(s, id)[k]),
        forall|k: int| 0 <= k < without_job_id(s, id).len() ==> #[trigger] without_job_id(s, id)[k].job_id != id,
    decreases s.len(),
{
    if s.len() > 0 {
        let init = s.drop_last();
        assert(is_schedule_sorted(init));
        lemma_without_sorted(init, id);
        let w = without_job_id(init, id);
        assert forall|k: int| 0 <= k < w.len() implies s.contains(#[trigger] w[k]) by {
            assert(init.contains(w[k]));
            let m = choose|m: int| 0 <= m < init.len() && init[m] == w[k];
            assert(s[m] == w[k]);
        }
        if s.last().job_id != id {
            let r = w.push(s.last());
            assert forall|i: int, j: int| 0 <= i <= j < r.len() implies r[i].scheduled_for <= r[j].scheduled_for by {
                if j == r.len() - 1 && i < j {
                    assert(s.contains(w[i]));
                    let m = choose|m: int| 0 <= m < s.len() && s[m] == w[i];
                    assert(s[m].scheduled_for <= s[s.len() - 1].scheduled_for);
                }
            }
            assert forall|k: int| 0 <= k < r.len() implies s.contains(#[trigger] r[k]) by {
                if k == r.len() - 1 {
                    assert(s[s.len() - 1] == r[k]);
                } else {
                    assert(s.contains(w[k]));
                }
            }
        }
    }
}

/// Jobs before the due count are due; when sorted, the others are not.
pub proof fn lemma_due_count(s: Seq<RetryJobView>, now: int)
    ensures
        due_count(s, now) <= s.len(),
        forall|k: int| 0 <= k < due_count(s, now) ==> #[trigger] s[k].scheduled_for <= now,
        due_count(s, now) < s.len() ==> s[due_count(s, now) as int].scheduled_for > now,
        is_schedule_sorted(s) ==> forall|k: int| due_count(s, now) <= k < s.len() ==> #[trigger] s[k].scheduled_for > now,
    decreases s.len(),
{
    if s.len() > 0 && s[0].scheduled_for <= now {
        let rest = s.drop_first();
        lemma_due_count(rest, now);
        assert forall|k: int| 1 <= k < s.len() implies s[k] == rest[k - 1] by {}
        if is_schedule_sorted(s) {
            assert(is_schedule_sorted(rest));
        }
    } else if s.len() > 0 && is_schedule_sorted(s) {
        assert forall|k: int| 0 <= k < s.len() implies #[trigger] s[k].scheduled_for > now by {
            assert(s[0].scheduled_for <= s[k].scheduled_for);
        }
    }
}

/// Inserts `job` into the schedule-ordered `v`, after every job scheduled no later.
fn insert_job(v: &mut Vec<RetryJob>, job: RetryJob)
    ensures
        jobs_view(final(v)@) == insert_by_schedule(jobs_view(old(v)@), job@),
{
    let ghost s = jobs_view(v@);
    let mut j = v.len();
    while j > 0 && job.scheduled_for.is_before(&v[j - 1].scheduled_for)
        invariant
            j <= v@.len(),
            s == jobs_view(v@),
            forall|k: int| j <= k < s.len() ==> s[k].scheduled_for > job@.scheduled_for,
        decreases j,
    {
        j = j - 1;
    }
    proof {
        lemma_insert_at(s, job@, j as int);
    }
    v.insert(j, job);
    proof {
        assert(jobs_view(v@) =~= s.subrange(0, j as int) + seq![job@] + s.subrange(j as int, s.len() as int));
    }
}

/// The jobs stably sorted by schedule.
pub fn sort_jobs(jobs: Vec<RetryJob>) -> (r: Vec<RetryJob>)
    ensures
        jobs_view(r@) == sort_by_schedule(jobs_view(jobs@)),
{
    let ghost s = jobs_view(jobs@);
    let mut out: Vec<RetryJob> = Vec::new();
    let mut rest = jobs;
    let mut i: usize = 0;
    let n = rest.len();
    assert(s.subrange(0, n as int) =~= s);
    while i < n
        invariant
            0 <= i <= n,
            n == s.len(),
            jobs_view(rest@) == s.subrange(i as int, n as int),
            rest@.len() == n - i,
            jobs_view(out@) == sort_by_schedule(s.subrange(0, i as int)),
        decreases n - i,
    {
        proof {
            assert(jobs_view(rest@)[0] == rest@[0]@);
        }
        let ghost before = rest@;
        let job = rest.remove(0);
        proof {
            assert forall|m: int| 0 <= m < rest@.len() implies #[trigger] jobs_view(rest@)[m] == s[i + 1 + m] by {
                assert(jobs_view(before)[m + 1] == before[m + 1]@);
            }
            assert(job@ == s[i as int]);
            assert(jobs_view(rest@) =~= s.subrange(i + 1, n as int));
            assert(s.subrange(0, i + 1).drop_last() =~= s.subrange(0, i as int));
        }
        insert_job(&mut out, job);
        i = i + 1;
    }
    out
}

/// Scheduled refreshes, kept in schedule order.
pub struct RefreshService {
    path: String,
    jobs: Vec<RetryJob>,
}

impl View for RefreshService {
    type V = Seq<RetryJobView>;

    closed spec fn view(&self) -> Seq<RetryJobView> {
        jobs_view(self.jobs@)
    }
}

impl RefreshService {
    #[verifier::type_invariant]
    spec fn sorted(self) -> bool {
        is_schedule_sorted(jobs_view(self.jobs@))
    }

    pub closed spec fn path_spec(&self) -> Seq<char> {
        self.path@
    }

    /// A refresh service for the configuration directory, holding the jobs
    /// read from its queue file (none when there is no file yet), sorted by schedule.
    pub fn new(config: &Config, stored: Option<Vec<RetryJob>>) -> (r: Self)
        ensures
            r.path_spec() == join_spec(config@.config_dir, QUEUE_FILE@),
            r@ == (match stored {
                Some(v) => sort_by_schedule(jobs_view(v@)),
                None => Seq::empty(),
            }),
    {
        let path = join_path(config.config_dir().as_str(), QUEUE_FILE);
        let jobs = match stored {
            Some(v) => {
                let sorted = sort_jobs(v);
                proof {
                    lemma_sort_sorted(jobs_view(v@));
                }
                sorted
            },
            None => {
                let e: Vec<RetryJob> = Vec::new();
                assert(jobs_view(e@) =~= Seq::empty());
                e
            },
        };
        RefreshService { path, jobs }
    }

    /// Path of the queue file.
    pub fn path(&self) -> (r: &String)
        ensures
            r@ == self.path_spec(),
    {
        &self.path
    }

    /// Queues `job`, replacing any job with the same identifier; the queue stays
    /// stably sorted by schedule, so the new job follows jobs scheduled no later.
    pub fn queue_refresh(&mut self, job: RetryJob)
        ensures
            final(self)@ == sort_by_schedule(without_job_id(old(self)@, job@.job_id).push(job@)),
            final(self)@ == insert_by_schedule(without_job_id(old(self)@, job@.job_id), job@),
            final(self).path_spec() == old(self).path_spec(),
    {
        proof {
            use_type_invariant(&*self);
        }
        let ghost old_view = jobs_view(self.jobs@);
        let mut kept: Vec<RetryJob> = Vec::new();
        let mut rest: Vec<RetryJob> = Vec::new();
        std::mem::swap(&mut rest, &mut self.jobs);
        let n = rest.len();
        proof {
            assert(jobs_view(rest@) =~= old_view.subrange(0, n as int));
            assert(jobs_view(kept@) =~= without_job_id(old_view.subrange(0, 0), job@.job_id));
        }
        let mut i: usize = 0;
        while i < n
            invariant
                0 <= i <= n,
                n == old_view.len(),
                jobs_view(rest@) == old_view.subrange(i as int, n as int),
                rest@.len() == n - i,
                jobs_view(kept@) == without_job_id(old_view.subrange(0, i as int), job@.job_id),
            decreases n - i,
        {
            proof {
                assert(jobs_view(rest@)[0] == rest@[0]@);
            }
            let ghost before = rest@;
            let existing = rest.remove(0);
            proof {
                assert forall|m: int| 0 <= m < rest@.len() implies #[trigger] jobs_view(rest@)[m] == old_view[i + 1 + m] by {
                    assert(jobs_view(before)[m + 1] == before[m + 1]@);
                }
                assert(existing@ == old_view[i as int]);
                assert(jobs_view(rest@) =~= old_view.subrange(i + 1, n as int));
                assert(old_view.subrange(0, i + 1).drop_last() =~= old_view.subrange(0, i as int));
            }
            if !str_eq(existing.job_id.as_str(), job.job_id.as_str()) {
                kept.push(existing);
                proof {
                    assert(jobs_view(kept@) =~= without_job_id(old_view.subrange(0, i + 1), job@.job_id));
                }
            }
            i = i + 1;
        }
        proof {
            assert(old_view.subrange(0, n as int) =~= old_view);
            lemma_without_sorted(old_view, job@.job_id);
            let w = without_job_id(old_view, job@.job_id);
            lemma_sort_of_sorted(w);
            assert(w.push(job@).drop_last() =~= w);
            lemma_insert_sorted(w, job@);
        }
        insert_job(&mut kept, job);
        self.jobs = kept;
    }

    /// Copies of all queued jobs, in queue order, which is schedule order.
    pub fn pending_jobs(&self) -> (r: Vec<RetryJob>)
        ensures
            jobs_view(r@) == self@,
            is_schedule_sorted(jobs_view(r@)),
    {
        proof {
            use_type_invariant(self);
        }
        let mut out: Vec<RetryJob> = Vec::new();
        let mut i: usize = 0;
        while i < self.jobs.len()
            invariant
                0 <= i <= self.jobs@.len(),
                jobs_view(out@) == jobs_view(self.jobs@).subrange(0, i as int),
                out@.len() == i,
            decreases self.jobs@.len() - i,
        {
            let copy = self.jobs[i].duplicate();
            out.push(copy);
            proof {
                assert(jobs_view(self.jobs@)[i as int] == self.jobs@[i as int]@);
                assert(jobs_view(out@) =~= jobs_view(self.jobs@).subrange(0, i + 1));
            }
            i = i + 1;
        }
        assert(jobs_view(self.jobs@).subrange(0, self.jobs@.len() as int) =~= jobs_view(self.jobs@));
        out
    }

    /// What persisting the queue writes: the queue file and the queued jobs,
    /// in queue order.
    pub fn flush(&self) -> (r: (String, Vec<RetryJob>))
        ensures
            r.0@ == self.path_spec(),
            jobs_view(r.1@) == self@,
    {
        (self.path.clone(), self.pending_jobs())
    }

    /// Removes and returns, in order, the jobs at the front scheduled at or
    /// before `now`; since the queue is sorted, these are all the due jobs.
    pub fn drain_due(&mut self, now: Timestamp) -> (r: Vec<RetryJob>)
        ensures
            jobs_view(r@) == old(self)@.take(due_count(old(self)@, now.spec_nanos()) as int),
            final(self)@ == old(self)@.skip(due_count(old(self)@, now.spec_nanos()) as int),
            final(self).path_spec() == old(self).path_spec(),
    {
        proof {
            use_type_invariant(&*self);
        }
        let ghost s = jobs_view(self.jobs@);
        let ghost k = due_count(s, now.spec_nanos());
        proof {
            lemma_due_count(s, now.spec_nanos());
        }
        let mut count: usize = 0;
        let len = self.jobs.len();
        while count < len && self.jobs[count].scheduled_for.is_at_or_before(&now)
            invariant
                0 <= count <= k,
                k <= s.len(),
                len == s.len(),
                s == jobs_view(self.jobs@),
                k == due_count(s, now.spec_nanos()),
                k < s.len() ==> s[k as int].scheduled_for > now.spec_nanos(),
                forall|m: int| 0 <= m < k ==> #[trigger] s[m].scheduled_for <= now.spec_nanos(),
            decreases s.len() - count,
        {
            proof {
                assert(s[count as int] == self.jobs@[count as int]@);
                if count == k {
                    assert(s[k as int].scheduled_for > now.spec_nanos());
                }
            }
            count = count + 1;
        }
        proof {
            if count < k {
                assert(s[count as int] == self.jobs@[count as int]@);
                assert(s[count as int].scheduled_for <= now.spec_nanos());
            }
            assert(count == k);
        }
        let mut remaining: Vec<RetryJob> = Vec::new();
        std::mem::swap(&mut remaining, &mut self.jobs);
        let ready_tail = remaining.split_off(count);
        let ready = remaining;
        proof {
            assert(jobs_view(ready@) =~= s.take(k as int));
            assert(jobs_view(ready_tail@) =~= s.skip(k as int));
            assert forall|i: int, j: int| 0 <= i <= j < ready_tail@.len() implies jobs_view(ready_tail@)[i].scheduled_for
                <= jobs_view(ready_tail@)[j].scheduled_for by {
                assert(s[i + k].scheduled_for <= s[j + k].scheduled_for);
            }
        }
        self.jobs = ready_tail;
        ready
    }

    /// Number of queued jobs.
    pub fn len(&self) -> (r: usize)
        ensures
            r == self@.len(),
    {
        self.jobs.len()
    }
}

} // verus!
