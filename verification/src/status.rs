//! Persisted status shared across commands: the last error of each source.
//!
//! Reading and writing `status.json` is the caller's part; the functions here
//! decide what the file holds next.

use vstd::prelude::*;

use crate::config::Config;
use crate::paths::{join_path, join_spec};
use crate::text::str_eq;
use crate::time::Timestamp;

verus! {

/// Name of the status file inside the configuration directory.
pub const STATUS_FILE: &'static str = "status.json";

/// The last error seen for a source.
#[derive(Debug, Clone)]
pub struct LoggedError {
    pub source_slug: String,
    pub message: String,
    pub occurred_at: Timestamp,
}

/// What the library reads of a logged error.
pub struct LoggedErrorView {
    pub source_slug: Seq<char>,
    pub message: Seq<char>,
    pub occurred_at: Timestamp,
}

impl View for LoggedError {
    type V = LoggedErrorView;

    open spec fn view(&self) -> LoggedErrorView {
        LoggedErrorView { source_slug: self.source_slug@, message: self.message@, occurred_at: self.occurred_at }
    }
}

pub open spec fn logged_view(v: Seq<LoggedError>) -> Seq<LoggedErrorView> {
    v.map_values(|e: LoggedError| e@)
}

/// The errors of the sources other than `slug`, in order.
pub open spec fn without_source(s: Seq<LoggedErrorView>, slug: Seq<char>) -> Seq<LoggedErrorView>
    decreases s.len(),
{
    if s.len() == 0 {
        Seq::empty()
    } else if s.last().source_slug == slug {
        without_source(s.drop_last(), slug)
    } else {
        without_source(s.drop_last(), slug).push(s.last())
    }
}

/// The persisted status: the last error of each source.
#[derive(Debug, Clone, Default)]
pub struct StatusSnapshot {
    pub last_errors: Vec<LoggedError>,
}

fn retain_other_sources(errors: Vec<LoggedError>, slug: &str) -> (r: Vec<LoggedError>)
    ensures
        logged_view(r@) == without_source(logged_view(errors@), slug@),
{
    let ghost s = logged_view(errors@);
    let mut kept: Vec<LoggedError> = Vec::new();
    let mut rest = errors;
    let n = rest.len();
    let mut i: usize = 0;
    assert(s.subrange(0, n as int) =~= s);
    assert(logged_view(kept@) =~= without_source(s.subrange(0, 0), slug@));
    while i < n
        invariant
            0 <= i <= n,
            n == s.len(),
            logged_view(rest@) == s.subrange(i as int, n as int),
            rest@.len() == n - i,
            logged_view(kept@) == without_source(s.subrange(0, i as int), slug@),
        decreases n - i,
    {
        let ghost before = rest@;
        proof {
            assert(logged_view(before)[0] == before[0]@);
        }
        let e = rest.remove(0);
        proof {
            assert forall|m: int| 0 <= m < rest@.len() implies #[trigger] logged_view(rest@)[m] == s[i + 1 + m] by {
                assert(logged_view(before)[m + 1] == before[m + 1]@);
            }
            assert(logged_view(rest@) =~= s.subrange(i + 1, n as int));
            assert(s.subrange(0, i + 1).drop_last() =~= s.subrange(0, i as int));
        }
        if !str_eq(e.source_slug.as_str(), slug) {
            kept.push(e);
            proof {
                assert(logged_view(kept@) =~= without_source(s.subrange(0, i + 1), slug@));
            }
        }
        i = i + 1;
    }
    kept
}

impl StatusSnapshot {
    /// Records `message` as the last error of `source_slug`, replacing any
    /// earlier one; the new entry comes last.
    pub fn record_error(&mut self, source_slug: &str, message: &str, occurred_at: Timestamp)
        ensures
            logged_view(final(self).last_errors@) == without_source(logged_view(old(self).last_errors@), source_slug@).push(
                LoggedErrorView { source_slug: source_slug@, message: message@, occurred_at },
            ),
    {
        let mut errors: Vec<LoggedError> = Vec::new();
        std::mem::swap(&mut errors, &mut self.last_errors);
        let mut kept = retain_other_sources(errors, source_slug);
        let ghost before = logged_view(kept@);
        kept.push(LoggedError { source_slug: String::from_str(source_slug), message: String::from_str(message), occurred_at });
        proof {
            assert(logged_view(kept@) =~= before.push(LoggedErrorView { source_slug: source_slug@, message: message@, occurred_at }));
        }
        self.last_errors = kept;
    }

    /// Forgets the errors of `source_slug`; returns whether any was forgotten.
    pub fn clear_error(&mut self, source_slug: &str) -> (r: bool)
        ensures
            logged_view(final(self).last_errors@) == without_source(logged_view(old(self).last_errors@), source_slug@),
            r == (without_source(logged_view(old(self).last_errors@), source_slug@).len() != old(self).last_errors@.len()),
    {
        let before = self.last_errors.len();
        let mut errors: Vec<LoggedError> = Vec::new();
        std::mem::swap(&mut errors, &mut self.last_errors);
        let kept = retain_other_sources(errors, source_slug);
        let after = kept.len();
        self.last_errors = kept;
        after != before
    }
}

/// Location of the persisted status.
#[derive(Debug, Clone)]
pub struct StatusStore {
    path: String,
}

impl StatusStore {
    pub closed spec fn path_spec(&self) -> Seq<char> {
        self.path@
    }

    /// The status store of a configuration (`status.json` in its configuration directory).
    pub fn new(config: &Config) -> (r: Self)
        ensures
            r.path_spec() == join_spec(config@.config_dir, STATUS_FILE@),
    {
        StatusStore { path: join_path(config.config_dir().as_str(), STATUS_FILE) }
    }

    /// Path of the status file.
    pub fn path(&self) -> (r: &String)
        ensures
            r@ == self.path_spec(),
    {
        &self.path
    }

    /// The snapshot to write after recording an error of `source_slug` at
    /// `occurred_at`, given the current snapshot (`None` when it could not be
    /// read, which counts as empty).
    pub fn record_error(
        &self,
        current: Option<StatusSnapshot>,
        source_slug: &str,
        message: &str,
        occurred_at: Timestamp,
    ) -> (r: StatusSnapshot)
        ensures
            logged_view(r.last_errors@) == without_source(
                match current {
                    Some(c) => logged_view(c.last_errors@),
                    None => Seq::empty(),
                },
                source_slug@,
            ).push(LoggedErrorView { source_slug: source_slug@, message: message@, occurred_at }),
    {
        let mut snapshot = match current {
            Some(c) => c,
            None => {
                let s = StatusSnapshot { last_errors: Vec::new() };
                assert(logged_view(s.last_errors@) =~= Seq::empty());
                s
            },
        };
        snapshot.record_error(source_slug, message, occurred_at);
        snapshot
    }

    /// The snapshot to write after clearing the errors of `source_slug`, or
    /// `None` when nothing needs writing: there is no status file yet, or the
    /// source had no error. An unreadable snapshot (`None`) counts as empty.
    pub fn clear_error(&self, file_exists: bool, current: Option<StatusSnapshot>, source_slug: &str) -> (r: Option<StatusSnapshot>)
        ensures
            !file_exists ==> r is None,
            file_exists ==> ({
                let cur = match current {
                    Some(c) => logged_view(c.last_errors@),
                    None => Seq::empty(),
                };
                let next = without_source(cur, source_slug@);
                if next.len() == cur.len() {
                    r is None
                } else {
                    r matches Some(s) && logged_view(s.last_errors@) == next
                }
            }),
    {
        if !file_exists {
            return None;
        }
        let mut snapshot = match current {
            Some(c) => c,
            None => {
                let s = StatusSnapshot { last_errors: Vec::new() };
                assert(logged_view(s.last_errors@) =~= Seq::empty());
                s
            },
        };
        if snapshot.clear_error(source_slug) {
            Some(snapshot)
        } else {
            None
        }
    }
}

} // verus!
