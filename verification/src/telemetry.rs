//! Telemetry counters and the events they report.
//!
//! A `Telemetry` keeps the counters and decides which event each recording
//! emits; writing the event out (as a human-readable line, rendered here, or
//! as JSON) is the caller's part.

use vstd::prelude::*;

use crate::catalog::{lex_le, lemma_lex_antisym, lemma_lex_le_refl, lemma_lex_total, lemma_lex_trans, str_lex_le};
use crate::text::{decimal_spec, join, join_spec, str_eq, strings_view, trim, trim_spec, u64_to_decimal};

verus! {

/// How events are written.
#[derive(Debug, Clone, Copy, PartialEq, Eq, Structural)]
pub enum TelemetryFormat {
    Human,
    Json,
    Silent,
}

/// An attribute value of an event.
#[derive(Debug, Clone, PartialEq, Eq)]
pub enum AttributeValue {
    Text(String),
    Count(u64),
}

/// An event to write.
#[derive(Debug, Clone, PartialEq, Eq)]
pub struct TelemetryEvent {
    pub event: String,
    pub source: Option<String>,
    pub attributes: Vec<(String, AttributeValue)>,
}

/// Counter values at one moment; search terms are listed by term.
#[derive(Debug, Clone)]
pub struct TelemetrySnapshot {
    pub cache_hits: u64,
    pub cache_misses: u64,
    pub rate_limit_waits: u64,
    pub refresh_queue_depth: u64,
    pub search_terms: Vec<(String, u64)>,
}

impl TelemetrySnapshot {
    /// How often `term` was searched, if ever.
    pub fn search_count(&self, term: &str) -> (r: Option<u64>)
        ensures
            match r {
                Some(n) => exists|i: int| 0 <= i < self.search_terms@.len() && #[trigger] self.search_terms@[i].0@ == term@
                    && self.search_terms@[i].1 == n,
                None => forall|i: int| 0 <= i < self.search_terms@.len() ==> #[trigger] self.search_terms@[i].0@ != term@,
            },
    {
        let mut i: usize = 0;
        while i < self.search_terms.len()
            invariant
                0 <= i <= self.search_terms@.len(),
                forall|k: int| 0 <= k < i ==> #[trigger] self.search_terms@[k].0@ != term@,
            decreases self.search_terms@.len() - i,
        {
            if str_eq(self.search_terms[i].0.as_str(), term) {
                return Some(self.search_terms[i].1);
            }
            i = i + 1;
        }
        None
    }
}

/// Search counts keyed by term.
pub open spec fn terms_map(terms: Seq<(String, u64)>) -> Map<Seq<char>, u64>
    decreases terms.len(),
{
    if terms.len() == 0 {
        Map::empty()
    } else {
        terms_map(terms.drop_last()).insert(terms.last().0@, terms.last().1)
    }
}

/// Whether the terms are ordered by term.
pub open spec fn terms_sorted(terms: Seq<(String, u64)>) -> bool {
    forall|i: int, j: int| 0 <= i < j < terms.len() ==> lex_le(terms[i].0@, terms[j].0@)
}

/// Whether the terms are distinct.
pub open spec fn terms_distinct(terms: Seq<(String, u64)>) -> bool {
    forall|i: int, j: int| 0 <= i < j < terms.len() ==> terms[i].0@ != terms[j].0@
}

/// Counter state, with the view `(cache hits, cache misses, rate-limit waits,
/// refresh queue depth, search counts)`.
#[derive(Debug)]
pub struct Telemetry {
    format: TelemetryFormat,
    cache_hits: u64,
    cache_misses: u64,
    rate_limit_waits: u64,
    refresh_queue_depth: u64,
    search_terms: Vec<(String, u64)>,
}

/// What the library reads of a telemetry handle.
pub struct TelemetryView {
    pub format: TelemetryFormat,
    pub cache_hits: u64,
    pub cache_misses: u64,
    pub rate_limit_waits: u64,
    pub refresh_queue_depth: u64,
    pub search_terms: Map<Seq<char>, u64>,
}

impl View for Telemetry {
    type V = TelemetryView;

    closed spec fn view(&self) -> TelemetryView {
        TelemetryView {
            format: self.format,
            cache_hits: self.cache_hits,
            cache_misses: self.cache_misses,
            rate_limit_waits: self.rate_limit_waits,
            refresh_queue_depth: self.refresh_queue_depth,
            search_terms: terms_map(self.search_terms@),
        }
    }
}

/// `r` is an event named `name` for `source`, with no attributes.
pub open spec fn plain_event(r: Option<TelemetryEvent>, name: Seq<char>, source: Seq<char>) -> bool {
    match r {
        Some(e) => e.event@ == name && e.attributes@.len() == 0 && match e.source {
            Some(s) => s@ == source,
            None => false,
        },
        None => false,
    }
}

/// `r` is a `search` event carrying `keyword`.
pub open spec fn search_event(r: Option<TelemetryEvent>, keyword: Seq<char>) -> bool {
    match r {
        Some(e) => e.event@ == "search"@ && e.source is None && e.attributes@.len() == 1
            && e.attributes@[0].0@ == "keyword"@ && match e.attributes@[0].1 {
            AttributeValue::Text(t) => t@ == keyword,
            AttributeValue::Count(_) => false,
        },
        None => false,
    }
}

/// `r` is a `refresh_queue_depth` event carrying `depth`.
pub open spec fn depth_event(r: Option<TelemetryEvent>, depth: u64) -> bool {
    match r {
        Some(e) => e.event@ == "refresh_queue_depth"@ && e.source is None && e.attributes@.len() == 1
            && e.attributes@[0].0@ == "depth"@ && e.attributes@[0].1 == AttributeValue::Count(depth),
        None => false,
    }
}

proof fn lemma_terms_map_update(terms: Seq<(String, u64)>, i: int, t: (String, u64))
    requires
        terms_distinct(terms),
        0 <= i < terms.len(),
        t.0@ == terms[i].0@,
    ensures
        terms_map(terms.update(i, t)) == terms_map(terms).insert(t.0@, t.1),
        terms_distinct(terms.update(i, t)),
    decreases terms.len(),
{
    let u = terms.update(i, t);
    if i == terms.len() - 1 {
        assert(u.drop_last() =~= terms.drop_last());
        assert(terms_map(u) =~= terms_map(terms).insert(t.0@, t.1));
    } else {
        lemma_terms_map_update(terms.drop_last(), i, t);
        assert(u.drop_last() =~= terms.drop_last().update(i, t));
        assert(terms.last().0@ != t.0@);
        assert(terms_map(u) =~= terms_map(terms).insert(t.0@, t.1));
    }
}

proof fn lemma_terms_map_absent(terms: Seq<(String, u64)>, key: Seq<char>)
    requires
        forall|k: int| 0 <= k < terms.len() ==> #[trigger] terms[k].0@ != key,
    ensures
        !terms_map(terms).contains_key(key),
    decreases terms.len(),
{
    if terms.len() > 0 {
        lemma_terms_map_absent(terms.drop_last(), key);
    }
}

proof fn lemma_terms_map_present(terms: Seq<(String, u64)>, i: int)
    requires
        terms_distinct(terms),
        0 <= i < terms.len(),
    ensures
        terms_map(terms).contains_key(terms[i].0@),
        terms_map(terms)[terms[i].0@] == terms[i].1,
    decreases terms.len(),
{
    if i < terms.len() - 1 {
        lemma_terms_map_present(terms.drop_last(), i);
    }
}

impl Telemetry {
    #[verifier::type_invariant]
    spec fn distinct_terms(self) -> bool {
        terms_distinct(self.search_terms@) && terms_sorted(self.search_terms@)
    }

    /// A telemetry handle writing in `format`, with all counters at zero.
    ///
    /// The writer is the caller's: each recorder hands back the event it
    /// produced, and `render_event` gives the line to write for it.
    pub fn with_writer(format: TelemetryFormat) -> (r: Self)
        ensures
            r@.format == format,
            r@.cache_hits == 0,
            r@.cache_misses == 0,
            r@.rate_limit_waits == 0,
            r@.refresh_queue_depth == 0,
            r@.search_terms == Map::<Seq<char>, u64>::empty(),
    {
        Telemetry {
            format,
            cache_hits: 0,
            cache_misses: 0,
            rate_limit_waits: 0,
            refresh_queue_depth: 0,
            search_terms: Vec::new(),
        }
    }

    /// How events are written.
    pub fn format(&self) -> (r: TelemetryFormat)
        ensures
            r == self@.format,
    {
        self.format
    }

    fn simple_event(&self, name: &str, source: &str) -> (r: Option<TelemetryEvent>)
        ensures
            self.format == TelemetryFormat::Silent ==> r is None,
            self.format != TelemetryFormat::Silent ==> plain_event(r, name@, source@),
    {
        if self.format == TelemetryFormat::Silent {
            None
        } else {
            Some(TelemetryEvent {
                event: String::from_str(name),
                source: Some(String::from_str(source)),
                attributes: Vec::new(),
            })
        }
    }

    /// Counts a cache hit of `source` and emits a `cache_hit` event.
    pub fn record_cache_hit(&mut self, source: &str) -> (r: Option<TelemetryEvent>)
        requires
            old(self)@.cache_hits < u64::MAX,
        ensures
            final(self)@ == (TelemetryView { cache_hits: (old(self)@.cache_hits + 1) as u64, ..old(self)@ }),
            old(self)@.format == TelemetryFormat::Silent ==> r is None,
            old(self)@.format != TelemetryFormat::Silent ==> plain_event(r, "cache_hit"@, source@),
    {
        proof {
            use_type_invariant(&*self);
        }
        self.cache_hits = self.cache_hits + 1;
        self.simple_event("cache_hit", source)
    }

    /// Counts a cache miss of `source` and emits a `cache_miss` event.
    pub fn record_cache_miss(&mut self, source: &str) -> (r: Option<TelemetryEvent>)
        requires
            old(self)@.cache_misses < u64::MAX,
        ensures
            final(self)@ == (TelemetryView { cache_misses: (old(self)@.cache_misses + 1) as u64, ..old(self)@ }),
            old(self)@.format == TelemetryFormat::Silent ==> r is None,
            old(self)@.format != TelemetryFormat::Silent ==> plain_event(r, "cache_miss"@, source@),
    {
        proof {
            use_type_invariant(&*self);
        }
        self.cache_misses = self.cache_misses + 1;
        self.simple_event("cache_miss", source)
    }

    /// Counts a rate-limit wait of `source` and emits a `rate_limit_wait` event.
    pub fn record_rate_limit_wait(&mut self, source: &str) -> (r: Option<TelemetryEvent>)
        requires
            old(self)@.rate_limit_waits < u64::MAX,
        ensures
            final(self)@ == (TelemetryView { rate_limit_waits: (old(self)@.rate_limit_waits + 1) as u64, ..old(self)@ }),
            old(self)@.format == TelemetryFormat::Silent ==> r is None,
            old(self)@.format != TelemetryFormat::Silent ==> plain_event(r, "rate_limit_wait"@, source@),
    {
        proof {
            use_type_invariant(&*self);
        }
        self.rate_limit_waits = self.rate_limit_waits + 1;
        self.simple_event("rate_limit_wait", source)
    }

    /// Counts a search for the trimmed keyword and emits a `search` event
    /// carrying it; blank keywords are ignored.
    pub fn record_search(&mut self, keyword: &str) -> (r: Option<TelemetryEvent>)
        requires
            old(self)@.search_terms.contains_key(trim_spec(keyword@)) ==> old(self)@.search_terms[trim_spec(keyword@)] < u64::MAX,
        ensures
            trim_spec(keyword@).len() == 0 ==> final(self)@ == old(self)@ && r is None,
            trim_spec(keyword@).len() > 0 ==> final(self)@ == (TelemetryView {
                search_terms: old(self)@.search_terms.insert(
                    trim_spec(keyword@),
                    if old(self)@.search_terms.contains_key(trim_spec(keyword@)) {
                        (old(self)@.search_terms[trim_spec(keyword@)] + 1) as u64
                    } else {
                        1
                    },
                ),
                ..old(self)@
            }),
            trim_spec(keyword@).len() > 0 && old(self)@.format == TelemetryFormat::Silent ==> r is None,
            trim_spec(keyword@).len() > 0 && old(self)@.format != TelemetryFormat::Silent ==> search_event(r, trim_spec(keyword@)),
    {
        proof {
            use_type_invariant(&*self);
        }
        let term = trim(keyword);
        if term.as_str().is_empty() {
            return None;
        }
        let ghost terms = self.search_terms@;
        let mut i: usize = 0;
        while i < self.search_terms.len() && !str_lex_le(term.as_str(), self.search_terms[i].0.as_str())
            invariant
                0 <= i <= self.search_terms@.len(),
                terms == self.search_terms@,
                forall|k: int| 0 <= k < i ==> !lex_le(term@, #[trigger] terms[k].0@),
            decreases self.search_terms@.len() - i,
        {
            i = i + 1;
        }
        assert(i < terms.len() ==> lex_le(term@, terms[i as int].0@));
        proof {
            assert forall|k: int| 0 <= k < i implies #[trigger] terms[k].0@ != term@ by {
                lemma_lex_le_refl(term@);
            }
            assert forall|k: int| 0 <= k < i implies lex_le(#[trigger] terms[k].0@, term@) by {
                lemma_lex_total(term@, terms[k].0@);
            }
        }
        if i < self.search_terms.len() && str_eq(self.search_terms[i].0.as_str(), term.as_str()) {
            proof {
                lemma_terms_map_present(terms, i as int);
            }
            let count = self.search_terms[i].1;
            let entry = (term.clone(), count + 1);
            proof {
                lemma_terms_map_update(terms, i as int, entry);
                assert forall|a: int, b: int| 0 <= a < b < terms.len() implies lex_le(
                    terms.update(i as int, entry)[a].0@,
                    terms.update(i as int, entry)[b].0@,
                ) by {
                    assert(lex_le(terms[a].0@, terms[b].0@));
                }
            }
            let mut updated: Vec<(String, u64)> = Vec::new();
            std::mem::swap(&mut updated, &mut self.search_terms);
            updated.set(i, entry);
            self.search_terms = updated;
        } else {
            proof {
                if i < terms.len() {
                    assert(terms[i as int].0@ != term@);
                    assert forall|k: int| i <= k < terms.len() implies #[trigger] terms[k].0@ != term@ by {
                        if k > i {
                            assert(lex_le(terms[i as int].0@, terms[k].0@));
                            if terms[k].0@ == term@ {
                                lemma_lex_antisym(term@, terms[i as int].0@);
                            }
                        }
                    }
                }
                lemma_terms_map_absent(terms, term@);
            }
            let entry = (term.clone(), 1u64);
            let mut updated: Vec<(String, u64)> = Vec::new();
            std::mem::swap(&mut updated, &mut self.search_terms);
            updated.insert(i, entry);
            proof {
                lemma_terms_map_insert(terms, i as int, entry);
                let u = updated@;
                assert(u =~= terms.insert(i as int, entry));
                assert forall|a: int, b: int| 0 <= a < b < u.len() implies lex_le(u[a].0@, u[b].0@) by {
                    if a < i && b < i {
                        assert(lex_le(terms[a].0@, terms[b].0@));
                    } else if a < i && b == i {
                    } else if a < i && b > i {
                        if b - 1 > i {
                            assert(lex_le(terms[i as int].0@, terms[b - 1].0@));
                            lemma_lex_trans(term@, terms[i as int].0@, terms[b - 1].0@);
                        }
                        lemma_lex_trans(terms[a].0@, term@, terms[b - 1].0@);
                    } else if a == i {
                        if b - 1 > i {
                            assert(lex_le(terms[i as int].0@, terms[b - 1].0@));
                            lemma_lex_trans(term@, terms[i as int].0@, terms[b - 1].0@);
                        }
                    } else {
                        assert(lex_le(terms[a - 1].0@, terms[b - 1].0@));
                    }
                }
                assert forall|a: int, b: int| 0 <= a < b < u.len() implies u[a].0@ != u[b].0@ by {
                    if a != i && b != i {
                        let a0 = if a < i { a } else { a - 1 };
                        let b0 = if b < i { b } else { b - 1 };
                        assert(terms[a0].0@ != terms[b0].0@);
                    }
                }
            }
            self.search_terms = updated;
        }
        if self.format == TelemetryFormat::Silent {
            None
        } else {
            let mut attributes: Vec<(String, AttributeValue)> = Vec::new();
            attributes.push((String::from_str("keyword"), AttributeValue::Text(term)));
            Some(TelemetryEvent { event: String::from_str("search"), source: None, attributes })
        }
    }

    /// Records the refresh queue depth and emits a `refresh_queue_depth` event carrying it.
    pub fn record_refresh_queue_depth(&mut self, depth: u64) -> (r: Option<TelemetryEvent>)
        ensures
            final(self)@ == (TelemetryView { refresh_queue_depth: depth, ..old(self)@ }),
            old(self)@.format == TelemetryFormat::Silent ==> r is None,
            old(self)@.format != TelemetryFormat::Silent ==> depth_event(r, depth),
    {
        proof {
            use_type_invariant(&*self);
        }
        self.refresh_queue_depth = depth;
        if self.format == TelemetryFormat::Silent {
            None
        } else {
            let mut attributes: Vec<(String, AttributeValue)> = Vec::new();
            attributes.push((String::from_str("depth"), AttributeValue::Count(depth)));
            Some(TelemetryEvent { event: String::from_str("refresh_queue_depth"), source: None, attributes })
        }
    }

    /// The counter values, with search terms listed by term.
    pub fn snapshot(&self) -> (r: TelemetrySnapshot)
        ensures
            r.cache_hits == self@.cache_hits,
            r.cache_misses == self@.cache_misses,
            r.rate_limit_waits == self@.rate_limit_waits,
            r.refresh_queue_depth == self@.refresh_queue_depth,
            terms_map(r.search_terms@) == self@.search_terms,
            terms_distinct(r.search_terms@),
            terms_sorted(r.search_terms@),
    {
        proof {
            use_type_invariant(self);
        }
        let copy = copy_terms(&self.search_terms);
        proof {
            lemma_terms_map_congruent(copy@, self.search_terms@);
            assert forall|i: int, j: int| 0 <= i < j < copy@.len() implies lex_le(copy@[i].0@, copy@[j].0@) by {
                assert(lex_le(self.search_terms@[i].0@, self.search_terms@[j].0@));
            }
            assert forall|i: int, j: int| 0 <= i < j < copy@.len() implies copy@[i].0@ != copy@[j].0@ by {
                assert(self.search_terms@[i].0@ != self.search_terms@[j].0@);
            }
        }
        TelemetrySnapshot {
            cache_hits: self.cache_hits,
            cache_misses: self.cache_misses,
            rate_limit_waits: self.rate_limit_waits,
            refresh_queue_depth: self.refresh_queue_depth,
            search_terms: copy,
        }
    }
}

/// A copy of the terms.
fn copy_terms(terms: &Vec<(String, u64)>) -> (r: Vec<(String, u64)>)
    ensures
        r@.len() == terms@.len(),
        forall|k: int| #![trigger r@[k]] 0 <= k < r@.len() ==> r@[k].0@ == terms@[k].0@ && r@[k].1 == terms@[k].1,
{
    let mut out: Vec<(String, u64)> = Vec::new();
    let mut i: usize = 0;
    while i < terms.len()
        invariant
            0 <= i <= terms@.len(),
            out@.len() == i,
            forall|k: int| #![trigger out@[k]] 0 <= k < i ==> out@[k].0@ == terms@[k].0@ && out@[k].1 == terms@[k].1,
        decreases terms@.len() - i,
    {
        out.push((terms[i].0.clone(), terms[i].1));
        i = i + 1;
    }
    out
}

proof fn lemma_terms_map_congruent(a: Seq<(String, u64)>, b: Seq<(String, u64)>)
    requires
        a.len() == b.len(),
        forall|k: int| #![trigger a[k]] 0 <= k < a.len() ==> a[k].0@ == b[k].0@ && a[k].1 == b[k].1,
    ensures
        terms_map(a) == terms_map(b),
    decreases a.len(),
{
    if a.len() > 0 {
        lemma_terms_map_congruent(a.drop_last(), b.drop_last());
        assert(a[a.len() - 1].0@ == b[b.len() - 1].0@);
    }
}

proof fn lemma_terms_map_insert(terms: Seq<(String, u64)>, p: int, x: (String, u64))
    requires
        0 <= p <= terms.len(),
        forall|k: int| 0 <= k < terms.len() ==> #[trigger] terms[k].0@ != x.0@,
    ensures
        terms_map(terms.insert(p, x)) == terms_map(terms).insert(x.0@, x.1),
    decreases terms.len(),
{
    let u = terms.insert(p, x);
    if p == terms.len() {
        assert(u.drop_last() =~= terms);
    } else {
        let init = terms.drop_last();
        lemma_terms_map_insert(init, p, x);
        assert(u.drop_last() =~= init.insert(p, x));
        assert(u.last() == terms.last());
        assert(terms.last().0@ != x.0@);
        assert(terms_map(u) =~= terms_map(terms).insert(x.0@, x.1));
    }
}

/// The human-readable line of an event: `[telemetry] <event>` followed by
/// ` source=<source>` and ` <key>=<value>` parts.
pub open spec fn human_line_spec(e: TelemetryEvent) -> Seq<char> {
    let parts = human_parts_spec(e);
    "[telemetry] "@ + e.event@ + if parts.len() == 0 {
        Seq::<char>::empty()
    } else {
        " "@ + join_spec(parts, " "@)
    }
}

pub open spec fn attribute_text_spec(v: AttributeValue) -> Seq<char> {
    match v {
        AttributeValue::Text(t) => t@,
        AttributeValue::Count(n) => decimal_spec(n as nat),
    }
}

pub open spec fn human_parts_spec(e: TelemetryEvent) -> Seq<Seq<char>> {
    let src: Seq<Seq<char>> = match e.source {
        Some(s) => seq!["source="@ + s@],
        None => Seq::empty(),
    };
    src + e.attributes@.map_values(|a: (String, AttributeValue)| a.0@ + "="@ + attribute_text_spec(a.1))
}

/// Renders an event as a human-readable line.
pub fn render_human(e: &TelemetryEvent) -> (r: String)
    ensures
        r@ == human_line_spec(*e),
{
    let mut parts: Vec<String> = Vec::new();
    if let Some(src) = &e.source {
        let mut p = String::from_str("source=");
        p.append(src.as_str());
        parts.push(p);
    }
    let ghost base = strings_view(parts@);
    let mut i: usize = 0;
    while i < e.attributes.len()
        invariant
            0 <= i <= e.attributes@.len(),
            strings_view(parts@) == base + e.attributes@.subrange(0, i as int).map_values(
                |a: (String, AttributeValue)| a.0@ + "="@ + attribute_text_spec(a.1),
            ),
        decreases e.attributes@.len() - i,
    {
        let (key, value) = &e.attributes[i];
        let mut p = key.clone();
        p.append("=");
        match value {
            AttributeValue::Text(t) => p.append(t.as_str()),
            AttributeValue::Count(n) => {
                let d = u64_to_decimal(*n);
                p.append(d.as_str());
            },
        }
        let ghost before = parts@;
        let ghost pv = p@;
        proof {
            assert(pv == e.attributes@[i as int].0@ + "="@ + attribute_text_spec(e.attributes@[i as int].1));
        }
        parts.push(p);
        proof {
            assert(strings_view(parts@) =~= strings_view(before).push(pv));
            assert(e.attributes@.subrange(0, i + 1) =~= e.attributes@.subrange(0, i as int).push(e.attributes@[i as int]));
            assert(strings_view(parts@) =~= base + e.attributes@.subrange(0, i + 1).map_values(
                |a: (String, AttributeValue)| a.0@ + "="@ + attribute_text_spec(a.1),
            ));
        }
        i = i + 1;
    }
    proof {
        assert(e.attributes@.subrange(0, e.attributes@.len() as int) =~= e.attributes@);
        assert(strings_view(parts@) =~= human_parts_spec(*e));
    }
    let mut line = String::from_str("[telemetry] ");
    line.append(e.event.as_str());
    if parts.len() > 0 {
        line.append(" ");
        let joined = join(&parts, " ");
        line.append(joined.as_str());
    } else {
        assert(line@ + Seq::<char>::empty() =~= line@);
    }
    line
}


/// The lowercase hexadecimal digit of `n` (below 16).
pub open spec fn hex_digit_spec(n: int) -> char {
    if n < 10 {
        (48 + n) as char
    } else {
        (87 + n) as char
    }
}

/// How a character is written inside a JSON string: `"` and `\` and the
/// control characters with a short escape take it, the other control
/// characters below U+0020 become `\u00XX` in lowercase hex, and every
/// other character stands for itself.
pub open spec fn json_char_text(c: char) -> Seq<char> {
    if c == '"' {
        seq!['\\', '"']
    } else if c == '\\' {
        seq!['\\', '\\']
    } else if c == '\x08' {
        seq!['\\', 'b']
    } else if c == '\t' {
        seq!['\\', 't']
    } else if c == '\n' {
        seq!['\\', 'n']
    } else if c == '\x0c' {
        seq!['\\', 'f']
    } else if c == '\r' {
        seq!['\\', 'r']
    } else if (c as int) < 0x20 {
        seq!['\\', 'u', '0', '0', hex_digit_spec((c as int) / 16), hex_digit_spec((c as int) % 16)]
    } else {
        seq![c]
    }
}

/// The characters of `s`, each written as inside a JSON string.
pub open spec fn json_escaped_text(s: Seq<char>) -> Seq<char>
    decreases s.len(),
{
    if s.len() == 0 {
        Seq::empty()
    } else {
        json_escaped_text(s.drop_last()) + json_char_text(s.last())
    }
}

/// The JSON text of a string: quoted, with JSON escapes.
pub open spec fn json_string_text(s: Seq<char>) -> Seq<char> {
    seq!['"'] + json_escaped_text(s) + seq!['"']
}

/// `serde_json::to_string` of a string: the quoted string, each character
/// written as `format_escaped_str_contents` writes it (`json_string_text`).
/// Encoding a string does not fail; the empty text stands for a failure that
/// the source never reports.
#[verifier::external_body]
fn json_quote(s: &str) -> (r: String)
    ensures
        r@ == json_string_text(s@),
{
    match serde_json::to_string(s) {
        Ok(t) => t,
        Err(_) => String::new(),
    }
}

/// Whether attribute keys are strictly ascending, as in a JSON object whose
/// keys are kept sorted.
pub open spec fn attributes_ordered(attrs: Seq<(String, AttributeValue)>) -> bool {
    forall|i: int, j: int| 0 <= i < j < attrs.len() ==> lex_le(attrs[i].0@, attrs[j].0@) && attrs[i].0@ != attrs[j].0@
}

pub open spec fn json_value_spec(v: AttributeValue) -> Seq<char> {
    match v {
        AttributeValue::Text(t) => json_string_text(t@),
        AttributeValue::Count(n) => decimal_spec(n as nat),
    }
}

pub open spec fn json_attribute_spec(a: (String, AttributeValue)) -> Seq<char> {
    json_string_text(a.0@) + ":"@ + json_value_spec(a.1)
}

/// The JSON line of an event: an object with the keys `attributes`, `event`
/// and `source` in that order (`source` is `null` without a source).
pub open spec fn json_line_spec(e: TelemetryEvent) -> Seq<char> {
    "{\"attributes\":{"@ + join_spec(e.attributes@.map_values(|a: (String, AttributeValue)| json_attribute_spec(a)), ","@)
        + "},\"event\":"@ + json_string_text(e.event@) + ",\"source\":"@ + match e.source {
        Some(s) => json_string_text(s@),
        None => "null"@,
    } + "}"@
}

/// Renders an event as a JSON line.
pub fn render_json(e: &TelemetryEvent) -> (r: String)
    requires
        attributes_ordered(e.attributes@),
    ensures
        r@ == json_line_spec(*e),
{
    let mut parts: Vec<String> = Vec::new();
    let mut i: usize = 0;
    while i < e.attributes.len()
        invariant
            0 <= i <= e.attributes@.len(),
            strings_view(parts@) == e.attributes@.subrange(0, i as int).map_values(
                |a: (String, AttributeValue)| json_attribute_spec(a),
            ),
        decreases e.attributes@.len() - i,
    {
        let (key, value) = &e.attributes[i];
        let mut p = json_quote(key.as_str());
        p.append(":");
        match value {
            AttributeValue::Text(t) => {
                let q = json_quote(t.as_str());
                p.append(q.as_str());
            },
            AttributeValue::Count(n) => {
                let d = u64_to_decimal(*n);
                p.append(d.as_str());
            },
        }
        let ghost before = parts@;
        let ghost pv = p@;
        parts.push(p);
        proof {
            assert(strings_view(parts@) =~= strings_view(before).push(pv));
            assert(e.attributes@.subrange(0, i + 1) =~= e.attributes@.subrange(0, i as int).push(e.attributes@[i as int]));
            assert(strings_view(parts@) =~= e.attributes@.subrange(0, i + 1).map_values(
                |a: (String, AttributeValue)| json_attribute_spec(a),
            ));
        }
        i = i + 1;
    }
    proof {
        assert(e.attributes@.subrange(0, e.attributes@.len() as int) =~= e.attributes@);
    }
    let mut line = String::from_str("{\"attributes\":{");
    let joined = join(&parts, ",");
    line.append(joined.as_str());
    line.append("},\"event\":");
    let ev = json_quote(e.event.as_str());
    line.append(ev.as_str());
    line.append(",\"source\":");
    match &e.source {
        Some(s) => {
            let q = json_quote(s.as_str());
            line.append(q.as_str());
        },
        None => line.append("null"),
    }
    line.append("}");
    line
}

/// The line an event is written as in the given format; nothing when silent.
pub fn render_event(format: TelemetryFormat, e: &TelemetryEvent) -> (r: Option<String>)
    requires
        attributes_ordered(e.attributes@),
    ensures
        match format {
            TelemetryFormat::Silent => r is None,
            TelemetryFormat::Json => r matches Some(l) && l@ == json_line_spec(*e),
            TelemetryFormat::Human => r matches Some(l) && l@ == human_line_spec(*e),
        },
{
    match format {
        TelemetryFormat::Silent => None,
        TelemetryFormat::Json => Some(render_json(e)),
        TelemetryFormat::Human => Some(render_human(e)),
    }
}

/// The ASCII-lowercase form of a text (`str::to_ascii_lowercase`).
pub open spec fn ascii_lower_spec(s: Seq<char>) -> Seq<char> {
    s.map_values(|c: char| if 'A' <= c && c <= 'Z' {
        ((c as u8) + 32) as char
    } else {
        c
    })
}

/// The format a `GEMINI_MARKETPLACE_TELEMETRY` setting selects, ignoring
/// ASCII case: `json`; `text` or `human`; `off` or `silent`; anything else,
/// or no setting, is human-readable.
pub open spec fn format_for_setting_spec(setting: Option<Seq<char>>) -> TelemetryFormat {
    match setting {
        Some(v) => {
            let l = ascii_lower_spec(v);
            if l == "json"@ {
                TelemetryFormat::Json
            } else if l == "off"@ || l == "silent"@ {
                TelemetryFormat::Silent
            } else {
                TelemetryFormat::Human
            }
        },
        None => TelemetryFormat::Human,
    }
}

fn ascii_lower(s: &str) -> (r: String)
    ensures
        r@ == ascii_lower_spec(s@),
{
    let cs = crate::text::chars_of(s);
    let mut out: Vec<char> = Vec::new();
    let mut i: usize = 0;
    while i < cs.len()
        invariant
            0 <= i <= cs@.len(),
            cs@ == s@,
            out@ == s@.subrange(0, i as int).map_values(|c: char| if 'A' <= c && c <= 'Z' {
                ((c as u8) + 32) as char
            } else {
                c
            }),
        decreases cs@.len() - i,
    {
        let c = cs[i];
        let l = if 'A' <= c && c <= 'Z' {
            ((c as u8) + 32) as char
        } else {
            c
        };
        out.push(l);
        proof {
            assert(s@.subrange(0, i + 1) =~= s@.subrange(0, i as int).push(c));
            assert(out@ =~= s@.subrange(0, i + 1).map_values(|c: char| if 'A' <= c && c <= 'Z' {
                ((c as u8) + 32) as char
            } else {
                c
            }));
        }
        i = i + 1;
    }
    proof {
        assert(s@.subrange(0, s@.len() as int) =~= s@);
    }
    crate::text::string_from_chars(&out)
}

/// The format selected by a `GEMINI_MARKETPLACE_TELEMETRY` setting.
pub fn format_for_setting(setting: Option<String>) -> (r: TelemetryFormat)
    ensures
        r == format_for_setting_spec(crate::locator::opt_string_view(setting)),
{
    match setting {
        Some(v) => {
            let l = ascii_lower(v.as_str());
            if str_eq(l.as_str(), "json") {
                TelemetryFormat::Json
            } else if str_eq(l.as_str(), "off") || str_eq(l.as_str(), "silent") {
                TelemetryFormat::Silent
            } else {
                TelemetryFormat::Human
            }
        },
        None => TelemetryFormat::Human,
    }
}

} // verus!
