use vstd::prelude::*;

use crate::path::{clean_path, cleaned};

verus! {

/// How many matches are held back before they go out together.
pub const MAX_RESULTS_PER_BATCH: usize = 20;

/// How many matches one search delivers at most.
pub const MAX_TOTAL_RESULTS: usize = 100;

/// An entry met by the directory walk. `path` is the canonical path where the
/// walker could resolve it, else the path as walked.
#[derive(Debug, PartialEq, Eq)]
pub struct WalkEntry {
    pub name: String,
    pub path: String,
    pub is_file: bool,
    pub size: u64,
    pub modified: u64,
}

/// What a search reports, in the order it reports it.
#[derive(Debug, PartialEq, Eq)]
pub enum SearchEvent {
    Started { query: String, search_id: u32 },
    Result {
        search_id: u32,
        path: String,
        name: String,
        is_file: bool,
        size: u64,
        modified: u64,
    },
    Finished { search_id: u32, total_matches: usize, has_more: bool },
}

/// A search event with its text as characters.
pub enum SearchEventView {
    Started { query: Seq<char>, search_id: u32 },
    Result {
        search_id: u32,
        path: Seq<char>,
        name: Seq<char>,
        is_file: bool,
        size: u64,
        modified: u64,
    },
    Finished { search_id: u32, total_matches: nat, has_more: bool },
}

impl View for SearchEvent {
    type V = SearchEventView;

    open spec fn view(&self) -> SearchEventView {
        match self {
            SearchEvent::Started { query, search_id } => SearchEventView::Started {
                query: query@,
                search_id: *search_id,
            },
            SearchEvent::Result { search_id, path, name, is_file, size, modified } =>
                SearchEventView::Result {
                search_id: *search_id,
                path: path@,
                name: name@,
                is_file: *is_file,
                size: *size,
                modified: *modified,
            },
            SearchEvent::Finished { search_id, total_matches, has_more } =>
                SearchEventView::Finished {
                search_id: *search_id,
                total_matches: *total_matches as nat,
                has_more: *has_more,
            },
        }
    }
}

pub open spec fn events_view(evs: Seq<SearchEvent>) -> Seq<SearchEventView> {
    evs.map_values(|e: SearchEvent| e@)
}

/// What `str::to_lowercase` makes of a text.
pub uninterp spec fn lower_of(s: Seq<char>) -> Seq<char>;

/// Relies on `str::to_lowercase`: its result depends on the characters alone.
#[verifier::external_body]
fn lowercase(s: &str) -> (r: String)
    ensures
        r@ == lower_of(s@),
{
    s.to_lowercase()
}

/// `q` occurs in `s` as a run of consecutive characters.
pub open spec fn has_infix(s: Seq<char>, q: Seq<char>) -> bool {
    exists|i: int| 0 <= i && i + q.len() <= s.len() && #[trigger] s.subrange(i, i + q.len()) == q
}

/// Relies on `str::contains` with a `&str` pattern: true exactly when `q`
/// occurs in `s` as a contiguous run.
#[verifier::external_body]
fn contains_str(s: &str, q: &str) -> (r: bool)
    ensures
        r == has_infix(s@, q@),
{
    s.contains(q)
}

/// Whether a file name, already lowercased, holds the lowercased query.
pub fn matches_lowered(name_lower: &str, needle: &str) -> (r: bool)
    ensures
        r == has_infix(name_lower@, needle@),
{
    contains_str(name_lower, needle)
}

/// A file name matches when its lowercase form holds the (lowercased) needle.
pub open spec fn name_matches(needle: Seq<char>, name: Seq<char>) -> bool {
    has_infix(lower_of(name), needle)
}

/// Whether `name` matches the lowercased query `needle`.
pub fn name_matches_query(needle: &str, name: &str) -> (r: bool)
    ensures
        r == name_matches(needle@, name@),
{
    let lower = lowercase(name);
    matches_lowered(lower.as_str(), needle)
}

/// The entries of `es` whose names match, in walk order.
pub open spec fn matching(needle: Seq<char>, es: Seq<WalkEntry>) -> Seq<WalkEntry>
    decreases es.len(),
{
    if es.len() == 0 {
        Seq::empty()
    } else {
        let found = matching(needle, es.drop_last());
        if name_matches(needle, es.last().name@) {
            found.push(es.last())
        } else {
            found
        }
    }
}

/// How many of `total` matches are delivered.
pub open spec fn sent_count(total: nat) -> nat {
    if total <= MAX_TOTAL_RESULTS {
        total
    } else {
        MAX_TOTAL_RESULTS as nat
    }
}

/// How many of `total` matches have gone out in full batches while the walk goes on.
pub open spec fn flushed_count(total: nat) -> nat {
    (sent_count(total) / (MAX_RESULTS_PER_BATCH as nat)) * (MAX_RESULTS_PER_BATCH as nat)
}

/// The event that reports a match.
pub open spec fn result_view(search_id: u32, e: WalkEntry) -> SearchEventView {
    SearchEventView::Result {
        search_id,
        path: cleaned(e.path@),
        name: e.name@,
        is_file: e.is_file,
        size: e.size,
        modified: e.modified,
    }
}

pub open spec fn results_view(search_id: u32, es: Seq<WalkEntry>) -> Seq<SearchEventView> {
    es.map_values(|e: WalkEntry| result_view(search_id, e))
}

/// The whole stream of one search for `query` over the walk `es`.
pub open spec fn search_stream(search_id: u32, query: Seq<char>, es: Seq<WalkEntry>) -> Seq<
    SearchEventView,
> {
    let found = matching(lower_of(query), es);
    let sent = sent_count(found.len());
    seq![SearchEventView::Started { query, search_id }] + results_view(
        search_id,
        found.take(sent as int),
    ) + seq![
        SearchEventView::Finished {
            search_id,
            total_matches: found.len(),
            has_more: found.len() > sent,
        },
    ]
}

pub proof fn lemma_matching_len(needle: Seq<char>, es: Seq<WalkEntry>)
    ensures
        matching(needle, es).len() <= es.len(),
    decreases es.len(),
{
    if es.len() > 0 {
        lemma_matching_len(needle, es.drop_last());
    }
}

/// Feeding one more entry extends the matches by it exactly when its name matches.
pub proof fn lemma_matching_push(needle: Seq<char>, es: Seq<WalkEntry>, e: WalkEntry)
    ensures
        matching(needle, es.push(e)) == if name_matches(needle, e.name@) {
            matching(needle, es).push(e)
        } else {
            matching(needle, es)
        },
{
    assert(es.push(e).drop_last() =~= es);
}

/// Counts of flushed and delivered matches grow with the count of matches and
/// never pass it.
pub proof fn lemma_counts_monotone(a: nat, b: nat)
    requires
        a <= b,
    ensures
        flushed_count(a) <= flushed_count(b),
        flushed_count(b) <= sent_count(b),
        sent_count(a) <= sent_count(b),
        sent_count(b) <= b,
{
}

fn result_event(search_id: u32, e: WalkEntry) -> (r: SearchEvent)
    ensures
        r@ == result_view(search_id, e),
{
    let path = clean_path(e.path);
    SearchEvent::Result {
        search_id,
        path,
        name: e.name,
        is_file: e.is_file,
        size: e.size,
        modified: e.modified,
    }
}

/// One search in progress. It is fed the walk's entries one at a time and
/// hands back the events to send, holding matches back until a batch is full.
pub struct SearchEngine {
    search_id: u32,
    query: String,
    needle: String,
    pending: Vec<WalkEntry>,
    sent: usize,
    total: usize,
    seen: Ghost<Seq<WalkEntry>>,
}

impl SearchEngine {
    pub closed spec fn spec_search_id(&self) -> u32 {
        self.search_id
    }

    pub closed spec fn spec_query(&self) -> Seq<char> {
        self.query@
    }

    /// The entries fed so far, in walk order.
    pub closed spec fn seen(&self) -> Seq<WalkEntry> {
        self.seen@
    }

    /// The matches among the entries fed so far.
    pub open spec fn found(&self) -> Seq<WalkEntry> {
        matching(lower_of(self.spec_query()), self.seen())
    }

    pub closed spec fn wf(&self) -> bool {
        &&& self.needle@ == lower_of(self.query@)
        &&& self.total as nat == self.found().len()
        &&& self.sent as nat == flushed_count(self.total as nat)
        &&& self.pending@ == self.found().subrange(
            self.sent as int,
            sent_count(self.total as nat) as int,
        )
    }

    /// A search for `query` that has seen nothing yet.
    pub fn new(search_id: u32, query: String) -> (r: SearchEngine)
        ensures
            r.wf(),
            r.spec_search_id() == search_id,
            r.spec_query() == query@,
            r.seen() == Seq::<WalkEntry>::empty(),
    {
        let needle = lowercase(query.as_str());
        let r = SearchEngine {
            search_id,
            query,
            needle,
            pending: Vec::new(),
            sent: 0,
            total: 0,
            seen: Ghost(Seq::empty()),
        };
        proof {
            assert(r.pending@ =~= r.found().subrange(0, 0));
        }
        r
    }

    /// The event that opens the search's stream.
    pub fn started_event(&self) -> (r: SearchEvent)
        ensures
            r@ == (SearchEventView::Started {
                query: self.spec_query(),
                search_id: self.spec_search_id(),
            }),
    {
        SearchEvent::Started { query: self.query.clone(), search_id: self.search_id }
    }

    /// Matches counted so far, delivered or not.
    pub fn total_matches(&self) -> (r: usize)
        requires
            self.wf(),
        ensures
            r == self.found().len(),
    {
        self.total
    }

    /// Turns the held-back matches into events.
    fn flush(&mut self) -> (r: Vec<SearchEvent>)
        requires
            old(self).sent + old(self).pending@.len() <= MAX_TOTAL_RESULTS,
        ensures
            events_view(r@) == results_view(old(self).search_id, old(self).pending@),
            final(self).pending@ == Seq::<WalkEntry>::empty(),
            final(self).sent == old(self).sent + old(self).pending@.len(),
            final(self).search_id == old(self).search_id,
            final(self).query == old(self).query,
            final(self).needle == old(self).needle,
            final(self).total == old(self).total,
            final(self).seen == old(self).seen,
    {
        let mut batch: Vec<WalkEntry> = Vec::new();
        std::mem::swap(&mut batch, &mut self.pending);
        let n = batch.len();
        let mut out: Vec<SearchEvent> = Vec::new();
        for e in it: batch
            invariant
                events_view(out@) == results_view(self.search_id, it.seq().take(it.index() as int)),
                it.seq() == batch@,
        {
            proof {
                assert(it.seq().take(it.index() + 1) =~= it.seq().take(it.index() as int).push(e));
            }
            let ghost prev = out@;
            let ghost taken = it.seq().take(it.index() as int);
            let ghost ge = e;
            let ev = result_event(self.search_id, e);
            out.push(ev);
            proof {
                assert(out@ =~= prev.push(ev));
                assert(events_view(out@) =~= events_view(prev).push(ev@));
                assert(results_view(self.search_id, taken.push(ge)) =~= results_view(
                    self.search_id,
                    taken,
                ).push(result_view(self.search_id, ge)));
            }
        }
        self.sent = self.sent + n;
        proof {
            assert(batch@.take(batch@.len() as int) =~= batch@);
        }
        out
    }

    /// Feeds the next entry of the walk. A match is counted whatever the cap;
    /// while under the cap it is held back, and a full batch goes out at once.
    pub fn on_entry(&mut self, entry: WalkEntry) -> (r: Vec<SearchEvent>)
        requires
            old(self).wf(),
            old(self).found().len() < usize::MAX,
        ensures
            final(self).wf(),
            final(self).spec_search_id() == old(self).spec_search_id(),
            final(self).spec_query() == old(self).spec_query(),
            final(self).seen() == old(self).seen().push(entry),
            events_view(r@) == results_view(
                old(self).spec_search_id(),
                final(self).found().subrange(
                    flushed_count(old(self).found().len()) as int,
                    flushed_count(final(self).found().len()) as int,
                ),
            ),
    {
        let ghost old_found = self.found();
        let ghost seen = self.seen@.push(entry);
        proof {
            assert(seen.drop_last() =~= self.seen@);
        }
        let matched = name_matches_query(self.needle.as_str(), entry.name.as_str());
        self.seen = Ghost(seen);
        let mut out: Vec<SearchEvent> = Vec::new();
        if matched {
            assert(self.found() == old_found.push(entry));
            if self.total < MAX_TOTAL_RESULTS {
                self.pending.push(entry);
                assert(self.pending@ =~= self.found().subrange(
                    self.sent as int,
                    sent_count((self.total + 1) as nat) as int,
                ));
            } else {
                assert(self.pending@ =~= self.found().subrange(
                    self.sent as int,
                    sent_count((self.total + 1) as nat) as int,
                ));
            }
            self.total = self.total + 1;
            if self.pending.len() == MAX_RESULTS_PER_BATCH {
                out = self.flush();
                assert(self.pending@ =~= self.found().subrange(
                    self.sent as int,
                    sent_count(self.total as nat) as int,
                ));
            }
        } else {
            assert(self.found() == old_found);
        }
        out
    }

    /// Ends the search: sends what is still held back, then the closing event.
    pub fn finish(self) -> (r: Vec<SearchEvent>)
        requires
            self.wf(),
        ensures
            events_view(r@) == results_view(
                self.spec_search_id(),
                self.found().subrange(
                    flushed_count(self.found().len()) as int,
                    sent_count(self.found().len()) as int,
                ),
            ).push(
                SearchEventView::Finished {
                    search_id: self.spec_search_id(),
                    total_matches: self.found().len(),
                    has_more: self.found().len() > sent_count(self.found().len()),
                },
            ),
    {
        let mut engine = self;
        let mut out = engine.flush();
        let ghost prev = out@;
        let has_more = engine.total > engine.sent;
        let fin = SearchEvent::Finished {
            search_id: engine.search_id,
            total_matches: engine.total,
            has_more,
        };
        out.push(fin);
        proof {
            assert(out@ =~= prev.push(fin));
            assert(events_view(out@) =~= events_view(prev).push(fin@));
        }
        out
    }
}

/// Runs one search over a finished walk: the opening event, the matches in walk
/// order up to the cap, and the closing event with the full count.
pub fn search_files(query: String, search_id: u32, entries: Vec<WalkEntry>) -> (r: Vec<
    SearchEvent,
>)
    ensures
        events_view(r@) == search_stream(search_id, query@, entries@),
{
    let ghost q = query@;
    let mut engine = SearchEngine::new(search_id, query);
    let mut out: Vec<SearchEvent> = Vec::new();
    out.push(engine.started_event());
    let ghost started = seq![SearchEventView::Started { query: q, search_id }];
    proof {
        assert(events_view(out@) =~= started);
        assert(engine.found() =~= Seq::<WalkEntry>::empty());
        assert(started =~= started + results_view(
            search_id,
            engine.found().take(flushed_count(0) as int),
        ));
    }
    let n: usize = entries.len();
    for e in it: entries
        invariant
            it.seq() == entries@,
            entries@.len() == n,
            engine.wf(),
            engine.spec_search_id() == search_id,
            engine.spec_query() == q,
            engine.seen() == it.seq().take(it.index() as int),
            events_view(out@) == started + results_view(
                search_id,
                engine.found().take(flushed_count(engine.found().len()) as int),
            ),
    {
        proof {
            lemma_matching_len(lower_of(q), engine.seen());
        }
        let ghost before = engine.found();
        let ghost prev = out@;
        assert(it.index() < n);
        let mut batch = engine.on_entry(e);
        let ghost got = batch@;
        out.append(&mut batch);
        proof {
            let after = engine.found();
            let a = flushed_count(before.len());
            let b = flushed_count(after.len());
            lemma_matching_push(lower_of(q), it.seq().take(it.index() as int), e);
            assert(after.subrange(0, before.len() as int) =~= before);
            lemma_counts_monotone(before.len(), after.len());
            assert(after.take(b as int) =~= before.take(a as int) + after.subrange(a as int, b as int));
            assert(out@ =~= prev + got);
            assert(events_view(out@) =~= events_view(prev) + events_view(got));
            assert(engine.seen() =~= it.seq().take(it.index() + 1));
        }
    }
    proof {
        assert(engine.seen() =~= entries@);
    }
    let ghost found = engine.found();
    let ghost prev = out@;
    let mut tail = engine.finish();
    let ghost got = tail@;
    out.append(&mut tail);
    proof {
        let a = flushed_count(found.len());
        let b = sent_count(found.len());
        lemma_counts_monotone(found.len(), found.len());
        assert(found.take(b as int) =~= found.take(a as int) + found.subrange(a as int, b as int));
        assert(out@ =~= prev + got);
        assert(events_view(out@) =~= events_view(prev) + events_view(got));
    }
    out
}

} // verus!
