//! The search worker's protocol and its scheduling: generation-tagged queries land
//! latest-wins, picks are recorded in arrival order, and a query that arrives before the
//! engine's first scan completes as `Indexing` and waits to run again. The engine itself
//! (matching, ranking, indexing, the scan) and the channels are the front end's.

use vstd::prelude::*;

use crate::text::{all_ws, is_blank, owned, push_string, views};

verus! {

/// The most path results one query fetches.
pub const FILE_LIMIT: usize = 50;

/// The most content results one query fetches.
pub const CODE_LIMIT: usize = 200;

/// The longest one content search may run, in milliseconds.
pub const GREP_BUDGET_MS: u64 = 80;

/// How long a worker with a query waiting for the scan waits for the next request before
/// checking the scan again, in milliseconds.
pub const WARMUP_POLL_MS: u64 = 50;

/// One request to the worker.
#[derive(Debug)]
pub enum SearchJob {
    /// Run `query`; the completion echoes the generation back.
    Query { generation: u64, query: String },
    /// Record a picked result, so ranking improves with use.
    Track { path: String },
}

/// A path match, in engine order.
#[derive(Clone, Debug, PartialEq, Eq)]
pub struct FileHit {
    pub path: String,
    /// Byte spans into `path` the engine matched.
    pub spans: Vec<(u32, u32)>,
}

/// A content match, in engine order.
#[derive(Clone, Debug, PartialEq, Eq)]
pub struct CodeHit {
    pub path: String,
    /// 1-based line number.
    pub line: u64,
    pub text: String,
    /// Byte spans into `text` the engine matched.
    pub spans: Vec<(u32, u32)>,
}

/// One query's results, both groups. `file_total` is the engine's full match count;
/// `code_more` marks a content search the page cap or time budget cut short.
#[derive(Clone, Debug, Default, PartialEq, Eq)]
pub struct SearchResults {
    pub files: Vec<FileHit>,
    pub code: Vec<CodeHit>,
    pub file_total: usize,
    pub code_more: bool,
}

/// A finished query's outcome.
#[derive(Debug)]
pub enum SearchOutcome {
    /// Results for the query.
    Ready(SearchResults),
    /// The engine's first scan is still running; the query runs again when it lands.
    Indexing,
    /// The engine failed; its message.
    Failed(String),
}

/// A finished query: the generation it ran for, and its outcome.
#[derive(Debug)]
pub struct SearchCompletion {
    pub generation: u64,
    pub outcome: SearchOutcome,
}

/// The paths of the picks among `jobs`, in order.
pub open spec fn tracks_of(jobs: Seq<SearchJob>) -> Seq<Seq<char>>
    decreases jobs.len(),
{
    if jobs.len() == 0 {
        Seq::empty()
    } else {
        let rest = tracks_of(jobs.drop_last());
        match jobs.last() {
            SearchJob::Track { path } => rest.push(path@),
            SearchJob::Query { .. } => rest,
        }
    }
}

/// The last query among `jobs`, as its generation and text.
pub open spec fn last_query(jobs: Seq<SearchJob>) -> Option<(u64, Seq<char>)>
    decreases jobs.len(),
{
    if jobs.len() == 0 {
        None
    } else {
        match jobs.last() {
            SearchJob::Query { generation, query } => Some((generation, query@)),
            SearchJob::Track { .. } => last_query(jobs.drop_last()),
        }
    }
}

/// What one round of the worker does: record these picks, in order, then run this query.
#[derive(Debug)]
pub struct SearchRound {
    pub tracks: Vec<String>,
    pub run: Option<(u64, String)>,
}

/// The worker's scheduling state: the query waiting for the first scan to land.
#[derive(Debug)]
pub struct SearchWorker {
    pub pending: Option<(u64, String)>,
}

/// The query as its generation and text.
pub open spec fn query_view(q: Option<(u64, String)>) -> Option<(u64, Seq<char>)> {
    match q {
        Some((g, s)) => Some((g, s@)),
        None => None,
    }
}

impl SearchWorker {
    /// Nothing waiting.
    pub fn new() -> (w: SearchWorker)
        ensures
            w.pending is None,
    {
        SearchWorker { pending: None }
    }

    /// Whether a query waits for the scan, so the worker should wake to check it.
    pub fn waiting(&self) -> (b: bool)
        ensures
            b == self.pending is Some,
    {
        self.pending.is_some()
    }

    /// One round over the requests that arrived, in order: every pick is recorded, and the
    /// newest query runs, superseding a waiting one; with no new query the waiting one runs.
    /// Either way nothing waits afterwards.
    pub fn round(&mut self, jobs: Vec<SearchJob>) -> (r: SearchRound)
        ensures
            views(r.tracks@) == tracks_of(jobs@),
            query_view(r.run) == (match last_query(jobs@) {
                Some(q) => Some(q),
                None => query_view(old(self).pending),
            }),
            final(self).pending is None,
    {
        let mut tracks: Vec<String> = Vec::new();
        let mut job: Option<(u64, String)> = None;
        let mut i: usize = 0;
        while i < jobs.len()
            invariant
                i <= jobs@.len(),
                views(tracks@) == tracks_of(jobs@.take(i as int)),
                query_view(job) == last_query(jobs@.take(i as int)),
            decreases jobs@.len() - i,
        {
            proof {
                assert(jobs@.take(i + 1).drop_last() =~= jobs@.take(i as int));
                assert(jobs@.take(i + 1).last() == jobs@[i as int]);
            }
            match &jobs[i] {
                SearchJob::Query { generation, query } => {
                    job = Some((*generation, owned(query.as_str())));
                },
                SearchJob::Track { path } => {
                    push_string(&mut tracks, owned(path.as_str()));
                },
            }
            i = i + 1;
        }
        proof {
            assert(jobs@.take(jobs@.len() as int) =~= jobs@);
        }
        let run = match job {
            Some(j) => {
                self.pending = None;
                Some(j)
            },
            None => self.pending.take(),
        };
        SearchRound { tracks, run }
    }

    /// Park `query` until the scan lands; what to answer now: `Indexing` for its generation.
    pub fn park(&mut self, generation: u64, query: String) -> (c: SearchCompletion)
        ensures
            query_view(final(self).pending) == Some((generation, query@)),
            c.generation == generation,
            c.outcome is Indexing,
    {
        self.pending = Some((generation, query));
        SearchCompletion { generation, outcome: SearchOutcome::Indexing }
    }
}

/// Whether a query runs without its content group: a blank query shows the ranked paths
/// alone.
pub fn paths_only(raw: &str) -> (b: bool)
    ensures
        b == all_ws(raw@),
{
    is_blank(raw)
}

/// The path group's full count: the engine's match count, never fewer than the rows shown.
pub fn file_total(total_matched: usize, shown: usize) -> (t: usize)
    ensures
        t == (if total_matched >= shown { total_matched } else { shown }),
{
    if total_matched >= shown {
        total_matched
    } else {
        shown
    }
}

} // verus!
