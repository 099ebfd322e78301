//! The parallel search engine: candidates are handed out to a bounded pool
//! of workers, each of which tries the candidates it gets, and the search
//! ends as soon as one of them is accepted or none is left.

use crate::config::pool_size;
use crate::report::found_report;
use crate::report::found_text;
use crate::tester::KeyTester;
use rayon::iter::ParallelBridge;
use rayon::iter::ParallelIterator;
use rayon::ThreadPool;
use rayon::ThreadPoolBuildError;
use rayon::ThreadPoolBuilder;
use vstd::prelude::*;
use vstd::utf8::encode_utf8;

verus! {

/// How a search ended.
#[derive(Clone, Debug, PartialEq, Eq)]
pub enum SearchResult {
    /// A candidate was accepted: its text, as it stood in the source.
    Found(String),
    /// The source ran out and no candidate was accepted.
    Exhausted,
}

impl SearchResult {
    /// The line to write for this result: the candidate that was found, or
    /// nothing at all where the search was exhausted.
    pub fn report(&self) -> (line: Option<String>)
        ensures
            match *self {
                SearchResult::Found(text) => line matches Some(l) && l@ == found_text(text@),
                SearchResult::Exhausted => line is None,
            },
    {
        match self {
            SearchResult::Found(text) => Some(found_report(text.as_str())),
            SearchResult::Exhausted => None,
        }
    }
}

/// Why a search could not be run.
#[derive(Clone, Copy, Debug, PartialEq, Eq, Structural)]
pub enum SearchError {
    /// The worker pool could not be started.
    PoolUnavailable,
}

/// Whether `tester` accepts candidate `i` of `candidates`.
pub open spec fn accepted_at(tester: KeyTester, candidates: Seq<String>, i: int) -> bool {
    tester.accepts(encode_utf8(candidates[i]@))
}

/// Whether `result` is a way for the search of `candidates` to end: with a
/// candidate that is accepted, or, where none is, exhausted. Where several
/// candidates are accepted, any of them may be the one found.
pub open spec fn is_outcome(tester: KeyTester, candidates: Seq<String>, result: SearchResult) -> bool {
    match result {
        SearchResult::Found(text) => exists|i: int|
            0 <= i < candidates.len() && candidates[i]@ == text@ && #[trigger] accepted_at(
                tester,
                candidates,
                i,
            ),
        SearchResult::Exhausted => forall|i: int|
            0 <= i < candidates.len() ==> !#[trigger] accepted_at(tester, candidates, i),
    }
}

/// `rayon::ThreadPool`, a pool of worker threads. It is carried from where
/// it is built to where the search runs in it; nothing is known of what is
/// inside.
#[verifier::external_type_specification]
#[verifier::external_body]
pub struct ExThreadPool(ThreadPool);

/// `rayon::ThreadPoolBuildError`, the error of a pool that did not start.
#[verifier::external_type_specification]
#[verifier::external_body]
pub struct ExThreadPoolBuildError(ThreadPoolBuildError);

/// Starts a pool of workers with `rayon::ThreadPoolBuilder`: `num_threads`,
/// then `build`. Whether the pool starts is up to the machine, so nothing is
/// claimed of the result. With `threads` zero rayon picks the number itself.
#[verifier::external_body]
pub(crate) fn build_pool(threads: usize) -> (pool: Result<ThreadPool, ThreadPoolBuildError>) {
    ThreadPoolBuilder::new().num_threads(threads).build()
}

/// Searches the candidates in `pool`, with rayon's `par_bridge` and
/// `find_any` inside `ThreadPool::install`. `par_bridge` hands each item of
/// the sequence to one worker, `find_any` returns some item for which the
/// test held, stops handing out items once there is one, and returns none
/// only where the test failed on every item. Which of several accepted
/// candidates is returned depends on how the workers are scheduled.
#[verifier::external_body]
pub(crate) fn find_any_accepted(pool: &ThreadPool, tester: &KeyTester, candidates: &Vec<String>) -> (found:
    Option<usize>)
    ensures
        found matches Some(i) ==> i < candidates@.len() && accepted_at(
            *tester,
            candidates@,
            i as int,
        ),
        found is None ==> forall|i: int|
            0 <= i < candidates@.len() ==> !#[trigger] accepted_at(*tester, candidates@, i),
{
    pool.install(
        || {
            candidates.iter().enumerate().par_bridge().find_any(
                |item| tester.test_candidate(item.1.as_str()),
            ).map(|item| item.0)
        },
    )
}

/// The result of a search in which the workers found the candidate at
/// `found`, or none.
pub fn outcome_of(candidates: &Vec<String>, found: Option<usize>) -> (result: SearchResult)
    requires
        found matches Some(i) ==> i < candidates@.len(),
    ensures
        match found {
            Some(i) => result matches SearchResult::Found(text) && text@ == candidates@[i as int]@,
            None => result is Exhausted,
        },
{
    match found {
        Some(i) => SearchResult::Found(candidates[i].clone()),
        None => SearchResult::Exhausted,
    }
}

/// Searches `candidates` with the workers of `pool`.
pub fn search_in(pool: &ThreadPool, tester: &KeyTester, candidates: &Vec<String>) -> (result:
    SearchResult)
    ensures
        is_outcome(*tester, candidates@, result),
{
    let found = find_any_accepted(pool, tester, candidates);
    outcome_of(candidates, found)
}

/// The search once a pool has been asked for: it runs in the pool that
/// started, and fails where none did.
pub fn search_from(
    started: Result<ThreadPool, ThreadPoolBuildError>,
    tester: &KeyTester,
    candidates: &Vec<String>,
) -> (result: Result<SearchResult, SearchError>)
    ensures
        result is Ok <==> started is Ok,
        result matches Ok(ended) ==> is_outcome(*tester, candidates@, ended),
        result matches Err(error) ==> error == SearchError::PoolUnavailable,
{
    match started {
        Ok(pool) => Ok(search_in(&pool, tester, candidates)),
        Err(_) => Err(SearchError::PoolUnavailable),
    }
}

/// Searches `candidates` for one that `tester` accepts, with a pool of as
/// many workers as `threads` asks for and the machine has. The pool lives
/// for this one search. A source without candidates is exhausted at once:
/// it needs no worker, so the search of it cannot fail. Any other search
/// fails where the machine does not start the pool, and only there.
pub fn search(tester: &KeyTester, candidates: &Vec<String>, threads: Option<usize>) -> (result:
    Result<SearchResult, SearchError>)
    ensures
        result matches Ok(ended) ==> is_outcome(*tester, candidates@, ended),
        result matches Err(error) ==> error == SearchError::PoolUnavailable,
        candidates@.len() == 0 ==> result == Ok::<SearchResult, SearchError>(
            SearchResult::Exhausted,
        ),
{
    if candidates.len() == 0 {
        return Ok(SearchResult::Exhausted);
    }
    let size = pool_size(threads);
    search_from(build_pool(size), tester, candidates)
}

/// Where exactly one text among the candidates is accepted, the search
/// finds that text, wherever it stands and however often.
pub proof fn lemma_only_key_is_found(
    tester: KeyTester,
    candidates: Seq<String>,
    result: SearchResult,
    k: int,
)
    requires
        is_outcome(tester, candidates, result),
        0 <= k < candidates.len(),
        accepted_at(tester, candidates, k),
        forall|i: int|
            0 <= i < candidates.len() && #[trigger] accepted_at(tester, candidates, i)
                ==> candidates[i]@ == candidates[k]@,
    ensures
        result matches SearchResult::Found(text) && text@ == candidates[k]@,
{
}

/// Where no candidate is accepted, the search ends exhausted and finds
/// nothing; so does the search of no candidates at all.
pub proof fn lemma_no_key_is_exhausted(tester: KeyTester, candidates: Seq<String>, result: SearchResult)
    requires
        is_outcome(tester, candidates, result),
        forall|i: int| 0 <= i < candidates.len() ==> !#[trigger] accepted_at(tester, candidates, i),
    ensures
        result is Exhausted,
{
}

/// Whatever is found was a candidate and is accepted: nothing else is
/// ever reported as found.
pub proof fn lemma_found_is_accepted(tester: KeyTester, candidates: Seq<String>, result: SearchResult)
    requires
        is_outcome(tester, candidates, result),
    ensures
        result matches SearchResult::Found(text) ==> tester.accepts(encode_utf8(text@)) && exists|
            i: int,
        |
            0 <= i < candidates.len() && #[trigger] candidates[i]@ == text@,
{
    if let SearchResult::Found(text) = result {
        let i = choose|i: int|
            0 <= i < candidates.len() && candidates[i]@ == text@ && #[trigger] accepted_at(
                tester,
                candidates,
                i,
            );
        assert(candidates[i]@ == text@);
    }
}

} // verus!
