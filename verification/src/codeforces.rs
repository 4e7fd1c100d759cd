//! What Codeforces answers: the problem set, its cached copy, and a user's submissions.

use vstd::prelude::*;

use std::collections::HashMap;

use crate::clock::unix_seconds;
use crate::paths::{rune_file, StatePath};
use crate::text;

verus! {

broadcast use vstd::std_specs::hash::group_hash_axioms;

/// How long a cached problem set stays fresh, in seconds.
pub const CACHE_TTL_SECS: u64 = 86400;

/// A problem of the problem set.
#[derive(Debug, Clone)]
pub struct CfProblem {
    pub contest_id: Option<u32>,
    pub index: String,
    pub name: String,
    pub rating: Option<i32>,
    pub tags: Vec<String>,
}

#[verifier::ext_equal]
pub struct CfProblemView {
    pub contest_id: Option<u32>,
    pub index: Seq<char>,
    pub name: Seq<char>,
    pub rating: Option<i32>,
    pub tags: Seq<Seq<char>>,
}

impl View for CfProblem {
    type V = CfProblemView;

    open spec fn view(&self) -> CfProblemView {
        CfProblemView {
            contest_id: self.contest_id,
            index: self.index@,
            name: self.name@,
            rating: self.rating,
            tags: text::texts(self.tags@),
        }
    }
}

/// The problems of a list.
pub open spec fn problems_view(list: Seq<CfProblem>) -> Seq<CfProblemView> {
    Seq::new(list.len(), |i: int| list[i]@)
}

/// A submission of a user.
#[derive(Debug, Clone)]
pub struct CfSubmission {
    pub problem: CfProblem,
    pub verdict: Option<String>,
}

/// An answer of the API.
#[derive(Debug, Clone)]
pub enum CfResponse<T> {
    Succeeded { result: T },
    Failed { comment: String },
}

/// What came of a request to the API.
#[derive(Debug, Clone)]
pub enum ApiReply<T> {
    /// The request or its transport failed.
    Unreachable(String),
    /// The answer could not be decoded.
    Unreadable(String),
    Answered(CfResponse<T>),
}

/// The error that a reply amounts to, if any.
pub open spec fn reply_error<T>(reply: ApiReply<T>) -> Option<Seq<char>> {
    match reply {
        ApiReply::Unreachable(e) => Some("network: "@ + e@),
        ApiReply::Unreadable(e) => Some("parse: "@ + e@),
        ApiReply::Answered(CfResponse::Failed { comment }) => Some("CF API: "@ + comment@),
        ApiReply::Answered(CfResponse::Succeeded { result }) => None,
    }
}

/// The problem set as it was fetched at some time.
#[derive(Debug, Clone)]
pub struct ProblemsetCache {
    pub fetched_at: u64,
    pub problems: Vec<CfProblem>,
}

/// The problems that a user has solved, as pairs of contest and index.
#[derive(Debug)]
pub struct SolvedSet {
    by_contest: HashMap<u32, Vec<String>>,
}

impl View for SolvedSet {
    type V = Set<(u32, Seq<char>)>;

    closed spec fn view(&self) -> Set<(u32, Seq<char>)> {
        Set::new(
            |key: (u32, Seq<char>)|
                self.by_contest@.contains_key(key.0) && text::texts(
                    self.by_contest@[key.0]@,
                ).contains(key.1),
        )
    }
}

/// Whether `wanted` is one of the strings of `list`.
pub fn list_has(list: &[String], wanted: &String) -> (r: bool)
    ensures
        r == text::texts(list@).contains(wanted@),
{
    let mut i: usize = 0;
    while i < list.len()
        invariant
            i <= list.len(),
            forall|k: int| 0 <= k < i ==> (#[trigger] list@[k])@ != wanted@,
        decreases list.len() - i,
    {
        if list[i] == *wanted {
            proof {
                assert(text::texts(list@)[i as int] == wanted@);
            }
            return true;
        }
        i += 1;
    }
    proof {
        assert forall|k: int| 0 <= k < list@.len() implies #[trigger] text::texts(list@)[k]
            != wanted@ by {
            assert(list@[k]@ != wanted@);
        }
    }
    false
}

impl SolvedSet {
    /// No problem solved yet.
    pub fn new() -> (r: SolvedSet)
        ensures
            r@ == Set::<(u32, Seq<char>)>::empty(),
    {
        let r = SolvedSet { by_contest: HashMap::new() };
        proof {
            assert(r@ =~= Set::<(u32, Seq<char>)>::empty());
        }
        r
    }

    /// Adds a problem.
    pub fn insert(&mut self, key: (u32, String))
        ensures
            final(self)@ == old(self)@.insert((key.0, key.1@)),
    {
        let mut list: Vec<String> = match self.by_contest.remove(&key.0) {
            Some(list) => list,
            None => Vec::new(),
        };
        let ghost before = list@;
        let ghost name = key.1@;
        list.push(key.1);
        proof {
            assert forall|t: Seq<char>|
                text::texts(list@).contains(t) == (text::texts(before).contains(t) || t == name) by {
                if text::texts(list@).contains(t) {
                    let k = choose|k: int|
                        0 <= k < text::texts(list@).len() && text::texts(list@)[k] == t;
                    if k < before.len() {
                        assert(text::texts(before)[k] == t);
                    }
                }
                if text::texts(before).contains(t) {
                    let k = choose|k: int|
                        0 <= k < text::texts(before).len() && text::texts(before)[k] == t;
                    assert(text::texts(list@)[k] == t);
                }
                assert(text::texts(list@)[before.len() as int] == name);
            }
        }
        let _ = self.by_contest.insert(key.0, list);
        proof {
            let m0 = old(self).by_contest@;
            let m1 = self.by_contest@;
            assert(m1 =~= m0.insert(key.0, list));
            assert forall|k: (u32, Seq<char>)| self@.contains(k) == old(self)@.insert(
                (key.0, name),
            ).contains(k) by {
                if k.0 == key.0 {
                    assert(text::texts(list@).contains(k.1) == (text::texts(before).contains(k.1)
                        || k.1 == name));
                    if !m0.contains_key(key.0) {
                        assert(text::texts(before) =~= Seq::<Seq<char>>::empty());
                    }
                }
            }
            assert(self@ =~= old(self)@.insert((key.0, name)));
        }
    }

    /// Whether a problem is among them.
    pub fn contains(&self, contest_id: u32, index: &String) -> (r: bool)
        ensures
            r == self@.contains((contest_id, index@)),
    {
        match self.by_contest.get(&contest_id) {
            Some(list) => list_has(list.as_slice(), index),
            None => false,
        }
    }
}

/// The result of a reply, or the error message that it amounts to.
pub fn api_result<T>(reply: ApiReply<T>) -> (r: Result<T, String>)
    ensures
        match r {
            Ok(value) => reply == ApiReply::<T>::Answered(
                CfResponse::Succeeded { result: value },
            ),
            Err(message) => reply_error(reply) == Some(message@),
        },
{
    match reply {
        ApiReply::Unreachable(e) => {
            let mut message = "network: ".to_string();
            message.append(e.as_str());
            Err(message)
        },
        ApiReply::Unreadable(e) => {
            let mut message = "parse: ".to_string();
            message.append(e.as_str());
            Err(message)
        },
        ApiReply::Answered(CfResponse::Failed { comment }) => {
            let mut message = "CF API: ".to_string();
            message.append(comment.as_str());
            Err(message)
        },
        ApiReply::Answered(CfResponse::Succeeded { result }) => Ok(result),
    }
}

/// Where a user's submissions are asked for: all that they have ever made, since no number is
/// given.
pub fn user_status_url(handle: &str) -> (r: String)
    ensures
        r@ == "https://codeforces.com/api/user.status?handle="@ + handle@,
{
    let mut url = "https://codeforces.com/api/user.status?handle=".to_string();
    url.append(handle);
    url
}

/// The problem that a submission solves: one with a contest, if the verdict is `OK`.
pub open spec fn solves(s: CfSubmission) -> Option<(u32, Seq<char>)> {
    match (s.verdict, s.problem.contest_id) {
        (Some(verdict), Some(contest_id)) => if verdict@ == "OK"@ {
            Some((contest_id, s.problem.index@))
        } else {
            None
        },
        _ => None,
    }
}

/// The problems that the submissions solve.
pub open spec fn solved_by(list: Seq<CfSubmission>) -> Set<(u32, Seq<char>)> {
    Set::new(
        |key: (u32, Seq<char>)|
            exists|i: int| 0 <= i < list.len() && solves(#[trigger] list[i]) == Some(key),
    )
}

/// Collects the problems that the submissions solve.
pub fn solved_problems(list: Vec<CfSubmission>) -> (r: SolvedSet)
    ensures
        r@ == solved_by(list@),
{
    let accepted = "OK".to_string();
    let mut r = SolvedSet::new();
    let mut i: usize = 0;
    proof {
        assert(solved_by(list@.take(0)) =~= Set::empty());
    }
    while i < list.len()
        invariant
            i <= list.len(),
            accepted@ == "OK"@,
            r@ == solved_by(list@.take(i as int)),
        decreases list.len() - i,
    {
        let ghost before = list@.take(i as int);
        let ghost after = list@.take(i + 1);
        let ghost had = r@;
        if let Some(verdict) = &list[i].verdict {
            if *verdict == accepted {
                if let Some(contest_id) = list[i].problem.contest_id {
                    r.insert((contest_id, list[i].problem.index.clone()));
                }
            }
        }
        proof {
            let one = solves(list@[i as int]);
            assert(r@ == match one {
                Some(key) => had.insert(key),
                None => had,
            });
            assert forall|key: (u32, Seq<char>)|
                r@.contains(key) == #[trigger] solved_by(after).contains(key) by {
                if solved_by(after).contains(key) {
                    let k = choose|k: int|
                        0 <= k < after.len() && solves(#[trigger] after[k]) == Some(key);
                    if k < i {
                        assert(before[k] == after[k]);
                    }
                }
                if had.contains(key) {
                    let k = choose|k: int|
                        0 <= k < before.len() && solves(#[trigger] before[k]) == Some(key);
                    assert(before[k] == after[k]);
                }
                assert(after[i as int] == list@[i as int]);
            }
            assert(r@ =~= solved_by(after));
        }
        i += 1;
    }
    proof {
        assert(list@.take(list.len() as int) =~= list@);
    }
    r
}

/// The problems that a user has solved, from the reply to a request for their submissions.
pub fn solved_result(reply: ApiReply<Vec<CfSubmission>>) -> (r: Result<SolvedSet, String>)
    ensures
        match r {
            Ok(solved) => exists|list: Vec<CfSubmission>|
                reply == ApiReply::Answered(CfResponse::Succeeded { result: list }) && solved@
                    == #[trigger] solved_by(list@),
            Err(message) => reply_error(reply) == Some(message@),
        },
{
    match api_result(reply) {
        Ok(list) => Ok(solved_problems(list)),
        Err(message) => Err(message),
    }
}

/// Whether a problem set fetched at `fetched_at` is fresh at `now`: its age, which is never
/// negative, is below the limit.
pub open spec fn is_fresh(fetched_at: u64, now: u64) -> bool {
    now - fetched_at < CACHE_TTL_SECS
}

/// Whether the cache is fresh at `now`.
pub fn cache_is_fresh_at(cache: &ProblemsetCache, now: u64) -> (r: bool)
    ensures
        r == is_fresh(cache.fetched_at, now),
{
    now.saturating_sub(cache.fetched_at) < CACHE_TTL_SECS
}

/// Whether the cache is fresh now. The answer is that of one reading of the clock.
pub fn cache_is_fresh(cache: &ProblemsetCache) -> (r: bool)
    ensures
        exists|now: u64|
            call_ensures(unix_seconds, (), now) && r == #[trigger] is_fresh(
                cache.fetched_at,
                now,
            ),
{
    cache_is_fresh_at(cache, unix_seconds())
}

/// Where the cached problem set is kept.
pub fn problemset_cache_path() -> (r: StatePath)
    ensures
        r@ == crate::paths::rune_dir_parts().push("cf_problemset_cache.json"@),
{
    rune_file("cf_problemset_cache.json")
}

/// A problem set is fresh from the moment it is fetched until the limit has passed, and not
/// afterwards.
pub proof fn lemma_fresh_until_limit(fetched_at: u64, now: u64)
    requires
        fetched_at <= now,
    ensures
        is_fresh(fetched_at, fetched_at),
        is_fresh(fetched_at, now) <==> now < fetched_at + CACHE_TTL_SECS,
{
}

/// A problem is solved exactly if some submission to it was accepted, and other submissions do not
/// change that.
pub proof fn lemma_solved_once_accepted(
    list: Seq<CfSubmission>,
    more: Seq<CfSubmission>,
    contest_id: u32,
    index: Seq<char>,
)
    ensures
        solved_by(list).contains((contest_id, index)) <==> exists|i: int|
            {
                &&& 0 <= i < list.len()
                &&& (#[trigger] list[i]).verdict matches Some(verdict)
                &&& verdict@ == "OK"@
                &&& list[i].problem.contest_id == Some(contest_id)
                &&& list[i].problem.index@ == index
            },
        solved_by(list).contains((contest_id, index)) ==> solved_by(list + more).contains(
            (contest_id, index),
        ),
{
    let key = (contest_id, index);
    if solved_by(list).contains(key) {
        let i = choose|i: int| 0 <= i < list.len() && solves(#[trigger] list[i]) == Some(key);
        assert((list + more)[i] == list[i]);
    }
    if exists|i: int|
        {
            &&& 0 <= i < list.len()
            &&& (#[trigger] list[i]).verdict matches Some(verdict)
            &&& verdict@ == "OK"@
            &&& list[i].problem.contest_id == Some(contest_id)
            &&& list[i].problem.index@ == index
        } {
        let i = choose|i: int|
            {
                &&& 0 <= i < list.len()
                &&& (#[trigger] list[i]).verdict matches Some(verdict)
                &&& verdict@ == "OK"@
                &&& list[i].problem.contest_id == Some(contest_id)
                &&& list[i].problem.index@ == index
            };
        assert(solves(list[i]) == Some(key));
    }
}

} // verus!
