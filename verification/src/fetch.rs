//! The way to recommendations: the solve history, the problem set, the solved problems, and then
//! the ranking. Each step says what to get next.

use vstd::prelude::*;

use crate::codeforces;
use crate::codeforces::{
    cache_is_fresh_at, CfProblem, CfProblemView, ProblemsetCache, SolvedSet,
};
use crate::recommend;
use crate::recommend::{
    copy_texts, rank_recommendations, Recommendation, RecommendationView, RATING_DELTA,
};
use crate::text;

verus! {

/// What has been gathered so far.
#[derive(Debug)]
pub struct RecRun {
    pub force_refresh: bool,
    pub cf_handle: Option<String>,
    pub weak_tags: Vec<String>,
    pub user_max_rating: Option<i32>,
    pub problems: Vec<CfProblem>,
}

#[verifier::ext_equal]
pub struct RecRunView {
    pub force_refresh: bool,
    pub cf_handle: Option<Seq<char>>,
    pub weak_tags: Seq<Seq<char>>,
    pub user_max_rating: Option<i32>,
    pub problems: Seq<CfProblemView>,
}

impl View for RecRun {
    type V = RecRunView;

    open spec fn view(&self) -> RecRunView {
        RecRunView {
            force_refresh: self.force_refresh,
            cf_handle: text::opt_text(self.cf_handle),
            weak_tags: text::texts(self.weak_tags@),
            user_max_rating: self.user_max_rating,
            problems: codeforces::problems_view(self.problems@),
        }
    }
}

/// What came of a step.
#[derive(Debug)]
pub enum RecReply {
    /// The weak tags and the highest rating solved, from the solve history.
    Analytics(Result<(Vec<String>, Option<i32>), String>),
    /// The cached problem set, if there is one.
    Cache(Option<ProblemsetCache>),
    /// The problem set from the API.
    Problemset(Result<Vec<CfProblem>, String>),
    /// The user's solved problems from the API.
    Solved(Result<SolvedSet, String>),
}

#[verifier::ext_equal]
pub enum RecReplyView {
    Analytics { weak_tags: Seq<Seq<char>>, user_max_rating: Option<i32> },
    AnalyticsFailed(Seq<char>),
    Cached { fetched_at: u64, problems: Seq<CfProblemView> },
    NoCache,
    Problemset(Seq<CfProblemView>),
    ProblemsetFailed(Seq<char>),
    Solved(Set<(u32, Seq<char>)>),
    SolvedFailed,
}

impl View for RecReply {
    type V = RecReplyView;

    open spec fn view(&self) -> RecReplyView {
        match *self {
            RecReply::Analytics(Ok(found)) => RecReplyView::Analytics {
                weak_tags: text::texts(found.0@),
                user_max_rating: found.1,
            },
            RecReply::Analytics(Err(e)) => RecReplyView::AnalyticsFailed(e@),
            RecReply::Cache(Some(cache)) => RecReplyView::Cached {
                fetched_at: cache.fetched_at,
                problems: codeforces::problems_view(cache.problems@),
            },
            RecReply::Cache(None) => RecReplyView::NoCache,
            RecReply::Problemset(Ok(problems)) => RecReplyView::Problemset(
                codeforces::problems_view(problems@),
            ),
            RecReply::Problemset(Err(e)) => RecReplyView::ProblemsetFailed(e@),
            RecReply::Solved(Ok(solved)) => RecReplyView::Solved(solved@),
            RecReply::Solved(Err(_)) => RecReplyView::SolvedFailed,
        }
    }
}

/// What to get next, or what has come out.
#[derive(Debug)]
pub enum RecAction {
    LoadCache,
    FetchProblemset,
    /// Ask the API for the submissions of this handle.
    FetchSolved(String),
    Finish(Result<Vec<Recommendation>, String>),
}

#[verifier::ext_equal]
pub enum RecActionView {
    LoadCache,
    FetchProblemset,
    FetchSolved(Seq<char>),
    Recommend(Seq<RecommendationView>),
    Fail(Seq<char>),
}

impl View for RecAction {
    type V = RecActionView;

    open spec fn view(&self) -> RecActionView {
        match *self {
            RecAction::LoadCache => RecActionView::LoadCache,
            RecAction::FetchProblemset => RecActionView::FetchProblemset,
            RecAction::FetchSolved(handle) => RecActionView::FetchSolved(handle@),
            RecAction::Finish(Ok(recs)) => RecActionView::Recommend(recommend::recs_view(recs@)),
            RecAction::Finish(Err(message)) => RecActionView::Fail(message@),
        }
    }
}

/// What to do next: what to get, and whether the problem set that has just come is to be cached.
#[derive(Debug)]
pub struct RecNext {
    pub save_cache: bool,
    pub action: RecAction,
}

#[verifier::ext_equal]
pub struct RecNextView {
    pub save_cache: bool,
    pub action: RecActionView,
}

impl View for RecNext {
    type V = RecNextView;

    open spec fn view(&self) -> RecNextView {
        RecNextView { save_cache: self.save_cache, action: self.action@ }
    }
}

/// The recommendations from what has been gathered.
pub open spec fn ranked(run: RecRunView, solved: Option<Set<(u32, Seq<char>)>>) -> RecActionView {
    RecActionView::Recommend(
        recommend::recommended(run.problems, solved, run.weak_tags, run.user_max_rating),
    )
}

/// What follows once the problem set is there: the solved problems of the user, if one is named.
pub open spec fn with_problems(run: RecRunView, problems: Seq<CfProblemView>) -> (
    RecRunView,
    RecActionView,
) {
    let next = RecRunView { problems, ..run };
    (
        next,
        match run.cf_handle {
            Some(handle) => RecActionView::FetchSolved(handle),
            None => ranked(next, None),
        },
    )
}

/// Doing something without caching anything.
pub open spec fn just(action: RecActionView) -> RecNextView {
    RecNextView { save_cache: false, action }
}

/// What follows a reply that came at `now`, in seconds since the epoch. The problem set comes
/// from the cache where it is fresh and no refresh is asked for; one that had to be fetched is
/// cached. A failure is final, except that of asking for the solved problems: then none are left
/// out.
pub open spec fn rec_step(run: RecRunView, reply: RecReplyView, now: u64) -> (
    RecRunView,
    RecNextView,
) {
    match reply {
        RecReplyView::Analytics { weak_tags, user_max_rating } => (
            RecRunView { weak_tags, user_max_rating, ..run },
            just(
                if run.force_refresh {
                    RecActionView::FetchProblemset
                } else {
                    RecActionView::LoadCache
                },
            ),
        ),
        RecReplyView::AnalyticsFailed(e) => (run, just(RecActionView::Fail("analytics: "@ + e))),
        RecReplyView::Cached { fetched_at, problems } => if codeforces::is_fresh(fetched_at, now) {
            let (next, action) = with_problems(run, problems);
            (next, just(action))
        } else {
            (run, just(RecActionView::FetchProblemset))
        },
        RecReplyView::NoCache => (run, just(RecActionView::FetchProblemset)),
        RecReplyView::Problemset(problems) => {
            let (next, action) = with_problems(run, problems);
            (next, RecNextView { save_cache: true, action })
        },
        RecReplyView::ProblemsetFailed(e) => (run, just(RecActionView::Fail(e))),
        RecReplyView::Solved(solved) => (run, just(ranked(run, Some(solved)))),
        RecReplyView::SolvedFailed => (run, just(ranked(run, None))),
    }
}

/// Whether what follows a reply is the ranking.
pub open spec fn ranks(run: RecRunView, reply: RecReplyView, now: u64) -> bool {
    rec_step(run, reply, now).1.action is Recommend
}

/// Whether a reply can be taken in: where the ranking follows, the band around the rating can be
/// told.
pub open spec fn can_follow(run: RecRunView, reply: RecReplyView, now: u64) -> bool {
    ranks(run, reply, now) ==> recommend::band_fits(run.user_max_rating)
}

/// A copy of a problem.
fn copy_problem(p: &CfProblem) -> (r: CfProblem)
    ensures
        r@ == p@,
{
    CfProblem {
        contest_id: p.contest_id,
        index: p.index.clone(),
        name: p.name.clone(),
        rating: p.rating,
        tags: copy_texts(&p.tags),
    }
}

impl RecRun {
    /// The beginning: nothing gathered. The solve history comes first.
    pub fn start(force_refresh: bool, cf_handle: Option<String>) -> (r: RecRun)
        ensures
            r@ == (RecRunView {
                force_refresh,
                cf_handle: text::opt_text(cf_handle),
                weak_tags: Seq::empty(),
                user_max_rating: None,
                problems: Seq::empty(),
            }),
    {
        let r = RecRun {
            force_refresh,
            cf_handle,
            weak_tags: Vec::new(),
            user_max_rating: None,
            problems: Vec::new(),
        };
        proof {
            assert(r@.weak_tags =~= Seq::empty());
            assert(r@.problems =~= Seq::empty());
        }
        r
    }

    fn rank(&self, solved: Option<&SolvedSet>) -> (r: RecAction)
        requires
            recommend::band_fits(self.user_max_rating),
        ensures
            r@ == ranked(self@, recommend::solved_view(solved)),
    {
        let recs = rank_recommendations(
            self.problems.as_slice(),
            solved,
            self.weak_tags.as_slice(),
            self.user_max_rating,
        );
        RecAction::Finish(Ok(recs))
    }

    fn take_problems(&mut self, problems: Vec<CfProblem>) -> (r: RecAction)
        requires
            old(self).cf_handle is None ==> recommend::band_fits(old(self).user_max_rating),
        ensures
            (final(self)@, r@) == with_problems(
                old(self)@,
                codeforces::problems_view(problems@),
            ),
    {
        self.problems = problems;
        match &self.cf_handle {
            Some(handle) => RecAction::FetchSolved(handle.clone()),
            None => self.rank(None),
        }
    }

    /// Whether a reply that came at `now` can be taken in.
    pub fn can_advance(&self, reply: &RecReply, now: u64) -> (r: bool)
        ensures
            r == can_follow(self@, reply@, now),
    {
        let ranking = match reply {
            RecReply::Cache(Some(cache)) => cache_is_fresh_at(cache, now)
                && self.cf_handle.is_none(),
            RecReply::Problemset(Ok(_)) => self.cf_handle.is_none(),
            RecReply::Solved(_) => true,
            _ => false,
        };
        !ranking || match self.user_max_rating {
            Some(r) => i32::MIN + RATING_DELTA <= r && r <= i32::MAX - RATING_DELTA,
            None => true,
        }
    }

    /// Takes in what came of a step at `now`, in seconds since the epoch, and says what follows.
    pub fn advance(&mut self, reply: RecReply, now: u64) -> (r: RecNext)
        requires
            can_follow(old(self)@, reply@, now),
        ensures
            (final(self)@, r@) == rec_step(old(self)@, reply@, now),
    {
        let mut save_cache = false;
        let action = match reply {
            RecReply::Analytics(Ok(found)) => {
                self.weak_tags = found.0;
                self.user_max_rating = found.1;
                if self.force_refresh {
                    RecAction::FetchProblemset
                } else {
                    RecAction::LoadCache
                }
            },
            RecReply::Analytics(Err(e)) => {
                let mut message = "analytics: ".to_string();
                message.append(e.as_str());
                RecAction::Finish(Err(message))
            },
            RecReply::Cache(Some(cache)) => if cache_is_fresh_at(&cache, now) {
                self.take_problems(cache.problems)
            } else {
                RecAction::FetchProblemset
            },
            RecReply::Cache(None) => RecAction::FetchProblemset,
            RecReply::Problemset(Ok(problems)) => {
                save_cache = true;
                self.take_problems(problems)
            },
            RecReply::Problemset(Err(e)) => RecAction::Finish(Err(e)),
            RecReply::Solved(Ok(solved)) => self.rank(Some(&solved)),
            RecReply::Solved(Err(_)) => self.rank(None),
        };
        RecNext { save_cache, action }
    }

    /// What to cache of a problem set that was fetched at `now`.
    pub fn cache(&self, now: u64) -> (r: ProblemsetCache)
        ensures
            r.fetched_at == now,
            codeforces::problems_view(r.problems@) == self@.problems,
    {
        let mut problems: Vec<CfProblem> = Vec::new();
        let mut i: usize = 0;
        while i < self.problems.len()
            invariant
                i <= self.problems.len(),
                problems@.len() == i,
                forall|k: int| 0 <= k < i ==> (#[trigger] problems@[k])@ == self.problems@[k]@,
            decreases self.problems.len() - i,
        {
            problems.push(copy_problem(&self.problems[i]));
            i += 1;
        }
        proof {
            assert(codeforces::problems_view(problems@) =~= self@.problems);
        }
        ProblemsetCache { fetched_at: now, problems }
    }
}

/// With a refresh asked for, the cache is not looked at; without one, a fresh cache spares the
/// request.
pub proof fn lemma_cache_use(
    run: RecRunView,
    weak_tags: Seq<Seq<char>>,
    user_max_rating: Option<i32>,
    fetched_at: u64,
    problems: Seq<CfProblemView>,
    now: u64,
)
    ensures
        rec_step(run, RecReplyView::Analytics { weak_tags, user_max_rating }, now).1.action
            == RecActionView::LoadCache <==> !run.force_refresh,
        rec_step(run, RecReplyView::Cached { fetched_at, problems }, now).1.action
            == RecActionView::FetchProblemset <==> !codeforces::is_fresh(fetched_at, now),
{
}

/// The problem set is fetched at most once: once there is one, fresh from the cache or fetched, it
/// is the one that is ranked, and what follows is no further request for it; and where the request
/// fails, its error is the outcome, and no cache is used in its place. A problem set is cached
/// exactly when it was fetched.
pub proof fn lemma_one_problem_set(
    run: RecRunView,
    reply: RecReplyView,
    fetched_at: u64,
    problems: Seq<CfProblemView>,
    error: Seq<char>,
    now: u64,
)
    ensures
        rec_step(run, reply, now).1.save_cache <==> reply is Problemset,
        ({
            let (next, follows) = rec_step(run, RecReplyView::Problemset(problems), now);
            &&& next == RecRunView { problems, ..run }
            &&& follows.action == match run.cf_handle {
                Some(handle) => RecActionView::FetchSolved(handle),
                None => ranked(next, None),
            }
        }),
        codeforces::is_fresh(fetched_at, now) ==> {
            let (next, follows) = rec_step(
                run,
                RecReplyView::Cached { fetched_at, problems },
                now,
            );
            &&& next == RecRunView { problems, ..run }
            &&& follows.action == match run.cf_handle {
                Some(handle) => RecActionView::FetchSolved(handle),
                None => ranked(next, None),
            }
        },
        rec_step(run, RecReplyView::ProblemsetFailed(error), now) == (
            run,
            just(RecActionView::Fail(error)),
        ),
{
}

/// A reply that is not followed by the ranking can be taken in whatever the rating: that of a
/// failed request always can.
pub proof fn lemma_failures_can_follow(run: RecRunView, error: Seq<char>, now: u64)
    ensures
        can_follow(run, RecReplyView::AnalyticsFailed(error), now),
        can_follow(run, RecReplyView::ProblemsetFailed(error), now),
{
}

/// That the solved problems could not be had is no failure: the ranking is the one without that
/// filter.
pub proof fn lemma_missing_solved_is_no_filter(run: RecRunView, now: u64)
    ensures
        rec_step(run, RecReplyView::SolvedFailed, now).1.action == RecActionView::Recommend(
            recommend::recommended(run.problems, None, run.weak_tags, run.user_max_rating),
        ),
{
}

} // verus!
