//! What is gathered from files and from Codeforces: which problem a file holds, which changes count,
//! which submissions solve, and what leads to recommendations.

use vstd::prelude::*;

use crate::analytics::recent_since;
use crate::codeforces;
use crate::codeforces::{user_status_url, ApiReply, CfProblemView, CfResponse};
use crate::fetch;
use crate::fetch::{RecActionView, RecReplyView, RecRunView};
use crate::judge;
use crate::laws::ranking;
use crate::problem;
use crate::problem::{concerns_problem, Ancestor, FileChange, Location, TestCase, TestCasesFile};
use crate::recommend;
use crate::text;

verus! {

/// A problem has all that its file tells of it, and is the one that its place tells; a limit that
/// is missing or zero is two seconds.
pub proof fn law_payload(
    place: Location,
    name: Option<String>,
    rating: Option<i32>,
    time_limit_ms: Option<u64>,
    tags: Vec<String>,
    test_cases: Vec<TestCase>,
)
    ensures
        ({
            let p = problem::described(
                place,
                TestCasesFile::Payload { name, rating, time_limit_ms, tags, test_cases },
            );
            &&& p.contest_id == place.contest_id@
            &&& p.index == place.index@
            &&& p.dir == place.dir
            &&& name matches Some(n) ==> p.name == Some(n@)
            &&& name is None ==> p.name is None
            &&& p.rating == rating
            &&& p.tags.len() == tags@.len()
            &&& forall|i: int| 0 <= i < tags@.len() ==> p.tags[i] == (#[trigger] tags@[i])@
            &&& time_limit_ms matches Some(ms) ==> ms > 0 ==> p.time_limit_ms == ms
            &&& time_limit_ms is None || time_limit_ms == Some(0u64) ==> p.time_limit_ms == 2000
            &&& p.test_cases.len() == test_cases@.len()
            &&& forall|i: int|
                0 <= i < test_cases@.len() ==> {
                    &&& p.test_cases[i].id == (#[trigger] test_cases@[i]).id@
                    &&& p.test_cases[i].input == test_cases@[i].input@
                    &&& p.test_cases[i].expected_output == test_cases@[i].expected_output@
                }
        }),
{
}

/// A file with the samples alone tells these, and nothing else of the problem.
pub proof fn law_bare_samples(place: Location, test_cases: Vec<TestCase>)
    ensures
        ({
            let p = problem::described(place, TestCasesFile::Bare(test_cases));
            &&& p.contest_id == place.contest_id@
            &&& p.index == place.index@
            &&& p.dir == place.dir
            &&& p.name is None
            &&& p.rating is None
            &&& p.tags.len() == 0
            &&& p.time_limit_ms == 2000
            &&& p.test_cases.len() == test_cases@.len()
            &&& forall|i: int|
                0 <= i < test_cases@.len() ==> {
                    &&& p.test_cases[i].id == (#[trigger] test_cases@[i]).id@
                    &&& p.test_cases[i].input == test_cases@[i].input@
                    &&& p.test_cases[i].expected_output == test_cases@[i].expected_output@
                }
        }),
{
}

/// Where a file is in a directory that is in another, the first is the problem's and tells the
/// index, and the other tells the contest.
pub proof fn law_place(file: Ancestor, dir: Ancestor, above: Ancestor, further: Seq<Ancestor>)
    ensures
        ({
            let parts = problem::parts_along(seq![file, dir, above] + further);
            &&& parts.dir == Some(dir.path)
            &&& parts.index == dir.name
            &&& parts.contest_id == above.name
        }),
{
}

/// The latest of some times is no earlier than any, later than all in front of it, and only one.
pub proof fn law_latest(times: Seq<i128>, i: int, j: int)
    requires
        problem::is_latest(times, i),
    ensures
        0 <= i < times.len(),
        forall|k: int| 0 <= k < times.len() ==> #[trigger] times[k] <= times[i],
        forall|k: int| 0 <= k < i ==> #[trigger] times[k] < times[i],
        problem::is_latest(times, j) ==> j == i,
{
    if problem::is_latest(times, j) {
        if j < i {
            assert(times[j] < times[i]);
        }
        if i < j {
            assert(times[i] < times[j]);
        }
    }
}

/// A change counts unless one of the same file has counted less than half a second before; that of
/// another file does not matter.
pub proof fn law_changes_that_count(seen: Map<u64, u64>, file: u64, other: u64, at: u64, now: u64)
    ensures
        !seen.contains_key(file) ==> problem::accepts(seen, file, now),
        problem::accepts(seen.insert(file, at), file, now) <==> now >= at + 500_000_000,
        other != file ==> problem::accepts(seen.insert(other, at), file, now) == problem::accepts(
            seen,
            file,
            now,
        ),
{
}

/// A change concerns a problem exactly if a file of the name came or changed.
pub proof fn law_concerning_changes(change: FileChange, name: &str, r: bool, none: bool)
    requires
        call_ensures(concerns_problem, (change, Some(name)), r),
        call_ensures(concerns_problem, (change, None), none),
    ensures
        r <==> (change == FileChange::Create || change == FileChange::Modify) && name@
            == "test_cases.json"@,
        !none,
{
}

/// The submissions are asked for by the handle alone.
pub proof fn law_submissions_url(handle: &str, r: String)
    requires
        call_ensures(user_status_url, (handle,), r),
    ensures
        r@ == "https://codeforces.com/api/user.status?handle="@ + handle@,
{
}

/// Solves of the last thirty days are recent.
pub proof fn law_window(now: u64, r: i64)
    requires
        now <= i64::MAX,
        call_ensures(recent_since, (now,), r),
    ensures
        now - r == 30 * 24 * 60 * 60,
{
}

/// A reply is a success exactly if the service answered with one; each failure is told by its kind.
pub proof fn law_replies<T>(result: T, comment: String, e: String)
    ensures
        codeforces::reply_error(
            ApiReply::<T>::Answered(CfResponse::Succeeded { result }),
        ) is None,
        codeforces::reply_error(ApiReply::<T>::Answered(CfResponse::Failed { comment })) == Some(
            "CF API: "@ + comment@,
        ),
        codeforces::reply_error(ApiReply::<T>::Unreachable(e)) == Some("network: "@ + e@),
        codeforces::reply_error(ApiReply::<T>::Unreadable(e)) == Some("parse: "@ + e@),
{
}

/// A problem set is fresh for a day from when it was fetched.
pub proof fn law_fresh(fetched_at: u64, now: u64)
    ensures
        codeforces::is_fresh(fetched_at, now) <==> now < fetched_at + 24 * 60 * 60,
{
}

/// What is known of the user is what the solve history told; then a fresh cache is used, unless a
/// refresh is asked for, and else the problem set is fetched.
pub proof fn law_history_first(
    run: RecRunView,
    weak_tags: Seq<Seq<char>>,
    user_max_rating: Option<i32>,
    error: Seq<char>,
    now: u64,
)
    ensures
        ({
            let (next, follows) = fetch::rec_step(
                run,
                RecReplyView::Analytics { weak_tags, user_max_rating },
                now,
            );
            &&& next.weak_tags == weak_tags
            &&& next.user_max_rating == user_max_rating
            &&& next.force_refresh == run.force_refresh
            &&& next.cf_handle == run.cf_handle
            &&& next.problems == run.problems
            &&& !follows.save_cache
            &&& run.force_refresh ==> follows.action == RecActionView::FetchProblemset
            &&& !run.force_refresh ==> follows.action == RecActionView::LoadCache
        }),
        fetch::rec_step(run, RecReplyView::AnalyticsFailed(error), now).1.action
            == RecActionView::Fail("analytics: "@ + error),
{
}

/// The problem set is the cached one where that is less than a day old, and else the fetched one,
/// which is then cached; a request that fails ends it with its error.
pub proof fn law_problem_set(
    run: RecRunView,
    fetched_at: u64,
    problems: Seq<CfProblemView>,
    error: Seq<char>,
    now: u64,
)
    ensures
        ({
            let (next, follows) = fetch::rec_step(
                run,
                RecReplyView::Cached { fetched_at, problems },
                now,
            );
            &&& !follows.save_cache
            &&& now < fetched_at + 24 * 60 * 60 ==> next.problems == problems
                && !(follows.action is FetchProblemset) && !(follows.action is Fail)
            &&& now >= fetched_at + 24 * 60 * 60 ==> next == run && follows.action
                == RecActionView::FetchProblemset
        }),
        ({
            let (next, follows) = fetch::rec_step(run, RecReplyView::NoCache, now);
            next == run && follows.action == RecActionView::FetchProblemset && !follows.save_cache
        }),
        ({
            let (next, follows) = fetch::rec_step(run, RecReplyView::Problemset(problems), now);
            &&& next.problems == problems
            &&& follows.save_cache
            &&& !(follows.action is FetchProblemset) && !(follows.action is LoadCache)
            &&& !(follows.action is Fail)
        }),
        ({
            let (next, follows) = fetch::rec_step(run, RecReplyView::ProblemsetFailed(error), now);
            next == run && follows.action == RecActionView::Fail(error) && !follows.save_cache
        }),
{
}

/// With a problem set at hand, the submissions of the user are asked for where one is named; with
/// none named, and once the submissions are known or cannot be had, the outcome is the ranking of
/// that problem set for that user, without what they have solved as far as it is known.
pub proof fn law_outcome(
    run: RecRunView,
    problems: Seq<CfProblemView>,
    solved: Set<(u32, Seq<char>)>,
    now: u64,
)
    ensures
        ({
            let fetched = fetch::rec_step(run, RecReplyView::Problemset(problems), now);
            let cached = fetch::rec_step(
                run,
                RecReplyView::Cached { fetched_at: now, problems },
                now,
            );
            let all = recommend::recommended(problems, None, run.weak_tags, run.user_max_rating);
            &&& cached.0 == fetched.0 && cached.1.action == fetched.1.action
            &&& fetched.0 == (RecRunView { problems, ..run })
            &&& run.cf_handle matches Some(h) ==> fetched.1.action == RecActionView::FetchSolved(h)
            &&& run.cf_handle is None ==> fetched.1.action == RecActionView::Recommend(all)
        }),
        fetch::rec_step(run, RecReplyView::SolvedFailed, now) == (
            run,
            fetch::just(
                RecActionView::Recommend(
                    recommend::recommended(
                        run.problems,
                        None,
                        run.weak_tags,
                        run.user_max_rating,
                    ),
                ),
            ),
        ),
        ({
            let (next, follows) = fetch::rec_step(run, RecReplyView::Solved(solved), now);
            &&& next == run && !follows.save_cache
            &&& follows.action is Recommend
            &&& follows.action->Recommend_0 == recommend::recommended(
                run.problems,
                Some(solved),
                run.weak_tags,
                run.user_max_rating,
            )
            &&& forall|k: int|
                0 <= k < follows.action->Recommend_0.len() ==> !solved.contains(
                    (
                        (#[trigger] follows.action->Recommend_0[k]).contest_id,
                        follows.action->Recommend_0[k].index,
                    ),
                )
        }),
{
    ranking::law_solved_are_left_out(run.problems, solved, run.weak_tags, run.user_max_rating);
}

/// The compiler makes the program of the solution, with the options for the contest.
pub proof fn law_compiler_arguments(bin_name: Seq<char>)
    ensures
        judge::compiler_args(bin_name) == seq![
            "-std=c++17"@,
            "-O2"@,
            "-Wall"@,
            "-o"@,
            bin_name,
            "solution.cpp"@,
        ],
{
}

} // verus!
