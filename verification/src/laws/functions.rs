//! What the functions of the library return, told by their arguments.

use vstd::prelude::*;

use std::path::PathBuf;

use crate::analytics;
use crate::analytics::{recent_weak_tags, solve_row, weak_tags, SolveRow};
use crate::clock::seconds_from;
use crate::codeforces;
use crate::codeforces::{
    api_result, cache_is_fresh_at, solved_problems, solved_result, ApiReply, CfProblem,
    CfResponse, CfSubmission, ProblemsetCache, SolvedSet,
};
use crate::git;
use crate::git::{
    commit_message, git_args, push_after_run, push_next, push_root, GitStep, PushNext,
    PushNextView,
};
use crate::judge::{
    compile_args, compile_result, judge, judge_exit, next_step, RunOutcome, RunStep, Verdict,
    VerdictView,
};
use crate::labels;
use crate::labels::pretty_id;
use crate::laws::history;
use crate::laws::numbers;
use crate::laws::outputs;
use crate::laws::pushing;
use crate::laws::ranking;
use crate::laws::texts;
use crate::number;
use crate::number::{decimal_i32_text, decimal_text, parse_i64};
use crate::output;
use crate::output::{normalize_output, outputs_match};
use crate::problem;
use crate::problem::{
    build_problem, latest_index, locate, Ancestor, Location, Problem, TestCase, TestCasesFile,
};
use crate::process;
use crate::process::CommandReply;
use crate::recommend;
use crate::recommend::{rank_recommendations, Recommendation};
use crate::text;
use crate::text::{
    comes_before, contains_text, join_texts, lines_of, split_text, trim_end_text, trim_text,
    truncate,
};

verus! {

/// Of the recommendations none is solved, each has a rating near the user's, they are at most five,
/// and they come in order: the most weak tags first, and of as many the closest in rating.
pub proof fn law_rank_recommendations(
    problemset: &[CfProblem],
    solved: &SolvedSet,
    weak_tags: &[String],
    user_max_rating: Option<i32>,
    r: Vec<Recommendation>,
)
    requires
        call_ensures(
            rank_recommendations,
            (problemset, Some(solved), weak_tags, user_max_rating),
            r,
        ),
    ensures
        r@.len() <= 5,
        forall|k: int|
            0 <= k < r@.len() ==> !solved@.contains(
                ((#[trigger] r@[k]).contest_id, r@[k].index@),
            ),
        forall|k: int|
            0 <= k < r@.len() ==> (#[trigger] r@[k]).rating is Some && ranking::is_near(
                r@[k].rating->0 as int,
                user_max_rating,
            ),
        forall|j: int, k: int|
            0 <= j < k < r@.len() ==> ranking::at_least_as_good(
                text::texts((#[trigger] r@[j]).tags@),
                r@[j].rating->0 as int,
                text::texts((#[trigger] r@[k]).tags@),
                r@[k].rating->0 as int,
                text::texts(weak_tags@),
                user_max_rating,
            ),
{
    let problems = codeforces::problems_view(problemset@);
    let weak = text::texts(weak_tags@);
    let recs = recommend::recommended(problems, Some(solved@), weak, user_max_rating);
    assert(recommend::recs_view(r@) == recs);
    assert(recs.len() == r@.len());
    ranking::law_solved_are_left_out(problems, solved@, weak, user_max_rating);
    let order = ranking::law_recommended(problems, Some(solved@), weak, user_max_rating);
    assert forall|k: int| 0 <= k < r@.len() implies recs[k] == (#[trigger] r@[k])@ by {}
    assert forall|j: int, k: int| 0 <= j < k < r@.len() implies ranking::at_least_as_good(
        text::texts((#[trigger] r@[j]).tags@),
        r@[j].rating->0 as int,
        text::texts((#[trigger] r@[k]).tags@),
        r@[k].rating->0 as int,
        weak,
        user_max_rating,
    ) by {
        assert(recs[j] == r@[j]@ && recs[k] == r@[k]@);
    }
}

/// Without a set of solved problems, a problem of a contest with a rating near the user's is
/// recommended, or five that are at least as good; and with one, likewise unless it is in it.
pub proof fn law_rank_finds(
    problemset: &[CfProblem],
    solved: Option<&SolvedSet>,
    weak_tags: &[String],
    user_max_rating: Option<i32>,
    r: Vec<Recommendation>,
    i: int,
)
    requires
        call_ensures(rank_recommendations, (problemset, solved, weak_tags, user_max_rating), r),
        0 <= i < problemset@.len(),
        problemset@[i].contest_id is Some,
        solved matches Some(set) ==> !set@.contains(
            (problemset@[i].contest_id->0, problemset@[i].index@),
        ),
        problemset@[i].rating is Some,
        ranking::is_near(problemset@[i].rating->0 as int, user_max_rating),
    ensures
        ({
            let p = problemset@[i];
            let weak = text::texts(weak_tags@);
            ||| exists|k: int|
                0 <= k < r@.len() && ranking::tells_of((#[trigger] r@[k])@, p@, weak)
            ||| r@.len() == 5 && forall|k: int|
                0 <= k < r@.len() ==> ranking::at_least_as_good(
                    text::texts((#[trigger] r@[k]).tags@),
                    r@[k].rating->0 as int,
                    text::texts(p.tags@),
                    p.rating->0 as int,
                    weak,
                    user_max_rating,
                )
        }),
{
    let problems = codeforces::problems_view(problemset@);
    let weak = text::texts(weak_tags@);
    let set = recommend::solved_view(solved);
    let recs = recommend::recommended(problems, set, weak, user_max_rating);
    assert(recommend::recs_view(r@) == recs);
    assert(problems[i] == problemset@[i]@);
    ranking::law_nothing_better_is_left_out(problems, set, weak, user_max_rating, i);
    assert forall|k: int| 0 <= k < r@.len() implies recs[k] == (#[trigger] r@[k])@ by {}
    if exists|k: int| 0 <= k < recs.len() && ranking::tells_of(#[trigger] recs[k], problems[i], weak) {
        let k = choose|k: int|
            0 <= k < recs.len() && ranking::tells_of(#[trigger] recs[k], problems[i], weak);
        assert(ranking::tells_of(r@[k]@, problemset@[i]@, weak));
    } else {
        assert forall|k: int| 0 <= k < r@.len() implies ranking::at_least_as_good(
            text::texts((#[trigger] r@[k]).tags@),
            r@[k].rating->0 as int,
            text::texts(problemset@[i].tags@),
            problemset@[i].rating->0 as int,
            weak,
            user_max_rating,
        ) by {
            assert(recs[k] == r@[k]@);
        }
    }
}

/// Outputs match exactly if they have the same lines up to white space at the end of each, and the
/// longer one only blank lines more.
pub proof fn law_outputs_match(expected: &str, got: &str, r: bool)
    requires
        call_ensures(outputs_match, (expected, got), r),
    ensures
        r <==> forall|i: int| 0 <= i ==> #[trigger] outputs::same_line(expected@, got@, i),
{
    outputs::law_matching_outputs(expected@, got@);
}

/// Normalized output is the lines of the output, each without the white space at its end, up to the
/// last that is not blank.
pub proof fn law_normalize_output(s: &str, r: Vec<String>)
    requires
        call_ensures(normalize_output, (s,), r),
    ensures
        ({
            let lines = text::text_lines(s@);
            &&& r@.len() <= lines.len()
            &&& forall|i: int|
                0 <= i < r@.len() ==> outputs::is_stripped((#[trigger] r@[i])@, lines[i])
            &&& forall|i: int|
                r@.len() <= i < lines.len() ==> text::all_white_space(#[trigger] lines[i])
            &&& r@.len() > 0 ==> r@.last()@.len() > 0
        }),
{
    outputs::law_normalized(s@);
    let n = output::normalized(s@);
    assert(n.len() == r@.len());
    assert forall|i: int| 0 <= i < r@.len() implies n[i] == (#[trigger] r@[i])@ by {}
}

/// A text is cut exactly where it does not fit, to as much of its beginning as leaves room for the
/// marker.
pub proof fn law_truncate(s: &str, max: usize, r: String)
    requires
        call_ensures(truncate, (s, max), r),
    ensures
        s@.len() <= max ==> r@ == s@,
        s@.len() > max && max >= 3 ==> r@ == s@.take(max - 3) + "..."@,
        s@.len() > max && max < 3 ==> r@ == "..."@,
{
    if s@.len() > max && max < 3 {
        assert(s@.take(0) + "..."@ =~= "..."@);
    }
}

/// The functions on text return what trimming, splitting, joining, searching and comparing give.
pub proof fn law_text_functions(
    s: &str,
    t: &str,
    sep: char,
    list: &Vec<String>,
    trimmed_end: String,
    trimmed: String,
    parts: Vec<String>,
    lines: Vec<String>,
    joined: String,
    found: bool,
    first: bool,
)
    requires
        call_ensures(trim_end_text, (s,), trimmed_end),
        call_ensures(trim_text, (s,), trimmed),
        call_ensures(split_text, (s, sep), parts),
        call_ensures(lines_of, (s,), lines),
        call_ensures(join_texts, (list, t), joined),
        call_ensures(contains_text, (s, t), found),
        call_ensures(comes_before, (s, t), first),
    ensures
        outputs::is_stripped(trimmed_end@, s@),
        exists|i: int, j: int| #[trigger] texts::is_core(s@, i, j) && trimmed@ == s@.subrange(i, j),
        text::texts(parts@) == text::pieces(s@, sep),
        text::texts(lines@) == text::text_lines(s@),
        joined@ == text::join(text::texts(list@), t@),
        found <==> pushing::holds(s@, t@),
        first <==> exists|k: int| #[trigger] texts::differs_at(s@, t@, k),
{
    texts::law_trim_end(s@);
    texts::law_trim(s@);
    texts::law_has_text(s@, t@);
    texts::law_text_before(s@, t@);
}

/// A label of ASCII begins with the capital, has blanks for hyphens, and is as long as before.
pub proof fn law_pretty_id(id: &str, r: String)
    requires
        call_ensures(pretty_id, (id,), r),
    ensures
        id@.len() == 0 ==> r@.len() == 0,
        id@.len() > 0 && (id@[0] as u32) < 128 ==> {
            &&& r@.len() == id@.len()
            &&& 'a' as u32 <= id@[0] as u32 <= 'z' as u32 ==> r@[0] as u32 == id@[0] as u32 - 32
            &&& !('a' as u32 <= id@[0] as u32 <= 'z' as u32) && id@[0] != '-' ==> r@[0] == id@[0]
            &&& id@[0] == '-' ==> r@[0] == ' '
            &&& forall|i: int| 1 <= i < id@.len() && #[trigger] id@[i] != '-' ==> r@[i] == id@[i]
            &&& forall|i: int| 1 <= i < id@.len() && #[trigger] id@[i] == '-' ==> r@[i] == ' '
        },
{
    if id@.len() > 0 {
        outputs::law_label(id@, seq![labels::ascii_uppercase(labels::spaced(id@)[0])]);
    }
}

/// Numbers are written as rows of digits that denote them, and read back as they are.
pub proof fn law_number_functions(
    n: u64,
    m: i32,
    s: &str,
    unsigned: String,
    signed: String,
    read: Option<i64>,
)
    requires
        call_ensures(decimal_text, (n,), unsigned),
        call_ensures(decimal_i32_text, (m,), signed),
        call_ensures(parse_i64, (s,), read),
    ensures
        numbers::all_digits(unsigned@),
        number::digits_value(unsigned@) == n,
        unsigned@.len() > 1 ==> unsigned@[0] != '0',
        m >= 0 ==> numbers::all_digits(signed@) && number::digits_value(signed@) == m,
        m < 0 ==> signed@[0] == '-' && number::digits_value(signed@.skip(1)) == -m,
        s@ == signed@ ==> read == Some(m as i64),
        read is Some ==> numbers::all_digits(s@) || (s@.len() > 0 && numbers::all_digits(
            s@.skip(1),
        )),
{
    numbers::law_decimal(n as nat);
    numbers::law_decimal_int(m as int);
    numbers::law_read_back(m as int);
    assert(numbers::all_digits(seq!['0'])) by {
        assert(seq!['0'][0] == '0');
    }
    numbers::law_read(seq!['0'], s@);
}

/// The weak tags are at most five tags of the history, the rarest first, and a tag is left out only
/// for five rarer ones.
pub proof fn law_weak_tags(rows: &Vec<String>, r: Vec<String>)
    requires
        call_ensures(weak_tags, (rows,), r),
    ensures
        ({
            let tags = analytics::all_tags(text::texts(rows@));
            &&& r@.len() <= 5
            &&& forall|k: int| 0 <= k < r@.len() ==> tags.contains((#[trigger] r@[k])@)
            &&& forall|j: int, k: int|
                0 <= j < k < r@.len() ==> history::is_rarer(
                    tags,
                    (#[trigger] r@[j])@,
                    (#[trigger] r@[k])@,
                )
            &&& forall|i: int|
                0 <= i < tags.len() && r@.len() < 5 ==> text::texts(r@).contains(#[trigger] tags[i])
            &&& forall|i: int, k: int|
                0 <= i < tags.len() && 0 <= k < r@.len() && !text::texts(r@).contains(
                    #[trigger] tags[i],
                ) ==> history::is_rarer(tags, (#[trigger] r@[k])@, tags[i])
        }),
{
    let tags = analytics::all_tags(text::texts(rows@));
    let weak = analytics::weakest(tags);
    history::law_weak_tags(tags);
    assert(weak == text::texts(r@));
    assert(weak.len() == r@.len());
    assert forall|k: int| 0 <= k < r@.len() implies weak[k] == (#[trigger] r@[k])@ by {}
}

/// The recent solves tell the weak tags exactly if they have a tag at all.
pub proof fn law_recent_weak_tags(rows: &Vec<String>, r: Option<Vec<String>>, all: Vec<String>)
    requires
        call_ensures(recent_weak_tags, (rows,), r),
        call_ensures(weak_tags, (rows,), all),
    ensures
        r is None <==> analytics::all_tags(text::texts(rows@)).len() == 0,
        r matches Some(weak) ==> text::texts(weak@) == text::texts(all@),
{
}

/// A solve is recorded as what it is.
pub proof fn law_solve_row(p: &Problem, now: u64, r: SolveRow)
    requires
        call_ensures(solve_row, (p, now), r),
    ensures
        r.problem_index@ == p.index@,
        p.name matches Some(name) ==> r.name@ == name@,
        r.rating == p.rating,
        r.tags@ == text::join(text::texts(p.tags@), ","@),
        now <= i64::MAX ==> r.timestamp == now,
        r.verdict@ == "PASS"@,
        number::parsed_i64(p.contest_id@) matches Some(n) ==> r.contest_id == n,
        number::parsed_i64(p.contest_id@) is None ==> r.contest_id == 0,
{
}

/// A step of a push that git ended with success goes on, whatever was printed; one that failed does
/// not, but for a commit with nothing to commit.
pub proof fn law_push_after_run(step: GitStep, success: bool, out: &str, err: &str, r: PushNext)
    requires
        call_ensures(push_after_run, (step, success, out, err), r),
    ensures
        success && step == GitStep::Add ==> r == PushNext::Run(GitStep::Commit),
        success && step == GitStep::Commit ==> r == PushNext::Run(GitStep::Push),
        success && step == GitStep::Push ==> r@ == PushNextView::Pushed("Pushed to origin/main."@),
        !success && step == GitStep::Commit && pushing::says_nothing_to_commit(out@, err@)
            ==> r == PushNext::Run(GitStep::Push),
        !success && !(step == GitStep::Commit && pushing::says_nothing_to_commit(out@, err@))
            ==> r@ is Failed,
{
    pushing::law_success_goes_on(out@, err@);
    pushing::law_failure_ends_it(out@, err@);
}

/// What follows a step of a push is told by what git printed, or by that it could not be launched.
pub proof fn law_push_next(step: GitStep, msg: &str, reply: CommandReply, r: PushNext)
    requires
        call_ensures(push_next, (step, msg, reply), r),
    ensures
        reply is NotLaunched ==> r@ is Failed,
        reply matches CommandReply::Finished { success, stdout, stderr } ==> {
            &&& success && step == GitStep::Add ==> r == PushNext::Run(GitStep::Commit)
            &&& success && step == GitStep::Commit ==> r == PushNext::Run(GitStep::Push)
            &&& success && step == GitStep::Push ==> r@ is Pushed
            &&& !success && step != GitStep::Commit ==> r@ is Failed
        },
{
    pushing::law_replies(step, msg@, reply);
    if let CommandReply::Finished { success, stdout, stderr } = reply {
        pushing::law_failure_ends_it(
            process::lossy_text(stdout@),
            process::lossy_text(stderr@),
        );
    }
}

/// Git gets the arguments of the step, a commit the subject of the problem, and the push the
/// directory above the contest's.
pub proof fn law_push_arguments(
    msg: &str,
    add: Vec<String>,
    commit: Vec<String>,
    push: Vec<String>,
    way: Vec<Ancestor>,
    root: Result<PathBuf, String>,
)
    requires
        call_ensures(git_args, (GitStep::Add, msg), add),
        call_ensures(git_args, (GitStep::Commit, msg), commit),
        call_ensures(git_args, (GitStep::Push, msg), push),
        call_ensures(push_root, (way,), root),
    ensures
        text::texts(add@) == seq!["add"@, "."@],
        text::texts(commit@) == seq!["commit"@, "-m"@, msg@],
        text::texts(push@) == seq!["push"@, "origin"@, "main"@],
        way@.len() > 2 ==> root == Ok::<PathBuf, String>(way@[2].path),
        way@.len() <= 2 ==> root is Err,
{
    pushing::law_git_arguments(msg@);
}

/// The subject of a commit is that of the problem.
pub proof fn law_commit_message(p: &Problem, r: String)
    requires
        call_ensures(commit_message, (p,), r),
    ensures
        r@ == git::commit_subject(p@),
{
}

/// A program that ended well passes exactly if its output matches, and else fails with it; one that
/// did not is a runtime error.
pub proof fn law_judge(tc: &TestCase, outcome: RunOutcome, r: Verdict)
    requires
        call_ensures(judge, (tc, outcome), r),
    ensures
        outcome is TimedOut ==> r@ is Tle,
        outcome is NotStarted || outcome is WaitFailed ==> r@ is Rte,
        outcome matches RunOutcome::Exited { success, code, stdout, stderr, ms } ==> {
            let out = process::lossy_text(stdout@);
            let same = forall|i: int|
                0 <= i ==> #[trigger] outputs::same_line(tc.expected_output@, out, i);
            &&& success && same ==> r@ == (VerdictView::Pass { ms })
            &&& success && !same ==> r@ == (VerdictView::Fail { got: out, ms })
            &&& !success ==> r@ == (VerdictView::Rte {
                stderr: process::lossy_text(stderr@),
                code,
            })
        },
{
    outputs::law_verdict(tc@, outcome);
}

/// The verdict on what a program printed is told by that alone.
pub proof fn law_judge_exit(
    expected: &str,
    success: bool,
    code: Option<i32>,
    got: String,
    stderr: String,
    ms: u64,
    r: Verdict,
)
    requires
        call_ensures(judge_exit, (expected, success, code, got, stderr, ms), r),
    ensures
        !success ==> r@ == (VerdictView::Rte { stderr: stderr@, code }),
        success ==> (r@ is Pass <==> forall|i: int|
            0 <= i ==> #[trigger] outputs::same_line(expected@, got@, i)),
        success ==> r@ == (VerdictView::Pass { ms }) || r@ == (VerdictView::Fail { got: got@, ms }),
{
    outputs::law_matching_outputs(expected@, got@);
}

/// A compilation succeeds exactly if the compiler did; a run compiles first, and then goes through
/// the samples one by one.
pub proof fn law_runs(
    reply: CommandReply,
    r: Result<(), String>,
    step: RunStep,
    compiled: bool,
    tests: usize,
    next: RunStep,
    bin: &str,
    args: Vec<String>,
)
    requires
        call_ensures(compile_result, (reply,), r),
        call_ensures(next_step, (step, compiled, tests), next),
        call_ensures(compile_args, (bin,), args),
    ensures
        r is Ok <==> (reply matches CommandReply::Finished { success, stdout, stderr } && success),
        reply matches CommandReply::Finished { success, stdout, stderr } ==> !success ==> r->Err_0@
            == process::lossy_text(stderr@),
        step == RunStep::Compile ==> next == if compiled && tests > 0 {
            RunStep::Test(0)
        } else {
            RunStep::Stop
        },
        step matches RunStep::Test(i) ==> next == if i + 1 < tests {
            RunStep::Test((i + 1) as usize)
        } else {
            RunStep::Stop
        },
        step == RunStep::Stop ==> next == RunStep::Stop,
        text::texts(args@) == seq![
            "-std=c++17"@,
            "-O2"@,
            "-Wall"@,
            "-o"@,
            bin@,
            "solution.cpp"@,
        ],
{
}

/// A problem is told by its place and its file; a path that does not lead to one is refused for the
/// first thing that it lacks.
pub proof fn law_problem_functions(
    way: Vec<Ancestor>,
    found: Result<Location, String>,
    place: Location,
    file: TestCasesFile,
    built: Problem,
    times: &Vec<i128>,
    latest: Option<usize>,
)
    requires
        call_ensures(locate, (way,), found),
        call_ensures(build_problem, (place, file), built),
        call_ensures(latest_index, (times,), latest),
    ensures
        way@.len() <= 1 ==> found is Err && found->Err_0@
            == "test_cases.json has no parent directory"@,
        way@.len() > 1 && way@[1].name is None ==> found is Err && found->Err_0@
            == "missing index directory name"@,
        way@.len() > 1 && way@[1].name is Some && (way@.len() == 2 || way@[2].name is None)
            ==> found is Err && found->Err_0@ == "missing contest directory name"@,
        way@.len() > 2 && way@[1].name is Some && way@[2].name is Some ==> found == Ok::<
            Location,
            String,
        >(
            Location {
                dir: way@[1].path,
                index: way@[1].name->0,
                contest_id: way@[2].name->0,
            },
        ),
        built@ == problem::described(place, file),
        times@.len() == 0 <==> latest is None,
        latest matches Some(i) ==> i < times@.len() && (forall|k: int|
            0 <= k < times@.len() ==> #[trigger] times@[k] <= times@[i as int]) && (forall|k: int|
            0 <= k < i ==> #[trigger] times@[k] < times@[i as int]),
{
}

/// A reply gives its result exactly if it is a success, and a problem is solved exactly if some
/// submission to it was accepted.
pub proof fn law_service_functions(
    reply: ApiReply<Vec<CfSubmission>>,
    plain: Result<Vec<CfSubmission>, String>,
    solved: Result<SolvedSet, String>,
    list: Vec<CfSubmission>,
    set: SolvedSet,
    contest_id: u32,
    index: Seq<char>,
    cache: &ProblemsetCache,
    now: u64,
    fresh: bool,
    reading: Option<u64>,
    secs: u64,
)
    requires
        call_ensures(api_result::<Vec<CfSubmission>>, (reply,), plain),
        call_ensures(solved_result, (reply,), solved),
        call_ensures(solved_problems, (list,), set),
        call_ensures(cache_is_fresh_at, (cache, now), fresh),
        call_ensures(seconds_from, (reading,), secs),
    ensures
        plain is Ok <==> (reply matches ApiReply::Answered(CfResponse::Succeeded { result })),
        solved is Ok <==> (reply matches ApiReply::Answered(CfResponse::Succeeded { result })),
        reply matches ApiReply::Answered(CfResponse::Succeeded { result }) ==> plain == Ok::<
            Vec<CfSubmission>,
            String,
        >(result) && solved->Ok_0@ == codeforces::solved_by(result@),
        set@.contains((contest_id, index)) <==> exists|i: int|
            {
                &&& 0 <= i < list@.len()
                &&& (#[trigger] list@[i]).verdict matches Some(verdict)
                &&& verdict@ == "OK"@
                &&& list@[i].problem.contest_id == Some(contest_id)
                &&& list@[i].problem.index@ == index
            },
        fresh <==> now < cache.fetched_at + 24 * 60 * 60,
        reading matches Some(s) ==> secs == s,
        reading is None ==> secs == 0,
{
    codeforces::lemma_solved_once_accepted(list@, Seq::empty(), contest_id, index);
}

} // verus!
