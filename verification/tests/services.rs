use std::path::{Path, PathBuf};

use rune::analytics::{recent_since, recent_weak_tags, solve_row, weak_tags, WINDOW_SECS};
use rune::clock::{seconds_from, unix_seconds};
use rune::codeforces::{
    api_result, cache_is_fresh, cache_is_fresh_at, problemset_cache_path, solved_result,
    user_status_url, ApiReply, CfProblem, CfResponse, CfSubmission, ProblemsetCache,
};
use rune::git::{commit_message, git_args, push_next, push_root, GitStep, PushNext};
use rune::judge::{
    compile_args, compile_result, judge, judge_exit, next_step, RunOutcome, RunStep, Verdict,
};
use rune::paths::{rune_dir, rune_file, workspace_root};
use rune::problem::{
    build_problem, concerns_problem, latest_index, locate, parts_of, Ancestor, Debouncer, FileChange,
    Location, Problem, TestCase, TestCasesFile,
};
use rune::process::CommandReply;

fn problem() -> Problem {
    Problem {
        contest_id: "1922".to_string(),
        index: "C".to_string(),
        name: Some("Closest".to_string()),
        rating: Some(1300),
        tags: vec!["greedy".to_string(), "math".to_string()],
        dir: PathBuf::from("/w/1922/C"),
        time_limit_ms: 2000,
        test_cases: vec![],
    }
}

/// The way up from a path, the path itself first.
fn way_up(path: &str) -> Vec<Ancestor> {
    Path::new(path)
        .ancestors()
        .map(|p| Ancestor {
            path: p.to_path_buf(),
            name: p.file_name().map(|n| n.to_string_lossy().into_owned()),
        })
        .collect()
}

fn sample(expected: &str) -> TestCase {
    TestCase {
        id: "sample-1".to_string(),
        input: "1\n".to_string(),
        expected_output: expected.to_string(),
    }
}

fn exited(success: bool, code: Option<i32>, stdout: &[u8], stderr: &[u8]) -> RunOutcome {
    RunOutcome::Exited { success, code, stdout: stdout.to_vec(), stderr: stderr.to_vec(), ms: 15 }
}

#[test]
fn a_matching_output_passes() {
    let v = judge(&sample("3\n"), exited(true, Some(0), b"3  \n\n", b"warning"));
    assert_eq!(v, Verdict::Pass { ms: 15 });
}

#[test]
fn another_output_fails_with_what_came() {
    let v = judge(&sample("3\n"), exited(true, Some(0), b"4\n", b""));
    assert_eq!(v, Verdict::Fail { got: "4\n".to_string(), ms: 15 });
}

#[test]
fn invalid_bytes_are_replaced() {
    let v = judge(&sample("3\n"), exited(true, Some(0), &[b'a', 0xff, b'b'], b""));
    assert_eq!(v, Verdict::Fail { got: "a\u{fffd}b".to_string(), ms: 15 });
    let v = judge(&sample("3\n"), exited(false, None, b"3\n", &[0xc3]));
    assert_eq!(v, Verdict::Rte { stderr: "\u{fffd}".to_string(), code: None });
}

#[test]
fn a_failing_exit_is_a_runtime_error_whatever_was_printed() {
    let v = judge(&sample("3\n"), exited(false, Some(139), b"3\n", b"segfault"));
    assert_eq!(v, Verdict::Rte { stderr: "segfault".to_string(), code: Some(139) });
    let v = judge_exit("3", false, None, "3".to_string(), "killed".to_string(), 1);
    assert_eq!(v, Verdict::Rte { stderr: "killed".to_string(), code: None });
}

#[test]
fn other_outcomes_have_their_verdicts() {
    assert_eq!(judge(&sample(""), RunOutcome::TimedOut), Verdict::Tle);
    assert_eq!(
        judge(&sample(""), RunOutcome::NotStarted("no such file".to_string())),
        Verdict::Rte { stderr: "failed to start solution: no such file".to_string(), code: None }
    );
    assert_eq!(
        judge(&sample(""), RunOutcome::WaitFailed("gone".to_string())),
        Verdict::Rte { stderr: "failed waiting on solution: gone".to_string(), code: None }
    );
}

#[test]
fn the_compiler_is_told_what_to_do() {
    assert_eq!(
        compile_args("solution"),
        vec!["-std=c++17", "-O2", "-Wall", "-o", "solution", "solution.cpp"]
    );
}

#[test]
fn compiling_succeeds_or_says_why_not() {
    let done = |success: bool| CommandReply::Finished {
        success,
        stdout: b"out".to_vec(),
        stderr: b"warning: x".to_vec(),
    };
    assert_eq!(compile_result(done(true)), Ok(()));
    assert_eq!(compile_result(done(false)), Err("warning: x".to_string()));
    assert_eq!(
        compile_result(CommandReply::NotLaunched("not found".to_string())),
        Err("failed to launch g++: not found".to_string())
    );
}

#[test]
fn a_run_goes_through_the_samples_in_order() {
    let mut step = RunStep::Compile;
    let mut seen = vec![step];
    while step != RunStep::Stop {
        step = next_step(step, true, 2);
        seen.push(step);
    }
    assert_eq!(seen, vec![RunStep::Compile, RunStep::Test(0), RunStep::Test(1), RunStep::Stop]);
    assert_eq!(next_step(RunStep::Compile, false, 2), RunStep::Stop);
    assert_eq!(next_step(RunStep::Compile, true, 0), RunStep::Stop);
}

#[test]
fn commits_name_the_problem() {
    let mut p = problem();
    assert_eq!(commit_message(&p), "solve: CF 1922C (1300) — Closest");
    p.rating = None;
    p.name = None;
    assert_eq!(commit_message(&p), "solve: CF 1922C (unrated)");
    p.rating = Some(-5);
    assert_eq!(commit_message(&p), "solve: CF 1922C (-5)");
}

#[test]
fn git_gets_its_arguments() {
    assert_eq!(git_args(GitStep::Add, "m"), vec!["add", "."]);
    assert_eq!(git_args(GitStep::Commit, "m n"), vec!["commit", "-m", "m n"]);
    assert_eq!(git_args(GitStep::Push, "m"), vec!["push", "origin", "main"]);
}

fn ran(success: bool, stdout: &str, stderr: &str) -> CommandReply {
    CommandReply::Finished {
        success,
        stdout: stdout.as_bytes().to_vec(),
        stderr: stderr.as_bytes().to_vec(),
    }
}

fn ended(next: PushNext) -> Result<String, String> {
    match next {
        PushNext::Done(result) => result,
        PushNext::Run(step) => panic!("goes on with {step:?}"),
    }
}

#[test]
fn a_push_adds_commits_and_pushes() {
    let next = push_next(GitStep::Add, "m", ran(true, "", ""));
    assert!(matches!(next, PushNext::Run(GitStep::Commit)));
    let next = push_next(GitStep::Commit, "m", ran(true, "", ""));
    assert!(matches!(next, PushNext::Run(GitStep::Push)));
    let next = push_next(GitStep::Push, "m", ran(true, "", ""));
    assert_eq!(ended(next), Ok("Pushed to origin/main.".to_string()));
}

#[test]
fn an_empty_commit_is_no_failure() {
    for said in ["nothing to commit, working tree clean", "no changes added", "nothing added to commit but"] {
        assert!(matches!(
            push_next(GitStep::Commit, "m", ran(false, said, "")),
            PushNext::Run(GitStep::Push)
        ));
        assert!(matches!(
            push_next(GitStep::Commit, "m", ran(false, "", said)),
            PushNext::Run(GitStep::Push)
        ));
    }
}

#[test]
fn a_failed_step_ends_the_push_with_what_git_said() {
    assert_eq!(
        ended(push_next(GitStep::Add, "m", ran(false, "", "fatal: x\n"))),
        Err("git add failed:\nfatal: x".to_string())
    );
    assert_eq!(
        ended(push_next(GitStep::Commit, "m", ran(false, "out", "err "))),
        Err("git commit failed:\nout\nerr".to_string())
    );
    assert_eq!(
        ended(push_next(GitStep::Push, "m", ran(false, "nothing to commit", ""))),
        Err("git push failed:\nnothing to commit".to_string())
    );
    assert_eq!(
        ended(push_next(GitStep::Commit, "a b", CommandReply::NotLaunched("no git".to_string()))),
        Err("failed to spawn `git commit -m a b`: no git".to_string())
    );
}

#[test]
fn a_push_needs_a_workspace() {
    assert_eq!(push_root(way_up("/w/1922/C")), Ok(PathBuf::from("/w")));
    assert_eq!(push_root(way_up("/w/1922")), Ok(PathBuf::from("/")));
    let error = Err("could not determine workspace root".to_string());
    assert_eq!(push_root(way_up("/w")), error);
    assert_eq!(push_root(vec![]), error);
}

#[test]
fn a_solve_is_recorded_with_its_tags() {
    let row = solve_row(&problem(), 1700000000);
    assert_eq!(row.contest_id, 1922);
    assert_eq!(row.problem_index, "C");
    assert_eq!(row.name, "Closest");
    assert_eq!(row.rating, Some(1300));
    assert_eq!(row.tags, "greedy,math");
    assert_eq!(row.timestamp, 1700000000);
    assert_eq!(row.verdict, "PASS");
    let mut gym = problem();
    gym.contest_id = "gym".to_string();
    gym.name = None;
    gym.tags = vec![];
    let row = solve_row(&gym, 0);
    assert_eq!((row.contest_id, row.name.as_str(), row.tags.as_str()), (0, "", ""));
}

#[test]
fn recorded_tags_are_read_back() {
    let row = solve_row(&problem(), 0);
    assert_eq!(weak_tags(&vec![row.tags]), vec!["greedy", "math"]);
}

#[test]
fn the_rarest_tags_are_the_weak_ones() {
    let rows: Vec<String> =
        ["dp,math", "dp, trees ,,math", "dp", "b,c,a,d"].iter().map(|s| s.to_string()).collect();
    assert_eq!(weak_tags(&rows), vec!["a", "b", "c", "d", "trees"]);
    let few: Vec<String> = vec!["dp,math".to_string(), "dp".to_string()];
    assert_eq!(weak_tags(&few), vec!["math", "dp"]);
}

#[test]
fn a_window_without_tags_has_no_weak_ones() {
    assert_eq!(recent_weak_tags(&vec![]), None);
    assert_eq!(recent_weak_tags(&vec!["".to_string(), ",,".to_string()]), None);
    assert_eq!(recent_weak_tags(&vec!["dp".to_string()]), Some(vec!["dp".to_string()]));
    assert_eq!(weak_tags(&vec![]), Vec::<String>::new());
}

#[test]
fn the_window_is_thirty_days() {
    assert_eq!(WINDOW_SECS, 30 * 24 * 60 * 60);
    assert_eq!(recent_since(3_000_000), 408_000);
    assert_eq!(recent_since(0), -2_592_000);
}

#[test]
fn replies_of_the_service_become_results() {
    let failed: ApiReply<u32> =
        ApiReply::Answered(CfResponse::Failed { comment: "handle: not found".to_string() });
    assert_eq!(api_result(failed), Err("CF API: handle: not found".to_string()));
    let down: ApiReply<u32> = ApiReply::Unreachable("timed out".to_string());
    assert_eq!(api_result(down), Err("network: timed out".to_string()));
    let odd: ApiReply<u32> = ApiReply::Unreadable("eof".to_string());
    assert_eq!(api_result(odd), Err("parse: eof".to_string()));
    let fine: ApiReply<u32> = ApiReply::Answered(CfResponse::Succeeded { result: 5 });
    assert_eq!(api_result(fine), Ok(5));
}

fn submission(contest_id: Option<u32>, index: &str, verdict: Option<&str>) -> CfSubmission {
    CfSubmission {
        problem: CfProblem {
            contest_id,
            index: index.to_string(),
            name: String::new(),
            rating: None,
            tags: vec![],
        },
        verdict: verdict.map(|v| v.to_string()),
    }
}

#[test]
fn accepted_submissions_count_as_solved() {
    let list = vec![
        submission(Some(1), "A", Some("OK")),
        submission(Some(1), "B", Some("WRONG_ANSWER")),
        submission(Some(2), "A", None),
        submission(None, "C", Some("OK")),
        submission(Some(1), "C", Some("OK")),
        submission(Some(1), "A", Some("WRONG_ANSWER")),
    ];
    let reply = ApiReply::Answered(CfResponse::Succeeded { result: list });
    let solved = solved_result(reply).unwrap();
    assert!(solved.contains(1, &"A".to_string()));
    assert!(solved.contains(1, &"C".to_string()));
    assert!(!solved.contains(1, &"B".to_string()));
    assert!(!solved.contains(2, &"A".to_string()));
    let down: ApiReply<Vec<CfSubmission>> = ApiReply::Unreachable("x".to_string());
    assert_eq!(solved_result(down).err(), Some("network: x".to_string()));
}

#[test]
fn submissions_are_asked_for_by_handle() {
    assert_eq!(
        user_status_url("tourist"),
        "https://codeforces.com/api/user.status?handle=tourist"
    );
}

#[test]
fn a_cache_is_fresh_for_a_day() {
    let cache = ProblemsetCache { fetched_at: 1000, problems: vec![] };
    assert!(cache_is_fresh_at(&cache, 0));
    assert!(cache_is_fresh_at(&cache, 1000));
    assert!(cache_is_fresh_at(&cache, 87399));
    assert!(!cache_is_fresh_at(&cache, 87400));
    assert!(!cache_is_fresh(&cache));
    assert!(cache_is_fresh(&ProblemsetCache { fetched_at: u64::MAX, problems: vec![] }));
}

#[test]
fn the_clock_counts_from_the_epoch() {
    assert!(unix_seconds() > 1_600_000_000);
    assert_eq!(seconds_from(Some(7)), 7);
    assert_eq!(seconds_from(None), 0);
}

#[test]
fn state_is_kept_below_the_home_directory() {
    assert_eq!(rune_dir().parts, vec![".rune"]);
    assert_eq!(rune_file("config.toml").parts, vec![".rune", "config.toml"]);
    assert_eq!(problemset_cache_path().parts, vec![".rune", "cf_problemset_cache.json"]);
    assert_eq!(workspace_root().parts, vec!["cp", "Codeforces"]);
}

fn place() -> Location {
    Location {
        dir: PathBuf::from("/w/1922/C"),
        index: "C".to_string(),
        contest_id: "1922".to_string(),
    }
}

#[test]
fn a_payload_becomes_a_problem() {
    let file = TestCasesFile::Payload {
        name: Some("Closest".to_string()),
        rating: Some(1600),
        time_limit_ms: Some(3000),
        tags: vec!["dp".to_string()],
        test_cases: vec![sample("3\n")],
    };
    let p = build_problem(place(), file);
    assert_eq!(p.contest_id, "1922");
    assert_eq!(p.index, "C");
    assert_eq!(p.name, Some("Closest".to_string()));
    assert_eq!(p.rating, Some(1600));
    assert_eq!(p.tags, vec!["dp"]);
    assert_eq!(p.dir, PathBuf::from("/w/1922/C"));
    assert_eq!(p.time_limit_ms, 3000);
    assert_eq!(p.test_cases.len(), 1);
    assert_eq!(p.test_cases[0].expected_output, "3\n");
}

#[test]
fn a_missing_time_limit_is_two_seconds() {
    for stated in [None, Some(0)] {
        let file = TestCasesFile::Payload {
            name: None,
            rating: None,
            time_limit_ms: stated,
            tags: vec![],
            test_cases: vec![],
        };
        assert_eq!(build_problem(place(), file).time_limit_ms, 2000);
    }
    let p = build_problem(place(), TestCasesFile::Bare(vec![sample("1")]));
    assert_eq!(p.time_limit_ms, 2000);
    assert_eq!(p.name, None);
    assert_eq!(p.rating, None);
    assert!(p.tags.is_empty());
    assert_eq!(p.test_cases.len(), 1);
}

#[test]
fn a_path_tells_the_problem() {
    let found = locate(way_up("/w/1922/C/test_cases.json")).unwrap();
    assert_eq!((found.index.as_str(), found.contest_id.as_str()), ("C", "1922"));
    assert_eq!(found.dir, PathBuf::from("/w/1922/C"));
    let error = |path: &str| locate(way_up(path)).err().unwrap();
    assert_eq!(error("/"), "test_cases.json has no parent directory");
    assert_eq!(error("/test_cases.json"), "missing index directory name");
    assert_eq!(error("test_cases.json"), "missing index directory name");
    assert_eq!(error("/C/test_cases.json"), "missing contest directory name");
    assert_eq!(error("C/test_cases.json"), "missing contest directory name");
}

#[test]
fn the_parts_of_a_path_are_told_apart() {
    let parts = parts_of(way_up("1922/C/test_cases.json"));
    assert_eq!(parts.dir, Some(PathBuf::from("1922/C")));
    assert_eq!(parts.index, Some("C".to_string()));
    assert_eq!(parts.contest_id, Some("1922".to_string()));
    let parts = parts_of(vec![]);
    assert_eq!((parts.dir, parts.index, parts.contest_id), (None, None, None));
}

#[test]
fn a_problem_is_pushed_from_above_its_contest() {
    let found = locate(way_up("/w/1922/C/test_cases.json")).unwrap();
    let root = push_root(way_up(found.dir.to_str().unwrap())).unwrap();
    assert_eq!(root.join(&found.contest_id).join(&found.index), found.dir);
}

#[test]
fn the_first_of_the_latest_files_is_loaded() {
    assert_eq!(latest_index(&vec![]), None);
    assert_eq!(latest_index(&vec![-5]), Some(0));
    assert_eq!(latest_index(&vec![3, 9, 4, 9]), Some(1));
}

#[test]
fn only_new_or_changed_samples_concern_a_problem() {
    assert!(concerns_problem(FileChange::Create, Some("test_cases.json")));
    assert!(concerns_problem(FileChange::Modify, Some("test_cases.json")));
    assert!(!concerns_problem(FileChange::Other, Some("test_cases.json")));
    assert!(!concerns_problem(FileChange::Modify, Some("solution.cpp")));
    assert!(!concerns_problem(FileChange::Modify, None));
}

#[test]
fn a_burst_of_changes_counts_once() {
    const MS: u64 = 1_000_000;
    let mut d = Debouncer::new();
    assert!(d.accept(1, 0));
    assert!(!d.accept(1, 499 * MS));
    assert!(d.accept(2, 499 * MS));
    assert!(d.accept(1, 500 * MS));
    assert!(!d.accept(1, 999 * MS));
    assert!(d.accept(1, 1000 * MS));
}
