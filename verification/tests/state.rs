use std::path::PathBuf;

use rune::app::{
    App, AppEvent, AppState, Effect, Flow, Key, KeyCode, RecordedSet, RecsState, Selection, Step,
};
use rune::judge::Verdict;
use rune::problem::{Problem, TestCase};
use rune::recommend::Recommendation;

fn problem(samples: usize) -> Problem {
    Problem {
        contest_id: "1".to_string(),
        index: "A".to_string(),
        name: None,
        rating: None,
        tags: vec![],
        dir: PathBuf::from("/w/1/A"),
        time_limit_ms: 2000,
        test_cases: (0..samples)
            .map(|i| TestCase {
                id: format!("sample-{}", i + 1),
                input: String::new(),
                expected_output: String::new(),
            })
            .collect(),
    }
}

fn rec(contest_id: u32) -> Recommendation {
    Recommendation {
        contest_id,
        index: "A".to_string(),
        name: String::new(),
        rating: None,
        tags: vec![],
        url: format!("https://codeforces.com/contest/{contest_id}/problem/A"),
        matched_tags: vec![],
    }
}

fn press(app: &mut App, code: KeyCode) -> Step {
    app.handle(AppEvent::Key(Key { code, ctrl: false }), 0)
}

fn verdict(app: &mut App, run: u64, index: usize, verdict: Verdict) -> Step {
    app.handle(AppEvent::TestResult { run, index, verdict }, 0)
}

fn loaded(samples: usize) -> App {
    let mut app = App::new(None);
    app.handle(AppEvent::ProblemLoaded(problem(samples)), 77);
    app
}

/// An app whose run over `samples` samples has been compiled.
fn testing(samples: usize) -> App {
    let mut app = loaded(samples);
    app.handle(AppEvent::StartTesting, 0);
    let run = app.run;
    app.handle(AppEvent::CompileResult { run, result: Ok(()) }, 0);
    app
}

fn reviewed(samples: usize) -> App {
    let mut app = testing(samples);
    let run = app.run;
    for i in 0..samples {
        verdict(&mut app, run, i, Verdict::Tle);
    }
    app
}

#[test]
fn a_new_app_shows_the_dashboard() {
    let app = App::new(Some("me".to_string()));
    assert_eq!(app.state, AppState::Idle);
    assert!(app.problem.is_none());
    assert_eq!(app.cf_handle, Some("me".to_string()));
    assert_eq!(app.run, 0);
    assert_eq!(app.started_at, None);
    assert!(matches!(app.recs, RecsState::Idle));
    assert_eq!(app.recs_selected, Selection::none());
}

#[test]
fn analytics_are_taken_over() {
    let mut app = App::new(None);
    app.set_analytics(vec!["dp".to_string()], Some(1400));
    assert_eq!(app.weak_tags, vec!["dp"]);
    assert_eq!(app.user_max_rating, Some(1400));
}

#[test]
fn loading_a_problem_starts_the_timer() {
    let mut app = App::new(None);
    let step = app.handle(AppEvent::ProblemLoaded(problem(2)), 77);
    assert_eq!(step.flow, Flow::Redraw);
    assert_eq!(app.state, AppState::Loaded);
    assert_eq!(app.started_at, Some(77));
    assert_eq!(app.run, 1);
    assert!(app.results.is_empty());
    press(&mut app, KeyCode::Char('r'));
    assert_eq!(app.started_at, None);
}

#[test]
fn q_and_control_c_quit() {
    let mut app = reviewed(1);
    assert_eq!(press(&mut app, KeyCode::Char('q')).flow, Flow::Quit);
    let ctrl_c = Key { code: KeyCode::Char('c'), ctrl: true };
    assert_eq!(app.handle(AppEvent::Key(ctrl_c), 0).flow, Flow::Quit);
    assert_eq!(press(&mut app, KeyCode::Char('c')).flow, Flow::Redraw);
}

#[test]
fn testing_begins_only_with_a_problem() {
    let mut app = App::new(None);
    assert!(matches!(press(&mut app, KeyCode::Char('t')).effect, Effect::Nothing));
    assert!(matches!(app.handle(AppEvent::StartTesting, 0).effect, Effect::Nothing));
    let mut app = loaded(2);
    assert!(matches!(press(&mut app, KeyCode::Char('t')).effect, Effect::RequestTesting));
    let step = app.handle(AppEvent::StartTesting, 0);
    assert!(matches!(step.effect, Effect::RunTests { run: 2 }));
    assert_eq!(app.run, 2);
    assert_eq!(app.state, AppState::Compiling);
    assert_eq!(app.results, vec![None, None]);
    assert_eq!(app.results_selected.selected, Some(0));
    assert!(matches!(app.handle(AppEvent::StartTesting, 0).effect, Effect::Nothing));
    assert_eq!(app.run, 2);
}

#[test]
fn a_failed_compilation_ends_the_run() {
    let mut app = loaded(2);
    app.handle(AppEvent::StartTesting, 0);
    let result = Err("error: x".to_string());
    app.handle(AppEvent::CompileResult { run: 2, result }, 0);
    assert_eq!(app.state, AppState::Review);
    assert_eq!(app.build_error, Some("error: x".to_string()));
    assert!(matches!(press(&mut app, KeyCode::Char('p')).effect, Effect::RequestPush));
    assert!(matches!(app.handle(AppEvent::StartPush, 0).effect, Effect::Nothing));
    assert_eq!(app.state, AppState::Review);
}

#[test]
fn a_full_pass_is_recorded_once() {
    let mut app = testing(2);
    let run = app.run;
    let step = verdict(&mut app, run, 1, Verdict::Pass { ms: 3 });
    assert!(matches!(step.effect, Effect::Nothing));
    assert_eq!(app.state, AppState::Testing);
    let step = verdict(&mut app, run, 0, Verdict::Pass { ms: 4 });
    assert!(matches!(step.effect, Effect::RecordSolve));
    assert_eq!(app.state, AppState::Review);
    assert!(app.recorded.contains(&"1".to_string(), &"A".to_string()));
    app.handle(AppEvent::StartTesting, 0);
    let run = app.run;
    verdict(&mut app, run, 0, Verdict::Pass { ms: 3 });
    let step = verdict(&mut app, run, 1, Verdict::Pass { ms: 3 });
    assert!(matches!(step.effect, Effect::Nothing));
    assert_eq!(app.state, AppState::Review);
}

#[test]
fn a_failed_sample_is_not_recorded() {
    let mut app = testing(2);
    let run = app.run;
    verdict(&mut app, run, 0, Verdict::Pass { ms: 3 });
    let step = verdict(&mut app, run, 1, Verdict::Fail { got: "x".to_string(), ms: 1 });
    assert!(matches!(step.effect, Effect::Nothing));
    assert_eq!(app.state, AppState::Review);
    assert!(!app.recorded.contains(&"1".to_string(), &"A".to_string()));
}

#[test]
fn verdicts_beyond_the_samples_are_ignored() {
    let mut app = testing(1);
    let run = app.run;
    verdict(&mut app, run, 5, Verdict::Tle);
    assert_eq!(app.results, vec![None]);
    assert_eq!(app.state, AppState::Testing);
}

#[test]
fn results_of_superseded_runs_are_dropped() {
    let mut app = testing(1);
    let old = app.run;
    press(&mut app, KeyCode::Char('r'));
    let run = old;
    assert_eq!(app.handle(AppEvent::CompileResult { run, result: Ok(()) }, 0).flow, Flow::Skip);
    assert_eq!(verdict(&mut app, run, 0, Verdict::Tle).flow, Flow::Skip);
    let result = Ok("pushed".to_string());
    assert_eq!(app.handle(AppEvent::PushResult { run, result }, 0).flow, Flow::Skip);
    assert_eq!(app.state, AppState::Idle);
    assert_eq!(app.run, old + 1);
}

#[test]
fn a_reset_clears_everything_but_the_session() {
    let mut app = reviewed(2);
    app.push_error = Some("x".to_string());
    press(&mut app, KeyCode::Char('r'));
    assert_eq!(app.state, AppState::Idle);
    assert!(app.problem.is_none());
    assert!(app.results.is_empty());
    assert_eq!(app.push_error, None);
    assert_eq!(app.results_selected, Selection::none());
}

#[test]
fn a_push_leads_back_to_the_dashboard() {
    let mut app = reviewed(1);
    let step = app.handle(AppEvent::StartPush, 0);
    let run = app.run;
    assert!(matches!(step.effect, Effect::Push { run: r } if r == run));
    assert_eq!(app.state, AppState::GitSyncing);
    let result = Err("git push failed:\nno".to_string());
    app.handle(AppEvent::PushResult { run, result }, 0);
    assert_eq!(app.state, AppState::Review);
    assert_eq!(app.push_error, Some("git push failed:\nno".to_string()));
    app.handle(AppEvent::StartPush, 0);
    assert_eq!(app.push_error, None);
    let run = app.run;
    app.handle(AppEvent::PushResult { run, result: Ok(String::new()) }, 0);
    assert_eq!(app.state, AppState::Idle);
    assert!(app.problem.is_none());
    assert_eq!(app.run, run);
}

#[test]
fn the_cursor_stays_on_the_samples() {
    let mut app = reviewed(2);
    press(&mut app, KeyCode::Up);
    assert_eq!(app.results_selected.selected, Some(0));
    press(&mut app, KeyCode::Down);
    press(&mut app, KeyCode::Char('j'));
    assert_eq!(app.results_selected.selected, Some(1));
    press(&mut app, KeyCode::Char('k'));
    assert_eq!(app.results_selected.selected, Some(0));
}

#[test]
fn the_full_view_scrolls_and_closes() {
    let mut app = reviewed(2);
    press(&mut app, KeyCode::Char('d'));
    assert_eq!(app.state, AppState::FullDiff);
    press(&mut app, KeyCode::Up);
    assert_eq!(app.diff_offset, 0);
    press(&mut app, KeyCode::Down);
    press(&mut app, KeyCode::Char('j'));
    assert_eq!(app.diff_offset, 2);
    press(&mut app, KeyCode::Esc);
    assert_eq!(app.state, AppState::Review);
    assert_eq!(app.diff_offset, 0);
    press(&mut app, KeyCode::Char('d'));
    app.diff_offset = u16::MAX;
    press(&mut app, KeyCode::Down);
    assert_eq!(app.diff_offset, u16::MAX);
    press(&mut app, KeyCode::Char('d'));
    assert_eq!(app.state, AppState::Review);
}

#[test]
fn without_verdicts_there_is_no_full_view() {
    let mut app = loaded(1);
    app.handle(AppEvent::StartTesting, 0);
    app.handle(AppEvent::CompileResult { run: 2, result: Err(String::new()) }, 0);
    press(&mut app, KeyCode::Char('d'));
    assert_eq!(app.state, AppState::FullDiff);
    let mut app = loaded(0);
    app.handle(AppEvent::StartTesting, 0);
    app.handle(AppEvent::CompileResult { run: 2, result: Err(String::new()) }, 0);
    press(&mut app, KeyCode::Char('d'));
    assert_eq!(app.state, AppState::Review);
}

#[test]
fn recommendations_are_fetched_once_at_a_time() {
    let mut app = App::new(None);
    let step = press(&mut app, KeyCode::Char('f'));
    assert!(matches!(step.effect, Effect::RequestRecs { force_refresh: true }));
    let step = app.handle(AppEvent::StartFetchRecs { force_refresh: true }, 0);
    assert!(matches!(step.effect, Effect::FetchRecs { force_refresh: true }));
    assert!(matches!(app.recs, RecsState::Loading));
    let step = app.handle(AppEvent::StartFetchRecs { force_refresh: false }, 0);
    assert!(matches!(step.effect, Effect::Nothing));
    assert_eq!(step.flow, Flow::Redraw);
    let mut app = loaded(1);
    let step = app.handle(AppEvent::StartFetchRecs { force_refresh: true }, 0);
    assert_eq!(step.flow, Flow::Skip);
    assert!(matches!(app.recs, RecsState::Idle));
}

#[test]
fn the_selected_recommendation_is_opened() {
    let mut app = App::new(None);
    assert!(matches!(press(&mut app, KeyCode::Char('o')).effect, Effect::Nothing));
    app.handle(AppEvent::RecommendationsReady(Ok(vec![rec(4), rec(5)])), 0);
    assert_eq!(app.recs_selected.selected, Some(0));
    press(&mut app, KeyCode::Down);
    press(&mut app, KeyCode::Down);
    match press(&mut app, KeyCode::Char('o')).effect {
        Effect::OpenUrl(url) => {
            assert_eq!(url, "https://codeforces.com/contest/5/problem/A")
        }
        other => panic!("{other:?}"),
    }
    app.handle(AppEvent::RecommendationsReady(Ok(vec![])), 0);
    assert_eq!(app.recs_selected.selected, None);
    assert!(matches!(press(&mut app, KeyCode::Char('o')).effect, Effect::Nothing));
    app.handle(AppEvent::RecommendationsReady(Err("down".to_string())), 0);
    assert!(matches!(&app.recs, RecsState::Error(m) if m == "down"));
}

#[test]
fn the_spinner_turns_while_something_is_under_way() {
    let mut app = App::new(None);
    assert_eq!(app.handle(AppEvent::Tick, 0).flow, Flow::Skip);
    assert_eq!(app.spinner, 0);
    app.handle(AppEvent::StartFetchRecs { force_refresh: true }, 0);
    assert_eq!(app.handle(AppEvent::Tick, 0).flow, Flow::Redraw);
    assert_eq!(app.spinner, 1);
    let mut app = testing(1);
    app.spinner = usize::MAX;
    app.handle(AppEvent::Tick, 0);
    assert_eq!(app.spinner, 0);
}

#[test]
fn the_timer_is_redrawn_while_it_is_on_screen() {
    let mut app = App::new(None);
    assert_eq!(app.handle(AppEvent::TimerTick, 0).flow, Flow::Skip);
    let mut app = reviewed(1);
    assert_eq!(app.handle(AppEvent::TimerTick, 0).flow, Flow::Redraw);
    press(&mut app, KeyCode::Char('d'));
    assert_eq!(app.handle(AppEvent::TimerTick, 0).flow, Flow::Skip);
    assert_eq!(app.handle(AppEvent::Resize, 0).flow, Flow::Redraw);
}

#[test]
fn new_runs_are_foretold() {
    let mut app = loaded(1);
    assert!(app.starts_new_run(&AppEvent::StartTesting));
    assert!(!app.starts_new_run(&AppEvent::StartPush));
    assert!(!app.starts_new_run(&AppEvent::Tick));
    assert!(app.starts_new_run(&AppEvent::ProblemLoaded(problem(1))));
    let reset = Key { code: KeyCode::Char('r'), ctrl: false };
    assert!(app.starts_new_run(&AppEvent::Key(reset)));
    app.handle(AppEvent::StartTesting, 0);
    assert!(!app.starts_new_run(&AppEvent::StartTesting));
}

#[test]
fn recorded_problems_are_told_apart() {
    let mut set = RecordedSet::new();
    set.insert("1".to_string(), "A".to_string());
    assert!(set.contains(&"1".to_string(), &"A".to_string()));
    assert!(!set.contains(&"1".to_string(), &"B".to_string()));
    assert!(!set.contains(&"A".to_string(), &"1".to_string()));
}

#[test]
fn a_cursor_moves_within_its_list() {
    let mut s = Selection::none();
    s.move_down(0);
    assert_eq!(s.selected, None);
    s.move_up(3);
    assert_eq!(s.selected, Some(0));
    s.move_down(3);
    s.move_up(3);
    assert_eq!(s.selected, Some(0));
    s.offset = 2;
    s.select(Some(1));
    assert_eq!(s.offset, 2);
    s.select(None);
    assert_eq!(s.offset, 0);
}
