use std::path::PathBuf;

use rune::app::{App, AppState, RecsState};
use rune::bars::{render_bottom_bar, render_top_bar, spinner_text, timer_text};
use rune::dashboard::{
    rating_color, render_analytics_panel, render_compiling, render_dashboard, render_logo_panel,
    render_pushing, render_recs_panel, DashboardAreas,
};
use rune::full_view::{render_full_diff, render_full_diff_pane, PaneAreas};
use rune::judge::Verdict;
use rune::layout::{center_vertically, Rect};
use rune::problem::{Problem, TestCase};
use rune::recommend::Recommendation;
use rune::samples::{
    clamp_results_cursor, push_diff_lines, render_diff_view, render_problem, render_results,
    render_test_case_list, ResultAreas,
};
use rune::screen::{
    night, plain, strong, tint, Align, Color, Content, CursorOf, Draw, Line, Widget, FAIL, MUTED,
    PRIMARY, SECONDARY, SUCCESS, TERTIARY, TEXT,
};
use rune::ui::{banner_can_be_laid_out, compose, lay_out, ui, BodyAreas};

fn rect(x: u16, y: u16, width: u16, height: u16) -> Rect {
    Rect { x, y, width, height }
}

fn words(line: &Line) -> String {
    line.spans.iter().map(|s| s.text.as_str()).collect()
}

fn all_words(lines: &[Line]) -> Vec<String> {
    lines.iter().map(words).collect()
}

/// The texts of what is drawn, one per line.
fn shown(draw: &Draw) -> Vec<String> {
    match &draw.widget {
        Widget::Fill { .. } | Widget::Frame { .. } => vec![],
        Widget::Paragraph { content: Content::Lines(lines), .. } => all_words(lines),
        Widget::Paragraph { content: Content::Text(text), .. } => vec![text.clone()],
        Widget::List { items, .. } => items.iter().flat_map(|i| all_words(i)).collect(),
    }
}

fn title(draw: &Draw) -> String {
    match &draw.widget {
        Widget::Frame { block } | Widget::List { block, .. } => block.title.text.clone(),
        Widget::Paragraph { block: Some(block), .. } => block.title.text.clone(),
        _ => String::new(),
    }
}

fn sample(n: usize, input: &str, expected: &str) -> TestCase {
    TestCase {
        id: format!("sample-{n}"),
        input: input.to_string(),
        expected_output: expected.to_string(),
    }
}

fn problem(test_cases: Vec<TestCase>) -> Problem {
    Problem {
        contest_id: "1922".to_string(),
        index: "C".to_string(),
        name: Some("Closest".to_string()),
        rating: Some(1300),
        tags: vec![],
        dir: PathBuf::from("/w/1922/C"),
        time_limit_ms: 2000,
        test_cases,
    }
}

fn app_in(state: AppState, test_cases: Vec<TestCase>, results: Vec<Option<Verdict>>) -> App {
    let mut app = App::new(None);
    app.state = state;
    app.problem = Some(problem(test_cases));
    app.results = results;
    app
}

fn rec(name: &str, rating: Option<i32>, tags: &[&str]) -> Recommendation {
    Recommendation {
        contest_id: 1,
        index: "A".to_string(),
        name: name.to_string(),
        rating,
        tags: tags.iter().map(|t| t.to_string()).collect(),
        url: String::new(),
        matched_tags: vec![],
    }
}

#[test]
fn the_spinner_has_ten_pictures() {
    let all: Vec<&str> = (0..10).map(spinner_text).collect();
    assert_eq!(all, vec!["⠋", "⠙", "⠹", "⠸", "⠼", "⠴", "⠦", "⠧", "⠇", "⠏"]);
    assert_eq!(spinner_text(13), "⠸");
}

#[test]
fn the_timer_counts_minutes_and_seconds() {
    const SEC: u64 = 1_000_000_000;
    assert_eq!(timer_text(0, 0), "⏱ 00:00");
    assert_eq!(timer_text(5 * SEC, 70 * SEC + 999_999_999), "⏱ 01:05");
    assert_eq!(timer_text(0, 6000 * SEC), "⏱ 100:00");
    assert_eq!(timer_text(SEC, 0), "⏱ 00:00");
}

fn status_of(app: &App) -> (String, rune::screen::Style) {
    let r = rect(0, 0, 10, 1);
    let draws = render_top_bar(app, r, r, r, r, 0);
    assert_eq!(draws.len(), 3);
    match &draws[2].widget {
        Widget::Paragraph { content: Content::Lines(lines), align: Align::Right, .. } => {
            (words(&lines[0]), lines[0].spans[0].style)
        }
        other => panic!("{other:?}"),
    }
}

#[test]
fn the_top_bar_says_what_is_going_on() {
    let two = || vec![sample(1, "", ""), sample(2, "", "")];
    assert_eq!(status_of(&App::new(None)), ("Dashboard ".to_string(), strong(SECONDARY)));
    let app = app_in(AppState::Loaded, two(), vec![]);
    assert_eq!(status_of(&app), ("CF 1922 C │ Ready ".to_string(), strong(SUCCESS)));
    let app = app_in(AppState::Compiling, two(), vec![]);
    assert_eq!(status_of(&app), ("CF 1922 C │ ⠋ Compiling… ".to_string(), tint(TERTIARY)));
    let app = app_in(AppState::Testing, two(), vec![Some(Verdict::Tle), None]);
    assert_eq!(status_of(&app), ("CF 1922 C │ ⠋ Testing 1/2 ".to_string(), tint(PRIMARY)));
    let passed = Some(Verdict::Pass { ms: 1 });
    let app = app_in(AppState::Review, two(), vec![passed.clone(), Some(Verdict::Tle)]);
    assert_eq!(status_of(&app), ("CF 1922 C │ Review — 1/2 PASS ".to_string(), strong(FAIL)));
    let mut app = app_in(AppState::Review, two(), vec![passed.clone(), passed]);
    assert_eq!(status_of(&app), ("CF 1922 C │ Review — 2/2 PASS ".to_string(), strong(SUCCESS)));
    app.build_error = Some("x".to_string());
    assert_eq!(status_of(&app), ("CF 1922 C │ Review — CE ".to_string(), strong(FAIL)));
    let app = app_in(AppState::GitSyncing, two(), vec![]);
    let pushing = "CF 1922 C │ ⠋ Pushing to GitHub… ".to_string();
    assert_eq!(status_of(&app), (pushing, strong(PRIMARY)));
    let mut app = app_in(AppState::Loaded, vec![], vec![]);
    app.problem = None;
    assert_eq!(status_of(&app), ("No Problem ".to_string(), tint(MUTED)));
}

#[test]
fn the_top_bar_shows_brand_and_timer() {
    let mut app = app_in(AppState::Loaded, vec![], vec![]);
    app.started_at = Some(0);
    let (left, center, right) = (rect(0, 0, 10, 1), rect(10, 0, 62, 1), rect(72, 0, 28, 1));
    let draws = render_top_bar(&app, rect(0, 0, 100, 1), left, center, right, 61_000_000_000);
    assert_eq!(draws[0].area, left);
    assert_eq!(shown(&draws[0]), vec![" RUNE"]);
    assert_eq!(draws[1].area, center);
    assert_eq!(shown(&draws[1]), vec!["⏱ 01:01"]);
    assert_eq!(draws[2].area, right);
    app.started_at = None;
    let draws = render_top_bar(&app, rect(0, 0, 100, 1), left, center, right, 0);
    assert_eq!(shown(&draws[1]), vec![""]);
}

#[test]
fn the_full_view_names_its_sample_in_the_bar() {
    let mut app = app_in(AppState::FullDiff, vec![sample(1, "", "")], vec![None]);
    let bar = rect(0, 0, 100, 1);
    let draws = render_top_bar(&app, bar, bar, bar, bar, 0);
    assert_eq!(draws.len(), 1);
    assert_eq!(shown(&draws[0]), vec![" RUNE │ Diff View: —"]);
    app.results_selected.select(Some(0));
    let draws = render_top_bar(&app, bar, bar, bar, bar, 0);
    assert_eq!(shown(&draws[0]), vec![" RUNE │ Diff View: Sample 1"]);
}

#[test]
fn the_bottom_bar_lists_the_keys() {
    let keys = |state: AppState| shown(&render_bottom_bar(state, rect(0, 9, 80, 1))[0]).concat();
    assert_eq!(keys(AppState::Idle), " [↑↓] Select │ [f] Fetch │ [o] Open │ [q] Quit");
    assert_eq!(keys(AppState::Loaded), " [t] Test │ [r] Reset │ [q] Quit");
    assert_eq!(keys(AppState::Compiling), " [q] Quit");
    assert_eq!(keys(AppState::Testing), " [q] Quit");
    assert_eq!(keys(AppState::GitSyncing), " [q] Quit");
    assert_eq!(
        keys(AppState::Review),
        " [↑↓] Select │ [d] Full Diff │ [t] Re-test │ [p] Push │ [r] Reset │ [q] Quit"
    );
    assert_eq!(keys(AppState::FullDiff), " [↑↓] Scroll │ [d/Esc] Back │ [q] Quit");
}

#[test]
fn what_is_centered_is_in_the_middle() {
    assert_eq!(center_vertically(rect(3, 10, 20, 11), 3), rect(3, 14, 20, 3));
    assert_eq!(center_vertically(rect(3, 10, 20, 2), 9), rect(3, 10, 20, 2));
    assert_eq!(center_vertically(rect(65535, 65530, 20, 11), 1), rect(65535, 65535, 20, 1));
}

#[test]
fn the_logo_is_in_the_middle() {
    let draws = render_logo_panel(rect(0, 1, 40, 29));
    assert_eq!(draws.len(), 1);
    assert_eq!(draws[0].area, rect(0, 11, 40, 9));
    let lines = shown(&draws[0]);
    assert_eq!(lines.len(), 9);
    assert_eq!(lines[0], "██████  ██   ██  ██████  ██████");
    assert_eq!(lines[6], "v0.1.0  ·  'Ingestion Bridge'");
    assert_eq!(lines[8], "competitive programming, ergonomic");
}

#[test]
fn long_work_says_what_it_is() {
    let mut app = App::new(None);
    app.spinner = 1;
    let draws = render_compiling(&app, rect(0, 0, 40, 13));
    assert_eq!(draws[0].area, rect(0, 5, 40, 3));
    assert_eq!(
        shown(&draws[0]),
        vec!["⠙  Compiling solution.cpp", "", "g++ -std=c++17 -O2 -Wall"]
    );
    assert_eq!(
        shown(&render_pushing(&app, rect(0, 0, 40, 13))[0]),
        vec![
            "⠙  Pushing workspace to GitHub",
            "",
            "git add . → git commit → git push origin main"
        ]
    );
}

#[test]
fn the_analytics_name_the_weak_tags() {
    let mut app = App::new(None);
    let area = rect(0, 0, 40, 10);
    assert_eq!(
        shown(&render_analytics_panel(&app, area)[0]),
        vec![
            "Weak Tags",
            "",
            "No solve history yet.",
            "Solve a problem to populate.",
            "",
            "Max solved rating: —",
            "CF handle: (set in ~/.rune/config.toml)"
        ]
    );
    app.set_analytics(vec!["dp".to_string(), "math".to_string()], Some(-3));
    app.cf_handle = Some("me".to_string());
    let draws = render_analytics_panel(&app, area);
    assert_eq!(
        shown(&draws[0]),
        vec!["Weak Tags", "", "  • dp", "  • math", "", "Max solved rating: -3", "CF handle: me"]
    );
    assert_eq!(title(&draws[0]), " Analytics ");
}

#[test]
fn ratings_have_their_colors() {
    let colors: Vec<Color> = [1199, 1200, 1399, 1400, 1599, 1600, 1899, 1900, 2099, 2100, 2399, 2400]
        .iter()
        .map(|r| rating_color(Some(*r)))
        .collect();
    assert_eq!(
        colors,
        vec![
            MUTED, SUCCESS, SUCCESS, PRIMARY, PRIMARY, Color::Blue, Color::Blue, SECONDARY,
            SECONDARY, TERTIARY, TERTIARY, FAIL
        ]
    );
    assert_eq!(rating_color(None), MUTED);
}

#[test]
fn the_recommendations_are_listed() {
    let mut app = App::new(None);
    let area = rect(0, 0, 46, 10);
    app.recs = RecsState::Loaded(vec![
        rec("Two Sum", Some(800), &["dp", "math"]),
        rec("A very long name of a problem that is cut", None, &[]),
    ]);
    let draws = render_recs_panel(&mut app, area);
    assert_eq!(app.recs_selected.selected, Some(0));
    assert_eq!(
        shown(&draws[0]),
        vec![" [ 800] Two Sum — dp, math", " [ ?  ] A very long name of a pro..."]
    );
    match &draws[0].widget {
        Widget::List { cursor, symbol, items, .. } => {
            assert_eq!(*cursor, Some(CursorOf::Recs));
            assert_eq!(symbol, "▶");
            assert_eq!(items[0][0].spans[1].style, strong(MUTED));
            assert_eq!(items[0][0].spans[0].style, plain());
        }
        other => panic!("{other:?}"),
    }
}

#[test]
fn the_recommendations_say_why_there_are_none() {
    let mut app = App::new(None);
    let area = rect(0, 0, 46, 10);
    let mut say = |app: &mut App| shown(&render_recs_panel(app, area)[0]);
    assert_eq!(
        say(&mut app),
        vec!["", "  Press [f] to fetch recommendations from Codeforces."]
    );
    app.recs = RecsState::Loading;
    assert_eq!(say(&mut app), vec!["", "  ⠋ Fetching from Codeforces…"]);
    app.recs = RecsState::Error("network: x".to_string());
    assert_eq!(say(&mut app), vec!["", "  CF API Error: network: x", "", "  Press [f] to retry."]);
    app.recs = RecsState::Loaded(vec![]);
    assert_eq!(say(&mut app), vec!["", "  No recommendations match your filters."]);
    assert_eq!(app.recs_selected.selected, None);
}

#[test]
fn the_dashboard_has_three_panels() {
    let mut app = App::new(None);
    let areas = DashboardAreas {
        logo: rect(0, 1, 40, 20),
        side: rect(40, 1, 60, 20),
        analytics: rect(40, 1, 60, 9),
        recs: rect(40, 10, 60, 11),
    };
    let draws = render_dashboard(&mut app, areas);
    let titles: Vec<String> = draws.iter().map(title).collect();
    assert_eq!(titles, vec!["", " Analytics ", " Recommendations "]);
    assert_eq!(draws[1].area, areas.analytics);
    assert_eq!(draws[2].area, areas.recs);
}

#[test]
fn a_loaded_problem_is_previewed() {
    let p = problem(vec![sample(1, "1\n2\n3\n4\n", ""), sample(2, "abcdefghijkl\n", "")]);
    let draws = render_problem(&p, rect(0, 1, 16, 20));
    assert_eq!(title(&draws[0]), " Closest — Test Cases (2) ");
    assert_eq!(
        shown(&draws[0]),
        vec!["Sample 1", "  1", "  2", "  3", "  …", "", "Sample 2", "  abcdefg...", ""]
    );
    let mut p = problem(vec![]);
    p.name = None;
    assert_eq!(title(&render_problem(&p, rect(0, 1, 16, 20))[0]), " Test Cases (0) ");
}

#[test]
fn the_samples_are_listed_with_their_verdicts() {
    let cases: Vec<TestCase> = (1..=7).map(|n| sample(n, "", "")).collect();
    let results = vec![
        Some(Verdict::Pass { ms: 3 }),
        Some(Verdict::Fail { got: String::new(), ms: 4 }),
        Some(Verdict::Tle),
        Some(Verdict::Rte { stderr: String::new(), code: Some(-1) }),
        Some(Verdict::Rte { stderr: String::new(), code: None }),
        None,
        None,
    ];
    let mut app = app_in(AppState::Testing, cases, results);
    let draws = render_test_case_list(&mut app, rect(0, 0, 40, 20));
    assert_eq!(
        shown(&draws[0]),
        vec![
            " Sample 1   PASS  (3 ms)",
            " Sample 2   FAIL  (4 ms)",
            " Sample 3   TLE   (> 2000 ms)",
            " Sample 4   RTE   (exit -1)",
            " Sample 5   RTE   (signal)",
            " Sample 6   ⠋ running…",
            " Sample 7   queued"
        ]
    );
    assert_eq!(title(&draws[0]), " Closest — Test Cases ");
    assert_eq!(app.results_selected.selected, Some(0));
    app.state = AppState::Review;
    assert_eq!(shown(&render_test_case_list(&mut app, rect(0, 0, 40, 20))[0])[5], " Sample 6   queued");
}

#[test]
fn the_cursor_is_put_on_a_sample_that_is_there() {
    let mut app = app_in(AppState::Review, vec![sample(1, "", "")], vec![None]);
    app.results_selected.select(Some(9));
    clamp_results_cursor(&mut app);
    assert_eq!(app.results_selected.selected, Some(0));
    app.results = vec![];
    clamp_results_cursor(&mut app);
    assert_eq!(app.results_selected.selected, None);
}

#[test]
fn long_outputs_are_cut_after_five_lines() {
    let mut lines: Vec<Line> = vec![];
    push_diff_lines(&mut lines, "1\n2\n3\n4\n5\n6\n", 30, FAIL, "-");
    assert_eq!(all_words(&lines), vec!["  - 1", "  - 2", "  - 3", "  - 4", "  - 5", "    …"]);
    assert_eq!(lines[0].spans[0].style, tint(FAIL));
    assert_eq!(lines[5].spans[0].style, tint(MUTED));
    let mut lines: Vec<Line> = vec![];
    push_diff_lines(&mut lines, " \n\n", 30, FAIL, "+");
    push_diff_lines(&mut lines, "abcdefghij", 12, TEXT, " ");
    assert_eq!(all_words(&lines), vec!["  + (empty)", "    abcde..."]);
}

fn detail(verdict: Option<Verdict>) -> Vec<String> {
    let mut app = app_in(AppState::Review, vec![sample(1, "5\n", "3\n")], vec![verdict]);
    app.results_selected.select(Some(0));
    let p = app.problem.take().unwrap();
    let draws = render_diff_view(&app, &p, rect(0, 0, 40, 20));
    assert_eq!(title(&draws[0]), " Diff ");
    assert_eq!(draws[1].area, rect(1, 1, 38, 18));
    shown(&draws[1])
}

#[test]
fn the_selected_sample_is_explained() {
    assert_eq!(detail(None), vec!["Input", "    5", "", "Awaiting run…"]);
    assert_eq!(
        detail(Some(Verdict::Pass { ms: 7 })),
        vec!["Input", "    5", "", "PASS in 7 ms", "", "Expected", "    3"]
    );
    assert_eq!(
        detail(Some(Verdict::Fail { got: "4".to_string(), ms: 7 })),
        vec![
            "Input", "    5", "", "FAIL in 7 ms", "", "Expected", "  - 3", "", "Got", "  + 4"
        ]
    );
    assert_eq!(
        detail(Some(Verdict::Tle)),
        vec!["Input", "    5", "", "TLE  (> 2000 ms)", "", "Expected", "    3"]
    );
    assert_eq!(
        detail(Some(Verdict::Rte { stderr: "boom\n".to_string(), code: Some(2) })),
        vec!["Input", "    5", "", "RTE  (exit 2)", "", "stderr", "  ! boom"]
    );
    assert_eq!(
        detail(Some(Verdict::Rte { stderr: " \n".to_string(), code: None })),
        vec!["Input", "    5", "", "RTE  (killed by signal)"]
    );
    let app = app_in(AppState::Review, vec![], vec![]);
    let p = problem(vec![]);
    let draws = render_diff_view(&app, &p, rect(0, 0, 40, 20));
    assert_eq!(shown(&draws[1]), vec!["No test selected."]);
}

fn result_areas(banner: Option<Rect>) -> ResultAreas {
    ResultAreas {
        banner,
        body: rect(0, 5, 80, 15),
        list: rect(0, 5, 40, 15),
        detail: rect(40, 5, 40, 15),
    }
}

#[test]
fn a_compiler_error_replaces_the_verdicts() {
    let mut app = app_in(AppState::Review, vec![sample(1, "", "")], vec![None]);
    app.build_error = Some("error: x".to_string());
    let draws = render_results(&mut app, result_areas(None));
    assert_eq!(draws.len(), 1);
    assert_eq!(title(&draws[0]), " Compilation Error (CE) ");
    assert_eq!(shown(&draws[0]), vec!["error: x"]);
    assert_eq!(app.results_selected.selected, None);
}

#[test]
fn a_failed_push_is_told_above_the_verdicts() {
    let mut app = app_in(AppState::Review, vec![sample(1, "", "")], vec![None]);
    app.push_error = Some("git push failed:\nno".to_string());
    let draws = render_results(&mut app, result_areas(Some(rect(0, 1, 80, 4))));
    let titles: Vec<String> = draws.iter().map(title).collect();
    assert_eq!(titles, vec![" Push Failed ", " Closest — Test Cases ", " Diff ", ""]);
    assert_eq!(shown(&draws[0]), vec!["git push failed:\nno"]);
    assert_eq!(draws[0].area, rect(0, 1, 80, 4));
}

fn pane(x: u16) -> PaneAreas {
    PaneAreas {
        area: rect(x, 1, 20, 8),
        body: rect(x + 1, 2, 18, 5),
        footer: rect(x + 1, 7, 18, 1),
    }
}

#[test]
fn the_full_view_is_scrolled_to_its_end_at_most() {
    let long: String = (1..=9).map(|i| format!("{i}\n")).collect();
    let got = Verdict::Fail { got: "x\n".to_string(), ms: 1 };
    let mut app = app_in(AppState::FullDiff, vec![sample(1, "", &long)], vec![Some(got)]);
    app.results_selected.select(Some(0));
    app.diff_offset = 2;
    let draws = render_full_diff(&mut app, pane(0), pane(20));
    assert_eq!(app.diff_offset, 2);
    let titles: Vec<String> = draws.iter().map(title).collect();
    assert_eq!(titles, vec![" Expected ", "", "", " Got ", "", ""]);
    assert_eq!(shown(&draws[1]), vec![" 3", " 4", " 5", " 6", " 7"]);
    assert_eq!(shown(&draws[2]), vec!["-- 50% --"]);
    assert_eq!(shown(&draws[4]), Vec::<String>::new());
    app.diff_offset = 1000;
    let draws = render_full_diff(&mut app, pane(0), pane(20));
    assert_eq!(app.diff_offset, 4);
    assert_eq!(shown(&draws[1]), vec![" 5", " 6", " 7", " 8", " 9"]);
    assert_eq!(shown(&draws[5]), vec!["-- 100% --"]);
}

#[test]
fn the_full_view_tells_the_verdict() {
    let view = |verdict: Option<Verdict>| {
        let mut app = app_in(AppState::FullDiff, vec![sample(1, "", "3\n")], vec![verdict]);
        app.results_selected.select(Some(0));
        let draws = render_full_diff(&mut app, pane(0), pane(20));
        (title(&draws[3]), shown(&draws[4]))
    };
    let is = |t: &str, s: &str| (t.to_string(), vec![s.to_string()]);
    assert_eq!(view(Some(Verdict::Pass { ms: 9 })), is(" Got (PASS in 9 ms) ", " 3"));
    assert_eq!(view(Some(Verdict::Tle)), is(" Got (TLE > 2000 ms) ", "  (empty)"));
    assert_eq!(
        view(Some(Verdict::Rte { stderr: "e".to_string(), code: Some(1) })),
        is(" Got (RTE exit 1) — stderr ", " e")
    );
    assert_eq!(
        view(Some(Verdict::Rte { stderr: String::new(), code: None })),
        is(" Got (RTE signal) — stderr ", "  (empty)")
    );
    assert_eq!(view(None), is(" Got (awaiting run…) ", "  (empty)"));
    let mut app = app_in(AppState::FullDiff, vec![], vec![]);
    let draws = render_full_diff(&mut app, pane(0), pane(20));
    assert_eq!(title(&draws[3]), " Got ");
    assert_eq!(shown(&draws[2]), vec!["-- 100% --"]);
}

#[test]
fn the_lines_of_a_pane_are_cut_to_its_width() {
    let lines = vec!["abcdefghijklmnopqrstuvwxyz".to_string()];
    let draws = render_full_diff_pane(pane(0), " T ", &lines, 0, 5, FAIL, 1);
    assert_eq!(shown(&draws[1]), vec![" abcdefghijkl..."]);
    assert_eq!(shown(&draws[2]), vec!["-- 0% --"]);
}

#[test]
fn a_regular_screen_is_laid_out_as_asked() {
    let app = App::new(None);
    let areas = lay_out(&app, rect(0, 0, 100, 30));
    assert_eq!(areas.full, rect(0, 0, 100, 30));
    assert_eq!(areas.top, rect(0, 0, 100, 1));
    assert_eq!(areas.main, rect(0, 1, 100, 28));
    assert_eq!(areas.bottom, rect(0, 29, 100, 1));
    assert_eq!(areas.top_left, rect(0, 0, 10, 1));
    assert_eq!(areas.top_center, rect(10, 0, 62, 1));
    assert_eq!(areas.top_right, rect(72, 0, 28, 1));
    match areas.body {
        BodyAreas::Dashboard(d) => {
            assert_eq!(d.logo, rect(0, 1, 40, 28));
            assert_eq!(d.side, rect(40, 1, 60, 28));
            assert_eq!(d.analytics.width, 60);
            assert_eq!(d.analytics.height + d.recs.height, 28);
        }
        other => panic!("{other:?}"),
    }
}

fn within(inner: Rect, outer: Rect) -> bool {
    let end = |start: u16, len: u16| start as u32 + len as u32;
    inner.x >= outer.x
        && inner.y >= outer.y
        && end(inner.x, inner.width) <= end(outer.x, outer.width)
        && end(inner.y, inner.height) <= end(outer.y, outer.height)
}

fn every_state() -> Vec<App> {
    let states = [
        AppState::Idle,
        AppState::Loaded,
        AppState::Compiling,
        AppState::Testing,
        AppState::Review,
        AppState::GitSyncing,
        AppState::FullDiff,
    ];
    states
        .iter()
        .map(|s| {
            let mut app = app_in(*s, vec![sample(1, "1\n", "2\n")], vec![None]);
            app.push_error = Some("a\nb\nc".to_string());
            app
        })
        .collect()
}

#[test]
fn everything_is_drawn_on_the_screen() {
    for mut app in every_state() {
        for area in [
            rect(0, 0, 0, 0),
            rect(0, 0, 1, 1),
            rect(3, 5, 2, 3),
            rect(0, 0, 79, 24),
            rect(7, 2, 120, 40),
            rect(65500, 65500, 100, 100),
        ] {
            let draws = ui(&mut app, area, 5);
            assert!(matches!(&draws[0].widget, Widget::Fill { style } if style.bg == Some(night())));
            assert_eq!(draws[0].area, area);
            for d in &draws {
                assert!(within(d.area, area), "{:?} {:?} {:?}", app.state, d.area, area);
            }
        }
    }
}

#[test]
fn drawing_again_draws_the_same() {
    for mut app in every_state() {
        let areas = lay_out(&app, rect(0, 0, 100, 30));
        app.diff_offset = 50;
        let first = format!("{:?}", compose(&mut app, areas, 5));
        let state = format!("{app:?}");
        assert_eq!(format!("{:?}", compose(&mut app, areas, 5)), first);
        assert_eq!(format!("{app:?}"), state);
    }
}

#[test]
fn panes_stand_side_by_side_from_eighty_columns_on() {
    let app = app_in(AppState::FullDiff, vec![sample(1, "", "")], vec![None]);
    let panes = |width: u16| match lay_out(&app, rect(0, 0, width, 32)).body {
        BodyAreas::Panes { left, right } => (left, right),
        other => panic!("{other:?}"),
    };
    let (left, right) = panes(80);
    assert_eq!(left.area, rect(0, 1, 40, 30));
    assert_eq!(right.area, rect(40, 1, 40, 30));
    assert_eq!(left.body, rect(1, 2, 38, 27));
    assert_eq!(left.footer, rect(1, 29, 38, 1));
    let (left, right) = panes(79);
    assert_eq!(left.area, rect(0, 1, 79, 15));
    assert_eq!(right.area, rect(0, 16, 79, 15));
}

#[test]
fn the_banner_takes_half_of_the_room_at_most() {
    let mut app = app_in(AppState::Review, vec![sample(1, "", "")], vec![None]);
    let banner = |app: &App| match lay_out(app, rect(0, 0, 100, 22)).body {
        BodyAreas::Results(r) => r.banner.map(|b| b.height),
        other => panic!("{other:?}"),
    };
    assert_eq!(banner(&app), None);
    app.push_error = Some("a\nb\nc".to_string());
    assert_eq!(banner(&app), Some(5));
    app.push_error = Some("x\n".repeat(50));
    assert_eq!(banner(&app), Some(10));
    app.push_error = Some(String::new());
    assert_eq!(banner(&app), Some(3));
    assert!(banner_can_be_laid_out(&app));
    app.push_error = Some("\n".repeat(65533));
    assert!(banner_can_be_laid_out(&app));
    app.push_error = Some("\n".repeat(65534));
    assert!(!banner_can_be_laid_out(&app));
    app.state = AppState::FullDiff;
    assert!(banner_can_be_laid_out(&app));
    app.state = AppState::Testing;
    assert!(!banner_can_be_laid_out(&app));
    app.problem = None;
    assert!(banner_can_be_laid_out(&app));
    assert!(matches!(lay_out(&app, rect(0, 0, 100, 22)).body, BodyAreas::Whole));
}
