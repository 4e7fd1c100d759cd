//! The bars at the top and the bottom of the screen.

use vstd::prelude::*;

use crate::app::{App, AppState, AppView};
use crate::app;
use crate::judge::{Verdict, VerdictView};
use crate::labels;
use crate::labels::pretty_id;
use crate::layout::Rect;
use crate::number;
use crate::number::{decimal_text, pad_front_text, push_decimal};
use crate::problem::{Problem, ProblemView};
use crate::screen;
use crate::screen::{
    add_line, blank_line, draw, label, line_of, lines_widget, no_draws, no_lines, plain, span,
    strong, tint, Align, Draw, DrawView, Line, Span, SpanView, FAIL, MUTED, PRIMARY, SECONDARY,
    SUCCESS, TERTIARY, TEXT,
};

verus! {

/// The picture that the spinner shows at a time.
pub open spec fn spinner_frame(spinner: usize) -> Seq<char> {
    let n = spinner % 10;
    if n == 0 {
        "⠋"@
    } else if n == 1 {
        "⠙"@
    } else if n == 2 {
        "⠹"@
    } else if n == 3 {
        "⠸"@
    } else if n == 4 {
        "⠼"@
    } else if n == 5 {
        "⠴"@
    } else if n == 6 {
        "⠦"@
    } else if n == 7 {
        "⠧"@
    } else if n == 8 {
        "⠇"@
    } else {
        "⠏"@
    }
}

/// The picture that the spinner shows at a time.
pub fn spinner_text(spinner: usize) -> (r: &'static str)
    ensures
        r@ == spinner_frame(spinner),
{
    let n: usize = spinner % 10;
    if n == 0 {
        "⠋"
    } else if n == 1 {
        "⠙"
    } else if n == 2 {
        "⠹"
    } else if n == 3 {
        "⠸"
    } else if n == 4 {
        "⠼"
    } else if n == 5 {
        "⠴"
    } else if n == 6 {
        "⠦"
    } else if n == 7 {
        "⠧"
    } else if n == 8 {
        "⠇"
    } else {
        "⠏"
    }
}

/// The whole seconds from `started` to `now`, both in nanoseconds.
pub open spec fn elapsed_secs(started: u64, now: u64) -> nat {
    if now >= started {
        ((now - started) / 1000000000) as nat
    } else {
        0
    }
}

/// A time as minutes and seconds, of two digits at least.
pub open spec fn timer(secs: nat) -> Seq<char> {
    "⏱ "@ + number::pad_front(number::decimal(secs / 60), '0', 2) + ":"@ + number::pad_front(
        number::decimal(secs % 60),
        '0',
        2,
    )
}

/// The contest timer.
pub fn timer_text(started: u64, now: u64) -> (r: String)
    ensures
        r@ == timer(elapsed_secs(started, now)),
{
    let secs: u64 = now.saturating_sub(started) / 1000000000;
    let mins = decimal_text(secs / 60);
    let rest = decimal_text(secs % 60);
    let mut r = "⏱ ".to_string();
    r.append(pad_front_text(mins.as_str(), '0', 2).as_str());
    r.append(":");
    r.append(pad_front_text(rest.as_str(), '0', 2).as_str());
    r
}

/// How many verdicts are there.
pub open spec fn finished_count(results: Seq<Option<VerdictView>>) -> nat
    decreases results.len(),
{
    if results.len() == 0 {
        0
    } else {
        finished_count(results.drop_last()) + if results.last() is Some {
            1nat
        } else {
            0nat
        }
    }
}

/// How many samples have passed.
pub open spec fn passed_count(results: Seq<Option<VerdictView>>) -> nat
    decreases results.len(),
{
    if results.len() == 0 {
        0
    } else {
        passed_count(results.drop_last()) + if results.last() is Some && results.last()->0 is Pass {
            1nat
        } else {
            0nat
        }
    }
}

/// How many verdicts are there, and how many of them are good.
fn count_results(results: &Vec<Option<Verdict>>) -> (r: (usize, usize))
    ensures
        r.0 == finished_count(app::results_view(results@)),
        r.1 == passed_count(app::results_view(results@)),
{
    let ghost all = app::results_view(results@);
    let mut finished: usize = 0;
    let mut passed: usize = 0;
    let mut i: usize = 0;
    while i < results.len()
        invariant
            i <= results.len(),
            all == app::results_view(results@),
            finished == finished_count(all.take(i as int)),
            passed == passed_count(all.take(i as int)),
            finished <= i,
            passed <= i,
        decreases results.len() - i,
    {
        proof {
            assert(all.take(i + 1).drop_last() =~= all.take(i as int));
            assert(all.take(i + 1).last() == app::slot_view(results@[i as int]));
        }
        match &results[i] {
            None => {},
            Some(Verdict::Pass { ms: _ }) => {
                finished += 1;
                passed += 1;
            },
            Some(_) => {
                finished += 1;
            },
        }
        i += 1;
    }
    proof {
        assert(all.take(results.len() as int) =~= all);
    }
    (finished, passed)
}

/// The name of a problem on Codeforces.
pub open spec fn problem_label(p: ProblemView) -> Seq<char> {
    "CF "@ + p.contest_id + " "@ + p.index
}

fn problem_label_text(p: &Problem) -> (r: String)
    ensures
        r@ == problem_label(p@),
{
    let mut r = "CF ".to_string();
    r.append(p.contest_id.as_str());
    r.append(" ");
    r.append(p.index.as_str());
    r
}

/// What the program is doing, in a few words.
pub open spec fn status(a: AppView) -> SpanView {
    if a.state == AppState::Idle {
        screen::sp("Dashboard "@, strong(SECONDARY))
    } else {
        match a.problem {
            None => screen::sp("No Problem "@, tint(MUTED)),
            Some(p) => {
                let id = problem_label(p);
                let spin = spinner_frame(a.spinner);
                match a.state {
                    AppState::Loaded => screen::sp(id + " │ Ready "@, strong(SUCCESS)),
                    AppState::Compiling => screen::sp(
                        id + " │ "@ + spin + " Compiling… "@,
                        tint(TERTIARY),
                    ),
                    AppState::Testing => screen::sp(
                        id + " │ "@ + spin + " Testing "@ + number::decimal(
                            finished_count(a.results),
                        ) + "/"@ + number::decimal(a.results.len()) + " "@,
                        tint(PRIMARY),
                    ),
                    AppState::Review => if a.build_error is Some {
                        screen::sp(id + " │ Review — CE "@, strong(FAIL))
                    } else {
                        let passed = passed_count(a.results);
                        let total = a.results.len();
                        screen::sp(
                            id + " │ Review — "@ + number::decimal(passed) + "/"@
                                + number::decimal(total) + " PASS "@,
                            strong(
                                if passed == total {
                                    SUCCESS
                                } else {
                                    FAIL
                                },
                            ),
                        )
                    },
                    _ => screen::sp(
                        id + " │ "@ + spin + " Pushing to GitHub… "@,
                        strong(PRIMARY),
                    ),
                }
            },
        }
    }
}

/// What the program is doing, in a few words.
fn status_span(a: &App) -> (r: Span)
    requires
        a.state != AppState::FullDiff,
    ensures
        r@ == status(a@),
{
    if a.state == AppState::Idle {
        return label("Dashboard ", strong(SECONDARY));
    }
    let p = match &a.problem {
        None => {
            return label("No Problem ", tint(MUTED));
        },
        Some(p) => p,
    };
    let mut t = problem_label_text(p);
    let spin = spinner_text(a.spinner);
    let (finished, passed) = count_results(&a.results);
    proof {
        assert(a@.results.len() == a.results@.len());
    }
    match a.state {
        AppState::Loaded => {
            t.append(" │ Ready ");
            span(t, strong(SUCCESS))
        },
        AppState::Compiling => {
            t.append(" │ ");
            t.append(spin);
            t.append(" Compiling… ");
            span(t, tint(TERTIARY))
        },
        AppState::Testing => {
            t.append(" │ ");
            t.append(spin);
            t.append(" Testing ");
            push_decimal(&mut t, finished as u64);
            t.append("/");
            push_decimal(&mut t, a.results.len() as u64);
            t.append(" ");
            span(t, tint(PRIMARY))
        },
        AppState::Review => if a.build_error.is_some() {
            t.append(" │ Review — CE ");
            span(t, strong(FAIL))
        } else {
            let total: usize = a.results.len();
            t.append(" │ Review — ");
            push_decimal(&mut t, passed as u64);
            t.append("/");
            push_decimal(&mut t, total as u64);
            t.append(" PASS ");
            let color = if passed == total {
                SUCCESS
            } else {
                FAIL
            };
            span(t, strong(color))
        },
        _ => {
            t.append(" │ ");
            t.append(spin);
            t.append(" Pushing to GitHub… ");
            span(t, strong(PRIMARY))
        },
    }
}

/// The label of the sample that the full view shows.
pub open spec fn viewed_sample(a: AppView) -> Seq<char> {
    match (a.results_selected.selected, a.problem) {
        (Some(i), Some(p)) => if i < p.test_cases.len() {
            labels::pretty(p.test_cases[i as int].id)
        } else {
            "—"@
        },
        _ => "—"@,
    }
}

fn viewed_sample_text(a: &App) -> (r: String)
    ensures
        r@ == viewed_sample(a@),
{
    if let Some(i) = a.results_selected.selected {
        if let Some(p) = &a.problem {
            if i < p.test_cases.len() {
                return pretty_id(p.test_cases[i].id.as_str());
            }
        }
    }
    "—".to_string()
}

/// The bar in the full view of a sample.
pub open spec fn full_view_bar(a: AppView) -> Seq<SpanView> {
    seq![
        screen::sp(" "@, plain()),
        screen::sp("RUNE"@, strong(PRIMARY)),
        screen::sp(" │ "@, tint(MUTED)),
        screen::sp("Diff View: "@ + viewed_sample(a), strong(TERTIARY)),
    ]
}

/// The name of the program.
pub open spec fn brand() -> Seq<SpanView> {
    seq![screen::sp(" "@, plain()), screen::sp("RUNE"@, strong(PRIMARY))]
}

/// The contest timer, if a problem is loaded.
pub open spec fn timer_lines(a: AppView, now: u64) -> Seq<Seq<SpanView>> {
    match a.started_at {
        Some(started) => seq![
            seq![screen::sp(timer(elapsed_secs(started, now)), strong(TERTIARY))],
        ],
        None => seq![Seq::empty()],
    }
}

/// The bar at the top: in the full view of a sample its label over the whole width, otherwise
/// the name of the program, the timer, and the status.
pub open spec fn top_bar(
    a: AppView,
    bar: Rect,
    left: Rect,
    center: Rect,
    right: Rect,
    now: u64,
) -> Seq<DrawView> {
    if a.state == AppState::FullDiff {
        seq![screen::at(bar, screen::paragraph(seq![full_view_bar(a)], Align::Left))]
    } else {
        seq![
            screen::at(left, screen::paragraph(seq![brand()], Align::Left)),
            screen::at(
                center,
                screen::paragraph(
                    timer_lines(a, now),
                    if a.started_at is Some {
                        Align::Center
                    } else {
                        Align::Left
                    },
                ),
            ),
            screen::at(right, screen::paragraph(seq![seq![status(a)]], Align::Right)),
        ]
    }
}

fn one_line(line: Line) -> (r: Vec<Line>)
    ensures
        screen::lines_view(r@) == seq![line@],
{
    let mut lines = no_lines();
    add_line(&mut lines, line);
    lines
}

/// The bar at the top.
pub fn render_top_bar(
    a: &App,
    bar: Rect,
    left: Rect,
    center: Rect,
    right: Rect,
    now: u64,
) -> (r: Vec<Draw>)
    ensures
        screen::draws_view(r@) == top_bar(a@, bar, left, center, right, now),
{
    let mut draws = no_draws();
    if a.state == AppState::FullDiff {
        let mut title = "Diff View: ".to_string();
        title.append(viewed_sample_text(a).as_str());
        let mut line = blank_line();
        line.add_span(label(" ", plain()));
        line.add_span(label("RUNE", strong(PRIMARY)));
        line.add_span(label(" │ ", tint(MUTED)));
        line.add_span(span(title, strong(TERTIARY)));
        proof {
            assert(line@ =~= full_view_bar(a@));
        }
        draw(&mut draws, bar, lines_widget(one_line(line), Align::Left));
        return draws;
    }
    let mut name = blank_line();
    name.add_span(label(" ", plain()));
    name.add_span(label("RUNE", strong(PRIMARY)));
    proof {
        assert(name@ =~= brand());
    }
    draw(&mut draws, left, lines_widget(one_line(name), Align::Left));
    match a.started_at {
        Some(started) => {
            let line = line_of(span(timer_text(started, now), strong(TERTIARY)));
            draw(&mut draws, center, lines_widget(one_line(line), Align::Center));
        },
        None => {
            draw(&mut draws, center, lines_widget(one_line(blank_line()), Align::Left));
        },
    }
    let state = line_of(status_span(a));
    draw(&mut draws, right, lines_widget(one_line(state), Align::Right));
    draws
}

/// A key and what it does.
pub open spec fn binding(key: Seq<char>, what: Seq<char>) -> Seq<SpanView> {
    seq![screen::sp(key + " "@, strong(TERTIARY)), screen::sp(what, tint(TEXT))]
}

/// What stands between two bindings.
pub open spec fn separator() -> Seq<SpanView> {
    seq![screen::sp(" │ "@, tint(MUTED))]
}

/// The keys that work in a state.
pub open spec fn bindings(state: AppState) -> Seq<(Seq<char>, Seq<char>)> {
    match state {
        AppState::Idle => seq![
            ("[↑↓]"@, "Select"@),
            ("[f]"@, "Fetch"@),
            ("[o]"@, "Open"@),
            ("[q]"@, "Quit"@),
        ],
        AppState::Loaded => seq![("[t]"@, "Test"@), ("[r]"@, "Reset"@), ("[q]"@, "Quit"@)],
        AppState::Compiling | AppState::Testing | AppState::GitSyncing => seq![
            ("[q]"@, "Quit"@),
        ],
        AppState::Review => seq![
            ("[↑↓]"@, "Select"@),
            ("[d]"@, "Full Diff"@),
            ("[t]"@, "Re-test"@),
            ("[p]"@, "Push"@),
            ("[r]"@, "Reset"@),
            ("[q]"@, "Quit"@),
        ],
        AppState::FullDiff => seq![
            ("[↑↓]"@, "Scroll"@),
            ("[d/Esc]"@, "Back"@),
            ("[q]"@, "Quit"@),
        ],
    }
}

/// The spans of a row of bindings, a separator between each two.
pub open spec fn binding_spans(list: Seq<(Seq<char>, Seq<char>)>) -> Seq<SpanView>
    decreases list.len(),
{
    if list.len() == 0 {
        Seq::empty()
    } else if list.len() == 1 {
        binding(list[0].0, list[0].1)
    } else {
        binding_spans(list.drop_last()) + separator() + binding(list.last().0, list.last().1)
    }
}

/// The bar at the bottom: the keys that work.
pub open spec fn bottom_bar(state: AppState, area: Rect) -> Seq<DrawView> {
    seq![
        screen::at(
            area,
            screen::paragraph(
                seq![seq![screen::sp(" "@, plain())] + binding_spans(bindings(state))],
                Align::Left,
            ),
        ),
    ]
}

/// The keys that work in a state.
fn binding_list(state: AppState) -> (r: Vec<(&'static str, &'static str)>)
    ensures
        r@.len() == bindings(state).len(),
        forall|i: int|
            0 <= i < r@.len() ==> (#[trigger] r@[i]).0@ == bindings(state)[i].0 && r@[i].1@
                == bindings(state)[i].1,
{
    let mut r: Vec<(&'static str, &'static str)> = Vec::new();
    match state {
        AppState::Idle => {
            r.push(("[↑↓]", "Select"));
            r.push(("[f]", "Fetch"));
            r.push(("[o]", "Open"));
            r.push(("[q]", "Quit"));
        },
        AppState::Loaded => {
            r.push(("[t]", "Test"));
            r.push(("[r]", "Reset"));
            r.push(("[q]", "Quit"));
        },
        AppState::Compiling | AppState::Testing | AppState::GitSyncing => {
            r.push(("[q]", "Quit"));
        },
        AppState::Review => {
            r.push(("[↑↓]", "Select"));
            r.push(("[d]", "Full Diff"));
            r.push(("[t]", "Re-test"));
            r.push(("[p]", "Push"));
            r.push(("[r]", "Reset"));
            r.push(("[q]", "Quit"));
        },
        AppState::FullDiff => {
            r.push(("[↑↓]", "Scroll"));
            r.push(("[d/Esc]", "Back"));
            r.push(("[q]", "Quit"));
        },
    }
    r
}

/// The bar at the bottom: the keys that work.
pub fn render_bottom_bar(state: AppState, area: Rect) -> (r: Vec<Draw>)
    ensures
        screen::draws_view(r@) == bottom_bar(state, area),
{
    let list = binding_list(state);
    let ghost all = bindings(state);
    let ghost head = seq![screen::sp(" "@, plain())];
    let mut line = blank_line();
    line.add_span(label(" ", plain()));
    let mut i: usize = 0;
    proof {
        assert(all.take(0) =~= Seq::empty());
        assert(line@ =~= head + binding_spans(all.take(0)));
    }
    while i < list.len()
        invariant
            i <= list.len(),
            list@.len() == all.len(),
            forall|k: int|
                0 <= k < list@.len() ==> (#[trigger] list@[k]).0@ == all[k].0 && list@[k].1@
                    == all[k].1,
            line@ == head + binding_spans(all.take(i as int)),
        decreases list.len() - i,
    {
        if i > 0 {
            line.add_span(label(" │ ", tint(MUTED)));
        }
        let mut key = list[i].0.to_string();
        key.append(" ");
        line.add_span(span(key, strong(TERTIARY)));
        line.add_span(label(list[i].1, tint(TEXT)));
        proof {
            let next = all.take(i + 1);
            assert(next.drop_last() =~= all.take(i as int));
            assert(next.last() == all[i as int]);
            if i == 0 {
                assert(line@ =~= head + binding(all[0].0, all[0].1));
            } else {
                assert(line@ =~= head + (binding_spans(all.take(i as int)) + separator() + binding(
                    all[i as int].0,
                    all[i as int].1,
                )));
            }
        }
        i += 1;
    }
    proof {
        assert(all.take(list.len() as int) =~= all);
    }
    let mut draws = no_draws();
    draw(&mut draws, area, lines_widget(one_line(line), Align::Left));
    draws
}

} // verus!
