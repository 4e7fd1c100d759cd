//! What the views show: each value field by field, and each list item by item in its order.

use vstd::prelude::*;

use crate::app;
use crate::app::{App, AppEvent, EventView, RecsState, RecsView};
use crate::codeforces;
use crate::codeforces::CfProblem;
use crate::judge::{Verdict, VerdictView};
use crate::problem::{Problem, TestCase};
use crate::recommend;
use crate::recommend::Recommendation;
use crate::screen;
use crate::screen::{Draw, Line, Span};
use crate::text;

verus! {

/// Lists are shown item by item.
pub proof fn law_lists(
    strings: Seq<String>,
    slots: Seq<Option<Verdict>>,
    problems: Seq<CfProblem>,
    recs: Seq<Recommendation>,
    i: int,
)
    ensures
        text::texts(strings).len() == strings.len(),
        0 <= i < strings.len() ==> text::texts(strings)[i] == strings[i]@,
        app::results_view(slots).len() == slots.len(),
        0 <= i < slots.len() ==> (slots[i] is None <==> app::results_view(slots)[i] is None),
        0 <= i < slots.len() && slots[i] is Some ==> app::results_view(slots)[i] == Some(
            slots[i]->0@,
        ),
        codeforces::problems_view(problems).len() == problems.len(),
        0 <= i < problems.len() ==> codeforces::problems_view(problems)[i] == problems[i]@,
        recommend::recs_view(recs).len() == recs.len(),
        0 <= i < recs.len() ==> recommend::recs_view(recs)[i] == recs[i]@,
{
}

/// A verdict is shown as it is.
pub proof fn law_verdicts(ms: u64, got: String, stderr: String, code: Option<i32>)
    ensures
        (Verdict::Pass { ms })@ == (VerdictView::Pass { ms }),
        (Verdict::Fail { got, ms })@ == (VerdictView::Fail { got: got@, ms }),
        Verdict::Tle@ == VerdictView::Tle,
        (Verdict::Rte { stderr, code })@ == (VerdictView::Rte { stderr: stderr@, code }),
{
}

/// A problem is shown field by field.
pub proof fn law_problems(p: Problem, tc: TestCase, cf: CfProblem, rec: Recommendation)
    ensures
        p@.contest_id == p.contest_id@ && p@.index == p.index@ && p@.rating == p.rating,
        p.name matches Some(name) ==> p@.name == Some(name@),
        p.name is None ==> p@.name is None,
        p@.tags == text::texts(p.tags@) && p@.dir == p.dir,
        p@.time_limit_ms == p.time_limit_ms,
        p@.test_cases.len() == p.test_cases@.len(),
        forall|i: int|
            0 <= i < p.test_cases@.len() ==> p@.test_cases[i] == (#[trigger] p.test_cases@[i])@,
        tc@.id == tc.id@ && tc@.input == tc.input@ && tc@.expected_output == tc.expected_output@,
        cf@.contest_id == cf.contest_id && cf@.index == cf.index@ && cf@.name == cf.name@,
        cf@.rating == cf.rating && cf@.tags == text::texts(cf.tags@),
        rec@.contest_id == rec.contest_id && rec@.index == rec.index@ && rec@.name == rec.name@,
        rec@.rating == rec.rating && rec@.tags == text::texts(rec.tags@),
        rec@.url == rec.url@ && rec@.matched_tags == text::texts(rec.matched_tags@),
{
}

/// The state is shown field by field.
pub proof fn law_state(a: App)
    ensures
        a@.state == a.state,
        a.problem matches Some(p) ==> a@.problem == Some(p@),
        a.problem is None ==> a@.problem is None,
        a@.results == app::results_view(a.results@),
        a.build_error matches Some(t) ==> a@.build_error == Some(t@),
        a.build_error is None ==> a@.build_error is None,
        a.push_error matches Some(t) ==> a@.push_error == Some(t@),
        a.push_error is None ==> a@.push_error is None,
        a@.recorded == a.recorded@,
        a@.weak_tags == text::texts(a.weak_tags@),
        a@.user_max_rating == a.user_max_rating,
        a@.recs_selected == a.recs_selected,
        a@.results_selected == a.results_selected,
        a.cf_handle matches Some(t) ==> a@.cf_handle == Some(t@),
        a.cf_handle is None ==> a@.cf_handle is None,
        a@.run == a.run && a@.spinner == a.spinner && a@.started_at == a.started_at,
        a@.diff_offset == a.diff_offset,
        a.recs matches RecsState::Loaded(recs) ==> a@.recs == RecsView::Loaded(
            recommend::recs_view(recs@),
        ),
        a.recs matches RecsState::Error(m) ==> a@.recs == RecsView::Error(m@),
        a.recs is Idle ==> a@.recs is Idle,
        a.recs is Loading ==> a@.recs is Loading,
{
}

/// An event is shown as what it is, and a result as that of its run.
pub proof fn law_events(
    run: u64,
    index: usize,
    verdict: Verdict,
    problem: Problem,
    message: String,
    recs: Vec<Recommendation>,
)
    ensures
        AppEvent::ProblemLoaded(problem)@ == EventView::ProblemLoaded(problem@),
        AppEvent::StartTesting@ == EventView::StartTesting,
        AppEvent::StartPush@ == EventView::StartPush,
        (AppEvent::TestResult { run, index, verdict })@ == (EventView::TestResult {
            run,
            index,
            verdict: verdict@,
        }),
        (AppEvent::CompileResult { run, result: Ok(()) })@ == (EventView::Compiled { run }),
        (AppEvent::CompileResult { run, result: Err(message) })@ == (EventView::CompileFailed {
            run,
            stderr: message@,
        }),
        (AppEvent::PushResult { run, result: Ok(message) })@ == (EventView::Pushed { run }),
        (AppEvent::PushResult { run, result: Err(message) })@ == (EventView::PushFailed {
            run,
            stderr: message@,
        }),
        AppEvent::RecommendationsReady(Ok(recs))@ == EventView::Recommended(
            recommend::recs_view(recs@),
        ),
        AppEvent::RecommendationsReady(Err(message))@ == EventView::RecommendFailed(message@),
        AppEvent::Tick@ == EventView::Tick,
        AppEvent::TimerTick@ == EventView::TimerTick,
        AppEvent::Resize@ == EventView::Resize,
{
}

/// What is drawn is shown in its order, with its texts and styles.
pub proof fn law_drawings(
    draws: Seq<Draw>,
    lines: Seq<Line>,
    items: Seq<Vec<Line>>,
    line: Line,
    span: Span,
    i: int,
)
    ensures
        screen::draws_view(draws).len() == draws.len(),
        0 <= i < draws.len() ==> screen::draws_view(draws)[i].area == draws[i].area
            && screen::draws_view(draws)[i].widget == draws[i].widget@,
        screen::lines_view(lines).len() == lines.len(),
        0 <= i < lines.len() ==> screen::lines_view(lines)[i] == lines[i]@,
        screen::items_view(items).len() == items.len(),
        0 <= i < items.len() ==> screen::items_view(items)[i] == screen::lines_view(items[i]@),
        line@.len() == line.spans@.len(),
        0 <= i < line@.len() ==> line@[i] == line.spans@[i]@,
        span@.text == span.text@ && span@.style == span.style,
{
}

} // verus!
