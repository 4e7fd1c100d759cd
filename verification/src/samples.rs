//! The samples of a problem: their preview, the verdicts on them, and what came out of one.

use vstd::prelude::*;

use crate::app;
use crate::app::{App, AppState, AppView, Selection};
use crate::bars;
use crate::bars::spinner_text;
use crate::dashboard;
use crate::judge::{Verdict, VerdictView};
use crate::labels;
use crate::labels::pretty_id;
use crate::layout;
use crate::layout::{inside_border, Rect};
use crate::number;
use crate::number::{decimal_i32_text, pad_back_text, push_decimal};
use crate::output;
use crate::output::normalize_output;
use crate::problem::{Problem, ProblemView, TestCase, TestCaseView};
use crate::screen;
use crate::screen::{
    add_blank, add_item, add_line, add_text, blank_line, cursor_list_widget, draw, draw_all,
    error_widget, frame, label, list_widget, no_draws, no_items, no_lines, plain, span, strong, tint,
    Align, Block, Color, Content, ContentView, CursorOf, Draw, DrawView, Line, SpanView,
    Widget, WidgetView, FAIL, MUTED, PRIMARY, SECONDARY, SUCCESS, TERTIARY, TEXT,
};
use crate::text;
use crate::text::{lines_of, trim_text, truncate};

verus! {

/// How many lines of an output are shown beside the list of samples.
pub const DIFF_MAX_LINES: usize = 5;

/// How many lines of a sample's input are shown before a run.
pub const PREVIEW_LINES: usize = 3;

/// A line of a preview.
pub open spec fn preview_line(line: Seq<char>, width: nat) -> Seq<SpanView> {
    seq![screen::sp("  "@ + text::truncated(line, width), tint(TEXT))]
}

/// The first lines of an input, with a mark where there are more.
pub open spec fn preview(input: Seq<Seq<char>>, width: nat) -> Seq<Seq<SpanView>> {
    let count = if input.len() < PREVIEW_LINES {
        input.len()
    } else {
        PREVIEW_LINES as nat
    };
    let shown = Seq::new(count, |i: int| preview_line(input[i], width));
    if input.len() > PREVIEW_LINES {
        shown.push(seq![screen::sp("  …"@, tint(MUTED))])
    } else {
        shown
    }
}

/// A sample before a run: its label and the beginning of its input.
pub open spec fn preview_item(tc: TestCaseView, width: nat) -> Seq<Seq<SpanView>> {
    (Seq::<Seq<SpanView>>::empty().push(
        seq![screen::sp(labels::pretty(tc.id), strong(PRIMARY))],
    ) + preview(text::text_lines(tc.input), width)).push(Seq::empty())
}

/// A sample before a run.
fn preview_item_of(tc: &TestCase, width: usize) -> (r: Vec<Line>)
    ensures
        screen::lines_view(r@) == preview_item(tc@, width as nat),
{
    let mut lines = no_lines();
    let name = pretty_id(tc.id.as_str());
    add_text(&mut lines, name.as_str(), strong(PRIMARY));
    let ghost head = screen::lines_view(lines@);
    let input = lines_of(tc.input.as_str());
    let ghost all = text::text_lines(tc.input@);
    let ghost shown = preview(all, width as nat);
    proof {
        assert(all.len() == input@.len());
        assert(head =~= head + shown.take(0));
    }
    let mut i: usize = 0;
    while i < input.len() && i < PREVIEW_LINES
        invariant
            i <= input.len(),
            i <= PREVIEW_LINES,
            text::texts(input@) == all,
            all.len() == input@.len(),
            shown == preview(all, width as nat),
            screen::lines_view(lines@) == head + shown.take(i as int),
        decreases input.len() - i,
    {
        let mut t = "  ".to_string();
        t.append(truncate(input[i].as_str(), width).as_str());
        add_text(&mut lines, t.as_str(), tint(TEXT));
        proof {
            assert(all[i as int] == input@[i as int]@);
            assert(shown[i as int] == preview_line(all[i as int], width as nat));
            assert(shown.take(i + 1) =~= shown.take(i as int).push(shown[i as int]));
            assert((head + shown.take(i as int)).push(shown[i as int]) =~= head + shown.take(
                i + 1,
            ));
        }
        i += 1;
    }
    if input.len() > PREVIEW_LINES {
        add_text(&mut lines, "  …", tint(MUTED));
        proof {
            assert(shown.take(i + 1) =~= shown);
            assert(shown.take(i as int).push(shown[i as int]) =~= shown);
            assert((head + shown.take(i as int)).push(shown[i as int]) =~= head + shown);
        }
    } else {
        proof {
            assert(shown.take(i as int) =~= shown);
        }
    }
    add_blank(&mut lines);
    lines
}

/// The title over the samples before a run.
pub open spec fn preview_title(p: ProblemView) -> Seq<char> {
    match p.name {
        Some(name) => " "@ + name + " — Test Cases ("@ + number::decimal(p.test_cases.len())
            + ") "@,
        None => " Test Cases ("@ + number::decimal(p.test_cases.len()) + ") "@,
    }
}

/// The samples before a run.
pub open spec fn preview_items(list: Seq<TestCaseView>, width: nat) -> Seq<Seq<Seq<SpanView>>> {
    Seq::new(list.len(), |i: int| preview_item(list[i], width))
}

/// The problem before a run.
pub open spec fn problem_panel(p: ProblemView, area: Rect) -> DrawView {
    screen::at(
        area,
        screen::plain_list(
            preview_items(p.test_cases, dashboard::less(area.width as nat, 6)),
            screen::framed(preview_title(p), PRIMARY, TERTIARY),
        ),
    )
}

/// The problem before a run.
pub fn render_problem(p: &Problem, area: Rect) -> (r: Vec<Draw>)
    ensures
        screen::draws_view(r@) == seq![problem_panel(p@, area)],
{
    let width: usize = area.width.saturating_sub(6) as usize;
    let ghost wanted = preview_items(p@.test_cases, width as nat);
    let mut items = no_items();
    let mut i: usize = 0;
    proof {
        assert(wanted.take(0) =~= Seq::empty());
        assert(p@.test_cases.len() == p.test_cases@.len());
    }
    while i < p.test_cases.len()
        invariant
            i <= p.test_cases.len(),
            wanted == preview_items(p@.test_cases, width as nat),
            screen::items_view(items@) == wanted.take(i as int),
        decreases p.test_cases.len() - i,
    {
        let item = preview_item_of(&p.test_cases[i], width);
        proof {
            assert(p@.test_cases[i as int] == p.test_cases@[i as int]@);
            assert(wanted[i as int] == screen::lines_view(item@));
            assert(wanted.take(i + 1) =~= wanted.take(i as int).push(wanted[i as int]));
        }
        add_item(&mut items, item);
        i += 1;
    }
    proof {
        assert(wanted.take(p.test_cases.len() as int) =~= wanted);
    }
    let mut title = String::new();
    match &p.name {
        Some(name) => {
            title.append(" ");
            title.append(name.as_str());
            title.append(" — Test Cases (");
            proof {
                assert(title@ =~= " "@ + name@ + " — Test Cases ("@);
            }
        },
        None => {
            title.append(" Test Cases (");
            proof {
                assert(title@ =~= " Test Cases ("@);
            }
        },
    }
    push_decimal(&mut title, p.test_cases.len() as u64);
    title.append(") ");
    let block = frame(title.as_str(), PRIMARY, TERTIARY);
    let mut draws = no_draws();
    draw(&mut draws, area, list_widget(items, block));
    draws
}

/// The first of the samples without a verdict.
pub open spec fn first_missing(results: Seq<Option<VerdictView>>) -> int
    decreases results.len(),
{
    if results.len() == 0 {
        0
    } else {
        let front = first_missing(results.drop_last());
        if front < results.len() - 1 || results.last() is None {
            front
        } else {
            results.len() as int
        }
    }
}

/// What the list says of a sample, and in which color.
pub open spec fn verdict_label(
    result: Option<VerdictView>,
    running: bool,
    spin: Seq<char>,
    time_limit_ms: u64,
) -> (Seq<char>, Color) {
    match result {
        None => if running {
            (spin + " running…"@, PRIMARY)
        } else {
            ("queued"@, MUTED)
        },
        Some(VerdictView::Pass { ms }) => (
            "PASS  ("@ + number::decimal(ms as nat) + " ms)"@,
            SUCCESS,
        ),
        Some(VerdictView::Fail { got, ms }) => (
            "FAIL  ("@ + number::decimal(ms as nat) + " ms)"@,
            FAIL,
        ),
        Some(VerdictView::Tle) => (
            "TLE   (> "@ + number::decimal(time_limit_ms as nat) + " ms)"@,
            TERTIARY,
        ),
        Some(VerdictView::Rte { stderr, code }) => match code {
            Some(c) => ("RTE   (exit "@ + number::decimal_int(c as int) + ")"@, SECONDARY),
            None => ("RTE   (signal)"@, SECONDARY),
        },
    }
}

fn verdict_label_of(
    result: &Option<Verdict>,
    running: bool,
    spin: &str,
    time_limit_ms: u64,
) -> (r: (String, Color))
    ensures
        (r.0@, r.1) == verdict_label(app::slot_view(*result), running, spin@, time_limit_ms),
{
    match result {
        None => if running {
            let mut t = spin.to_string();
            t.append(" running…");
            (t, PRIMARY)
        } else {
            ("queued".to_string(), MUTED)
        },
        Some(Verdict::Pass { ms }) => {
            let mut t = "PASS  (".to_string();
            push_decimal(&mut t, *ms);
            t.append(" ms)");
            (t, SUCCESS)
        },
        Some(Verdict::Fail { got: _, ms }) => {
            let mut t = "FAIL  (".to_string();
            push_decimal(&mut t, *ms);
            t.append(" ms)");
            (t, FAIL)
        },
        Some(Verdict::Tle) => {
            let mut t = "TLE   (> ".to_string();
            push_decimal(&mut t, time_limit_ms);
            t.append(" ms)");
            (t, TERTIARY)
        },
        Some(Verdict::Rte { stderr: _, code }) => match code {
            Some(c) => {
                let mut t = "RTE   (exit ".to_string();
                t.append(decimal_i32_text(*c).as_str());
                t.append(")");
                (t, SECONDARY)
            },
            None => ("RTE   (signal)".to_string(), SECONDARY),
        },
    }
}

/// A sample in the list: its label and its verdict.
pub open spec fn result_line(
    tc: TestCaseView,
    result: Option<VerdictView>,
    running: bool,
    spin: Seq<char>,
    time_limit_ms: u64,
) -> Seq<SpanView> {
    let (words, color) = verdict_label(result, running, spin, time_limit_ms);
    Seq::<SpanView>::empty().push(screen::sp(" "@, plain())).push(
        screen::sp(number::pad_back(labels::pretty(tc.id), 10), strong(TEXT)),
    ).push(screen::sp(" "@, plain())).push(screen::sp(words, strong(color)))
}

/// The samples in the list, as far as there are verdict slots.
pub open spec fn result_items(a: AppView, p: ProblemView) -> Seq<Seq<Seq<SpanView>>> {
    let count = if p.test_cases.len() < a.results.len() {
        p.test_cases.len()
    } else {
        a.results.len()
    };
    Seq::new(
        count,
        |i: int|
            seq![
                result_line(
                    p.test_cases[i],
                    a.results[i],
                    a.state == AppState::Testing && first_missing(a.results) == i,
                    bars::spinner_frame(a.spinner),
                    p.time_limit_ms,
                ),
            ],
    )
}

/// The title over the list of samples.
pub open spec fn results_title(p: ProblemView) -> Seq<char> {
    match p.name {
        Some(name) => " "@ + name + " — Test Cases "@,
        None => " Test Cases "@,
    }
}

/// The list of samples with their verdicts.
pub open spec fn test_case_list(a: AppView, p: ProblemView, area: Rect) -> DrawView {
    screen::at(
        area,
        screen::cursor_list(
            result_items(a, p),
            screen::framed(results_title(p), PRIMARY, TERTIARY),
            CursorOf::Results,
        ),
    )
}

/// The cursor of the samples once they are shown: on one that is there, the first where none was
/// selected; on none where there are no samples.
pub open spec fn shown_results_cursor(a: AppView) -> Selection {
    if a.results.len() > 0 {
        a.results_selected.selecting(
            Some(
                match a.results_selected.selected {
                    Some(i) => if i < a.results.len() {
                        i
                    } else {
                        (a.results.len() - 1) as usize
                    },
                    None => 0,
                },
            ),
        )
    } else {
        a.results_selected.selecting(None)
    }
}

/// The first of the samples without a verdict.
fn first_missing_of(results: &Vec<Option<Verdict>>) -> (r: usize)
    ensures
        r == first_missing(app::results_view(results@)),
{
    let ghost all = app::results_view(results@);
    let mut found: usize = 0;
    let mut i: usize = 0;
    while i < results.len()
        invariant
            i <= results.len(),
            all == app::results_view(results@),
            found == first_missing(all.take(i as int)),
            found <= i,
        decreases results.len() - i,
    {
        proof {
            assert(all.take(i + 1).drop_last() =~= all.take(i as int));
            assert(all.take(i + 1).last() == app::slot_view(results@[i as int]));
        }
        if found == i && results[i].is_some() {
            found = i + 1;
        }
        i += 1;
    }
    proof {
        assert(all.take(results.len() as int) =~= all);
    }
    found
}

/// The first sample without a verdict is one without, and all before it have one.
pub proof fn lemma_first_missing(results: Seq<Option<VerdictView>>)
    ensures
        0 <= first_missing(results) <= results.len(),
        forall|i: int| 0 <= i < first_missing(results) ==> (#[trigger] results[i]) is Some,
        first_missing(results) < results.len() ==> results[first_missing(results)] is None,
    decreases results.len(),
{
    if results.len() > 0 {
        let front = results.drop_last();
        lemma_first_missing(front);
        assert forall|i: int| 0 <= i < first_missing(results) implies (
        #[trigger] results[i]) is Some by {
            if i < front.len() {
                assert(front[i] == results[i]);
            }
        }
        if first_missing(front) < front.len() {
            assert(front[first_missing(front)] == results[first_missing(front)]);
        }
    }
}

/// The list of samples with their verdicts. From now on the cursor is on one that is there.
pub fn render_test_case_list(a: &mut App, area: Rect) -> (r: Vec<Draw>)
    requires
        old(a).problem is Some,
    ensures
        screen::draws_view(r@) == seq![test_case_list(old(a)@, old(a)@.problem->0, area)],
        final(a)@ == (AppView { results_selected: shown_results_cursor(old(a)@), ..old(a)@ }),
        final(a).problem == old(a).problem,
{
    let mut draws = no_draws();
    if let Some(p) = &a.problem {
        let (items, block) = test_case_items(a, p);
        draw(&mut draws, area, cursor_list_widget(items, block, CursorOf::Results));
    }
    clamp_results_cursor(a);
    draws
}

/// Puts the cursor of the samples on one that is there.
pub fn clamp_results_cursor(a: &mut App)
    ensures
        final(a)@ == (AppView { results_selected: shown_results_cursor(old(a)@), ..old(a)@ }),
        final(a).problem == old(a).problem,
{
    proof {
        assert(a@.results.len() == a.results@.len());
    }
    if a.results.len() > 0 {
        let last: usize = a.results.len() - 1;
        let current: usize = match a.results_selected.selected {
            Some(i) => if i < last {
                i
            } else {
                last
            },
            None => 0,
        };
        a.results_selected.select(Some(current));
    } else {
        a.results_selected.select(None);
    }
}

/// The items of the list of samples, and its frame.
fn test_case_items(a: &App, p: &Problem) -> (r: (Vec<Vec<Line>>, Block))
    ensures
        screen::items_view(r.0@) == result_items(a@, p@),
        r.1@ == screen::framed(results_title(p@), PRIMARY, TERTIARY),
{
    let missing: usize = first_missing_of(&a.results);
    let spin = spinner_text(a.spinner);
    let testing = a.state == AppState::Testing;
    let ghost wanted = result_items(a@, p@);
    let mut items = no_items();
    let mut i: usize = 0;
    proof {
        assert(wanted.take(0) =~= Seq::empty());
        assert(a@.results.len() == a.results@.len());
        assert(p@.test_cases.len() == p.test_cases@.len());
    }
    while i < p.test_cases.len() && i < a.results.len()
        invariant
            i <= p.test_cases.len(),
            i <= a.results.len(),
            missing == first_missing(a@.results),
            spin@ == bars::spinner_frame(a.spinner),
            testing == (a.state == AppState::Testing),
            wanted == result_items(a@, p@),
            screen::items_view(items@) == wanted.take(i as int),
        decreases p.test_cases.len() - i,
    {
        let mut line = blank_line();
        line.add_span(label(" ", plain()));
        let name = pretty_id(p.test_cases[i].id.as_str());
        line.add_span(span(pad_back_text(name.as_str(), 10), strong(TEXT)));
        line.add_span(label(" ", plain()));
        let (words, color) = verdict_label_of(
            &a.results[i],
            testing && missing == i,
            spin,
            p.time_limit_ms,
        );
        line.add_span(span(words, strong(color)));
        let mut item = no_lines();
        add_line(&mut item, line);
        proof {
            assert(p@.test_cases[i as int] == p.test_cases@[i as int]@);
            assert(a@.results[i as int] == app::slot_view(a.results@[i as int]));
            assert(wanted[i as int] == screen::lines_view(item@));
            assert(wanted.take(i + 1) =~= wanted.take(i as int).push(wanted[i as int]));
        }
        add_item(&mut items, item);
        i += 1;
    }
    proof {
        assert(wanted.take(i as int) =~= wanted);
    }
    let mut title = String::new();
    match &p.name {
        Some(name) => {
            title.append(" ");
            title.append(name.as_str());
            title.append(" — Test Cases ");
            proof {
                assert(title@ =~= " "@ + name@ + " — Test Cases "@);
            }
        },
        None => {
            title.append(" Test Cases ");
            proof {
                assert(title@ =~= " Test Cases "@);
            }
        },
    }
    (items, frame(title.as_str(), PRIMARY, TERTIARY))
}

/// A line of an output, with a mark in front.
pub open spec fn marked_line(line: Seq<char>, width: nat, color: Color, mark: Seq<char>) -> Seq<
    SpanView,
> {
    seq![
        screen::sp(
            "  "@ + mark + " "@ + text::truncated(line, dashboard::less(width, 4)),
            tint(color),
        ),
    ]
}

/// The first normalized lines of an output, with a mark in front of each, and an ellipsis where
/// there are more.
pub open spec fn marked_lines(
    content: Seq<char>,
    width: nat,
    color: Color,
    mark: Seq<char>,
) -> Seq<Seq<SpanView>> {
    let all = output::normalized(content);
    let count = if all.len() < DIFF_MAX_LINES {
        all.len()
    } else {
        DIFF_MAX_LINES as nat
    };
    let shown = Seq::new(count, |i: int| marked_line(all[i], width, color, mark));
    if all.len() == 0 {
        seq![seq![screen::sp("  "@ + mark + " (empty)"@, tint(MUTED))]]
    } else if all.len() > DIFF_MAX_LINES {
        shown.push(seq![screen::sp("    …"@, tint(MUTED))])
    } else {
        shown
    }
}

/// Appends the first normalized lines of an output, with a mark in front of each.
pub fn push_diff_lines(
    lines: &mut Vec<Line>,
    content: &str,
    max_width: usize,
    color: Color,
    prefix: &str,
)
    ensures
        screen::lines_view(final(lines)@) == screen::lines_view(old(lines)@) + marked_lines(
            content@,
            max_width as nat,
            color,
            prefix@,
        ),
{
    let normalized = normalize_output(content);
    let ghost all = output::normalized(content@);
    let ghost had = screen::lines_view(lines@);
    let ghost shown = marked_lines(content@, max_width as nat, color, prefix@);
    proof {
        assert(all.len() == normalized@.len());
    }
    if normalized.len() == 0 {
        let mut t = "  ".to_string();
        t.append(prefix);
        t.append(" (empty)");
        add_text(lines, t.as_str(), tint(MUTED));
        proof {
            assert(had.push(shown[0]) =~= had + shown);
        }
        return;
    }
    let mut i: usize = 0;
    proof {
        assert(had =~= had + shown.take(0));
    }
    while i < normalized.len() && i < DIFF_MAX_LINES
        invariant
            i <= normalized.len(),
            i <= DIFF_MAX_LINES,
            normalized@.len() > 0,
            text::texts(normalized@) == all,
            all == output::normalized(content@),
            all.len() == normalized@.len(),
            shown == marked_lines(content@, max_width as nat, color, prefix@),
            screen::lines_view(lines@) == had + shown.take(i as int),
        decreases normalized.len() - i,
    {
        let mut t = "  ".to_string();
        t.append(prefix);
        t.append(" ");
        t.append(truncate(normalized[i].as_str(), max_width.saturating_sub(4)).as_str());
        add_text(lines, t.as_str(), tint(color));
        proof {
            assert(all[i as int] == normalized@[i as int]@);
            assert(shown[i as int] == marked_line(all[i as int], max_width as nat, color, prefix@));
            assert(shown.take(i + 1) =~= shown.take(i as int).push(shown[i as int]));
            assert((had + shown.take(i as int)).push(shown[i as int]) =~= had + shown.take(i + 1));
        }
        i += 1;
    }
    if normalized.len() > DIFF_MAX_LINES {
        add_text(lines, "    …", tint(MUTED));
        proof {
            assert(shown.take(i as int).push(shown[i as int]) =~= shown);
            assert((had + shown.take(i as int)).push(shown[i as int]) =~= had + shown);
        }
    } else {
        proof {
            assert(shown.take(i as int) =~= shown);
        }
    }
}

/// No more than the first few lines of an output are shown; an ellipsis follows them exactly where
/// there are more.
pub proof fn lemma_long_outputs_are_cut(
    content: Seq<char>,
    width: nat,
    color: Color,
    mark: Seq<char>,
)
    ensures
        ({
            let lines = marked_lines(content, width, color, mark);
            let len = output::normalized(content).len();
            &&& 1 <= len <= DIFF_MAX_LINES ==> lines.len() == len
            &&& len > DIFF_MAX_LINES ==> {
                &&& lines.len() == DIFF_MAX_LINES + 1
                &&& lines.last() == seq![screen::sp("    …"@, tint(MUTED))]
            }
        }),
{
}

/// A heading in the view of a sample.
pub open spec fn heading(words: Seq<char>) -> Seq<SpanView> {
    seq![screen::sp(words, strong(SECONDARY))]
}

/// The selected sample; the first where none is selected.
pub open spec fn selected_index(a: AppView) -> usize {
    match a.results_selected.selected {
        Some(i) => i,
        None => 0,
    }
}

/// The sample at `i`, if there is one.
pub open spec fn sample_at(p: ProblemView, i: usize) -> Option<TestCaseView> {
    if i < p.test_cases.len() {
        Some(p.test_cases[i as int])
    } else {
        None
    }
}

/// The verdict on the sample at `i`, if it is there.
pub open spec fn verdict_at(a: AppView, i: usize) -> Option<VerdictView> {
    if i < a.results.len() {
        a.results[i as int]
    } else {
        None
    }
}

/// What is shown of the verdict on a sample, below its input.
pub open spec fn verdict_lines(
    tc: TestCaseView,
    result: Option<VerdictView>,
    time_limit_ms: u64,
    width: nat,
) -> Seq<Seq<SpanView>> {
    let none = Seq::<Seq<SpanView>>::empty();
    match result {
        None => none.push(seq![screen::sp("Awaiting run…"@, tint(MUTED))]),
        Some(VerdictView::Pass { ms }) => none.push(
            seq![
                screen::sp("PASS in "@ + number::decimal(ms as nat) + " ms"@, strong(SUCCESS)),
            ],
        ).push(Seq::empty()).push(heading("Expected"@)) + marked_lines(
            tc.expected_output,
            width,
            SUCCESS,
            " "@,
        ),
        Some(VerdictView::Fail { got, ms }) => (none.push(
            seq![screen::sp("FAIL in "@ + number::decimal(ms as nat) + " ms"@, strong(FAIL))],
        ).push(Seq::empty()).push(heading("Expected"@)) + marked_lines(
            tc.expected_output,
            width,
            FAIL,
            "-"@,
        )).push(Seq::empty()).push(heading("Got"@)) + marked_lines(got, width, SUCCESS, "+"@),
        Some(VerdictView::Tle) => none.push(
            seq![
                screen::sp(
                    "TLE  (> "@ + number::decimal(time_limit_ms as nat) + " ms)"@,
                    strong(TERTIARY),
                ),
            ],
        ).push(Seq::empty()).push(heading("Expected"@)) + marked_lines(
            tc.expected_output,
            width,
            MUTED,
            " "@,
        ),
        Some(VerdictView::Rte { stderr, code }) => {
            let head = none.push(
                seq![
                    screen::sp(
                        match code {
                            Some(c) => "RTE  (exit "@ + number::decimal_int(c as int) + ")"@,
                            None => "RTE  (killed by signal)"@,
                        },
                        strong(SECONDARY),
                    ),
                ],
            );
            if text::trim(stderr).len() == 0 {
                head
            } else {
                head.push(Seq::empty()).push(heading("stderr"@)) + marked_lines(
                    stderr,
                    width,
                    FAIL,
                    "!"@,
                )
            }
        },
    }
}

/// What is shown of a sample: its input, and the verdict on it.
pub open spec fn sample_lines(a: AppView, p: ProblemView, width: nat) -> Seq<Seq<SpanView>> {
    let i = selected_index(a);
    let none = Seq::<Seq<SpanView>>::empty();
    match sample_at(p, i) {
        Some(tc) => (none.push(heading("Input"@)) + marked_lines(tc.input, width, TEXT, " "@)).push(
            Seq::empty(),
        ) + verdict_lines(tc, verdict_at(a, i), p.time_limit_ms, width),
        None => none.push(seq![screen::sp("No test selected."@, tint(MUTED))]),
    }
}

/// Lines that wrap on the background of the theme.
pub open spec fn wrapped(lines: Seq<Seq<SpanView>>) -> WidgetView {
    WidgetView::Paragraph {
        content: ContentView::Lines(lines),
        style: screen::backdrop(),
        block: None,
        wrap: true,
        align: Align::Left,
    }
}

/// The view of the selected sample beside the list.
pub open spec fn diff_view(a: AppView, p: ProblemView, area: Rect) -> Seq<DrawView> {
    let inner = layout::bordered(area);
    seq![
        screen::at(
            area,
            WidgetView::Frame { block: screen::framed(" Diff "@, PRIMARY, TERTIARY) },
        ),
        screen::at(inner, wrapped(sample_lines(a, p, dashboard::less(inner.width as nat, 4)))),
    ]
}

/// Appends what is shown of the verdict on a sample.
fn push_verdict_lines(
    lines: &mut Vec<Line>,
    tc: &TestCase,
    result: &Option<Verdict>,
    time_limit_ms: u64,
    width: usize,
)
    ensures
        screen::lines_view(final(lines)@) == screen::lines_view(old(lines)@) + verdict_lines(
            tc@,
            app::slot_view(*result),
            time_limit_ms,
            width as nat,
        ),
{
    let ghost had = screen::lines_view(lines@);
    let ghost wanted = verdict_lines(tc@, app::slot_view(*result), time_limit_ms, width as nat);
    match result {
        None => {
            add_text(lines, "Awaiting run…", tint(MUTED));
        },
        Some(Verdict::Pass { ms }) => {
            let mut t = "PASS in ".to_string();
            push_decimal(&mut t, *ms);
            t.append(" ms");
            add_text(lines, t.as_str(), strong(SUCCESS));
            add_blank(lines);
            add_text(lines, "Expected", strong(SECONDARY));
            push_diff_lines(lines, tc.expected_output.as_str(), width, SUCCESS, " ");
        },
        Some(Verdict::Fail { got, ms }) => {
            let mut t = "FAIL in ".to_string();
            push_decimal(&mut t, *ms);
            t.append(" ms");
            add_text(lines, t.as_str(), strong(FAIL));
            add_blank(lines);
            add_text(lines, "Expected", strong(SECONDARY));
            push_diff_lines(lines, tc.expected_output.as_str(), width, FAIL, "-");
            add_blank(lines);
            add_text(lines, "Got", strong(SECONDARY));
            push_diff_lines(lines, got.as_str(), width, SUCCESS, "+");
        },
        Some(Verdict::Tle) => {
            let mut t = "TLE  (> ".to_string();
            push_decimal(&mut t, time_limit_ms);
            t.append(" ms)");
            add_text(lines, t.as_str(), strong(TERTIARY));
            add_blank(lines);
            add_text(lines, "Expected", strong(SECONDARY));
            push_diff_lines(lines, tc.expected_output.as_str(), width, MUTED, " ");
        },
        Some(Verdict::Rte { stderr, code }) => {
            match code {
                Some(c) => {
                    let mut t = "RTE  (exit ".to_string();
                    t.append(decimal_i32_text(*c).as_str());
                    t.append(")");
                    add_text(lines, t.as_str(), strong(SECONDARY));
                },
                None => {
                    add_text(lines, "RTE  (killed by signal)", strong(SECONDARY));
                },
            }
            let trimmed = trim_text(stderr.as_str());
            if !trimmed.as_str().is_empty() {
                add_blank(lines);
                add_text(lines, "stderr", strong(SECONDARY));
                push_diff_lines(lines, stderr.as_str(), width, FAIL, "!");
            }
        },
    }
    proof {
        assert(screen::lines_view(lines@) =~= had + wanted);
    }
}

/// The view of the selected sample beside the list.
pub fn render_diff_view(a: &App, p: &Problem, area: Rect) -> (r: Vec<Draw>)
    ensures
        screen::draws_view(r@) == diff_view(a@, p@, area),
{
    let i: usize = match a.results_selected.selected {
        Some(i) => i,
        None => 0,
    };
    let inner = inside_border(area);
    let width: usize = inner.width.saturating_sub(4) as usize;
    let ghost wanted = sample_lines(a@, p@, width as nat);
    let mut lines = no_lines();
    proof {
        assert(p@.test_cases.len() == p.test_cases@.len());
        assert(a@.results.len() == a.results@.len());
    }
    if i < p.test_cases.len() {
        let tc = &p.test_cases[i];
        proof {
            assert(p@.test_cases[i as int] == tc@);
        }
        add_text(&mut lines, "Input", strong(SECONDARY));
        push_diff_lines(&mut lines, tc.input.as_str(), width, TEXT, " ");
        add_blank(&mut lines);
        if i < a.results.len() {
            proof {
                assert(a@.results[i as int] == app::slot_view(a.results@[i as int]));
            }
            push_verdict_lines(&mut lines, tc, &a.results[i], p.time_limit_ms, width);
        } else {
            push_verdict_lines(&mut lines, tc, &None, p.time_limit_ms, width);
        }
    } else {
        add_text(&mut lines, "No test selected.", tint(MUTED));
    }
    proof {
        assert(screen::lines_view(lines@) =~= wanted);
    }
    let mut draws = no_draws();
    let block = frame(" Diff ", PRIMARY, TERTIARY);
    draw(&mut draws, area, Widget::Frame { block });
    draw(
        &mut draws,
        inner,
        Widget::Paragraph {
            content: Content::Lines(lines),
            style: screen::backdrop(),
            block: None,
            wrap: true,
            align: Align::Left,
        },
    );
    draws
}

/// The areas of the verdicts: above, if a push has failed, a banner that says so; below it the
/// list of samples and the view of the selected one.
#[derive(Debug, Clone, Copy)]
pub struct ResultAreas {
    pub banner: Option<Rect>,
    pub body: Rect,
    pub list: Rect,
    pub detail: Rect,
}

/// The banner about a push that has failed, if there is a place for it.
pub open spec fn push_banner(a: AppView, banner: Option<Rect>) -> Seq<DrawView> {
    match (a.push_error, banner) {
        (Some(error), Some(area)) => seq![
            screen::at(area, screen::framed_error(error, " Push Failed "@)),
        ],
        _ => Seq::empty(),
    }
}

/// What is shown of a run below the banner: the compiler's complaint in place of everything else
/// where the solution does not compile; otherwise the samples and the selected one.
pub open spec fn results_body(a: AppView, p: ProblemView, areas: ResultAreas) -> Seq<DrawView> {
    match a.build_error {
        Some(stderr) => seq![
            screen::at(areas.body, screen::framed_error(stderr, " Compilation Error (CE) "@)),
        ],
        None => {
            let b = AppView { results_selected: shown_results_cursor(a), ..a };
            seq![test_case_list(a, p, areas.list)] + diff_view(b, p, areas.detail)
        },
    }
}

/// What is shown of a run.
pub open spec fn results_panel(a: AppView, p: ProblemView, areas: ResultAreas) -> Seq<DrawView> {
    push_banner(a, areas.banner) + results_body(a, p, areas)
}

/// The state once a run is shown.
pub open spec fn shown_results(a: AppView) -> AppView {
    match a.build_error {
        Some(_) => a,
        None => AppView { results_selected: shown_results_cursor(a), ..a },
    }
}

/// What is shown of a run.
pub fn render_results(a: &mut App, areas: ResultAreas) -> (r: Vec<Draw>)
    requires
        old(a).problem is Some,
    ensures
        screen::draws_view(r@) == results_panel(old(a)@, old(a)@.problem->0, areas),
        final(a)@ == shown_results(old(a)@),
{
    let mut draws = no_draws();
    if let Some(error) = &a.push_error {
        if let Some(area) = areas.banner {
            draw(&mut draws, area, error_widget(error.as_str(), " Push Failed "));
        }
    }
    let ghost top = push_banner(a@, areas.banner);
    proof {
        assert(screen::draws_view(draws@) =~= top);
    }
    if let Some(stderr) = &a.build_error {
        draw(&mut draws, areas.body, error_widget(stderr.as_str(), " Compilation Error (CE) "));
        proof {
            assert(screen::draws_view(draws@) =~= top + results_body(a@, a@.problem->0, areas));
        }
        return draws;
    }
    let ghost before = a@;
    let list = render_test_case_list(a, areas.list);
    draw_all(&mut draws, list);
    if let Some(p) = &a.problem {
        let detail = render_diff_view(a, p, areas.detail);
        draw_all(&mut draws, detail);
    }
    proof {
        assert(screen::draws_view(draws@) =~= top + results_body(before, before.problem->0, areas));
    }
    draws
}

/// A solution that does not compile has no verdicts on screen: only the compiler's complaint.
pub proof fn lemma_build_error_replaces_verdicts(a: AppView, p: ProblemView, areas: ResultAreas)
    requires
        a.build_error is Some,
    ensures
        results_panel(a, p, areas) == push_banner(a, areas.banner).push(
            screen::at(
                areas.body,
                screen::framed_error(a.build_error->0, " Compilation Error (CE) "@),
            ),
        ),
{
    assert(results_panel(a, p, areas) =~= push_banner(a, areas.banner).push(
        screen::at(
            areas.body,
            screen::framed_error(a.build_error->0, " Compilation Error (CE) "@),
        ),
    ));
}

} // verus!
