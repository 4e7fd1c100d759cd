//! What the screen shows: of a run, of a sample, of the recommendations and of the time.

use vstd::prelude::*;

use crate::app::{AppState, AppView, RecsView};
use crate::bars;
use crate::dashboard;
use crate::full_view;
use crate::full_view::PaneAreas;
use crate::judge::VerdictView;
use crate::labels;
use crate::laws::numbers;
use crate::laws::texts;
use crate::layout;
use crate::layout::{Axis, Part, Rect};
use crate::number;
use crate::output;
use crate::problem::{ProblemView, TestCaseView};
use crate::recommend::RecommendationView;
use crate::samples;
use crate::samples::ResultAreas;
use crate::screen;
use crate::screen::{
    Align, Color, ContentView, SpanView, WidgetView, FAIL, MUTED, PRIMARY, SECONDARY, SUCCESS,
    TERTIARY, TEXT,
};
use crate::text;
use crate::ui;
use crate::ui::ScreenAreas;

verus! {

/// The words of a line, one span after the other.
pub open spec fn words(line: Seq<SpanView>) -> Seq<char>
    decreases line.len(),
{
    if line.len() == 0 {
        Seq::empty()
    } else {
        words(line.drop_last()) + line.last().text
    }
}

/// The verdicts are counted one for each sample that has one, and those that passed likewise.
pub proof fn law_counts(results: Seq<Option<VerdictView>>)
    ensures
        bars::finished_count(results) == results.filter(|r: Option<VerdictView>| r is Some).len(),
        bars::passed_count(results) == results.filter(
            |r: Option<VerdictView>| r is Some && r->0 is Pass,
        ).len(),
    decreases results.len(),
{
    reveal(Seq::filter);
    if results.len() > 0 {
        law_counts(results.drop_last());
    }
}

proof fn lemma_all_counted(results: Seq<Option<VerdictView>>)
    ensures
        bars::passed_count(results) <= results.len(),
        bars::passed_count(results) == results.len() <==> (forall|i: int|
            0 <= i < results.len() ==> (#[trigger] results[i]) is Some && results[i]->0 is Pass),
    decreases results.len(),
{
    if results.len() > 0 {
        let front = results.drop_last();
        lemma_all_counted(front);
        if forall|i: int| 0 <= i < results.len() ==> (#[trigger] results[i]) is Some
            && results[i]->0 is Pass {
            assert forall|i: int| 0 <= i < front.len() implies (#[trigger] front[i]) is Some
                && front[i]->0 is Pass by {
                assert(front[i] == results[i]);
            }
            assert(results[results.len() - 1] == results.last());
        }
        if bars::passed_count(results) == results.len() {
            assert forall|i: int| 0 <= i < results.len() implies (#[trigger] results[i]) is Some
                && results[i]->0 is Pass by {
                if i < front.len() {
                    assert(front[i] == results[i]);
                }
            }
        }
    }
}

/// A run that is over is good exactly if every sample has passed, and what is said of it is how
/// many have; one that does not compile is not good, whatever the verdicts.
pub proof fn law_review_status(a: AppView)
    requires
        a.state == AppState::Review,
        a.problem is Some,
    ensures
        ({
            let id = "CF "@ + a.problem->0.contest_id + " "@ + a.problem->0.index;
            let s = bars::status(a);
            let passed = a.results.filter(
                |r: Option<VerdictView>| r is Some && r->0 is Pass,
            ).len();
            let all = forall|i: int|
                0 <= i < a.results.len() ==> (#[trigger] a.results[i]) is Some && a.results[i]->0
                    is Pass;
            &&& a.build_error is Some ==> s.text == id + " │ Review — CE "@ && s.style.fg == Some(
                FAIL,
            )
            &&& a.build_error is None ==> {
                &&& s.text == id + " │ Review — "@ + number::decimal(passed) + "/"@
                    + number::decimal(a.results.len()) + " PASS "@
                &&& all ==> s.style.fg == Some(SUCCESS)
                &&& !all ==> s.style.fg == Some(FAIL)
            }
        }),
{
    law_counts(a.results);
    lemma_all_counted(a.results);
}

/// While the samples are run, what is said is how many have their verdict, of how many.
pub proof fn law_testing_status(a: AppView)
    requires
        a.state == AppState::Testing,
        a.problem is Some,
    ensures
        bars::status(a).text == "CF "@ + a.problem->0.contest_id + " "@ + a.problem->0.index
            + " │ "@ + bars::spinner_frame(a.spinner) + " Testing "@ + number::decimal(
            a.results.filter(|r: Option<VerdictView>| r is Some).len(),
        ) + "/"@ + number::decimal(a.results.len()) + " "@,
{
    law_counts(a.results);
}

/// The spinner shows its ten pictures in turn.
pub proof fn law_spinner_turns(n: usize)
    requires
        n <= usize::MAX - 10,
    ensures
        bars::spinner_frame((n + 10) as usize) == bars::spinner_frame(n),
        n % 10 == 0 ==> bars::spinner_frame(n) == "⠋"@,
        n % 10 == 1 ==> bars::spinner_frame(n) == "⠙"@,
        n % 10 == 2 ==> bars::spinner_frame(n) == "⠹"@,
        n % 10 == 3 ==> bars::spinner_frame(n) == "⠸"@,
        n % 10 == 4 ==> bars::spinner_frame(n) == "⠼"@,
        n % 10 == 5 ==> bars::spinner_frame(n) == "⠴"@,
        n % 10 == 6 ==> bars::spinner_frame(n) == "⠦"@,
        n % 10 == 7 ==> bars::spinner_frame(n) == "⠧"@,
        n % 10 == 8 ==> bars::spinner_frame(n) == "⠇"@,
        n % 10 == 9 ==> bars::spinner_frame(n) == "⠏"@,
{
}

/// The timer counts the whole seconds since the start.
pub proof fn law_elapsed(started: u64, now: u64)
    ensures
        now >= started ==> {
            let secs = bars::elapsed_secs(started, now);
            secs * 1_000_000_000 <= now - started < (secs + 1) * 1_000_000_000
        },
        now < started ==> bars::elapsed_secs(started, now) == 0,
{
}

/// The timer shows minutes and seconds, the seconds with two digits and the minutes with two at
/// least.
pub proof fn law_timer(secs: nat)
    ensures
        exists|m: Seq<char>, s: Seq<char>|
            {
                &&& bars::timer(secs) == #[trigger] ("⏱ "@ + m + ":"@ + s)
                &&& numbers::all_digits(m) && m.len() >= 2 && number::digits_value(m) == secs / 60
                &&& numbers::all_digits(s) && s.len() == 2 && number::digits_value(s) == secs % 60
            },
{
    let m = number::pad_front(number::decimal(secs / 60), '0', 2);
    let s = number::pad_front(number::decimal(secs % 60), '0', 2);
    lemma_two_digits(secs / 60);
    lemma_two_digits(secs % 60);
    assert(bars::timer(secs) == "⏱ "@ + m + ":"@ + s);
}

proof fn lemma_two_digits(n: nat)
    ensures
        ({
            let p = number::pad_front(number::decimal(n), '0', 2);
            &&& numbers::all_digits(p)
            &&& p.len() >= 2
            &&& number::digits_value(p) == n
            &&& n < 100 ==> p.len() == 2
        }),
{
    let d = number::decimal(n);
    numbers::law_decimal(n);
    let p = number::pad_front(d, '0', 2);
    if d.len() >= 2 {
        assert(p =~= d);
        if n < 100 {
            reveal_with_fuel(number::decimal, 3);
        }
    } else {
        assert(p =~= seq!['0'] + d);
        assert(p.drop_last() =~= seq!['0']);
        assert(seq!['0'].drop_last() =~= Seq::<char>::empty());
        assert(number::digits_value(Seq::<char>::empty()) == 0);
        assert(number::digits_value(seq!['0']) == 0);
        assert(d.drop_last() =~= Seq::<char>::empty());
        assert(p.last() == d.last());
        assert forall|i: int| 0 <= i < p.len() implies '0' as u32 <= (#[trigger] p[i]) as u32
            <= '9' as u32 by {
            if i == 1 {
                assert(p[1] == d[0]);
            }
        }
    }
}

/// In the list each sample stands at its place with its own verdict; of those without one, only the
/// first is running, and only while the samples are run.
pub proof fn law_listed_verdicts(a: AppView, p: ProblemView, i: int)
    requires
        0 <= i < p.test_cases.len(),
        p.test_cases.len() == a.results.len(),
    ensures
        ({
            let items = samples::result_items(a, p);
            let waits = forall|k: int| 0 <= k < i ==> (#[trigger] a.results[k]) is Some;
            let line = items[i][0];
            &&& items.len() == p.test_cases.len()
            &&& items[i].len() == 1
            &&& line.len() == 4
            &&& line[0].text == " "@ && line[2].text == " "@
            &&& line[1].text == number::pad_back(labels::pretty(p.test_cases[i].id), 10)
            &&& a.results[i] matches Some(VerdictView::Pass { ms }) ==> line[3].text == "PASS  ("@
                + number::decimal(ms as nat) + " ms)"@ && line[3].style.fg == Some(SUCCESS)
            &&& a.results[i] matches Some(VerdictView::Fail { got, ms }) ==> line[3].text
                == "FAIL  ("@ + number::decimal(ms as nat) + " ms)"@ && line[3].style.fg == Some(
                FAIL,
            )
            &&& a.results[i] matches Some(VerdictView::Tle) ==> line[3].text == "TLE   (> "@
                + number::decimal(p.time_limit_ms as nat) + " ms)"@ && line[3].style.fg == Some(
                TERTIARY,
            )
            &&& a.results[i] matches Some(VerdictView::Rte { stderr, code }) ==> {
                &&& code matches Some(c) ==> line[3].text == "RTE   (exit "@ + number::decimal_int(
                    c as int,
                ) + ")"@
                &&& code is None ==> line[3].text == "RTE   (signal)"@
                &&& line[3].style.fg == Some(SECONDARY)
            }
            &&& a.results[i] is None && a.state == AppState::Testing && waits ==> line[3].text
                == bars::spinner_frame(a.spinner) + " running…"@
            &&& a.results[i] is None && !(a.state == AppState::Testing && waits) ==> line[3].text
                == "queued"@
        }),
{
    samples::lemma_first_missing(a.results);
    let m = samples::first_missing(a.results);
    if a.results[i] is None {
        if forall|k: int| 0 <= k < i ==> (#[trigger] a.results[k]) is Some {
            if m < i {
                assert(a.results[m] is Some);
            }
            assert(m == i);
        } else {
            let k = choose|k: int| 0 <= k < i && !((#[trigger] a.results[k]) is Some);
            if m == i {
                assert(a.results[k] is Some);
            }
        }
    }
}

/// The cursor of the samples stays where it is if there is a sample there; it is put on the last
/// where it is behind, on the first where it is nowhere, and nowhere where there are none.
pub proof fn law_shown_cursor(a: AppView)
    ensures
        ({
            let c = samples::shown_results_cursor(a).selected;
            let n = a.results.len();
            &&& n == 0 ==> c is None
            &&& n > 0 && a.results_selected.selected is None ==> c == Some(0usize)
            &&& a.results_selected.selected matches Some(i) ==> {
                &&& i < n ==> c == Some(i)
                &&& 0 < n <= i && n - 1 <= usize::MAX ==> c == Some((n - 1) as usize)
            }
        }),
{
}

/// Of an output the first five lines are shown, each in its order behind its mark, without the white
/// space at its end, and as far as there is room.
pub proof fn law_marked_lines(
    content: Seq<char>,
    width: nat,
    color: Color,
    mark: Seq<char>,
    i: int,
)
    ensures
        ({
            let all = output::normalized(content);
            let shown = samples::marked_lines(content, width, color, mark);
            let room = (if width >= 4 { width - 4 } else { 0 }) as nat;
            &&& all.len() == 0 ==> shown.len() == 1 && words(shown[0]) == "  "@ + mark
                + " (empty)"@
            &&& 0 <= i < all.len() && i < 5 ==> {
                &&& i < shown.len()
                &&& shown[i].len() == 1
                &&& shown[i][0].style.fg == Some(color)
                &&& all[i].len() <= room ==> shown[i][0].text == "  "@ + mark + " "@ + all[i]
                &&& all[i].len() > room ==> shown[i][0].text == "  "@ + mark + " "@ + (
                if room >= 3 {
                    all[i].take(room - 3)
                } else {
                    Seq::empty()
                } + "..."@)
            }
            &&& 1 <= all.len() <= 5 ==> shown.len() == all.len()
            &&& all.len() > 5 ==> shown.len() == 6 && shown[5].len() == 1 && shown[5][0].text
                == "    …"@
        }),
{
    let all = output::normalized(content);
    let shown = samples::marked_lines(content, width, color, mark);
    if all.len() == 0 {
        let line = shown[0];
        assert(line.drop_last() =~= Seq::<SpanView>::empty());
        assert(words(line.drop_last()) == Seq::<char>::empty());
        assert(words(line) =~= line.last().text);
    } else if 0 <= i < all.len() && i < 5 {
        let room = (if width >= 4 { width - 4 } else { 0 }) as nat;
        if room < 3 {
            assert(all[i].take(0) =~= Seq::<char>::empty());
        }
        assert(shown[i] == samples::marked_line(all[i], width, color, mark));
    }
}

/// Beside the list stands the selected sample: its input, and then what came of it. A failure shows
/// what was expected and what came, each under its heading; a runtime error what was printed about
/// it, if anything was.
pub proof fn law_selected_sample(a: AppView, p: ProblemView, width: nat)
    ensures
        ({
            let none = Seq::<Seq<SpanView>>::empty();
            let i = match a.results_selected.selected {
                Some(i) => i as int,
                None => 0int,
            };
            let shown = samples::sample_lines(a, p, width);
            let verdict = if 0 <= i < a.results.len() {
                a.results[i]
            } else {
                None
            };
            &&& i >= p.test_cases.len() ==> shown.len() == 1 && words(shown[0])
                == "No test selected."@
            &&& i < p.test_cases.len() ==> {
                let tc = p.test_cases[i];
                let input = samples::marked_lines(tc.input, width, TEXT, " "@);
                let n = input.len() as int;
                &&& shown.len() > n + 2
                &&& words(shown[0]) == "Input"@
                &&& shown.subrange(1, n + 1) == input
                &&& shown[n + 1].len() == 0
                &&& shown.skip(n + 2) == samples::verdict_lines(
                    tc,
                    verdict,
                    p.time_limit_ms,
                    width,
                )
            }
        }),
{
    let i = samples::selected_index(a) as int;
    let shown = samples::sample_lines(a, p, width);
    if i < p.test_cases.len() {
        let tc = p.test_cases[i];
        let input = samples::marked_lines(tc.input, width, TEXT, " "@);
        let n = input.len() as int;
        let rest = samples::verdict_lines(
            tc,
            samples::verdict_at(a, i as usize),
            p.time_limit_ms,
            width,
        );
        lemma_one_span(shown[0]);
        assert(shown.subrange(1, n + 1) =~= input);
        assert(shown.skip(n + 2) =~= rest);
        assert(rest.len() > 0);
    } else {
        lemma_one_span(shown[0]);
    }
}

proof fn lemma_one_span(line: Seq<SpanView>)
    requires
        line.len() == 1,
    ensures
        words(line) == line[0].text,
{
    assert(words(line.drop_last()) == Seq::<char>::empty());
    assert(words(line) =~= line[0].text);
}

/// What is shown of each verdict.
pub proof fn law_verdict_lines(
    tc: TestCaseView,
    ms: u64,
    got: Seq<char>,
    stderr: Seq<char>,
    code: Option<i32>,
    limit: u64,
    width: nat,
)
    ensures
        ({
            let pass = samples::verdict_lines(tc, Some(VerdictView::Pass { ms }), limit, width);
            let fail = samples::verdict_lines(tc, Some(VerdictView::Fail { got, ms }), limit, width);
            let late = samples::verdict_lines(tc, Some(VerdictView::Tle), limit, width);
            let rte = samples::verdict_lines(
                tc,
                Some(VerdictView::Rte { stderr, code }),
                limit,
                width,
            );
            let wait = samples::verdict_lines(tc, None, limit, width);
            let good = samples::marked_lines(tc.expected_output, width, SUCCESS, " "@);
            let meant = samples::marked_lines(tc.expected_output, width, FAIL, "-"@);
            let came = samples::marked_lines(got, width, SUCCESS, "+"@);
            let grey = samples::marked_lines(tc.expected_output, width, MUTED, " "@);
            let said = samples::marked_lines(stderr, width, FAIL, "!"@);
            let n = meant.len() as int;
            &&& wait.len() == 1 && wait[0][0].text == "Awaiting run…"@
            &&& pass[0][0].text == "PASS in "@ + number::decimal(ms as nat) + " ms"@
            &&& pass[2][0].text == "Expected"@ && pass.skip(3) == good
            &&& fail[0][0].text == "FAIL in "@ + number::decimal(ms as nat) + " ms"@
            &&& fail[2][0].text == "Expected"@ && fail.subrange(3, n + 3) == meant
            &&& fail[n + 4][0].text == "Got"@ && fail.skip(n + 5) == came
            &&& late[0][0].text == "TLE  (> "@ + number::decimal(limit as nat) + " ms)"@
            &&& late[2][0].text == "Expected"@ && late.skip(3) == grey
            &&& code matches Some(c) ==> rte[0][0].text == "RTE  (exit "@ + number::decimal_int(
                c as int,
            ) + ")"@
            &&& code is None ==> rte[0][0].text == "RTE  (killed by signal)"@
            &&& text::all_white_space(stderr) ==> rte.len() == 1
            &&& !text::all_white_space(stderr) ==> rte[2][0].text == "stderr"@ && rte.skip(3)
                == said
        }),
{
    texts::law_trim(stderr);
    let good = samples::marked_lines(tc.expected_output, width, SUCCESS, " "@);
    let meant = samples::marked_lines(tc.expected_output, width, FAIL, "-"@);
    let came = samples::marked_lines(got, width, SUCCESS, "+"@);
    let grey = samples::marked_lines(tc.expected_output, width, MUTED, " "@);
    let said = samples::marked_lines(stderr, width, FAIL, "!"@);
    let n = meant.len() as int;
    let fail = samples::verdict_lines(tc, Some(VerdictView::Fail { got, ms }), limit, width);
    assert(samples::verdict_lines(tc, Some(VerdictView::Pass { ms }), limit, width).skip(3)
        =~= good);
    assert(fail.subrange(3, n + 3) =~= meant);
    assert(fail.skip(n + 5) =~= came);
    assert(samples::verdict_lines(tc, Some(VerdictView::Tle), limit, width).skip(3) =~= grey);
    if !text::all_white_space(stderr) {
        assert(samples::verdict_lines(
            tc,
            Some(VerdictView::Rte { stderr, code }),
            limit,
            width,
        ).skip(3) =~= said);
    }
}

/// Before a run each sample is shown with its label and the first three lines of its input, as far
/// as there is room, and a mark where there are more.
pub proof fn law_preview(tc: TestCaseView, width: nat, i: int)
    ensures
        ({
            let input = text::text_lines(tc.input);
            let shown = samples::preview_item(tc, width);
            &&& shown[0][0].text == labels::pretty(tc.id)
            &&& 0 <= i < input.len() && i < 3 ==> shown[i + 1].len() == 1 && (
            input[i].len() <= width ==> shown[i + 1][0].text == "  "@ + input[i]) && (
            input[i].len() > width >= 3 ==> shown[i + 1][0].text == "  "@ + (input[i].take(
                width - 3,
            ) + "..."@))
            &&& input.len() <= 3 ==> shown.len() == input.len() + 2
            &&& input.len() > 3 ==> shown.len() == 6 && shown[4][0].text == "  …"@
            &&& shown.last().len() == 0
        }),
{
}

/// The full view shows what was expected, and beside it what came: the output of a failed sample,
/// the expected output again of one that passed, what was printed about a runtime error, and nothing
/// else.
pub proof fn law_full_texts(a: AppView, p: ProblemView, i: int)
    requires
        i == match a.results_selected.selected {
            Some(i) => i as int,
            None => 0int,
        },
    ensures
        ({
            let t = full_view::full_texts(a, p);
            let none = Seq::<char>::empty();
            let v = if 0 <= i < a.results.len() {
                a.results[i]
            } else {
                None
            };
            &&& i >= p.test_cases.len() ==> t.expected == none && t.got == none && t.got_label
                == "Got"@
            &&& i < p.test_cases.len() ==> {
                let expected = p.test_cases[i].expected_output;
                &&& t.expected == expected
                &&& v matches Some(VerdictView::Fail { got, ms }) ==> t.got == got && t.got_label
                    == "Got"@ && t.got_color == FAIL
                &&& v matches Some(VerdictView::Pass { ms }) ==> t.got == expected && t.got_label
                    == "Got (PASS in "@ + number::decimal(ms as nat) + " ms)"@ && t.got_color
                    == SUCCESS
                &&& v matches Some(VerdictView::Tle) ==> t.got == none && t.got_label
                    == "Got (TLE > "@ + number::decimal(p.time_limit_ms as nat) + " ms)"@
                    && t.got_color == TERTIARY
                &&& v matches Some(VerdictView::Rte { stderr, code }) ==> {
                    &&& t.got == stderr && t.got_color == SECONDARY
                    &&& code matches Some(c) ==> t.got_label == "Got (RTE exit "@
                        + number::decimal_int(c as int) + ") — stderr"@
                    &&& code is None ==> t.got_label == "Got (RTE signal) — stderr"@
                }
                &&& v is None ==> t.got == none && t.got_label == "Got (awaiting run…)"@
                    && t.got_color == MUTED
            }
        }),
{
}

/// The rows for text in a pane are its height without the border and the line below the text.
pub proof fn law_viewport(area: Rect)
    ensures
        area.height >= 3 ==> full_view::viewport(area) == area.height - 3,
        area.height < 3 ==> full_view::viewport(area) == 0,
{
}

/// The full view stays scrolled as it is as long as its last row is not beyond the end; and else it
/// shows the end, or the beginning where all of it fits.
pub proof fn law_shown_offset(a: AppView, p: ProblemView, right: Rect)
    ensures
        ({
            let t = full_view::full_texts(a, p);
            let x = output::normalized(t.expected).len();
            let y = output::normalized(t.got).len();
            let total = if x >= y {
                x
            } else {
                y
            };
            let rows = if right.height > 3 {
                right.height - 3
            } else {
                1
            };
            let offset = full_view::shown_offset(a, p, right);
            &&& a.diff_offset + rows <= total ==> offset == a.diff_offset
            &&& a.diff_offset + rows > total && total >= rows ==> offset == total - rows
            &&& total < rows ==> offset == 0
        }),
{
}

/// A pane shows the lines from the offset on, as many as there are rows, in their order and as far as
/// there is room.
pub proof fn law_pane_lines(
    lines: Seq<Seq<char>>,
    offset: nat,
    rows: nat,
    width: nat,
    color: Color,
    k: int,
)
    ensures
        ({
            let shown = full_view::pane_lines(lines, offset, rows, width, color);
            let room = (if width >= 1 { width - 1 } else { 0 }) as nat;
            &&& lines.len() == 0 ==> shown.len() == 1 && words(shown[0]) == "  (empty)"@
            &&& lines.len() > 0 ==> {
                &&& shown.len() <= rows
                &&& offset + rows <= lines.len() ==> shown.len() == rows
                &&& offset <= lines.len() < offset + rows ==> shown.len() == lines.len() - offset
                &&& offset > lines.len() ==> shown.len() == 0
                &&& 0 <= k < shown.len() ==> {
                    let line = lines[offset + k];
                    &&& shown[k].len() == 1
                    &&& shown[k][0].style.fg == Some(color)
                    &&& line.len() <= room ==> shown[k][0].text == " "@ + line
                    &&& line.len() > room >= 3 ==> shown[k][0].text == " "@ + (line.take(room - 3)
                        + "..."@)
                }
            }
        }),
{
    let shown = full_view::pane_lines(lines, offset, rows, width, color);
    if lines.len() == 0 {
        lemma_one_span(shown[0]);
    } else if 0 <= k < shown.len() {
        assert(shown[k] == full_view::pane_line(lines[offset + k], width, color));
    }
}

/// How far a text is scrolled is told in whole percent of the way to its end.
pub proof fn law_percent(offset: nat, total: nat, rows: nat)
    ensures
        ({
            let p = full_view::percent(offset, total, rows);
            let end = if total > rows + 1 {
                (total - rows) as nat
            } else {
                1
            };
            &&& total == 0 ==> p == 100
            &&& total > 0 && offset >= end ==> p == 100
            &&& total > 0 && offset < end ==> p * end <= offset * 100 < (p + 1) * end
        }),
{
    if total > 0 {
        let end = full_view::larger(dashboard::less(total, rows), 1);
        if offset >= end {
            assert((end * 100) / end == 100) by (nonlinear_arith)
                requires
                    end >= 1,
            ;
        } else {
            let x = (offset * 100) as int;
            let q = x / (end as int);
            assert(q * end <= x < (q + 1) * end) by (nonlinear_arith)
                requires
                    q == x / (end as int),
                    end >= 1,
            ;
            assert(q < 100) by (nonlinear_arith)
                requires
                    q * end <= x,
                    x == offset * 100,
                    offset < end,
                    end >= 1,
            ;
        }
    }
}

/// The full view is two panes, what was expected and what came, both scrolled alike.
pub proof fn law_full_panel(a: AppView, p: ProblemView, left: PaneAreas, right: PaneAreas)
    ensures
        ({
            let draws = full_view::full_panel(a, p, left, right);
            let t = full_view::full_texts(a, p);
            let offset = full_view::shown_offset(a, p, right.area) as nat;
            let rows = full_view::viewport(right.area);
            &&& draws.len() == 6
            &&& draws[0].area == left.area && draws[1].area == left.body && draws[2].area
                == left.footer
            &&& draws[3].area == right.area && draws[4].area == right.body && draws[5].area
                == right.footer
            &&& draws[0].widget->Frame_block.title.text == " Expected "@
            &&& draws[3].widget->Frame_block.title.text == " "@ + t.got_label + " "@
            &&& draws[1].widget->content == ContentView::Lines(
                full_view::pane_lines(
                    output::normalized(t.expected),
                    offset,
                    rows,
                    dashboard::less(layout::bordered(left.area).width as nat, 2),
                    SUCCESS,
                ),
            )
            &&& draws[4].widget->content == ContentView::Lines(
                full_view::pane_lines(
                    output::normalized(t.got),
                    offset,
                    rows,
                    dashboard::less(layout::bordered(right.area).width as nat, 2),
                    t.got_color,
                ),
            )
        }),
{
}

/// A rating has the color of its rank.
pub proof fn law_rating_colors(r: i32)
    ensures
        dashboard::color_of_rating(None) == Color::Gray,
        r < 1200 ==> dashboard::color_of_rating(Some(r)) == Color::Gray,
        1200 <= r < 1400 ==> dashboard::color_of_rating(Some(r)) == Color::Green,
        1400 <= r < 1600 ==> dashboard::color_of_rating(Some(r)) == Color::Cyan,
        1600 <= r < 1900 ==> dashboard::color_of_rating(Some(r)) == Color::Blue,
        1900 <= r < 2100 ==> dashboard::color_of_rating(Some(r)) == Color::Magenta,
        2100 <= r < 2400 ==> dashboard::color_of_rating(Some(r)) == Color::Yellow,
        2400 <= r ==> dashboard::color_of_rating(Some(r)) == Color::Red,
{
}

/// The recommendations are listed in their order, each with its rating, and with its name and its
/// tags in full where there is room.
pub proof fn law_listed_recommendations(
    recs: Seq<RecommendationView>,
    area: Rect,
    a: AppView,
    i: int,
)
    requires
        a.recs == RecsView::Loaded(recs),
        0 <= i < recs.len(),
    ensures
        ({
            let items = dashboard::recs_panel(a, area).widget->items;
            let line = items[i][0];
            let room = area.width - 6;
            &&& dashboard::recs_panel(a, area).area == area
            &&& items.len() == recs.len()
            &&& items[i].len() == 1
            &&& line.len() == 6
            &&& recs[i].rating is None ==> line[1].text == "[ ?  ]"@
            &&& recs[i].rating matches Some(r) ==> line[1].text == "["@ + number::pad_front(
                number::decimal_int(r as int),
                ' ',
                4,
            ) + "]"@
            &&& line[1].style.fg == Some(dashboard::color_of_rating(recs[i].rating))
            &&& recs[i].name.len() + 12 <= room ==> line[3].text == recs[i].name
            &&& recs[i].name.len() + 12 > room && room >= 15 ==> line[3].text
                == recs[i].name.take(room - 15) + "..."@
            &&& recs[i].tags.len() == 0 ==> line[4].text == ""@
            &&& recs[i].tags.len() > 0 ==> line[4].text == " — "@
            &&& text::join(recs[i].tags, ", "@).len() + 20 <= room ==> line[5].text == text::join(
                recs[i].tags,
                ", "@,
            )
        }),
{
}

/// The analytics name the weak tags in their order, the highest rating, and the handle.
pub proof fn law_analytics(a: AppView, i: int)
    ensures
        ({
            let lines = dashboard::analytics_lines(a);
            let n = a.weak_tags.len() as int;
            &&& words(lines[0]) == "Weak Tags"@
            &&& 0 <= i < n ==> lines[i + 2].len() == 2 && lines[i + 2][1].text == a.weak_tags[i]
            &&& n > 0 ==> lines.len() == n + 5
            &&& n == 0 ==> lines.len() == 7 && lines[2][0].text == "No solve history yet."@
            &&& a.user_max_rating matches Some(r) ==> lines[lines.len() - 2][0].text
                == "Max solved rating: "@ + number::decimal_int(r as int)
            &&& a.user_max_rating is None ==> lines[lines.len() - 2][0].text
                == "Max solved rating: —"@
            &&& a.cf_handle matches Some(h) ==> lines[lines.len() - 1][0].text == "CF handle: "@ + h
        }),
{
    lemma_one_span(dashboard::analytics_lines(a)[0]);
}

/// The other states are told by the problem and what is done with it.
pub proof fn law_other_status(a: AppView)
    ensures
        ({
            let s = bars::status(a);
            let id = "CF "@ + a.problem->0.contest_id + " "@ + a.problem->0.index;
            let spin = bars::spinner_frame(a.spinner);
            let loaded = a.problem is Some;
            &&& a.state == AppState::Idle ==> s.text == "Dashboard "@
            &&& a.state != AppState::Idle && !loaded ==> s.text == "No Problem "@
            &&& a.state == AppState::Loaded && loaded ==> s.text == id + " │ Ready "@
            &&& a.state == AppState::Compiling && loaded ==> s.text == id + " │ "@ + spin
                + " Compiling… "@
            &&& a.state == AppState::GitSyncing && loaded ==> s.text == id + " │ "@ + spin
                + " Pushing to GitHub… "@
        }),
{
}

/// The bar at the top has the name of the program, the time where it runs, and the status, each in
/// its area; in the full view it names the sample instead.
pub proof fn law_top_bar(
    a: AppView,
    bar: Rect,
    left: Rect,
    center: Rect,
    right: Rect,
    now: u64,
)
    ensures
        ({
            let draws = bars::top_bar(a, bar, left, center, right, now);
            let sample = match (a.results_selected.selected, a.problem) {
                (Some(i), Some(p)) => if i < p.test_cases.len() {
                    labels::pretty(p.test_cases[i as int].id)
                } else {
                    "—"@
                },
                _ => "—"@,
            };
            &&& a.state == AppState::FullDiff ==> {
                &&& draws.len() == 1
                &&& draws[0].area == bar
                &&& draws[0].widget->content->Lines_0[0][3].text == "Diff View: "@ + sample
            }
            &&& a.state != AppState::FullDiff ==> {
                &&& draws.len() == 3
                &&& draws[0].area == left && draws[1].area == center && draws[2].area == right
                &&& draws[0].widget->content->Lines_0[0][1].text == "RUNE"@
                &&& a.started_at matches Some(t) ==> draws[1].widget->content->Lines_0[0][0].text
                    == bars::timer(bars::elapsed_secs(t, now))
                &&& a.started_at is None ==> draws[1].widget->content->Lines_0[0].len() == 0
                &&& draws[2].widget->content->Lines_0[0][0] == bars::status(a)
            }
        }),
{
}

/// A failed push is told in a banner above the verdicts, if and only if there is one; below it the
/// compiler's complaint stands in place of everything else, and without one the list of samples and
/// the selected one.
pub proof fn law_results_panel(a: AppView, p: ProblemView, areas: ResultAreas)
    requires
        a.push_error is Some <==> areas.banner is Some,
    ensures
        ({
            let draws = samples::results_panel(a, p, areas);
            let n = if a.push_error is Some {
                1int
            } else {
                0
            };
            &&& a.push_error matches Some(m) ==> draws[0].area == areas.banner->0
                && draws[0].widget->content == ContentView::Text(m)
            &&& a.build_error matches Some(m) ==> draws.len() == n + 1 && draws[n].area
                == areas.body && draws[n].widget->content == ContentView::Text(m)
            &&& a.build_error is None ==> {
                &&& draws.len() == n + 3
                &&& draws[n].area == areas.list
                &&& draws[n].widget->items == samples::result_items(a, p)
                &&& draws[n + 1].area == areas.detail
            }
        }),
{
}

/// Before a run all samples are listed, in their order.
pub proof fn law_problem_panel(p: ProblemView, area: Rect, i: int)
    ensures
        ({
            let d = samples::problem_panel(p, area);
            let width = (if area.width >= 6 { area.width - 6 } else { 0 }) as nat;
            &&& d.area == area
            &&& d.widget->items.len() == p.test_cases.len()
            &&& 0 <= i < p.test_cases.len() ==> d.widget->items[i] == samples::preview_item(
                p.test_cases[i],
                width,
            )
        }),
{
}

/// The banner has room for the message and a border, but no more than half of the height, and three
/// rows in any case.
pub proof fn law_banner(message: Seq<char>, height: u16)
    requires
        text::text_lines(message).len() <= 65533,
    ensures
        ({
            let h = ui::banner_height(message, height);
            let rows = text::text_lines(message).len() + 2;
            &&& h >= 3
            &&& 3 <= rows <= height / 2 ==> h == rows
            &&& rows > height / 2 >= 3 ==> h == height / 2
            &&& height / 2 < 3 || rows < 3 ==> h == 3
        }),
{
}

/// The screen is divided as follows: the bars take a row each; the upper bar has 10 columns for the
/// name and 28 for the status; the dashboard is divided 40 to 60, and the larger side 45 to 55; the
/// samples and the selected one share evenly, and so do the panes of the full view, side by side
/// from 80 columns on.
pub proof fn law_layout(a: AppView, area: Rect, areas: ScreenAreas)
    requires
        ui::is_layout(a, area, areas),
    ensures
        areas.full == area,
        layout::divisions(
            area,
            Axis::Vertical,
            seq![Part::Length(1), Part::Min(0), Part::Length(1)],
        ).contains(seq![areas.top, areas.main, areas.bottom]),
        layout::divisions(
            areas.top,
            Axis::Horizontal,
            seq![Part::Length(10), Part::Min(0), Part::Length(28)],
        ).contains(seq![areas.top_left, areas.top_center, areas.top_right]),
        a.state == AppState::Idle ==> {
            let d = areas.body->Dashboard_0;
            &&& areas.body is Dashboard
            &&& layout::divisions(
                areas.main,
                Axis::Horizontal,
                seq![Part::Percentage(40), Part::Percentage(60)],
            ).contains(seq![d.logo, d.side])
            &&& layout::divisions(
                d.side,
                Axis::Vertical,
                seq![Part::Percentage(45), Part::Percentage(55)],
            ).contains(seq![d.analytics, d.recs])
        },
        (a.state == AppState::Testing || a.state == AppState::Review) && a.problem is Some ==> {
            let r = areas.body->Results_0;
            &&& areas.body is Results
            &&& a.push_error is None ==> r.banner is None && r.body == areas.main
            &&& a.push_error matches Some(m) ==> r.banner is Some && layout::divisions(
                areas.main,
                Axis::Vertical,
                seq![Part::Length(ui::banner_height(m, areas.main.height)), Part::Min(0)],
            ).contains(seq![r.banner->0, r.body])
            &&& layout::divisions(
                r.body,
                Axis::Horizontal,
                seq![Part::Percentage(50), Part::Percentage(50)],
            ).contains(seq![r.list, r.detail])
        },
        a.state == AppState::FullDiff && a.problem is Some ==> {
            let left = areas.body->left;
            let right = areas.body->right;
            let axis = if areas.main.width >= 80 {
                Axis::Horizontal
            } else {
                Axis::Vertical
            };
            &&& areas.body is Panes
            &&& layout::divisions(
                areas.main,
                axis,
                seq![Part::Percentage(50), Part::Percentage(50)],
            ).contains(seq![left.area, right.area])
            &&& layout::divisions(
                layout::bordered(left.area),
                Axis::Vertical,
                seq![Part::Min(0), Part::Length(1)],
            ).contains(seq![left.body, left.footer])
            &&& layout::divisions(
                layout::bordered(right.area),
                Axis::Vertical,
                seq![Part::Min(0), Part::Length(1)],
            ).contains(seq![right.body, right.footer])
        },
{
}

/// Each state has its picture between the bars: the dashboard, the samples of the problem, what is
/// under way, the verdicts, or the full view of a sample.
pub proof fn law_pictures(a: AppView, area: Rect, areas: ScreenAreas, now: u64)
    requires
        ui::is_layout(a, area, areas),
    ensures
        ({
            let all = ui::screen_draws(a, areas, now);
            let top = bars::top_bar(
                a,
                areas.top,
                areas.top_left,
                areas.top_center,
                areas.top_right,
                now,
            );
            let n = top.len() as int + 1;
            let body = all.subrange(n, all.len() - 1);
            &&& all.subrange(1, n) == top
            &&& all.last() == bars::bottom_bar(a.state, areas.bottom)[0]
            &&& a.state == AppState::Idle ==> {
                let d = areas.body->Dashboard_0;
                &&& body.len() == 3
                &&& body[0] == dashboard::centered_lines(dashboard::logo_lines(), d.logo)
                &&& body[1].area == d.analytics && body[1].widget->content == ContentView::Lines(
                    dashboard::analytics_lines(a),
                )
                &&& body[2] == dashboard::recs_panel(a, d.recs)
            }
            &&& a.problem matches Some(p) ==> {
                &&& a.state == AppState::Loaded ==> body == seq![
                    samples::problem_panel(p, areas.main),
                ]
                &&& a.state == AppState::Testing || a.state == AppState::Review ==> body
                    == samples::results_panel(a, p, areas.body->Results_0)
                &&& a.state == AppState::FullDiff ==> body == full_view::full_panel(
                    a,
                    p,
                    areas.body->left,
                    areas.body->right,
                )
            }
            &&& a.state == AppState::Compiling ==> body == seq![
                dashboard::centered_lines(dashboard::compiling_lines(a), areas.main),
            ]
            &&& a.state == AppState::GitSyncing ==> body == seq![
                dashboard::centered_lines(dashboard::pushing_lines(a), areas.main),
            ]
        }),
{
    let all = ui::screen_draws(a, areas, now);
    let top = bars::top_bar(
        a,
        areas.top,
        areas.top_left,
        areas.top_center,
        areas.top_right,
        now,
    );
    let n = top.len() as int + 1;
    assert(all.subrange(1, n) =~= top);
    assert(all.subrange(n, all.len() - 1) =~= ui::body_draws(a, areas.main, areas.body));
}

/// Drawing moves nothing but the cursor of a list that is on screen, to an item of it, and the full
/// view back to its end.
pub proof fn law_drawing_changes(a: AppView, area: Rect, areas: ScreenAreas)
    requires
        ui::is_layout(a, area, areas),
    ensures
        ({
            let b = ui::shown(a, areas.body);
            let verdicts = (a.state == AppState::Testing || a.state == AppState::Review)
                && a.problem is Some && a.build_error is None;
            let full = a.state == AppState::FullDiff && a.problem is Some;
            let first = a.state == AppState::Idle && a.recs is Loaded && a.recs->Loaded_0.len() > 0
                && a.recs_selected.selected is None;
            &&& b == (AppView {
                recs_selected: b.recs_selected,
                results_selected: b.results_selected,
                diff_offset: b.diff_offset,
                ..a
            })
            &&& first ==> b.recs_selected.selected == Some(0usize)
            &&& !first ==> b.recs_selected == a.recs_selected
            &&& verdicts ==> b.results_selected == samples::shown_results_cursor(a)
            &&& !verdicts ==> b.results_selected == a.results_selected
            &&& full ==> b.diff_offset == full_view::shown_offset(
                a,
                a.problem->0,
                areas.body->right.area,
            )
            &&& !full ==> b.diff_offset == a.diff_offset
        }),
{
}

} // verus!
