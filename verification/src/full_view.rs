//! The full view of a sample: what was expected and what came, side by side, scrolled together.

use vstd::prelude::*;

use crate::app;
use crate::app::{App, AppView};
use crate::dashboard;
use crate::judge::{Verdict, VerdictView};
use crate::layout;
use crate::layout::{inside_border, Rect};
use crate::number;
use crate::number::{decimal_i32_text, push_decimal};
use crate::output;
use crate::output::normalize_output;
use crate::problem::{Problem, ProblemView};
use crate::samples;
use crate::screen;
use crate::screen::{
    add_text, draw, draw_all, frame, lines_widget, no_draws, no_lines, tint, Align, Color, Draw,
    DrawView, SpanView, Widget, WidgetView, FAIL, MUTED, PRIMARY, SECONDARY, SUCCESS,
    TERTIARY,
};
use crate::text;
use crate::text::truncate;

verus! {

/// The areas of a pane: its frame, and inside of it the text and the line below the text.
#[derive(Debug, Clone, Copy)]
pub struct PaneAreas {
    pub area: Rect,
    pub body: Rect,
    pub footer: Rect,
}

/// The texts of the two panes, and the title and color of the second one.
#[verifier::ext_equal]
pub struct FullTexts {
    pub expected: Seq<char>,
    pub got: Seq<char>,
    pub got_label: Seq<char>,
    pub got_color: Color,
}

/// What the panes show of the selected sample.
pub open spec fn full_texts(a: AppView, p: ProblemView) -> FullTexts {
    let i = samples::selected_index(a);
    match samples::sample_at(p, i) {
        None => FullTexts {
            expected: Seq::empty(),
            got: Seq::empty(),
            got_label: "Got"@,
            got_color: MUTED,
        },
        Some(tc) => match samples::verdict_at(a, i) {
            Some(VerdictView::Fail { got, ms }) => FullTexts {
                expected: tc.expected_output,
                got,
                got_label: "Got"@,
                got_color: FAIL,
            },
            Some(VerdictView::Pass { ms }) => FullTexts {
                expected: tc.expected_output,
                got: tc.expected_output,
                got_label: "Got (PASS in "@ + number::decimal(ms as nat) + " ms)"@,
                got_color: SUCCESS,
            },
            Some(VerdictView::Tle) => FullTexts {
                expected: tc.expected_output,
                got: Seq::empty(),
                got_label: "Got (TLE > "@ + number::decimal(p.time_limit_ms as nat) + " ms)"@,
                got_color: TERTIARY,
            },
            Some(VerdictView::Rte { stderr, code }) => FullTexts {
                expected: tc.expected_output,
                got: stderr,
                got_label: match code {
                    Some(c) => "Got (RTE exit "@ + number::decimal_int(c as int) + ") — stderr"@,
                    None => "Got (RTE signal) — stderr"@,
                },
                got_color: SECONDARY,
            },
            None => FullTexts {
                expected: tc.expected_output,
                got: Seq::empty(),
                got_label: "Got (awaiting run…)"@,
                got_color: MUTED,
            },
        },
    }
}

struct Texts {
    expected: String,
    got: String,
    got_label: String,
    got_color: Color,
}

/// What the panes show of the selected sample.
fn full_texts_of(a: &App, p: &Problem) -> (r: Texts)
    ensures
        r.expected@ == full_texts(a@, p@).expected,
        r.got@ == full_texts(a@, p@).got,
        r.got_label@ == full_texts(a@, p@).got_label,
        r.got_color == full_texts(a@, p@).got_color,
{
    let i: usize = match a.results_selected.selected {
        Some(i) => i,
        None => 0,
    };
    proof {
        assert(p@.test_cases.len() == p.test_cases@.len());
        assert(a@.results.len() == a.results@.len());
    }
    if i >= p.test_cases.len() {
        return Texts {
            expected: String::new(),
            got: String::new(),
            got_label: "Got".to_string(),
            got_color: MUTED,
        };
    }
    let expected = p.test_cases[i].expected_output.clone();
    proof {
        assert(p@.test_cases[i as int] == p.test_cases@[i as int]@);
    }
    if i < a.results.len() {
        proof {
            assert(a@.results[i as int] == app::slot_view(a.results@[i as int]));
        }
        match &a.results[i] {
            Some(Verdict::Fail { got, ms: _ }) => {
                return Texts {
                    expected,
                    got: got.clone(),
                    got_label: "Got".to_string(),
                    got_color: FAIL,
                };
            },
            Some(Verdict::Pass { ms }) => {
                let mut got_label = "Got (PASS in ".to_string();
                push_decimal(&mut got_label, *ms);
                got_label.append(" ms)");
                let got = expected.clone();
                return Texts { expected, got, got_label, got_color: SUCCESS };
            },
            Some(Verdict::Tle) => {
                let mut got_label = "Got (TLE > ".to_string();
                push_decimal(&mut got_label, p.time_limit_ms);
                got_label.append(" ms)");
                return Texts { expected, got: String::new(), got_label, got_color: TERTIARY };
            },
            Some(Verdict::Rte { stderr, code }) => {
                let got_label = match code {
                    Some(c) => {
                        let mut t = "Got (RTE exit ".to_string();
                        t.append(decimal_i32_text(*c).as_str());
                        t.append(") — stderr");
                        t
                    },
                    None => "Got (RTE signal) — stderr".to_string(),
                };
                return Texts { expected, got: stderr.clone(), got_label, got_color: SECONDARY };
            },
            None => {},
        }
    }
    Texts {
        expected,
        got: String::new(),
        got_label: "Got (awaiting run…)".to_string(),
        got_color: MUTED,
    }
}

/// The larger of two numbers.
pub open spec fn larger(a: nat, b: nat) -> nat {
    if a >= b {
        a
    } else {
        b
    }
}

/// The smaller of two numbers.
pub open spec fn smaller(a: nat, b: nat) -> nat {
    if a <= b {
        a
    } else {
        b
    }
}

/// The rows for text in a pane: without its border and the line below the text.
pub open spec fn viewport(area: Rect) -> nat {
    dashboard::less(dashboard::less(area.height as nat, 2), 1)
}

/// The last offset that still fills the rows for text, if there are so many lines.
pub open spec fn max_offset(total: nat, rows: nat) -> nat {
    dashboard::less(total, larger(rows, 1))
}

/// How far the text is scrolled, in percent.
pub open spec fn percent(offset: nat, total: nat, rows: nat) -> nat {
    if total == 0 {
        100
    } else {
        let end = larger(dashboard::less(total, rows), 1);
        smaller((smaller(offset, end) * 100) / end, 100)
    }
}

/// A line of a pane.
pub open spec fn pane_line(line: Seq<char>, width: nat, color: Color) -> Seq<SpanView> {
    seq![screen::sp(" "@ + text::truncated(line, dashboard::less(width, 1)), tint(color))]
}

/// How many of `len` lines are on screen from `offset` on.
pub open spec fn visible(len: nat, offset: nat, rows: nat) -> nat {
    smaller(dashboard::less(len, offset), rows)
}

/// The lines of a pane that are on screen.
pub open spec fn pane_lines(
    lines: Seq<Seq<char>>,
    offset: nat,
    rows: nat,
    width: nat,
    color: Color,
) -> Seq<Seq<SpanView>> {
    if lines.len() == 0 {
        seq![seq![screen::sp("  (empty)"@, tint(MUTED))]]
    } else {
        Seq::new(
            visible(lines.len(), offset, rows),
            |i: int| pane_line(lines[offset + i], width, color),
        )
    }
}

/// A pane: its frame, the lines on screen, and how far they are scrolled.
pub open spec fn pane(
    areas: PaneAreas,
    title: Seq<char>,
    lines: Seq<Seq<char>>,
    offset: nat,
    rows: nat,
    color: Color,
    total: nat,
) -> Seq<DrawView> {
    seq![
        screen::at(
            areas.area,
            WidgetView::Frame { block: screen::framed(title, PRIMARY, TERTIARY) },
        ),
        screen::at(
            areas.body,
            screen::paragraph(
                pane_lines(
                    lines,
                    offset,
                    rows,
                    dashboard::less(layout::bordered(areas.area).width as nat, 2),
                    color,
                ),
                Align::Left,
            ),
        ),
        screen::at(
            areas.footer,
            screen::paragraph(
                seq![
                    seq![
                        screen::sp(
                            "-- "@ + number::decimal(percent(offset, total, rows)) + "% --"@,
                            tint(MUTED),
                        ),
                    ],
                ],
                Align::Center,
            ),
        ),
    ]
}

/// How far the text is scrolled, in percent.
fn percent_of(offset: usize, total: usize, rows: usize) -> (r: usize)
    requires
        smaller(offset as nat, larger(dashboard::less(total as nat, rows as nat), 1)) * 100
            <= usize::MAX,
    ensures
        r == percent(offset as nat, total as nat, rows as nat),
{
    if total == 0 {
        100
    } else {
        let left: usize = total.saturating_sub(rows);
        let end: usize = if left > 1 {
            left
        } else {
            1
        };
        let reached: usize = if offset < end {
            offset
        } else {
            end
        };
        let value: usize = (reached * 100) / end;
        if value < 100 {
            value
        } else {
            100
        }
    }
}

/// A pane: its frame, the lines on screen, and how far they are scrolled.
pub fn render_full_diff_pane(
    areas: PaneAreas,
    title: &str,
    lines: &Vec<String>,
    offset: usize,
    viewport_h: usize,
    body_color: Color,
    total_lines: usize,
) -> (r: Vec<Draw>)
    requires
        smaller(
            offset as nat,
            larger(dashboard::less(total_lines as nat, viewport_h as nat), 1),
        ) * 100 <= usize::MAX,
    ensures
        screen::draws_view(r@) == pane(
            areas,
            title@,
            text::texts(lines@),
            offset as nat,
            viewport_h as nat,
            body_color,
            total_lines as nat,
        ),
{
    let inner = inside_border(areas.area);
    let width: usize = inner.width.saturating_sub(2) as usize;
    let ghost all = text::texts(lines@);
    let ghost wanted = pane_lines(
        all,
        offset as nat,
        viewport_h as nat,
        width as nat,
        body_color,
    );
    let mut rendered = no_lines();
    proof {
        assert(all.len() == lines@.len());
    }
    let len: usize = lines.len();
    if len == 0 {
        add_text(&mut rendered, "  (empty)", tint(MUTED));
    } else {
        let left: usize = len.saturating_sub(offset);
        let count: usize = if left < viewport_h {
            left
        } else {
            viewport_h
        };
        let mut i: usize = 0;
        proof {
            assert(wanted.take(0) =~= Seq::empty());
        }
        while i < count
            invariant
                i <= count,
                count == visible(all.len(), offset as nat, viewport_h as nat),
                all == text::texts(lines@),
                all.len() == lines@.len() == len,
                all.len() > 0,
                wanted == pane_lines(
                    all,
                    offset as nat,
                    viewport_h as nat,
                    width as nat,
                    body_color,
                ),
                screen::lines_view(rendered@) == wanted.take(i as int),
            decreases count - i,
        {
            let mut t = " ".to_string();
            t.append(truncate(lines[offset + i].as_str(), width.saturating_sub(1)).as_str());
            add_text(&mut rendered, t.as_str(), tint(body_color));
            proof {
                assert(all[offset + i] == lines@[offset + i]@);
                assert(wanted[i as int] == pane_line(all[offset + i], width as nat, body_color));
                assert(wanted.take(i + 1) =~= wanted.take(i as int).push(wanted[i as int]));
            }
            i += 1;
        }
        proof {
            assert(wanted.take(count as int) =~= wanted);
        }
    }
    let mut t = "-- ".to_string();
    push_decimal(&mut t, percent_of(offset, total_lines, viewport_h) as u64);
    t.append("% --");
    let mut indicator = no_lines();
    add_text(&mut indicator, t.as_str(), tint(MUTED));
    let mut draws = no_draws();
    let block = frame(title, PRIMARY, TERTIARY);
    draw(&mut draws, areas.area, Widget::Frame { block });
    draw(&mut draws, areas.body, lines_widget(rendered, Align::Left));
    draw(&mut draws, areas.footer, lines_widget(indicator, Align::Center));
    draws
}

/// How many lines the longer of the two texts has.
pub open spec fn total_lines(t: FullTexts) -> nat {
    larger(output::normalized(t.expected).len(), output::normalized(t.got).len())
}

/// The offset once the panes are shown: as it was, or the last one that makes sense.
pub open spec fn shown_offset(a: AppView, p: ProblemView, right: Rect) -> u16 {
    let most = max_offset(total_lines(full_texts(a, p)), viewport(right));
    if a.diff_offset > most {
        most as u16
    } else {
        a.diff_offset
    }
}

/// The full view of the selected sample.
pub open spec fn full_panel(a: AppView, p: ProblemView, left: PaneAreas, right: PaneAreas) -> Seq<
    DrawView,
> {
    let t = full_texts(a, p);
    let total = total_lines(t);
    let rows = viewport(right.area);
    let offset = shown_offset(a, p, right.area) as nat;
    pane(left, " Expected "@, output::normalized(t.expected), offset, rows, SUCCESS, total) + pane(
        right,
        " "@ + t.got_label + " "@,
        output::normalized(t.got),
        offset,
        rows,
        t.got_color,
        total,
    )
}

/// The full view of the selected sample. From now on it is not scrolled beyond its end.
pub fn render_full_diff(a: &mut App, left: PaneAreas, right: PaneAreas) -> (r: Vec<Draw>)
    requires
        old(a).problem is Some,
    ensures
        screen::draws_view(r@) == full_panel(old(a)@, old(a)@.problem->0, left, right),
        final(a)@ == (AppView {
            diff_offset: shown_offset(old(a)@, old(a)@.problem->0, right.area),
            ..old(a)@
        }),
{
    let mut draws = no_draws();
    if let Some(p) = &a.problem {
        let t = full_texts_of(a, p);
        let ghost texts = full_texts(a@, p@);
        let expected_lines = normalize_output(t.expected.as_str());
        let got_lines = normalize_output(t.got.as_str());
        proof {
            assert(output::normalized(texts.expected).len() == expected_lines@.len());
            assert(output::normalized(texts.got).len() == got_lines@.len());
        }
        let total: usize = if expected_lines.len() >= got_lines.len() {
            expected_lines.len()
        } else {
            got_lines.len()
        };
        let rows: usize = right.area.height.saturating_sub(2).saturating_sub(1) as usize;
        let filled: usize = if rows >= 1 {
            rows
        } else {
            1
        };
        let most: usize = total.saturating_sub(filled);
        let offset: u16 = if a.diff_offset as usize > most {
            most as u16
        } else {
            a.diff_offset
        };
        let mut title = " ".to_string();
        title.append(t.got_label.as_str());
        title.append(" ");
        draws = render_full_diff_pane(
            left,
            " Expected ",
            &expected_lines,
            offset as usize,
            rows,
            SUCCESS,
            total,
        );
        let second = render_full_diff_pane(
            right,
            title.as_str(),
            &got_lines,
            offset as usize,
            rows,
            t.got_color,
            total,
        );
        draw_all(&mut draws, second);
        a.diff_offset = offset;
    }
    draws
}

/// The view is never scrolled beyond its end: there is at least one line on screen as long as
/// the longer text has any and there is a row for it, and the last row of text is not above the
/// last row of the pane unless the text begins at the first.
pub proof fn lemma_scrolling_stops_at_the_end(a: AppView, p: ProblemView, right: Rect)
    ensures
        ({
            let total = total_lines(full_texts(a, p));
            let rows = viewport(right);
            let offset = shown_offset(a, p, right);
            &&& offset <= a.diff_offset
            &&& total > 0 ==> offset < total
            &&& offset > 0 && rows > 0 ==> offset + rows <= total
        }),
{
}

/// The percentage goes from 0 to 100, does not fall as the offset grows, and is 100 once the end
/// is on screen.
pub proof fn lemma_percent(offset: nat, more: nat, total: nat, rows: nat)
    requires
        offset <= more,
    ensures
        percent(offset, total, rows) <= percent(more, total, rows) <= 100,
        total > rows ==> percent(0, total, rows) == 0,
        more >= larger(dashboard::less(total, rows), 1) ==> percent(more, total, rows) == 100,
{
    if total > 0 {
        let end = larger(dashboard::less(total, rows), 1);
        let x = smaller(offset, end) * 100;
        let y = smaller(more, end) * 100;
        vstd::arithmetic::div_mod::lemma_div_is_ordered(x as int, y as int, end as int);
        vstd::arithmetic::div_mod::lemma_div_multiples_vanish(100, end as int);
        assert(end * 100 == 100 * end) by (nonlinear_arith);
    }
}

} // verus!
