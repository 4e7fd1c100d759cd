//! The whole screen: where everything goes, and what is drawn there.

use vstd::prelude::*;

use crate::app::{App, AppState, AppView};
use crate::bars;
use crate::bars::{render_bottom_bar, render_top_bar};
use crate::dashboard;
use crate::dashboard::{render_compiling, render_dashboard, render_pushing, DashboardAreas};
use crate::full_view;
use crate::full_view::{render_full_diff, PaneAreas};
use crate::layout;
use crate::layout::{inside_border, split, Axis, Part, Rect};
use crate::samples;
use crate::samples::{render_problem, render_results, ResultAreas};
use crate::screen;
use crate::screen::{draw, draw_all, no_draws, on_backdrop, Draw, DrawView, Widget, WidgetView, TEXT};
use crate::text;
use crate::text::line_count;

verus! {

/// From how many columns on the two panes of the full view stand side by side.
pub const SIDE_BY_SIDE_WIDTH: u16 = 80;

/// The areas between the bars.
#[derive(Debug, Clone, Copy)]
pub enum BodyAreas {
    Dashboard(DashboardAreas),
    Results(ResultAreas),
    Panes { left: PaneAreas, right: PaneAreas },
    /// Not divided.
    Whole,
}

/// The areas of the screen: the bar at the top with its three parts, what is between the bars,
/// and the bar at the bottom.
#[derive(Debug, Clone, Copy)]
pub struct ScreenAreas {
    pub full: Rect,
    pub top: Rect,
    pub main: Rect,
    pub bottom: Rect,
    pub top_left: Rect,
    pub top_center: Rect,
    pub top_right: Rect,
    pub body: BodyAreas,
}

/// The rows that the message of a failed push takes, with a border, counted in 16 bits.
pub open spec fn message_rows(message: Seq<char>) -> nat {
    text::text_lines(message).len() % 0x1_0000 + 2
}

/// The height of the banner about a failed push: room for the message, but no more than half of
/// the height there is, and no less than three rows.
pub open spec fn banner_height(message: Seq<char>, height: u16) -> u16 {
    let rows = message_rows(message);
    let half = (height / 2) as nat;
    let most = if rows < half {
        rows
    } else {
        half
    };
    if most > 3 {
        most as u16
    } else {
        3
    }
}

/// Whether the verdicts of a run are on screen.
pub open spec fn shows_results(a: AppView) -> bool {
    (a.state == AppState::Testing || a.state == AppState::Review) && a.problem is Some
}

/// Whether the rows of the message of a failed push can be counted.
pub open spec fn message_fits(a: AppView) -> bool {
    a.push_error matches Some(message) ==> message_rows(message) <= u16::MAX
}

/// Whether the rows of the message of a failed push can be counted where they have to be: with
/// the verdicts on screen.
pub open spec fn banner_fits(a: AppView) -> bool {
    shows_results(a) ==> message_fits(a)
}

/// Whether the rows of the message of a failed push can be counted where they have to be.
pub fn banner_can_be_laid_out(a: &App) -> (r: bool)
    ensures
        r == banner_fits(a@),
{
    if (a.state == AppState::Testing || a.state == AppState::Review) && a.problem.is_some() {
        match &a.push_error {
            Some(message) => line_count(message.as_str()) % 0x1_0000 <= 65533,
            None => true,
        }
    } else {
        true
    }
}

/// Whether `areas` can come of laying out the dashboard.
pub open spec fn is_dashboard(main: Rect, areas: DashboardAreas) -> bool {
    &&& layout::is_split(
        main,
        Axis::Horizontal,
        seq![Part::Percentage(40), Part::Percentage(60)],
        seq![areas.logo, areas.side],
    )
    &&& layout::is_split(
        areas.side,
        Axis::Vertical,
        seq![Part::Percentage(45), Part::Percentage(55)],
        seq![areas.analytics, areas.recs],
    )
}

/// Whether `areas` can come of laying out the verdicts.
pub open spec fn is_results(a: AppView, main: Rect, areas: ResultAreas) -> bool {
    &&& match a.push_error {
        Some(message) => {
            &&& areas.banner is Some
            &&& layout::is_split(
                main,
                Axis::Vertical,
                seq![Part::Length(banner_height(message, main.height)), Part::Min(0)],
                seq![areas.banner->0, areas.body],
            )
        },
        None => areas.banner is None && areas.body == main,
    }
    &&& layout::is_split(
        areas.body,
        Axis::Horizontal,
        seq![Part::Percentage(50), Part::Percentage(50)],
        seq![areas.list, areas.detail],
    )
}

/// Whether `areas` can come of laying out a pane of the full view.
pub open spec fn is_pane(areas: PaneAreas) -> bool {
    layout::is_split(
        layout::bordered(areas.area),
        Axis::Vertical,
        seq![Part::Min(0), Part::Length(1)],
        seq![areas.body, areas.footer],
    )
}

/// How the panes of the full view stand: beside each other where there is room, else one above
/// the other.
pub open spec fn pane_axis(main: Rect) -> Axis {
    if main.width < SIDE_BY_SIDE_WIDTH {
        Axis::Vertical
    } else {
        Axis::Horizontal
    }
}

/// Whether `areas` can come of laying out what is between the bars.
pub open spec fn is_body(a: AppView, main: Rect, areas: BodyAreas) -> bool {
    match a.state {
        AppState::Idle => areas matches BodyAreas::Dashboard(d) && is_dashboard(main, d),
        AppState::Testing | AppState::Review => if a.problem is Some {
            areas matches BodyAreas::Results(r) && is_results(a, main, r)
        } else {
            areas is Whole
        },
        AppState::FullDiff => if a.problem is Some {
            &&& areas matches BodyAreas::Panes { left, right }
            &&& layout::is_split(
                main,
                pane_axis(main),
                seq![Part::Percentage(50), Part::Percentage(50)],
                seq![left.area, right.area],
            )
            &&& is_pane(left)
            &&& is_pane(right)
        } else {
            areas is Whole
        },
        _ => areas is Whole,
    }
}

/// Whether `areas` can come of laying out the screen.
pub open spec fn is_layout(a: AppView, area: Rect, areas: ScreenAreas) -> bool {
    &&& areas.full == area
    &&& layout::is_split(
        area,
        Axis::Vertical,
        seq![Part::Length(1), Part::Min(0), Part::Length(1)],
        seq![areas.top, areas.main, areas.bottom],
    )
    &&& layout::is_split(
        areas.top,
        Axis::Horizontal,
        seq![Part::Length(10), Part::Min(0), Part::Length(28)],
        seq![areas.top_left, areas.top_center, areas.top_right],
    )
    &&& is_body(a, areas.main, areas.body)
}

/// Divides an area in two.
fn split_in_two(area: Rect, axis: Axis, first: Part, second: Part) -> (r: (Rect, Rect))
    ensures
        layout::is_split(area, axis, seq![first, second], seq![r.0, r.1]),
{
    let mut parts: Vec<Part> = Vec::new();
    parts.push(first);
    parts.push(second);
    let pieces = split(area, axis, &parts);
    proof {
        assert(parts@ =~= seq![first, second]);
        assert(pieces@ =~= seq![pieces@[0], pieces@[1]]);
    }
    (pieces[0], pieces[1])
}

/// Divides an area in three.
fn split_in_three(area: Rect, axis: Axis, first: Part, second: Part, third: Part) -> (r: (
    Rect,
    Rect,
    Rect,
))
    ensures
        layout::is_split(area, axis, seq![first, second, third], seq![r.0, r.1, r.2]),
{
    let mut parts: Vec<Part> = Vec::new();
    parts.push(first);
    parts.push(second);
    parts.push(third);
    let pieces = split(area, axis, &parts);
    proof {
        assert(parts@ =~= seq![first, second, third]);
        assert(pieces@ =~= seq![pieces@[0], pieces@[1], pieces@[2]]);
    }
    (pieces[0], pieces[1], pieces[2])
}

/// Lays out the verdicts.
fn lay_out_results(a: &App, main: Rect) -> (r: ResultAreas)
    requires
        message_fits(a@),
    ensures
        is_results(a@, main, r),
{
    let (banner, body): (Option<Rect>, Rect) = match &a.push_error {
        Some(message) => {
            let rows: u16 = (line_count(message.as_str()) % 0x1_0000) as u16 + 2;
            let half: u16 = main.height / 2;
            let most: u16 = if rows < half {
                rows
            } else {
                half
            };
            let height: u16 = if most > 3 {
                most
            } else {
                3
            };
            let (top, rest) = split_in_two(
                main,
                Axis::Vertical,
                Part::Length(height),
                Part::Min(0),
            );
            (Some(top), rest)
        },
        None => (None, main),
    };
    let (list, detail) = split_in_two(
        body,
        Axis::Horizontal,
        Part::Percentage(50),
        Part::Percentage(50),
    );
    ResultAreas { banner, body, list, detail }
}

/// Lays out a pane of the full view.
fn lay_out_pane(area: Rect) -> (r: PaneAreas)
    ensures
        r.area == area,
        is_pane(r),
{
    let (body, footer) = split_in_two(
        inside_border(area),
        Axis::Vertical,
        Part::Min(0),
        Part::Length(1),
    );
    PaneAreas { area, body, footer }
}

/// Lays out what is between the bars.
fn lay_out_body(a: &App, main: Rect) -> (r: BodyAreas)
    requires
        banner_fits(a@),
    ensures
        is_body(a@, main, r),
{
    match a.state {
        AppState::Idle => {
            let (logo, side) = split_in_two(
                main,
                Axis::Horizontal,
                Part::Percentage(40),
                Part::Percentage(60),
            );
            let (analytics, recs) = split_in_two(
                side,
                Axis::Vertical,
                Part::Percentage(45),
                Part::Percentage(55),
            );
            BodyAreas::Dashboard(DashboardAreas { logo, side, analytics, recs })
        },
        AppState::Testing | AppState::Review => if a.problem.is_some() {
            BodyAreas::Results(lay_out_results(a, main))
        } else {
            BodyAreas::Whole
        },
        AppState::FullDiff => if a.problem.is_some() {
            let axis = if main.width < SIDE_BY_SIDE_WIDTH {
                Axis::Vertical
            } else {
                Axis::Horizontal
            };
            let (left, right) = split_in_two(
                main,
                axis,
                Part::Percentage(50),
                Part::Percentage(50),
            );
            BodyAreas::Panes { left: lay_out_pane(left), right: lay_out_pane(right) }
        } else {
            BodyAreas::Whole
        },
        AppState::Loaded | AppState::Compiling | AppState::GitSyncing => BodyAreas::Whole,
    }
}

/// Lays out the screen.
pub fn lay_out(a: &App, area: Rect) -> (r: ScreenAreas)
    requires
        banner_fits(a@),
    ensures
        is_layout(a@, area, r),
{
    let (top, main, bottom) = split_in_three(
        area,
        Axis::Vertical,
        Part::Length(1),
        Part::Min(0),
        Part::Length(1),
    );
    let (top_left, top_center, top_right) = split_in_three(
        top,
        Axis::Horizontal,
        Part::Length(10),
        Part::Min(0),
        Part::Length(28),
    );
    let body = lay_out_body(a, main);
    ScreenAreas { full: area, top, main, bottom, top_left, top_center, top_right, body }
}

/// What is drawn between the bars.
pub open spec fn body_draws(a: AppView, main: Rect, body: BodyAreas) -> Seq<DrawView> {
    match a.state {
        AppState::Idle => match body {
            BodyAreas::Dashboard(d) => dashboard::dashboard_panels(a, d),
            _ => Seq::empty(),
        },
        AppState::Loaded => match a.problem {
            Some(p) => seq![samples::problem_panel(p, main)],
            None => Seq::empty(),
        },
        AppState::Compiling => seq![
            dashboard::centered_lines(dashboard::compiling_lines(a), main),
        ],
        AppState::GitSyncing => seq![dashboard::centered_lines(dashboard::pushing_lines(a), main)],
        AppState::Testing | AppState::Review => match (a.problem, body) {
            (Some(p), BodyAreas::Results(r)) => samples::results_panel(a, p, r),
            _ => Seq::empty(),
        },
        AppState::FullDiff => match (a.problem, body) {
            (Some(p), BodyAreas::Panes { left, right }) => full_view::full_panel(a, p, left, right),
            _ => Seq::empty(),
        },
    }
}

/// The state once the screen is drawn: the cursor of a list that is on screen is on an item of
/// it, and the full view is not scrolled beyond its end.
pub open spec fn shown(a: AppView, body: BodyAreas) -> AppView {
    match a.state {
        AppState::Idle => match body {
            BodyAreas::Dashboard(_) => AppView {
                recs_selected: dashboard::shown_recs_cursor(a),
                ..a
            },
            _ => a,
        },
        AppState::Testing | AppState::Review => match (a.problem, body) {
            (Some(_), BodyAreas::Results(_)) => samples::shown_results(a),
            _ => a,
        },
        AppState::FullDiff => match (a.problem, body) {
            (Some(p), BodyAreas::Panes { left, right }) => AppView {
                diff_offset: full_view::shown_offset(a, p, right.area),
                ..a
            },
            _ => a,
        },
        _ => a,
    }
}

/// What is drawn on the screen: first its background, then the bar at the top, what is between
/// the bars, and the bar at the bottom.
pub open spec fn screen_draws(a: AppView, areas: ScreenAreas, now: u64) -> Seq<DrawView> {
    seq![screen::at(areas.full, WidgetView::Fill { style: on_backdrop(TEXT) })] + bars::top_bar(
        a,
        areas.top,
        areas.top_left,
        areas.top_center,
        areas.top_right,
        now,
    ) + body_draws(a, areas.main, areas.body) + bars::bottom_bar(a.state, areas.bottom)
}

/// Whether what is drawn in the middle of an area has a place there.
pub open spec fn can_center(a: AppView, main: Rect, body: BodyAreas) -> bool {
    match a.state {
        AppState::Idle => body matches BodyAreas::Dashboard(d) ==> layout::can_center(
            d.logo,
            dashboard::logo_lines().len() as u16,
        ),
        AppState::Compiling => layout::can_center(
            main,
            dashboard::compiling_lines(a).len() as u16,
        ),
        AppState::GitSyncing => layout::can_center(main, dashboard::pushing_lines(a).len() as u16),
        _ => true,
    }
}

/// Draws what is between the bars.
fn compose_body(a: &mut App, main: Rect, body: BodyAreas) -> (r: Vec<Draw>)
    requires
        can_center(old(a)@, main, body),
    ensures
        screen::draws_view(r@) == body_draws(old(a)@, main, body),
        final(a)@ == shown(old(a)@, body),
{
    match a.state {
        AppState::Idle => {
            if let BodyAreas::Dashboard(d) = body {
                return render_dashboard(a, d);
            }
        },
        AppState::Loaded => {
            if let Some(p) = &a.problem {
                return render_problem(p, main);
            }
        },
        AppState::Compiling => {
            return render_compiling(a, main);
        },
        AppState::GitSyncing => {
            return render_pushing(a, main);
        },
        AppState::Testing | AppState::Review => {
            if let BodyAreas::Results(r) = body {
                if a.problem.is_some() {
                    return render_results(a, r);
                }
            }
        },
        AppState::FullDiff => {
            if let BodyAreas::Panes { left, right } = body {
                if a.problem.is_some() {
                    return render_full_diff(a, left, right);
                }
            }
        },
    }
    no_draws()
}

/// Draws the screen into areas that are given.
pub fn compose(a: &mut App, areas: ScreenAreas, now: u64) -> (r: Vec<Draw>)
    requires
        can_center(old(a)@, areas.main, areas.body),
    ensures
        screen::draws_view(r@) == screen_draws(old(a)@, areas, now),
        final(a)@ == shown(old(a)@, areas.body),
{
    let state = a.state;
    let ghost before = a@;
    let mut draws = no_draws();
    draw(&mut draws, areas.full, Widget::Fill { style: on_backdrop(TEXT) });
    let top = render_top_bar(
        a,
        areas.top,
        areas.top_left,
        areas.top_center,
        areas.top_right,
        now,
    );
    draw_all(&mut draws, top);
    let body = compose_body(a, areas.main, areas.body);
    draw_all(&mut draws, body);
    let bottom = render_bottom_bar(state, areas.bottom);
    draw_all(&mut draws, bottom);
    proof {
        assert(screen::draws_view(draws@) =~= screen_draws(before, areas, now));
    }
    draws
}

/// Lays out the screen and draws it.
pub fn ui(a: &mut App, area: Rect, now: u64) -> (r: Vec<Draw>)
    requires
        banner_fits(old(a)@),
    ensures
        exists|areas: ScreenAreas|
            {
                &&& #[trigger] is_layout(old(a)@, area, areas)
                &&& screen::draws_view(r@) == screen_draws(old(a)@, areas, now)
                &&& final(a)@ == shown(old(a)@, areas.body)
            },
{
    let areas = lay_out(a, area);
    let ghost before = a@;
    proof {
        lemma_pieces_can_center(before, area, areas);
    }
    let draws = compose(a, areas, now);
    proof {
        assert(is_layout(before, area, areas));
    }
    draws
}

/// Whatever the screen, what is drawn in the middle of an area of it has a place there.
proof fn lemma_pieces_can_center(a: AppView, area: Rect, areas: ScreenAreas)
    requires
        is_layout(a, area, areas),
    ensures
        can_center(a, areas.main, areas.body),
{
    let three = seq![areas.top, areas.main, areas.bottom];
    assert(three[1] == areas.main);
    if let BodyAreas::Dashboard(d) = areas.body {
        let two = seq![d.logo, d.side];
        assert(two[0] == d.logo);
    }
}

/// Drawing keeps the state well-formed.
pub proof fn lemma_drawing_keeps_wf(a: AppView, body: BodyAreas)
    requires
        a.wf(),
    ensures
        shown(a, body).wf(),
{
}

/// Drawing once more into the same areas draws the same and changes nothing: all that drawing
/// changes is settled by the first time.
pub proof fn lemma_drawing_settles(a: AppView, areas: ScreenAreas, now: u64)
    ensures
        shown(shown(a, areas.body), areas.body) == shown(a, areas.body),
        screen_draws(shown(a, areas.body), areas, now) == screen_draws(a, areas, now),
{
}

/// Whether all that is drawn lies within `area`.
pub open spec fn all_within(draws: Seq<DrawView>, area: Rect) -> bool {
    forall|i: int| 0 <= i < draws.len() ==> (#[trigger] draws[i]).area.within(area)
}

/// The two pieces of an area lie within it.
proof fn lemma_two_pieces(area: Rect, axis: Axis, parts: Seq<Part>, first: Rect, second: Rect)
    requires
        layout::is_split(area, axis, parts, seq![first, second]),
    ensures
        first.within(area),
        second.within(area),
{
    let pieces = seq![first, second];
    layout::lemma_pieces_are_within(area, axis, parts, pieces);
    assert(pieces[0] == first);
    assert(pieces[1] == second);
}

/// The three pieces of an area lie within it.
proof fn lemma_three_pieces(
    area: Rect,
    axis: Axis,
    parts: Seq<Part>,
    first: Rect,
    second: Rect,
    third: Rect,
)
    requires
        layout::is_split(area, axis, parts, seq![first, second, third]),
    ensures
        first.within(area),
        second.within(area),
        third.within(area),
{
    let pieces = seq![first, second, third];
    layout::lemma_pieces_are_within(area, axis, parts, pieces);
    assert(pieces[0] == first);
    assert(pieces[1] == second);
    assert(pieces[2] == third);
}

/// The areas of a pane of the full view lie within it.
proof fn lemma_pane_is_within(areas: PaneAreas)
    requires
        is_pane(areas),
    ensures
        areas.body.within(areas.area),
        areas.footer.within(areas.area),
{
    layout::lemma_inside_is_within(areas.area);
    lemma_two_pieces(
        layout::bordered(areas.area),
        Axis::Vertical,
        seq![Part::Min(0), Part::Length(1)],
        areas.body,
        areas.footer,
    );
}

/// What is drawn between the bars lies between them.
proof fn lemma_body_is_within(a: AppView, main: Rect, body: BodyAreas)
    requires
        main.y + main.height <= u16::MAX,
        is_body(a, main, body),
    ensures
        all_within(body_draws(a, main, body), main),
{
    match a.state {
        AppState::Idle => {
            let d = body->Dashboard_0;
            lemma_two_pieces(
                main,
                Axis::Horizontal,
                seq![Part::Percentage(40), Part::Percentage(60)],
                d.logo,
                d.side,
            );
            lemma_two_pieces(
                d.side,
                Axis::Vertical,
                seq![Part::Percentage(45), Part::Percentage(55)],
                d.analytics,
                d.recs,
            );
            layout::lemma_centered_is_in_the_middle(
                d.logo,
                dashboard::logo_lines().len() as u16,
            );
        },
        AppState::Loaded => {},
        AppState::Compiling => {
            layout::lemma_centered_is_in_the_middle(
                main,
                dashboard::compiling_lines(a).len() as u16,
            );
        },
        AppState::GitSyncing => {
            layout::lemma_centered_is_in_the_middle(main, dashboard::pushing_lines(a).len() as u16);
        },
        AppState::Testing | AppState::Review => if a.problem is Some {
            let r = body->Results_0;
            if let Some(message) = a.push_error {
                lemma_two_pieces(
                    main,
                    Axis::Vertical,
                    seq![Part::Length(banner_height(message, main.height)), Part::Min(0)],
                    r.banner->0,
                    r.body,
                );
            }
            lemma_two_pieces(
                r.body,
                Axis::Horizontal,
                seq![Part::Percentage(50), Part::Percentage(50)],
                r.list,
                r.detail,
            );
            layout::lemma_inside_is_within(r.detail);
        },
        AppState::FullDiff => if a.problem is Some {
            let (left, right) = (body->left, body->right);
            lemma_two_pieces(
                main,
                pane_axis(main),
                seq![Part::Percentage(50), Part::Percentage(50)],
                left.area,
                right.area,
            );
            lemma_pane_is_within(left);
            lemma_pane_is_within(right);
        },
    }
}

/// Everything is drawn within the screen, on a background that covers all of it.
pub proof fn lemma_everything_is_on_screen(
    a: AppView,
    area: Rect,
    areas: ScreenAreas,
    now: u64,
)
    requires
        is_layout(a, area, areas),
    ensures
        all_within(screen_draws(a, areas, now), area),
        screen_draws(a, areas, now)[0] == screen::at(
            area,
            WidgetView::Fill { style: on_backdrop(TEXT) },
        ),
{
    lemma_three_pieces(
        area,
        Axis::Vertical,
        seq![Part::Length(1), Part::Min(0), Part::Length(1)],
        areas.top,
        areas.main,
        areas.bottom,
    );
    lemma_three_pieces(
        areas.top,
        Axis::Horizontal,
        seq![Part::Length(10), Part::Min(0), Part::Length(28)],
        areas.top_left,
        areas.top_center,
        areas.top_right,
    );
    lemma_body_is_within(a, areas.main, areas.body);
}

} // verus!
