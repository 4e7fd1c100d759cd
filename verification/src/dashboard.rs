//! The dashboard: the logo, the analytics and the recommendations; and the panels that are shown
//! while something is under way.

use vstd::prelude::*;

use crate::app::{App, AppView, RecsState, RecsView, Selection};
use crate::bars;
use crate::bars::spinner_text;
use crate::layout;
use crate::layout::{center_vertically, Rect};
use crate::number;
use crate::number::{decimal_i32_text, pad_front_text};
use crate::recommend;
use crate::recommend::{Recommendation, RecommendationView};
use crate::screen;
use crate::screen::{
    add_blank, add_item, add_line, add_text, blank_line, cursor_list_widget, draw, draw_all,
    frame, framed_widget, label, lines_widget, no_draws, no_items, no_lines, plain, span, strong,
    tint, Align, BlockView, Color, CursorOf, Draw, DrawView, Line, SpanView, FAIL, MUTED, PRIMARY,
    SECONDARY, SUCCESS, TERTIARY, TEXT,
};
use crate::text;
use crate::text::{join_texts, lines_of, truncate};

verus! {

/// The logo.
pub const RUNE_LOGO: &'static str = "██████  ██   ██  ██████  ██████
██   ██  ██ ██   ██      ██   ██
██████    ███    ██████  ██████
██   ██  ██ ██   ██      ██ ██
██████  ██   ██  ██████  ██  ██ ";

/// The version and its name.
pub const VERSION_LINE: &'static str = "v0.1.0  ·  'Ingestion Bridge'";

/// Each of some texts as a line in one style.
pub open spec fn styled_lines(list: Seq<Seq<char>>, style: screen::Style) -> Seq<Seq<SpanView>> {
    Seq::new(list.len(), |i: int| seq![screen::sp(list[i], style)])
}

/// Appends each of some texts as a line in one style.
pub fn add_styled_lines(lines: &mut Vec<Line>, list: &Vec<String>, style: screen::Style)
    ensures
        screen::lines_view(final(lines)@) == screen::lines_view(old(lines)@) + styled_lines(
            text::texts(list@),
            style,
        ),
{
    let ghost had = screen::lines_view(lines@);
    let ghost all = styled_lines(text::texts(list@), style);
    let mut i: usize = 0;
    proof {
        assert(had =~= had + all.take(0));
    }
    while i < list.len()
        invariant
            i <= list.len(),
            all == styled_lines(text::texts(list@), style),
            screen::lines_view(lines@) == had + all.take(i as int),
        decreases list.len() - i,
    {
        add_text(lines, list[i].as_str(), style);
        proof {
            assert(all[i as int] == seq![screen::sp(list@[i as int]@, style)]);
            assert(all.take(i + 1) =~= all.take(i as int).push(all[i as int]));
            assert((had + all.take(i as int)).push(all[i as int]) =~= had + all.take(i + 1));
        }
        i += 1;
    }
    proof {
        assert(all.take(list.len() as int) =~= all);
    }
}

/// The logo, the version, and what the program is.
pub open spec fn logo_lines() -> Seq<Seq<SpanView>> {
    styled_lines(text::text_lines(RUNE_LOGO@), strong(PRIMARY)).push(Seq::empty()).push(
        seq![screen::sp(VERSION_LINE@, strong(SECONDARY))],
    ).push(Seq::empty()).push(
        seq![screen::sp("competitive programming, ergonomic"@, tint(MUTED))],
    )
}

/// Lines in the middle of an area.
pub open spec fn centered_lines(lines: Seq<Seq<SpanView>>, area: Rect) -> DrawView {
    screen::at(
        layout::centered(area, lines.len() as u16),
        screen::paragraph(lines, Align::Center),
    )
}

/// Draws lines in the middle of an area.
fn draw_centered(draws: &mut Vec<Draw>, lines: Vec<Line>, area: Rect)
    requires
        layout::can_center(area, lines@.len() as u16),
    ensures
        screen::draws_view(final(draws)@) == screen::draws_view(old(draws)@).push(
            centered_lines(screen::lines_view(lines@), area),
        ),
{
    proof {
        assert(screen::lines_view(lines@).len() == lines@.len());
    }
    let place = center_vertically(area, lines.len() as u16);
    draw(draws, place, lines_widget(lines, Align::Center));
}

/// The panel with the logo.
pub fn render_logo_panel(area: Rect) -> (r: Vec<Draw>)
    requires
        layout::can_center(area, logo_lines().len() as u16),
    ensures
        screen::draws_view(r@) == seq![centered_lines(logo_lines(), area)],
{
    let mut lines = no_lines();
    let logo = lines_of(RUNE_LOGO);
    add_styled_lines(&mut lines, &logo, strong(PRIMARY));
    proof {
        assert(screen::lines_view(lines@) =~= styled_lines(
            text::text_lines(RUNE_LOGO@),
            strong(PRIMARY),
        ));
    }
    add_blank(&mut lines);
    add_text(&mut lines, VERSION_LINE, strong(SECONDARY));
    add_blank(&mut lines);
    add_text(&mut lines, "competitive programming, ergonomic", tint(MUTED));
    let mut draws = no_draws();
    proof {
        assert(screen::lines_view(lines@).len() == lines@.len());
    }
    draw_centered(&mut draws, lines, area);
    draws
}

/// What is shown while the solution is compiled.
pub open spec fn compiling_lines(a: AppView) -> Seq<Seq<SpanView>> {
    Seq::<Seq<SpanView>>::empty().push(
        seq![
            screen::sp(
                bars::spinner_frame(a.spinner) + "  Compiling solution.cpp"@,
                strong(TERTIARY),
            ),
        ],
    ).push(Seq::empty()).push(seq![screen::sp("g++ -std=c++17 -O2 -Wall"@, tint(MUTED))])
}

/// The panel that is shown while the solution is compiled.
pub fn render_compiling(a: &App, area: Rect) -> (r: Vec<Draw>)
    requires
        layout::can_center(area, compiling_lines(a@).len() as u16),
    ensures
        screen::draws_view(r@) == seq![centered_lines(compiling_lines(a@), area)],
{
    let mut title = spinner_text(a.spinner).to_string();
    title.append("  Compiling solution.cpp");
    let mut lines = no_lines();
    add_text(&mut lines, title.as_str(), strong(TERTIARY));
    add_blank(&mut lines);
    add_text(&mut lines, "g++ -std=c++17 -O2 -Wall", tint(MUTED));
    let mut draws = no_draws();
    proof {
        assert(screen::lines_view(lines@).len() == lines@.len());
    }
    draw_centered(&mut draws, lines, area);
    draws
}

/// What is shown while the workspace is pushed.
pub open spec fn pushing_lines(a: AppView) -> Seq<Seq<SpanView>> {
    Seq::<Seq<SpanView>>::empty().push(
        seq![
            screen::sp(
                bars::spinner_frame(a.spinner) + "  Pushing workspace to GitHub"@,
                strong(PRIMARY),
            ),
        ],
    ).push(Seq::empty()).push(
        seq![screen::sp("git add . → git commit → git push origin main"@, tint(MUTED))],
    )
}

/// The panel that is shown while the workspace is pushed.
pub fn render_pushing(a: &App, area: Rect) -> (r: Vec<Draw>)
    requires
        layout::can_center(area, pushing_lines(a@).len() as u16),
    ensures
        screen::draws_view(r@) == seq![centered_lines(pushing_lines(a@), area)],
{
    let mut title = spinner_text(a.spinner).to_string();
    title.append("  Pushing workspace to GitHub");
    let mut lines = no_lines();
    add_text(&mut lines, title.as_str(), strong(PRIMARY));
    add_blank(&mut lines);
    add_text(&mut lines, "git add . → git commit → git push origin main", tint(MUTED));
    let mut draws = no_draws();
    proof {
        assert(screen::lines_view(lines@).len() == lines@.len());
    }
    draw_centered(&mut draws, lines, area);
    draws
}

/// A weak tag in the analytics.
pub open spec fn tag_line(tag: Seq<char>) -> Seq<SpanView> {
    Seq::<SpanView>::empty().push(screen::sp("  • "@, tint(MUTED))).push(
        screen::sp(tag, tint(TERTIARY)),
    )
}

/// The weak tags, or a hint where there are none.
pub open spec fn tag_lines(tags: Seq<Seq<char>>) -> Seq<Seq<SpanView>> {
    if tags.len() == 0 {
        Seq::<Seq<SpanView>>::empty().push(
            seq![screen::sp("No solve history yet."@, tint(MUTED))],
        ).push(seq![screen::sp("Solve a problem to populate."@, tint(MUTED))])
    } else {
        Seq::new(tags.len(), |i: int| tag_line(tags[i]))
    }
}

/// What the analytics show.
pub open spec fn analytics_lines(a: AppView) -> Seq<Seq<SpanView>> {
    (Seq::<Seq<SpanView>>::empty().push(
        seq![screen::sp("Weak Tags"@, strong(SECONDARY))],
    ).push(Seq::empty()) + tag_lines(a.weak_tags)).push(Seq::empty()).push(
        seq![
            screen::sp(
                match a.user_max_rating {
                    Some(r) => "Max solved rating: "@ + number::decimal_int(r as int),
                    None => "Max solved rating: —"@,
                },
                tint(TEXT),
            ),
        ],
    ).push(
        seq![
            screen::sp(
                match a.cf_handle {
                    Some(handle) => "CF handle: "@ + handle,
                    None => "CF handle: (set in ~/.rune/config.toml)"@,
                },
                tint(MUTED),
            ),
        ],
    )
}

/// The analytics.
pub fn render_analytics_panel(a: &App, area: Rect) -> (r: Vec<Draw>)
    ensures
        screen::draws_view(r@) == seq![
            screen::at(
                area,
                screen::framed_lines(
                    analytics_lines(a@),
                    screen::framed(" Analytics "@, PRIMARY, TERTIARY),
                    true,
                ),
            ),
        ],
{
    let mut lines = no_lines();
    add_text(&mut lines, "Weak Tags", strong(SECONDARY));
    add_blank(&mut lines);
    let ghost head = screen::lines_view(lines@);
    let ghost all = tag_lines(a@.weak_tags);
    if a.weak_tags.len() == 0 {
        add_text(&mut lines, "No solve history yet.", tint(MUTED));
        add_text(&mut lines, "Solve a problem to populate.", tint(MUTED));
        proof {
            assert(a@.weak_tags.len() == 0);
            assert(screen::lines_view(lines@) =~= head + all);
        }
    } else {
        let mut i: usize = 0;
        proof {
            assert(head =~= head + all.take(0));
        }
        while i < a.weak_tags.len()
            invariant
                i <= a.weak_tags.len(),
                a.weak_tags@.len() > 0,
                all == tag_lines(a@.weak_tags),
                screen::lines_view(lines@) == head + all.take(i as int),
            decreases a.weak_tags.len() - i,
        {
            let mut line = blank_line();
            line.add_span(label("  • ", tint(MUTED)));
            line.add_span(label(a.weak_tags[i].as_str(), tint(TERTIARY)));
            proof {
                assert(a@.weak_tags[i as int] == a.weak_tags@[i as int]@);
                assert(all[i as int] == line@);
                assert(all.take(i + 1) =~= all.take(i as int).push(all[i as int]));
                assert((head + all.take(i as int)).push(all[i as int]) =~= head + all.take(i + 1));
            }
            add_line(&mut lines, line);
            i += 1;
        }
        proof {
            assert(all.take(a.weak_tags.len() as int) =~= all);
        }
    }
    add_blank(&mut lines);
    match a.user_max_rating {
        Some(r) => {
            let mut t = "Max solved rating: ".to_string();
            t.append(decimal_i32_text(r).as_str());
            add_text(&mut lines, t.as_str(), tint(TEXT));
        },
        None => {
            add_text(&mut lines, "Max solved rating: —", tint(TEXT));
        },
    }
    match &a.cf_handle {
        Some(handle) => {
            let mut t = "CF handle: ".to_string();
            t.append(handle.as_str());
            add_text(&mut lines, t.as_str(), tint(MUTED));
        },
        None => {
            add_text(&mut lines, "CF handle: (set in ~/.rune/config.toml)", tint(MUTED));
        },
    }
    let mut draws = no_draws();
    let block = frame(" Analytics ", PRIMARY, TERTIARY);
    draw(&mut draws, area, framed_widget(lines, block, true));
    draws
}

/// The color that stands for a rating.
pub open spec fn color_of_rating(rating: Option<i32>) -> Color {
    match rating {
        Some(r) => if r < 1200 {
            MUTED
        } else if r < 1400 {
            SUCCESS
        } else if r < 1600 {
            PRIMARY
        } else if r < 1900 {
            Color::Blue
        } else if r < 2100 {
            SECONDARY
        } else if r < 2400 {
            TERTIARY
        } else {
            FAIL
        },
        None => MUTED,
    }
}

/// The color that stands for a rating.
pub fn rating_color(rating: Option<i32>) -> (r: Color)
    ensures
        r == color_of_rating(rating),
{
    match rating {
        Some(r) => if r < 1200 {
            MUTED
        } else if r < 1400 {
            SUCCESS
        } else if r < 1600 {
            PRIMARY
        } else if r < 1900 {
            Color::Blue
        } else if r < 2100 {
            SECONDARY
        } else if r < 2400 {
            TERTIARY
        } else {
            FAIL
        },
        None => MUTED,
    }
}

/// `width` less `n`, and no less than nothing.
pub open spec fn less(width: nat, n: nat) -> nat {
    if width >= n {
        (width - n) as nat
    } else {
        0
    }
}

/// A recommendation in the list: the rating, the name and the tags, as far as there is room.
pub open spec fn rec_line(rec: RecommendationView, width: nat) -> Seq<SpanView> {
    Seq::<SpanView>::empty().push(screen::sp(" "@, plain())).push(
        screen::sp(
            match rec.rating {
                Some(n) => "["@ + number::pad_front(number::decimal_int(n as int), ' ', 4) + "]"@,
                None => "[ ?  ]"@,
            },
            strong(color_of_rating(rec.rating)),
        ),
    ).push(screen::sp(" "@, plain())).push(
        screen::sp(text::truncated(rec.name, less(width, 12)), strong(TEXT)),
    ).push(
        screen::sp(
            if rec.tags.len() == 0 {
                ""@
            } else {
                " — "@
            },
            tint(MUTED),
        ),
    ).push(
        screen::sp(text::truncated(text::join(rec.tags, ", "@), less(width, 20)), tint(MUTED)),
    )
}

/// A recommendation in the list.
fn rec_line_of(rec: &Recommendation, width: usize) -> (r: Line)
    ensures
        r@ == rec_line(rec@, width as nat),
{
    let mut line = blank_line();
    line.add_span(label(" ", plain()));
    let style = strong(rating_color(rec.rating));
    match rec.rating {
        Some(n) => {
            let mut t = "[".to_string();
            let shown = decimal_i32_text(n);
            t.append(pad_front_text(shown.as_str(), ' ', 4).as_str());
            t.append("]");
            line.add_span(span(t, style));
        },
        None => {
            line.add_span(label("[ ?  ]", style));
        },
    }
    line.add_span(label(" ", plain()));
    line.add_span(span(truncate(rec.name.as_str(), width.saturating_sub(12)), strong(TEXT)));
    proof {
        assert(rec@.tags.len() == rec.tags@.len());
    }
    if rec.tags.len() == 0 {
        line.add_span(label("", tint(MUTED)));
    } else {
        line.add_span(label(" — ", tint(MUTED)));
    }
    let tags = join_texts(&rec.tags, ", ");
    line.add_span(span(truncate(tags.as_str(), width.saturating_sub(20)), tint(MUTED)));
    line
}

/// The frame of the recommendations.
pub open spec fn recs_frame() -> BlockView {
    screen::framed(" Recommendations "@, PRIMARY, TERTIARY)
}

/// One line of a message, below an empty one, in the frame of the recommendations.
pub open spec fn recs_message(message: Seq<char>, color: Color) -> Seq<Seq<SpanView>> {
    Seq::<Seq<SpanView>>::empty().push(Seq::empty()).push(
        seq![screen::sp(message, tint(color))],
    )
}

/// The recommendations in the list.
pub open spec fn rec_items(recs: Seq<RecommendationView>, width: nat) -> Seq<Seq<Seq<SpanView>>> {
    Seq::new(recs.len(), |i: int| seq![rec_line(recs[i], width)])
}

/// The recommendations, or what has become of them.
pub open spec fn recs_panel(a: AppView, area: Rect) -> DrawView {
    screen::at(
        area,
        match a.recs {
            RecsView::Idle => screen::framed_lines(
                recs_message(
                    "  Press [f] to fetch recommendations from Codeforces."@,
                    MUTED,
                ),
                recs_frame(),
                false,
            ),
            RecsView::Loading => screen::framed_lines(
                recs_message(
                    "  "@ + bars::spinner_frame(a.spinner) + " Fetching from Codeforces…"@,
                    PRIMARY,
                ),
                recs_frame(),
                false,
            ),
            RecsView::Error(message) => screen::framed_lines(
                recs_message("  CF API Error: "@ + message, FAIL).push(Seq::empty()).push(
                    seq![screen::sp("  Press [f] to retry."@, tint(MUTED))],
                ),
                recs_frame(),
                true,
            ),
            RecsView::Loaded(recs) => if recs.len() == 0 {
                screen::framed_lines(
                    recs_message("  No recommendations match your filters."@, MUTED),
                    recs_frame(),
                    false,
                )
            } else {
                screen::cursor_list(
                    rec_items(recs, less(area.width as nat, 6)),
                    recs_frame(),
                    CursorOf::Recs,
                )
            },
        },
    )
}

/// The cursor of the recommendations once they are shown: on the first where none was selected.
pub open spec fn shown_recs_cursor(a: AppView) -> Selection {
    match a.recs {
        RecsView::Loaded(recs) => if recs.len() > 0 && a.recs_selected.selected is None {
            a.recs_selected.selecting(Some(0))
        } else {
            a.recs_selected
        },
        _ => a.recs_selected,
    }
}

fn message_lines(message: &str, color: Color) -> (r: Vec<Line>)
    ensures
        screen::lines_view(r@) == recs_message(message@, color),
{
    let mut lines = no_lines();
    add_blank(&mut lines);
    add_text(&mut lines, message, tint(color));
    lines
}

/// The recommendations, or what has become of them. Where there are some and none is selected,
/// the first one is from now on.
pub fn render_recs_panel(a: &mut App, area: Rect) -> (r: Vec<Draw>)
    ensures
        screen::draws_view(r@) == seq![recs_panel(old(a)@, area)],
        final(a)@ == (AppView { recs_selected: shown_recs_cursor(old(a)@), ..old(a)@ }),
{
    let block = frame(" Recommendations ", PRIMARY, TERTIARY);
    let mut draws = no_draws();
    match &a.recs {
        RecsState::Idle => {
            let lines = message_lines(
                "  Press [f] to fetch recommendations from Codeforces.",
                MUTED,
            );
            draw(&mut draws, area, framed_widget(lines, block, false));
        },
        RecsState::Loading => {
            let mut t = "  ".to_string();
            t.append(spinner_text(a.spinner));
            t.append(" Fetching from Codeforces…");
            let lines = message_lines(t.as_str(), PRIMARY);
            draw(&mut draws, area, framed_widget(lines, block, false));
        },
        RecsState::Error(message) => {
            let mut t = "  CF API Error: ".to_string();
            t.append(message.as_str());
            let mut lines = message_lines(t.as_str(), FAIL);
            add_blank(&mut lines);
            add_text(&mut lines, "  Press [f] to retry.", tint(MUTED));
            draw(&mut draws, area, framed_widget(lines, block, true));
        },
        RecsState::Loaded(recs) => {
            let ghost all = recommend::recs_view(recs@);
            proof {
                assert(all.len() == recs@.len());
            }
            if recs.len() == 0 {
                let lines = message_lines("  No recommendations match your filters.", MUTED);
                draw(&mut draws, area, framed_widget(lines, block, false));
            } else {
                let width: usize = area.width.saturating_sub(6) as usize;
                let ghost wanted = rec_items(all, width as nat);
                let mut items = no_items();
                let mut i: usize = 0;
                proof {
                    assert(wanted.take(0) =~= Seq::empty());
                }
                while i < recs.len()
                    invariant
                        i <= recs.len(),
                        all == recommend::recs_view(recs@),
                        wanted == rec_items(all, width as nat),
                        screen::items_view(items@) == wanted.take(i as int),
                    decreases recs.len() - i,
                {
                    let mut item = no_lines();
                    add_line(&mut item, rec_line_of(&recs[i], width));
                    proof {
                        assert(all[i as int] == recs@[i as int]@);
                        assert(wanted[i as int] == screen::lines_view(item@));
                        assert(wanted.take(i + 1) =~= wanted.take(i as int).push(
                            wanted[i as int],
                        ));
                    }
                    add_item(&mut items, item);
                    i += 1;
                }
                proof {
                    assert(wanted.take(recs.len() as int) =~= wanted);
                }
                draw(&mut draws, area, cursor_list_widget(items, block, CursorOf::Recs));
                if a.recs_selected.selected.is_none() {
                    a.recs_selected.select(Some(0));
                }
            }
        },
    }
    draws
}

/// The areas of the dashboard: the logo on one side; on the other, the analytics above the
/// recommendations.
#[derive(Debug, Clone, Copy)]
pub struct DashboardAreas {
    pub logo: Rect,
    pub side: Rect,
    pub analytics: Rect,
    pub recs: Rect,
}

/// The dashboard.
pub open spec fn dashboard_panels(a: AppView, areas: DashboardAreas) -> Seq<DrawView> {
    seq![
        centered_lines(logo_lines(), areas.logo),
        screen::at(
            areas.analytics,
            screen::framed_lines(
                analytics_lines(a),
                screen::framed(" Analytics "@, PRIMARY, TERTIARY),
                true,
            ),
        ),
        recs_panel(a, areas.recs),
    ]
}

/// The dashboard. Where there are recommendations and none is selected, the first one is from now
/// on.
pub fn render_dashboard(a: &mut App, areas: DashboardAreas) -> (r: Vec<Draw>)
    requires
        layout::can_center(areas.logo, logo_lines().len() as u16),
    ensures
        screen::draws_view(r@) == dashboard_panels(old(a)@, areas),
        final(a)@ == (AppView { recs_selected: shown_recs_cursor(old(a)@), ..old(a)@ }),
{
    let ghost before = a@;
    let mut draws = render_logo_panel(areas.logo);
    draw_all(&mut draws, render_analytics_panel(a, areas.analytics));
    draw_all(&mut draws, render_recs_panel(a, areas.recs));
    proof {
        assert(screen::draws_view(draws@) =~= dashboard_panels(before, areas));
    }
    draws
}

} // verus!
