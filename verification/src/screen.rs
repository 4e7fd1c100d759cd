//! What is drawn: styled text, widgets, and the places where they go.

use vstd::prelude::*;

use crate::layout::Rect;

verus! {

/// A color of the terminal.
#[derive(Debug, Clone, Copy, PartialEq, Eq, Structural)]
pub enum Color {
    Rgb(u8, u8, u8),
    Cyan,
    Magenta,
    Yellow,
    White,
    Gray,
    Green,
    Red,
    Blue,
}

/// The background of the theme.
#[verifier::allow_in_spec]
pub fn night() -> Color
    returns
        Color::Rgb(16, 16, 40),
{
    Color::Rgb(16, 16, 40)
}

pub const PRIMARY: Color = Color::Cyan;

pub const SECONDARY: Color = Color::Magenta;

pub const TERTIARY: Color = Color::Yellow;

pub const TEXT: Color = Color::White;

pub const MUTED: Color = Color::Gray;

pub const SUCCESS: Color = Color::Green;

pub const FAIL: Color = Color::Red;

/// How text looks.
#[derive(Debug, Clone, Copy, PartialEq, Eq, Structural)]
pub struct Style {
    pub fg: Option<Color>,
    pub bg: Option<Color>,
    pub bold: bool,
}

/// No style of its own.
#[verifier::allow_in_spec]
pub fn plain() -> Style
    returns
        (Style { fg: None, bg: None, bold: false }),
{
    Style { fg: None, bg: None, bold: false }
}

/// Text in a color.
#[verifier::allow_in_spec]
pub fn tint(fg: Color) -> Style
    returns
        (Style { fg: Some(fg), bg: None, bold: false }),
{
    Style { fg: Some(fg), bg: None, bold: false }
}

/// Bold text in a color.
#[verifier::allow_in_spec]
pub fn strong(fg: Color) -> Style
    returns
        (Style { fg: Some(fg), bg: None, bold: true }),
{
    Style { fg: Some(fg), bg: None, bold: true }
}

/// Nothing but the background of the theme.
#[verifier::allow_in_spec]
pub fn backdrop() -> Style
    returns
        (Style { fg: None, bg: Some(night()), bold: false }),
{
    Style { fg: None, bg: Some(night()), bold: false }
}

/// Text in a color on the background of the theme.
#[verifier::allow_in_spec]
pub fn on_backdrop(fg: Color) -> Style
    returns
        (Style { fg: Some(fg), bg: Some(night()), bold: false }),
{
    Style { fg: Some(fg), bg: Some(night()), bold: false }
}

/// The title of a frame.
#[verifier::allow_in_spec]
pub fn title_style(fg: Color) -> Style
    returns
        (Style { fg: Some(fg), bg: Some(night()), bold: true }),
{
    Style { fg: Some(fg), bg: Some(night()), bold: true }
}

/// The selected item of a list.
#[verifier::allow_in_spec]
pub fn highlight_style() -> Style
    returns
        (Style { fg: Some(TEXT), bg: Some(SECONDARY), bold: true }),
{
    Style { fg: Some(TEXT), bg: Some(SECONDARY), bold: true }
}

/// Text in one style.
#[derive(Debug)]
pub struct Span {
    pub text: String,
    pub style: Style,
}

#[verifier::ext_equal]
pub struct SpanView {
    pub text: Seq<char>,
    pub style: Style,
}

impl View for Span {
    type V = SpanView;

    open spec fn view(&self) -> SpanView {
        SpanView { text: self.text@, style: self.style }
    }
}

/// Text in one style.
pub open spec fn sp(text: Seq<char>, style: Style) -> SpanView {
    SpanView { text, style }
}

/// A line of text.
#[derive(Debug)]
pub struct Line {
    pub spans: Vec<Span>,
}

/// The spans of a line.
pub open spec fn spans_view(spans: Seq<Span>) -> Seq<SpanView> {
    Seq::new(spans.len(), |i: int| spans[i]@)
}

impl View for Line {
    type V = Seq<SpanView>;

    open spec fn view(&self) -> Seq<SpanView> {
        spans_view(self.spans@)
    }
}

/// The lines of a text.
pub open spec fn lines_view(lines: Seq<Line>) -> Seq<Seq<SpanView>> {
    Seq::new(lines.len(), |i: int| lines[i]@)
}

/// The items of a list.
pub open spec fn items_view(items: Seq<Vec<Line>>) -> Seq<Seq<Seq<SpanView>>> {
    Seq::new(items.len(), |i: int| lines_view(items[i]@))
}

/// A frame with a title.
#[derive(Debug)]
pub struct Block {
    pub title: Span,
    pub border: Style,
    pub style: Style,
}

#[verifier::ext_equal]
pub struct BlockView {
    pub title: SpanView,
    pub border: Style,
    pub style: Style,
}

impl View for Block {
    type V = BlockView;

    open spec fn view(&self) -> BlockView {
        BlockView { title: self.title@, border: self.border, style: self.style }
    }
}

/// A frame whose border and title have the given colors.
pub open spec fn framed(title: Seq<char>, border: Color, fg: Color) -> BlockView {
    BlockView { title: sp(title, title_style(fg)), border: tint(border), style: backdrop() }
}

/// What a paragraph holds: styled lines, or text that is laid out as it is.
#[derive(Debug)]
pub enum Content {
    Lines(Vec<Line>),
    Text(String),
}

#[verifier::ext_equal]
pub enum ContentView {
    Lines(Seq<Seq<SpanView>>),
    Text(Seq<char>),
}

impl View for Content {
    type V = ContentView;

    open spec fn view(&self) -> ContentView {
        match *self {
            Content::Lines(lines) => ContentView::Lines(lines_view(lines@)),
            Content::Text(text) => ContentView::Text(text@),
        }
    }
}

/// Where lines go in their area.
#[derive(Debug, Clone, Copy, PartialEq, Eq, Structural)]
pub enum Align {
    Left,
    Center,
    Right,
}

/// The lists that have a cursor.
#[derive(Debug, Clone, Copy, PartialEq, Eq, Structural)]
pub enum CursorOf {
    Recs,
    Results,
}

/// Something to draw.
#[derive(Debug)]
pub enum Widget {
    /// The whole area in one style.
    Fill { style: Style },
    Paragraph { content: Content, style: Style, block: Option<Block>, wrap: bool, align: Align },
    /// A frame alone.
    Frame { block: Block },
    /// A list, with the cursor that it shows, if any: the selected item is highlighted and has
    /// the symbol in front.
    List {
        items: Vec<Vec<Line>>,
        style: Style,
        block: Block,
        cursor: Option<CursorOf>,
        highlight: Style,
        symbol: String,
    },
}

#[verifier::ext_equal]
pub enum WidgetView {
    Fill { style: Style },
    Paragraph {
        content: ContentView,
        style: Style,
        block: Option<BlockView>,
        wrap: bool,
        align: Align,
    },
    Frame { block: BlockView },
    List {
        items: Seq<Seq<Seq<SpanView>>>,
        style: Style,
        block: BlockView,
        cursor: Option<CursorOf>,
        highlight: Style,
        symbol: Seq<char>,
    },
}

/// The frame of a widget, if it has one.
pub open spec fn block_view(block: Option<Block>) -> Option<BlockView> {
    match block {
        Some(block) => Some(block@),
        None => None,
    }
}

impl View for Widget {
    type V = WidgetView;

    open spec fn view(&self) -> WidgetView {
        match *self {
            Widget::Fill { style } => WidgetView::Fill { style },
            Widget::Paragraph { content, style, block, wrap, align } => WidgetView::Paragraph {
                content: content@,
                style,
                block: block_view(block),
                wrap,
                align,
            },
            Widget::Frame { block } => WidgetView::Frame { block: block@ },
            Widget::List { items, style, block, cursor, highlight, symbol } => WidgetView::List {
                items: items_view(items@),
                style,
                block: block@,
                cursor,
                highlight,
                symbol: symbol@,
            },
        }
    }
}

/// A widget and the area that it is drawn in.
#[derive(Debug)]
pub struct Draw {
    pub area: Rect,
    pub widget: Widget,
}

#[verifier::ext_equal]
pub struct DrawView {
    pub area: Rect,
    pub widget: WidgetView,
}

impl View for Draw {
    type V = DrawView;

    open spec fn view(&self) -> DrawView {
        DrawView { area: self.area, widget: self.widget@ }
    }
}

/// What is drawn, in order.
pub open spec fn draws_view(draws: Seq<Draw>) -> Seq<DrawView> {
    Seq::new(draws.len(), |i: int| draws[i]@)
}

/// Something drawn in an area.
pub open spec fn at(area: Rect, widget: WidgetView) -> DrawView {
    DrawView { area, widget }
}

/// Lines on the background of the theme.
pub open spec fn paragraph(lines: Seq<Seq<SpanView>>, align: Align) -> WidgetView {
    WidgetView::Paragraph {
        content: ContentView::Lines(lines),
        style: backdrop(),
        block: None,
        wrap: false,
        align,
    }
}

/// Lines in a frame on the background of the theme.
pub open spec fn framed_lines(
    lines: Seq<Seq<SpanView>>,
    block: BlockView,
    wrap: bool,
) -> WidgetView {
    WidgetView::Paragraph {
        content: ContentView::Lines(lines),
        style: backdrop(),
        block: Some(block),
        wrap,
        align: Align::Left,
    }
}

/// Text of an error in a frame.
pub open spec fn framed_error(text: Seq<char>, title: Seq<char>) -> WidgetView {
    WidgetView::Paragraph {
        content: ContentView::Text(text),
        style: on_backdrop(FAIL),
        block: Some(framed(title, FAIL, FAIL)),
        wrap: true,
        align: Align::Left,
    }
}

/// A list without a cursor.
pub open spec fn plain_list(items: Seq<Seq<Seq<SpanView>>>, block: BlockView) -> WidgetView {
    WidgetView::List {
        items,
        style: backdrop(),
        block,
        cursor: None,
        highlight: plain(),
        symbol: Seq::empty(),
    }
}

/// A list with a cursor.
pub open spec fn cursor_list(
    items: Seq<Seq<Seq<SpanView>>>,
    block: BlockView,
    cursor: CursorOf,
) -> WidgetView {
    WidgetView::List {
        items,
        style: backdrop(),
        block,
        cursor: Some(cursor),
        highlight: highlight_style(),
        symbol: "▶"@,
    }
}

pub fn span(text: String, style: Style) -> (r: Span)
    ensures
        r@ == sp(text@, style),
{
    Span { text, style }
}

pub fn label(text: &str, style: Style) -> (r: Span)
    ensures
        r@ == sp(text@, style),
{
    Span { text: text.to_string(), style }
}

/// A line without text.
pub fn blank_line() -> (r: Line)
    ensures
        r@ == Seq::<SpanView>::empty(),
{
    let r = Line { spans: Vec::new() };
    proof {
        assert(r@ =~= Seq::<SpanView>::empty());
    }
    r
}

impl Line {
    /// Appends a span.
    pub fn add_span(&mut self, s: Span)
        ensures
            final(self)@ == old(self)@.push(s@),
    {
        let ghost before = self.spans@;
        self.spans.push(s);
        proof {
            assert(self@ =~= spans_view(before).push(s@));
        }
    }
}

/// A line of one span.
pub fn line_of(s: Span) -> (r: Line)
    ensures
        r@ == seq![s@],
{
    let mut r = blank_line();
    r.add_span(s);
    r
}

/// No lines.
pub fn no_lines() -> (r: Vec<Line>)
    ensures
        lines_view(r@) == Seq::<Seq<SpanView>>::empty(),
{
    let r: Vec<Line> = Vec::new();
    proof {
        assert(lines_view(r@) =~= Seq::<Seq<SpanView>>::empty());
    }
    r
}

/// Appends a line.
pub fn add_line(lines: &mut Vec<Line>, line: Line)
    ensures
        lines_view(final(lines)@) == lines_view(old(lines)@).push(line@),
{
    let ghost before = lines@;
    lines.push(line);
    proof {
        assert(lines_view(lines@) =~= lines_view(before).push(line@));
    }
}

/// Appends a line of one piece of text.
pub fn add_text(lines: &mut Vec<Line>, text: &str, style: Style)
    ensures
        lines_view(final(lines)@) == lines_view(old(lines)@).push(seq![sp(text@, style)]),
{
    add_line(lines, line_of(label(text, style)));
}

/// Appends a line without text.
pub fn add_blank(lines: &mut Vec<Line>)
    ensures
        lines_view(final(lines)@) == lines_view(old(lines)@).push(Seq::<SpanView>::empty()),
{
    add_line(lines, blank_line());
}

/// No items.
pub fn no_items() -> (r: Vec<Vec<Line>>)
    ensures
        items_view(r@) == Seq::<Seq<Seq<SpanView>>>::empty(),
{
    let r: Vec<Vec<Line>> = Vec::new();
    proof {
        assert(items_view(r@) =~= Seq::<Seq<Seq<SpanView>>>::empty());
    }
    r
}

/// Appends an item.
pub fn add_item(items: &mut Vec<Vec<Line>>, item: Vec<Line>)
    ensures
        items_view(final(items)@) == items_view(old(items)@).push(lines_view(item@)),
{
    let ghost before = items@;
    items.push(item);
    proof {
        assert(items_view(items@) =~= items_view(before).push(lines_view(item@)));
    }
}

/// A frame whose border and title have the given colors.
pub fn frame(title: &str, border: Color, fg: Color) -> (r: Block)
    ensures
        r@ == framed(title@, border, fg),
{
    Block { title: label(title, title_style(fg)), border: tint(border), style: backdrop() }
}

/// Nothing drawn yet.
pub fn no_draws() -> (r: Vec<Draw>)
    ensures
        draws_view(r@) == Seq::<DrawView>::empty(),
{
    let r: Vec<Draw> = Vec::new();
    proof {
        assert(draws_view(r@) =~= Seq::<DrawView>::empty());
    }
    r
}

/// Draws a widget in an area.
pub fn draw(draws: &mut Vec<Draw>, area: Rect, widget: Widget)
    ensures
        draws_view(final(draws)@) == draws_view(old(draws)@).push(at(area, widget@)),
{
    let ghost before = draws@;
    draws.push(Draw { area, widget });
    proof {
        assert(draws_view(draws@) =~= draws_view(before).push(at(area, widget@)));
    }
}

/// Draws everything of `more` after what is there.
pub fn draw_all(draws: &mut Vec<Draw>, more: Vec<Draw>)
    ensures
        draws_view(final(draws)@) == draws_view(old(draws)@) + draws_view(more@),
{
    let ghost before = draws@;
    let mut rest = more;
    draws.append(&mut rest);
    proof {
        assert(draws_view(draws@) =~= draws_view(before) + draws_view(more@));
    }
}

/// Lines on the background of the theme.
pub fn lines_widget(lines: Vec<Line>, align: Align) -> (r: Widget)
    ensures
        r@ == paragraph(lines_view(lines@), align),
{
    Widget::Paragraph {
        content: Content::Lines(lines),
        style: backdrop(),
        block: None,
        wrap: false,
        align,
    }
}

/// Lines in a frame on the background of the theme.
pub fn framed_widget(lines: Vec<Line>, block: Block, wrap: bool) -> (r: Widget)
    ensures
        r@ == framed_lines(lines_view(lines@), block@, wrap),
{
    Widget::Paragraph {
        content: Content::Lines(lines),
        style: backdrop(),
        block: Some(block),
        wrap,
        align: Align::Left,
    }
}

/// Text of an error in a frame.
pub fn error_widget(text: &str, title: &str) -> (r: Widget)
    ensures
        r@ == framed_error(text@, title@),
{
    Widget::Paragraph {
        content: Content::Text(text.to_string()),
        style: on_backdrop(FAIL),
        block: Some(frame(title, FAIL, FAIL)),
        wrap: true,
        align: Align::Left,
    }
}

/// A list without a cursor.
pub fn list_widget(items: Vec<Vec<Line>>, block: Block) -> (r: Widget)
    ensures
        r@ == plain_list(items_view(items@), block@),
{
    Widget::List {
        items,
        style: backdrop(),
        block,
        cursor: None,
        highlight: plain(),
        symbol: String::new(),
    }
}

/// A list with a cursor.
pub fn cursor_list_widget(items: Vec<Vec<Line>>, block: Block, cursor: CursorOf) -> (r: Widget)
    ensures
        r@ == cursor_list(items_view(items@), block@, cursor),
{
    Widget::List {
        items,
        style: backdrop(),
        block,
        cursor: Some(cursor),
        highlight: highlight_style(),
        symbol: "▶".to_string(),
    }
}

} // verus!
