//! Markdown to display lines: a fold over the parser's event stream with a
//! style stack, a line buffer flushed through word wrap at block boundaries,
//! and table accumulation handed to the table layout.
use vstd::prelude::*;
use crate::layout::{
    blank_line, lemma_lines_view_push, lines_view, push_wrapped, wrapped_lines, Color, DisplayLine,
    LineView, Modifier, SpanStyle,
};
use crate::layout::chars_view;
use crate::layout::lemma_chars_view_push;
use crate::table::{lemma_rows_view_push, render_table, rows_view, table_lines};
use crate::text::{chars_of, skip_ws_backward, trim_end};
use pulldown_cmark::{Event, Options, Parser};

verus! {

/// Block and inline containers the engine distinguishes.
#[derive(Debug, Clone, Copy, PartialEq, Eq)]
pub enum Block {
    Paragraph,
    Heading(u8),
    BlockQuote,
    CodeBlock,
    List,
    Item,
    Table,
    TableHead,
    TableRow,
    TableCell,
    Emphasis,
    Strong,
    Strikethrough,
    Link,
    Other,
}

/// One event of the markdown parser, as the engine reads it.
#[derive(Debug, Clone, PartialEq, Eq)]
pub enum MdEvent {
    Start(Block),
    End(Block),
    Text(String),
    Code(String),
    SoftBreak,
    HardBreak,
    Other,
}

#[verifier::external_type_specification]
pub struct ExTagEnd(pulldown_cmark::TagEnd);

#[verifier::external_type_specification]
pub struct ExHeadingLevel(pulldown_cmark::HeadingLevel);

#[verifier::external_type_specification]
pub struct ExBlockQuoteKind(pulldown_cmark::BlockQuoteKind);

#[verifier::external_type_specification]
pub struct ExMetadataBlockKind(pulldown_cmark::MetadataBlockKind);

/// The engine's view of a parser tag.
fn block_of(t: pulldown_cmark::TagEnd) -> (r: Block) {
    match t {
        pulldown_cmark::TagEnd::Paragraph => Block::Paragraph,
        pulldown_cmark::TagEnd::Heading(level) => Block::Heading(
            match level {
                pulldown_cmark::HeadingLevel::H1 => 1,
                pulldown_cmark::HeadingLevel::H2 => 2,
                pulldown_cmark::HeadingLevel::H3 => 3,
                pulldown_cmark::HeadingLevel::H4 => 4,
                pulldown_cmark::HeadingLevel::H5 => 5,
                pulldown_cmark::HeadingLevel::H6 => 6,
            },
        ),
        pulldown_cmark::TagEnd::BlockQuote(_) => Block::BlockQuote,
        pulldown_cmark::TagEnd::CodeBlock => Block::CodeBlock,
        pulldown_cmark::TagEnd::List(_) => Block::List,
        pulldown_cmark::TagEnd::Item => Block::Item,
        pulldown_cmark::TagEnd::Table => Block::Table,
        pulldown_cmark::TagEnd::TableHead => Block::TableHead,
        pulldown_cmark::TagEnd::TableRow => Block::TableRow,
        pulldown_cmark::TagEnd::TableCell => Block::TableCell,
        pulldown_cmark::TagEnd::Emphasis => Block::Emphasis,
        pulldown_cmark::TagEnd::Strong => Block::Strong,
        pulldown_cmark::TagEnd::Strikethrough => Block::Strikethrough,
        pulldown_cmark::TagEnd::Link => Block::Link,
        _ => Block::Other,
    }
}

/// The events that `pulldown-cmark` yields for a text.
pub uninterp spec fn markdown_events_of(src: Seq<char>) -> Seq<MdEvent>;

/// The text with its HTML entities decoded, as `html-escape` does it.
pub uninterp spec fn entities_decoded_of(s: Seq<char>) -> Seq<char>;

/// Relies on `pulldown_cmark::Parser::new_ext` with footnotes, tables, task
/// lists and strikethrough enabled: the events depend on the text alone.
#[verifier::external_body]
fn markdown_events(src: &str) -> (r: Vec<MdEvent>)
    ensures
        r@ == markdown_events_of(src@),
{
    let opts = Options::ENABLE_FOOTNOTES | Options::ENABLE_TABLES | Options::ENABLE_TASKLISTS
        | Options::ENABLE_STRIKETHROUGH;
    Parser::new_ext(src, opts).map(|e| match e {
        Event::Start(t) => MdEvent::Start(block_of(t.to_end())),
        Event::End(t) => MdEvent::End(block_of(t)),
        Event::Text(s) => MdEvent::Text(s.into_string()),
        Event::Code(s) => MdEvent::Code(s.into_string()),
        Event::SoftBreak => MdEvent::SoftBreak,
        Event::HardBreak => MdEvent::HardBreak,
        _ => MdEvent::Other,
    }).collect()
}

/// Relies on `html_escape::decode_html_entities`: the result depends on the
/// text alone.
#[verifier::external_body]
pub(crate) fn decode_entities(s: &str) -> (r: String)
    ensures
        r@ == entities_decoded_of(s@),
{
    html_escape::decode_html_entities(s).into_owned()
}

/// The fold's state, as mathematical values.
pub struct LayoutView {
    pub lines: Seq<LineView>,
    pub current: Seq<char>,
    pub mods: Seq<Modifier>,
    pub header: Option<u8>,
    pub in_table: bool,
    pub headers: Seq<Seq<char>>,
    pub rows: Seq<Seq<Seq<char>>>,
    pub row: Seq<Seq<char>>,
    pub in_head: bool,
}

/// The style that a stack of modifiers gives: each modifier present is set,
/// and underlined text is blue.
pub open spec fn style_of(mods: Seq<Modifier>) -> SpanStyle {
    SpanStyle {
        bold: mods.contains(Modifier::Bold),
        italic: mods.contains(Modifier::Italic),
        crossed_out: mods.contains(Modifier::CrossedOut),
        underlined: mods.contains(Modifier::Underlined),
        reversed: false,
        fg: if mods.contains(Modifier::Underlined) {
            Some(Color::Blue)
        } else {
            None
        },
    }
}

/// Style of inline code: yellow, reversed.
pub open spec fn code_style() -> SpanStyle {
    SpanStyle {
        bold: false,
        italic: false,
        crossed_out: false,
        underlined: false,
        reversed: true,
        fg: Some(Color::Yellow),
    }
}

/// The stack without its topmost `Bold`.
pub open spec fn drop_last_bold(m: Seq<Modifier>) -> Seq<Modifier>
    decreases m.len(),
{
    if m.len() == 0 {
        m
    } else if m.last() == Modifier::Bold {
        m.drop_last()
    } else {
        drop_last_bold(m.drop_last()).push(m.last())
    }
}

/// Emits the buffered text, trailing whitespace dropped, wrapped in `style`.
pub open spec fn flush(s: LayoutView, style: SpanStyle, width: usize) -> LayoutView {
    if s.current.len() == 0 {
        s
    } else {
        LayoutView {
            lines: s.lines + wrapped_lines(trim_end(s.current), width, style),
            current: Seq::empty(),
            ..s
        }
    }
}

pub open spec fn with_blank(s: LayoutView) -> LayoutView {
    LayoutView { lines: s.lines.push(Seq::empty()), ..s }
}

/// Style of a heading's text.
pub open spec fn heading_style(s: LayoutView) -> SpanStyle {
    let mods = match s.header {
        Some(level) => if level <= 2 {
            s.mods.push(Modifier::Underlined)
        } else {
            s.mods
        },
        None => s.mods,
    };
    SpanStyle { fg: Some(Color::Cyan), ..style_of(mods) }
}

/// Style of text flushed when a table starts.
pub open spec fn pre_table_style(s: LayoutView) -> SpanStyle {
    if s.mods.contains(Modifier::Bold) && s.header is Some {
        SpanStyle { fg: Some(Color::Cyan), ..style_of(s.mods) }
    } else {
        style_of(s.mods)
    }
}

pub open spec fn push_mod(s: LayoutView, m: Modifier) -> LayoutView {
    LayoutView { mods: s.mods.push(m), ..s }
}

pub open spec fn pop_mod(s: LayoutView) -> LayoutView {
    LayoutView {
        mods: if s.mods.len() > 0 {
            s.mods.drop_last()
        } else {
            s.mods
        },
        ..s
    }
}

/// What a start tag does to the state.
pub open spec fn start_step(s: LayoutView, b: Block, width: usize) -> LayoutView {
    match b {
        Block::Heading(level) => LayoutView {
            header: Some(level),
            mods: s.mods.push(Modifier::Bold),
            ..s
        },
        Block::Emphasis => push_mod(s, Modifier::Italic),
        Block::Strong => push_mod(s, Modifier::Bold),
        Block::Strikethrough => push_mod(s, Modifier::CrossedOut),
        Block::Link => push_mod(s, Modifier::Underlined),
        Block::Item => LayoutView { current: s.current + seq!['\u{2022}', ' '], ..s },
        Block::Table => LayoutView {
            in_table: true,
            headers: Seq::empty(),
            rows: Seq::empty(),
            row: Seq::empty(),
            in_head: false,
            ..flush(s, pre_table_style(s), width)
        },
        Block::TableHead => LayoutView { in_head: true, ..s },
        Block::TableRow => LayoutView { row: Seq::empty(), ..s },
        _ => s,
    }
}

/// What an end tag does to the state.
pub open spec fn end_step(s: LayoutView, b: Block, width: usize) -> LayoutView {
    match b {
        Block::Heading(_) => {
            let f = with_blank(flush(s, heading_style(s), width));
            LayoutView { header: None, mods: drop_last_bold(s.mods), ..f }
        },
        Block::Emphasis | Block::Strong | Block::Strikethrough | Block::Link => pop_mod(s),
        Block::CodeBlock => with_blank(flush(s, style_of(s.mods), width)),
        Block::Item => flush(s, style_of(s.mods), width),
        Block::TableCell => if s.in_table {
            LayoutView { row: s.row.push(s.current), current: Seq::empty(), ..s }
        } else {
            s
        },
        Block::TableRow => if s.in_table {
            if s.in_head {
                LayoutView { headers: s.row, row: Seq::empty(), ..s }
            } else {
                LayoutView { rows: s.rows.push(s.row), row: Seq::empty(), ..s }
            }
        } else {
            s
        },
        Block::TableHead => LayoutView { in_head: false, ..s },
        Block::Table => if s.in_table {
            LayoutView {
                lines: s.lines + table_lines(s.headers, s.rows, width) + seq![Seq::empty()],
                in_table: false,
                ..s
            }
        } else {
            s
        },
        Block::Paragraph | Block::List | Block::BlockQuote => with_blank(
            flush(s, style_of(s.mods), width),
        ),
        _ => s,
    }
}

/// What one event does to the state.
pub open spec fn step(s: LayoutView, e: MdEvent, width: usize) -> LayoutView {
    match e {
        MdEvent::Start(b) => start_step(s, b, width),
        MdEvent::End(b) => end_step(s, b, width),
        MdEvent::Text(t) => LayoutView { current: s.current + t@, ..s },
        MdEvent::Code(c) => {
            let f = flush(s, style_of(s.mods), width);
            LayoutView { lines: f.lines + wrapped_lines(c@, width, code_style()), ..f }
        },
        MdEvent::SoftBreak => LayoutView { current: s.current.push(' '), ..s },
        MdEvent::HardBreak => flush(s, style_of(s.mods), width),
        MdEvent::Other => s,
    }
}

pub open spec fn initial_view() -> LayoutView {
    LayoutView {
        lines: Seq::empty(),
        current: Seq::empty(),
        mods: Seq::empty(),
        header: None,
        in_table: false,
        headers: Seq::empty(),
        rows: Seq::empty(),
        row: Seq::empty(),
        in_head: false,
    }
}

/// The state after the events, in order.
pub open spec fn fold(events: Seq<MdEvent>, width: usize) -> LayoutView
    decreases events.len(),
{
    if events.len() == 0 {
        initial_view()
    } else {
        step(fold(events.drop_last(), width), events.last(), width)
    }
}

/// The lines at the end of input: an unterminated table is laid out and the
/// remaining buffer flushed; open inline styles simply stop applying.
pub open spec fn finish(s: LayoutView, width: usize) -> Seq<LineView> {
    let t = if s.in_table {
        LayoutView { lines: s.lines + table_lines(s.headers, s.rows, width), ..s }
    } else {
        s
    };
    flush(t, style_of(t.mods), width).lines
}

/// Width actually used: a width of zero is taken as one column.
pub open spec fn effective_width(width: usize) -> usize {
    if width == 0 {
        1
    } else {
        width
    }
}

/// The display lines of a markdown event stream at a width.
pub open spec fn layout_of(events: Seq<MdEvent>, width: usize) -> Seq<LineView> {
    finish(fold(events, effective_width(width)), effective_width(width))
}

/// The fold's state.
struct Fold {
    lines: Vec<DisplayLine>,
    current: Vec<char>,
    mods: Vec<Modifier>,
    header: Option<u8>,
    in_table: bool,
    headers: Vec<Vec<char>>,
    rows: Vec<Vec<Vec<char>>>,
    row: Vec<Vec<char>>,
    in_head: bool,
}

impl View for Fold {
    type V = LayoutView;

    closed spec fn view(&self) -> LayoutView {
        LayoutView {
            lines: lines_view(self.lines@),
            current: self.current@,
            mods: self.mods@,
            header: self.header,
            in_table: self.in_table,
            headers: chars_view(self.headers@),
            rows: rows_view(self.rows@),
            row: chars_view(self.row@),
            in_head: self.in_head,
        }
    }
}

fn has_mod(mods: &Vec<Modifier>, m: Modifier) -> (r: bool)
    ensures
        r == mods@.contains(m),
{
    let mut i: usize = 0;
    while i < mods.len()
        invariant
            i <= mods@.len(),
            forall|k: int| 0 <= k < i ==> mods@[k] != m,
        decreases mods@.len() - i,
    {
        let same = match (mods[i], m) {
            (Modifier::Bold, Modifier::Bold) => true,
            (Modifier::Italic, Modifier::Italic) => true,
            (Modifier::CrossedOut, Modifier::CrossedOut) => true,
            (Modifier::Underlined, Modifier::Underlined) => true,
            _ => false,
        };
        if same {
            assert(mods@[i as int] == m);
            return true;
        }
        i = i + 1;
    }
    false
}

fn style_from_mods(mods: &Vec<Modifier>) -> (r: SpanStyle)
    ensures
        r == style_of(mods@),
{
    let underlined = has_mod(mods, Modifier::Underlined);
    SpanStyle {
        bold: has_mod(mods, Modifier::Bold),
        italic: has_mod(mods, Modifier::Italic),
        crossed_out: has_mod(mods, Modifier::CrossedOut),
        underlined,
        reversed: false,
        fg: if underlined {
            Some(Color::Blue)
        } else {
            None
        },
    }
}

proof fn lemma_drop_last_bold(m: Seq<Modifier>, j: int)
    requires
        0 <= j <= m.len(),
        forall|k: int| j <= k < m.len() ==> m[k] != Modifier::Bold,
        j > 0 ==> m[j - 1] == Modifier::Bold,
    ensures
        drop_last_bold(m) == if j > 0 {
            m.remove(j - 1)
        } else {
            m
        },
    decreases m.len(),
{
    if m.len() > 0 {
        if m.last() == Modifier::Bold {
            assert(j == m.len());
            assert(m.drop_last() =~= m.remove(j - 1));
        } else {
            lemma_drop_last_bold(m.drop_last(), j);
            if j > 0 {
                assert(m.drop_last().remove(j - 1).push(m.last()) =~= m.remove(j - 1));
            } else {
                assert(m.drop_last().push(m.last()) =~= m);
            }
        }
    }
}

fn remove_last_bold(mods: &mut Vec<Modifier>)
    ensures
        final(mods)@ == drop_last_bold(old(mods)@),
{
    let mut j = mods.len();
    while j > 0 && !matches!(mods[j - 1], Modifier::Bold)
        invariant
            j <= mods@.len(),
            forall|k: int| j <= k < mods@.len() ==> mods@[k] != Modifier::Bold,
        decreases j,
    {
        j = j - 1;
    }
    proof {
        lemma_drop_last_bold(mods@, j as int);
    }
    if j > 0 {
        mods.remove(j - 1);
    }
}

impl Fold {
    fn new() -> (r: Fold)
        ensures
            r@ == initial_view(),
    {
        let r = Fold {
            lines: Vec::new(),
            current: Vec::new(),
            mods: Vec::new(),
            header: None,
            in_table: false,
            headers: Vec::new(),
            rows: Vec::new(),
            row: Vec::new(),
            in_head: false,
        };
        assert(r@.lines =~= Seq::<LineView>::empty());
        assert(r@.headers =~= Seq::<Seq<char>>::empty());
        assert(r@.rows =~= Seq::<Seq<Seq<char>>>::empty());
        assert(r@.row =~= Seq::<Seq<char>>::empty());
        r
    }

    fn flush(&mut self, style: SpanStyle, width: usize)
        requires
            width >= 1,
        ensures
            final(self)@ == flush(old(self)@, style, width),
    {
        if self.current.len() > 0 {
            let end = skip_ws_backward(&self.current, 0, self.current.len());
            assert(self.current@.subrange(0, self.current@.len() as int) =~= self.current@);
            let text = crate::text::sub_vec(&self.current, 0, end);
            push_wrapped(&mut self.lines, &text, width, style);
            self.current = Vec::new();
            assert(self@.current =~= Seq::<char>::empty());
        }
    }

    fn push_blank(&mut self)
        ensures
            final(self)@ == with_blank(old(self)@),
    {
        let b = blank_line();
        proof {
            lemma_lines_view_push(self.lines@, b);
        }
        self.lines.push(b);
    }

    fn push_mod(&mut self, m: Modifier)
        ensures
            final(self)@ == push_mod(old(self)@, m),
    {
        self.mods.push(m);
    }

    fn start(&mut self, b: Block, width: usize)
        requires
            width >= 1,
        ensures
            final(self)@ == start_step(old(self)@, b, width),
    {
        match b {
            Block::Heading(level) => {
                self.header = Some(level);
                self.mods.push(Modifier::Bold);
            },
            Block::Emphasis => self.push_mod(Modifier::Italic),
            Block::Strong => self.push_mod(Modifier::Bold),
            Block::Strikethrough => self.push_mod(Modifier::CrossedOut),
            Block::Link => self.push_mod(Modifier::Underlined),
            Block::Item => {
                self.current.push('\u{2022}');
                self.current.push(' ');
                assert(self.current@ =~= old(self)@.current + seq!['\u{2022}', ' ']);
            },
            Block::Table => {
                let mut style = style_from_mods(&self.mods);
                if has_mod(&self.mods, Modifier::Bold) && self.header.is_some() {
                    style.fg = Some(Color::Cyan);
                }
                self.flush(style, width);
                self.in_table = true;
                self.headers = Vec::new();
                self.rows = Vec::new();
                self.row = Vec::new();
                self.in_head = false;
                assert(self@.headers =~= Seq::<Seq<char>>::empty());
                assert(self@.rows =~= Seq::<Seq<Seq<char>>>::empty());
                assert(self@.row =~= Seq::<Seq<char>>::empty());
            },
            Block::TableHead => {
                self.in_head = true;
            },
            Block::TableRow => {
                self.row = Vec::new();
                assert(self@.row =~= Seq::<Seq<char>>::empty());
            },
            _ => {},
        }
    }

    fn end(&mut self, b: Block, width: usize)
        requires
            width >= 1,
        ensures
            final(self)@ == end_step(old(self)@, b, width),
    {
        match b {
            Block::Heading(_) => {
                let mut underline = false;
                match self.header {
                    Some(level) => {
                        if level <= 2 {
                            underline = true;
                        }
                    },
                    None => {},
                }
                let mut mods = self.mods.clone();
                assert(mods@ =~= self.mods@);
                if underline {
                    mods.push(Modifier::Underlined);
                }
                let mut style = style_from_mods(&mods);
                style.fg = Some(Color::Cyan);
                assert(style == heading_style(old(self)@));
                let ghost s0 = self@;
                self.flush(style, width);
                self.push_blank();
                let ghost f = self@;
                assert(f == with_blank(flush(s0, heading_style(s0), width)));
                assert(f.mods == s0.mods);
                self.header = None;
                remove_last_bold(&mut self.mods);
                assert(self@ == end_step(s0, b, width));
            },
            Block::Emphasis | Block::Strong | Block::Strikethrough | Block::Link => {
                let ghost m0 = self.mods@;
                self.mods.pop();
                proof {
                    if m0.len() > 0 {
                        assert(self.mods@ =~= m0.drop_last());
                    }
                }
            },
            Block::CodeBlock => {
                let style = style_from_mods(&self.mods);
                self.flush(style, width);
                self.push_blank();
            },
            Block::Item => {
                let style = style_from_mods(&self.mods);
                self.flush(style, width);
            },
            Block::TableCell => {
                if self.in_table {
                    let mut cell: Vec<char> = Vec::new();
                    core::mem::swap(&mut cell, &mut self.current);
                    proof {
                        lemma_chars_view_push(self.row@, cell);
                    }
                    self.row.push(cell);
                    assert(self@.current =~= Seq::<char>::empty());
                }
            },
            Block::TableRow => {
                if self.in_table {
                    let mut row: Vec<Vec<char>> = Vec::new();
                    core::mem::swap(&mut row, &mut self.row);
                    if self.in_head {
                        self.headers = row;
                    } else {
                        proof {
                            lemma_rows_view_push(self.rows@, row);
                        }
                        self.rows.push(row);
                    }
                    assert(self@.row =~= Seq::<Seq<char>>::empty());
                }
            },
            Block::TableHead => {
                self.in_head = false;
            },
            Block::Table => {
                if self.in_table {
                    let mut table = render_table(&self.headers, &self.rows, width);
                    let ghost before = lines_view(self.lines@);
                    let ghost tv = lines_view(table@);
                    self.lines.append(&mut table);
                    assert(lines_view(self.lines@) =~= before + tv);
                    self.push_blank();
                    self.in_table = false;
                    assert(self@.lines =~= before + tv + seq![Seq::<crate::layout::SpanView>::empty()]);
                }
            },
            Block::Paragraph | Block::List | Block::BlockQuote => {
                let style = style_from_mods(&self.mods);
                self.flush(style, width);
                self.push_blank();
            },
            _ => {},
        }
    }

    fn step(&mut self, e: &MdEvent, width: usize)
        requires
            width >= 1,
        ensures
            final(self)@ == step(old(self)@, *e, width),
    {
        match e {
            MdEvent::Start(b) => self.start(*b, width),
            MdEvent::End(b) => self.end(*b, width),
            MdEvent::Text(t) => {
                let mut c = chars_of(t.as_str());
                self.current.append(&mut c);
            },
            MdEvent::Code(code) => {
                let style = style_from_mods(&self.mods);
                self.flush(style, width);
                let c = chars_of(code.as_str());
                let cs = SpanStyle {
                    bold: false,
                    italic: false,
                    crossed_out: false,
                    underlined: false,
                    reversed: true,
                    fg: Some(Color::Yellow),
                };
                push_wrapped(&mut self.lines, &c, width, cs);
            },
            MdEvent::SoftBreak => {
                self.current.push(' ');
            },
            MdEvent::HardBreak => {
                let style = style_from_mods(&self.mods);
                self.flush(style, width);
            },
            MdEvent::Other => {},
        }
    }

    fn finish(self, width: usize) -> (r: Vec<DisplayLine>)
        requires
            width >= 1,
        ensures
            lines_view(r@) == finish(self@, width),
    {
        let mut me = self;
        if me.in_table {
            let mut table = render_table(&me.headers, &me.rows, width);
            let ghost before = lines_view(me.lines@);
            let ghost tv = lines_view(table@);
            me.lines.append(&mut table);
            assert(lines_view(me.lines@) =~= before + tv);
        }
        let style = style_from_mods(&me.mods);
        me.flush(style, width);
        me.lines
    }
}

/// Lays out a markdown event stream at `width` columns (zero counts as one).
pub fn layout_events(events: &Vec<MdEvent>, width: usize) -> (r: Vec<DisplayLine>)
    ensures
        lines_view(r@) == layout_of(events@, width),
{
    let w = if width == 0 {
        1
    } else {
        width
    };
    let mut st = Fold::new();
    let mut i: usize = 0;
    while i < events.len()
        invariant
            i <= events@.len(),
            w == effective_width(width),
            st@ == fold(events@.subrange(0, i as int), w),
        decreases events@.len() - i,
    {
        assert(events@.subrange(0, i + 1).drop_last() =~= events@.subrange(0, i as int));
        st.step(&events[i], w);
        i = i + 1;
    }
    assert(events@.subrange(0, i as int) =~= events@);
    st.finish(w)
}

/// Renders markdown text as styled display lines wrapped at `width` columns.
pub fn parse_markdown_to_lines(src: &str, width: usize) -> (r: Vec<DisplayLine>)
    ensures
        lines_view(r@) == layout_of(markdown_events_of(src@), width),
{
    let events = markdown_events(src);
    layout_events(&events, width)
}

/// Rendering is deterministic: the same text at the same width gives the
/// same display lines, span for span.
pub proof fn lemma_render_deterministic(
    src1: &str,
    src2: &str,
    width: usize,
    r1: Seq<DisplayLine>,
    r2: Seq<DisplayLine>,
)
    requires
        src1@ == src2@,
        lines_view(r1) == layout_of(markdown_events_of(src1@), width),
        lines_view(r2) == layout_of(markdown_events_of(src2@), width),
    ensures
        lines_view(r1) == lines_view(r2),
{
}

} // verus!
