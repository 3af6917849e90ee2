//! Styled display lines, and the width-aware text operations the layout
//! engine builds on: display width and word wrapping.
use vstd::prelude::*;
use crate::text::string_of;

verus! {

/// Foreground colours the engine assigns.
#[derive(Debug, Clone, Copy, PartialEq, Eq)]
pub enum Color {
    Cyan,
    Blue,
    Yellow,
    Gray,
}

/// Inline style modifiers kept on the style stack.
#[derive(Debug, Clone, Copy, PartialEq, Eq)]
pub enum Modifier {
    Bold,
    Italic,
    CrossedOut,
    Underlined,
}

/// The style of one span of text.
#[derive(Debug, Clone, Copy, PartialEq, Eq)]
pub struct SpanStyle {
    pub bold: bool,
    pub italic: bool,
    pub crossed_out: bool,
    pub underlined: bool,
    pub reversed: bool,
    pub fg: Option<Color>,
}

/// A run of text with one style.
#[derive(Debug, Clone, PartialEq, Eq)]
pub struct StyledSpan {
    pub text: String,
    pub style: SpanStyle,
}

/// One physical terminal row: styled spans, left to right.
#[derive(Debug, Clone, PartialEq, Eq)]
pub struct DisplayLine {
    pub spans: Vec<StyledSpan>,
}

pub type SpanView = (Seq<char>, SpanStyle);

pub type LineView = Seq<SpanView>;

impl View for StyledSpan {
    type V = SpanView;

    open spec fn view(&self) -> SpanView {
        (self.text@, self.style)
    }
}

impl View for DisplayLine {
    type V = LineView;

    open spec fn view(&self) -> LineView {
        self.spans@.map_values(|s: StyledSpan| s@)
    }
}

/// The lines as their views.
pub open spec fn lines_view(v: Seq<DisplayLine>) -> Seq<LineView> {
    v.map_values(|l: DisplayLine| l@)
}

pub open spec fn plain_style() -> SpanStyle {
    SpanStyle {
        bold: false,
        italic: false,
        crossed_out: false,
        underlined: false,
        reversed: false,
        fg: None,
    }
}

pub fn default_style() -> (r: SpanStyle)
    ensures
        r == plain_style(),
{
    SpanStyle {
        bold: false,
        italic: false,
        crossed_out: false,
        underlined: false,
        reversed: false,
        fg: None,
    }
}

/// The style with its foreground colour set.
pub open spec fn with_fg(s: SpanStyle, c: Color) -> SpanStyle {
    SpanStyle { fg: Some(c), ..s }
}

/// A line made of one span.
pub fn single_span_line(text: String, style: SpanStyle) -> (r: DisplayLine)
    ensures
        r@ == seq![(text@, style)],
{
    let mut spans: Vec<StyledSpan> = Vec::new();
    spans.push(StyledSpan { text, style });
    let r = DisplayLine { spans };
    assert(r@ =~= seq![(text@, style)]);
    r
}

/// An empty separator line.
pub fn blank_line() -> (r: DisplayLine)
    ensures
        r@ == Seq::<SpanView>::empty(),
{
    let r = DisplayLine { spans: Vec::new() };
    assert(r@ =~= Seq::<SpanView>::empty());
    r
}

/// Display width of a text in terminal columns, as `unicode-width` measures it.
pub uninterp spec fn display_width_of(s: Seq<char>) -> usize;

/// The lines that `textwrap` breaks a text into at a given width, first fit.
pub uninterp spec fn wrapped_of(text: Seq<char>, width: usize) -> Seq<Seq<char>>;

/// Relies on `unicode_width::UnicodeWidthStr::width`: the width of a string
/// depends on its characters alone.
#[verifier::external_body]
pub(crate) fn str_width(s: &str) -> (r: usize)
    ensures
        r == display_width_of(s@),
{
    unicode_width::UnicodeWidthStr::width(s)
}

/// Relies on `textwrap::wrap` with the first-fit (greedy) algorithm and
/// otherwise default options: the lines depend on the text and the width
/// alone.
#[verifier::external_body]
fn wrap_str(text: &str, width: usize) -> (r: Vec<String>)
    requires
        width >= 1,
    ensures
        r@.map_values(|s: String| s@) == wrapped_of(text@, width),
{
    let options = textwrap::Options::new(width).wrap_algorithm(textwrap::WrapAlgorithm::FirstFit);
    textwrap::wrap(text, options).into_iter().map(|c| c.into_owned()).collect()
}

/// Display width of a sequence of characters.
pub fn width_of(v: &Vec<char>) -> (r: usize)
    ensures
        r == display_width_of(v@),
{
    let s = string_of(v);
    str_width(s.as_str())
}

/// The views of a sequence of character vectors.
pub open spec fn chars_view(v: Seq<Vec<char>>) -> Seq<Seq<char>> {
    v.map_values(|x: Vec<char>| x@)
}

pub proof fn lemma_chars_view_push(v: Seq<Vec<char>>, x: Vec<char>)
    ensures
        chars_view(v.push(x)) == chars_view(v).push(x@),
{
    assert(chars_view(v.push(x)) =~= chars_view(v).push(x@));
}

pub proof fn lemma_lines_view_push(v: Seq<DisplayLine>, x: DisplayLine)
    ensures
        lines_view(v.push(x)) == lines_view(v).push(x@),
{
    assert(lines_view(v.push(x)) =~= lines_view(v).push(x@));
}

/// The wrapped segments of a text, as sequences of characters.
pub fn wrap_chars(text: &Vec<char>, width: usize) -> (r: Vec<Vec<char>>)
    requires
        width >= 1,
    ensures
        chars_view(r@) == wrapped_of(text@, width),
{
    let s = string_of(text);
    let segs = wrap_str(s.as_str(), width);
    let ghost sv = segs@.map_values(|s: String| s@);
    let mut out: Vec<Vec<char>> = Vec::new();
    let mut i: usize = 0;
    while i < segs.len()
        invariant
            i <= segs@.len(),
            sv == segs@.map_values(|s: String| s@),
            chars_view(out@) == sv.subrange(0, i as int),
        decreases segs@.len() - i,
    {
        let c = crate::text::chars_of(segs[i].as_str());
        proof {
            lemma_chars_view_push(out@, c);
        }
        out.push(c);
        assert(sv.subrange(0, i + 1) =~= sv.subrange(0, i as int).push(sv[i as int]));
        i = i + 1;
    }
    assert(sv.subrange(0, i as int) =~= sv);
    out
}

/// The lines of a text wrapped at `width`, each one span in `style`.
pub open spec fn wrapped_lines(text: Seq<char>, width: usize, style: SpanStyle) -> Seq<LineView> {
    wrapped_of(text, width).map_values(|seg: Seq<char>| seq![(seg, style)])
}

/// Appends the wrapped lines of `text` to `lines`.
pub fn push_wrapped(lines: &mut Vec<DisplayLine>, text: &Vec<char>, width: usize, style: SpanStyle)
    requires
        width >= 1,
    ensures
        lines_view(final(lines)@) == lines_view(old(lines)@) + wrapped_lines(text@, width, style),
{
    let segs = wrap_chars(text, width);
    let ghost start = lines_view(lines@);
    let ghost all = wrapped_lines(text@, width, style);
    let mut i: usize = 0;
    while i < segs.len()
        invariant
            i <= segs@.len(),
            chars_view(segs@) == wrapped_of(text@, width),
            all == wrapped_lines(text@, width, style),
            lines_view(lines@) == start + all.subrange(0, i as int),
        decreases segs@.len() - i,
    {
        let s = string_of(&segs[i]);
        let line = single_span_line(s, style);
        proof {
            lemma_lines_view_push(lines@, line);
        }
        lines.push(line);
        assert(chars_view(segs@)[i as int] == segs[i as int]@);
        assert(all[i as int] == seq![(segs[i as int]@, style)]);
        assert(start + all.subrange(0, i + 1) =~= (start + all.subrange(0, i as int)).push(all[i as int]));
        i = i + 1;
    }
    assert(all.subrange(0, i as int) =~= all);
}

} // verus!
