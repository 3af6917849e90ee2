//! Post-processing of generated reports, and the opt-in gate that the report
//! generator requires.
use vstd::prelude::*;
use crate::text::{
    chars_of, contains, contains_seq, is_prefix, push_char, push_str, skip_ws_forward, starts_with,
    string_of, sub_vec, to_ascii_lower, ascii_lower, trim, trim_bounds, trim_start,
};
use crate::layout::chars_view;
use crate::layout::lemma_chars_view_push;

verus! {

/// Name of the environment variable that opts in to report generation.
pub const OPENAI_OPT_IN_ENV: &'static str = "YTRANSCRIPT_ALLOW_OPENAI";

/// The text lowercased as `str::to_lowercase` does it.
pub uninterp spec fn lower_of(s: Seq<char>) -> Seq<char>;

/// Relies on `str::to_lowercase`: the result depends on the text alone.
#[verifier::external_body]
pub(crate) fn lowercase(s: &str) -> (r: String)
    ensures
        r@ == lower_of(s@),
{
    s.to_lowercase()
}

/// Lines of a text as `str::lines` yields them: split at `\n`, a line ended
/// by `\n` loses one trailing `\r`, and a last piece without `\n` is kept as
/// it is (dropped when empty).
pub open spec fn lines_of(s: Seq<char>) -> Seq<Seq<char>> {
    let (done, cur) = pieces_upto(s, s.len() as int);
    let ended = done.map_values(|l: Seq<char>| strip_cr(l));
    if cur.len() == 0 {
        ended
    } else {
        ended.push(cur)
    }
}

pub open spec fn strip_cr(l: Seq<char>) -> Seq<char> {
    if l.len() > 0 && l.last() == '\r' {
        l.drop_last()
    } else {
        l
    }
}

/// Pieces between `\n` in the first `k` characters: the finished ones and the
/// one being read.
pub open spec fn pieces_upto(s: Seq<char>, k: int) -> (Seq<Seq<char>>, Seq<char>)
    decreases k,
{
    if k <= 0 {
        (Seq::empty(), Seq::empty())
    } else {
        let (done, cur) = pieces_upto(s, k - 1);
        if s[k - 1] == '\n' {
            (done.push(cur), Seq::empty())
        } else {
            (done, cur.push(s[k - 1]))
        }
    }
}

/// Lines joined with `\n` between them.
pub open spec fn joined(lines: Seq<Seq<char>>) -> Seq<char>
    decreases lines.len(),
{
    if lines.len() == 0 {
        Seq::empty()
    } else if lines.len() == 1 {
        lines[0]
    } else {
        joined(lines.drop_last()) + seq!['\n'] + lines.last()
    }
}

/// First line at or after `k` whose text, leading whitespace dropped, starts
/// with `marker`.
pub open spec fn first_section(lines: Seq<Seq<char>>, marker: Seq<char>, k: int) -> Option<int>
    decreases lines.len() - k,
{
    if k < 0 || k >= lines.len() {
        None
    } else if is_prefix(marker, trim_start(lines[k])) {
        Some(k)
    } else {
        first_section(lines, marker, k + 1)
    }
}

/// First line at or after `k` that is not blank, or the end.
pub open spec fn skip_blank(lines: Seq<Seq<char>>, k: int) -> int
    decreases lines.len() - k,
{
    if k < 0 || k >= lines.len() {
        k
    } else if trim(lines[k]).len() == 0 {
        skip_blank(lines, k + 1)
    } else {
        k
    }
}

/// Whether line `i` is a table header naming every keyword.
pub open spec fn header_present(lines: Seq<Seq<char>>, i: int, keywords: Seq<Seq<char>>) -> bool {
    0 <= i < lines.len() && is_prefix(seq!['|'], trim_start(lines[i])) && forall|k: int|
        0 <= k < keywords.len() ==> contains_seq(lower_of(lines[i]), #[trigger] keywords[k])
}

/// Inserts a table's header lines after its section heading (and any blank
/// lines) unless a matching header is already there.
pub open spec fn with_header(
    lines: Seq<Seq<char>>,
    marker: Seq<char>,
    header: Seq<Seq<char>>,
    keywords: Seq<Seq<char>>,
) -> Seq<Seq<char>> {
    match first_section(lines, marker, 0) {
        None => lines,
        Some(s) => {
            let i = skip_blank(lines, s + 1);
            if header_present(lines, i, keywords) {
                lines
            } else {
                lines.subrange(0, i) + header + lines.subrange(i, lines.len() as int)
            }
        },
    }
}

/// A table the report format expects: the section it follows, its header
/// lines, and the keywords that identify an existing header.
pub struct TableTemplate {
    pub section_marker: &'static str,
    pub header_lines: Vec<&'static str>,
    pub header_keywords: Vec<&'static str>,
}

pub open spec fn strs_view(v: Seq<&'static str>) -> Seq<Seq<char>> {
    v.map_values(|s: &'static str| s@)
}

/// A table template as text.
pub struct TemplateView {
    pub marker: Seq<char>,
    pub header: Seq<Seq<char>>,
    pub keywords: Seq<Seq<char>>,
}

impl View for TableTemplate {
    type V = TemplateView;

    open spec fn view(&self) -> TemplateView {
        TemplateView {
            marker: self.section_marker@,
            header: strs_view(self.header_lines@),
            keywords: strs_view(self.header_keywords@),
        }
    }
}

/// The report format's tables, in order.
pub open spec fn templates_view() -> Seq<TemplateView> {
    seq![
        TemplateView {
            marker: "#### 1. Metadata"@,
            header: seq!["| Campo | Valor |"@, "|-------|-------|"@],
            keywords: seq!["campo"@, "valor"@],
        },
        TemplateView {
            marker: "#### 3. Desglose"@,
            header: seq![
                "| # | ⏱ | Orador* | Texto literal | Palabras clave | Tonalidad** |"@,
                "|---|----|---------|---------------|----------------|-------------|"@,
            ],
            keywords: seq!["#"@, "⏱"@, "orador"@, "texto"@, "palabras"@, "tonalidad"@],
        },
        TemplateView {
            marker: "#### 4. Entidades"@,
            header: seq![
                "| Entidad | Tipo (persona, marca, lugar…) | Nº de menciones | Primera mención ⏱ |"@,
                "|---------|------------------------------|-----------------|-------------------|"@,
            ],
            keywords: seq!["entidad"@, "tipo"@, "mención"@],
        },
        TemplateView {
            marker: "#### 5. Preguntas"@,
            header: seq!["| Pregunta | Timestamp |"@, "|----------|-----------|"@],
            keywords: seq!["pregunta"@, "timestamp"@],
        },
    ]
}

/// The tables of the report format, in order.
pub fn table_templates() -> (r: Vec<TableTemplate>)
    ensures
        r@.map_values(|t: TableTemplate| t@) == templates_view(),
{
    let mut v: Vec<TableTemplate> = Vec::new();
    v.push(
        TableTemplate {
            section_marker: "#### 1. Metadata",
            header_lines: vec!["| Campo | Valor |", "|-------|-------|"],
            header_keywords: vec!["campo", "valor"],
        },
    );
    v.push(
        TableTemplate {
            section_marker: "#### 3. Desglose",
            header_lines: vec![
                "| # | ⏱ | Orador* | Texto literal | Palabras clave | Tonalidad** |",
                "|---|----|---------|---------------|----------------|-------------|",
            ],
            header_keywords: vec!["#", "⏱", "orador", "texto", "palabras", "tonalidad"],
        },
    );
    v.push(
        TableTemplate {
            section_marker: "#### 4. Entidades",
            header_lines: vec![
                "| Entidad | Tipo (persona, marca, lugar…) | Nº de menciones | Primera mención ⏱ |",
                "|---------|------------------------------|-----------------|-------------------|",
            ],
            header_keywords: vec!["entidad", "tipo", "mención"],
        },
    );
    v.push(
        TableTemplate {
            section_marker: "#### 5. Preguntas",
            header_lines: vec!["| Pregunta | Timestamp |", "|----------|-----------|"],
            header_keywords: vec!["pregunta", "timestamp"],
        },
    );
    assert(v@.map_values(|t: TableTemplate| t@) =~= templates_view()) by {
        assert(v@[0]@.header =~= templates_view()[0].header);
        assert(v@[0]@.keywords =~= templates_view()[0].keywords);
        assert(v@[1]@.header =~= templates_view()[1].header);
        assert(v@[1]@.keywords =~= templates_view()[1].keywords);
        assert(v@[2]@.header =~= templates_view()[2].header);
        assert(v@[2]@.keywords =~= templates_view()[2].keywords);
        assert(v@[3]@.header =~= templates_view()[3].header);
        assert(v@[3]@.keywords =~= templates_view()[3].keywords);
    }
    v
}

/// The lines after every template has been applied in order.
pub open spec fn with_headers(lines: Seq<Seq<char>>, ts: Seq<TemplateView>) -> Seq<Seq<char>>
    decreases ts.len(),
{
    if ts.len() == 0 {
        lines
    } else {
        let t = ts.last();
        with_header(with_headers(lines, ts.drop_last()), t.marker, t.header, t.keywords)
    }
}

fn is_blank(l: &Vec<char>) -> (r: bool)
    ensures
        r == (trim(l@).len() == 0),
{
    let (a, b) = trim_bounds(l);
    a == b
}

fn split_lines(s: &str) -> (r: Vec<Vec<char>>)
    ensures
        chars_view(r@) == lines_of(s@),
{
    let v = chars_of(s);
    let mut done: Vec<Vec<char>> = Vec::new();
    let mut cur: Vec<char> = Vec::new();
    let mut k: usize = 0;
    while k < v.len()
        invariant
            k <= v@.len(),
            v@ == s@,
            (chars_view(done@), cur@) == pieces_upto(s@, k as int),
        decreases v@.len() - k,
    {
        if v[k] == '\n' {
            proof {
                lemma_chars_view_push(done@, cur);
            }
            done.push(cur);
            cur = Vec::new();
            assert(cur@ =~= Seq::<char>::empty());
        } else {
            cur.push(v[k]);
        }
        k = k + 1;
    }
    let ghost kept = chars_view(done@);
    let mut out: Vec<Vec<char>> = Vec::new();
    let mut i: usize = 0;
    while i < done.len()
        invariant
            i <= done@.len(),
            kept == chars_view(done@),
            chars_view(out@) == kept.map_values(|l: Seq<char>| strip_cr(l)).subrange(0, i as int),
        decreases done@.len() - i,
    {
        let l = &done[i];
        let m = l.len();
        let line = if m > 0 && l[m - 1] == '\r' {
            sub_vec(l, 0, m - 1)
        } else {
            sub_vec(l, 0, m)
        };
        assert(l@.subrange(0, m as int) =~= l@);
        assert(m > 0 ==> l@.subrange(0, m - 1) =~= l@.drop_last());
        proof {
            lemma_chars_view_push(out@, line);
        }
        out.push(line);
        assert(chars_view(out@) =~= kept.map_values(|l: Seq<char>| strip_cr(l)).subrange(
            0,
            i + 1,
        ));
        i = i + 1;
    }
    assert(kept.map_values(|l: Seq<char>| strip_cr(l)).subrange(0, i as int) =~= kept.map_values(
        |l: Seq<char>| strip_cr(l),
    ));
    if cur.len() > 0 {
        proof {
            lemma_chars_view_push(out@, cur);
        }
        out.push(cur);
    }
    out
}

fn join_lines(lines: &Vec<Vec<char>>) -> (r: String)
    ensures
        r@ == joined(chars_view(lines@)),
{
    let ghost lv = chars_view(lines@);
    let mut s = String::new();
    let mut i: usize = 0;
    while i < lines.len()
        invariant
            i <= lines@.len(),
            lv == chars_view(lines@),
            s@ == joined(lv.subrange(0, i as int)),
        decreases lines@.len() - i,
    {
        if i > 0 {
            push_char(&mut s, '\n');
        }
        let t = string_of(&lines[i]);
        push_str(&mut s, t.as_str());
        assert(lv.subrange(0, i + 1).drop_last() =~= lv.subrange(0, i as int));
        i = i + 1;
    }
    assert(lv.subrange(0, i as int) =~= lv);
    s
}

fn find_section(lines: &Vec<Vec<char>>, marker: &Vec<char>) -> (r: Option<usize>)
    ensures
        match r {
            Some(i) => first_section(chars_view(lines@), marker@, 0) == Some(i as int) && i
                < lines@.len(),
            None => first_section(chars_view(lines@), marker@, 0) is None,
        },
{
    let ghost lv = chars_view(lines@);
    let mut k: usize = 0;
    while k < lines.len()
        invariant
            k <= lines@.len(),
            lv == chars_view(lines@),
            first_section(lv, marker@, 0) == first_section(lv, marker@, k as int),
        decreases lines@.len() - k,
    {
        let l = &lines[k];
        let a = skip_ws_forward(l, 0);
        let rest = sub_vec(l, a, l.len());
        assert(l@.subrange(0, l@.len() as int) =~= l@);
        if starts_with(&rest, marker) {
            return Some(k);
        }
        k = k + 1;
    }
    None
}

fn is_header(lines: &Vec<Vec<char>>, i: usize, keywords: &Vec<&'static str>) -> (r: bool)
    ensures
        r == header_present(chars_view(lines@), i as int, strs_view(keywords@)),
{
    if i >= lines.len() {
        return false;
    }
    let l = &lines[i];
    let a = skip_ws_forward(l, 0);
    assert(l@.subrange(0, l@.len() as int) =~= l@);
    if !(a < l.len() && l[a] == '|') {
        proof {
            let x = trim_start(l@);
            assert(x == l@.subrange(a as int, l@.len() as int));
            if a < l@.len() {
                assert(x.subrange(0, 1)[0] == l@[a as int]);
                assert(x.subrange(0, 1) != seq!['|']);
            }
        }
        return false;
    }
    assert(trim_start(l@).subrange(0, 1) =~= seq!['|']);
    let lowered = lowercase(string_of(l).as_str());
    let lw = chars_of(lowered.as_str());
    assert(chars_view(lines@)[i as int] == l@);
    let mut k: usize = 0;
    while k < keywords.len()
        invariant
            k <= keywords@.len(),
            i < lines@.len(),
            l@ == chars_view(lines@)[i as int],
            lw@ == lower_of(l@),
            forall|j: int|
                0 <= j < k ==> contains_seq(lower_of(l@), #[trigger] strs_view(keywords@)[j]),
        decreases keywords@.len() - k,
    {
        let kw = chars_of(keywords[k]);
        assert(strs_view(keywords@)[k as int] == kw@);
        if !contains(&lw, &kw) {
            assert(!contains_seq(lower_of(l@), strs_view(keywords@)[k as int]));
            return false;
        }
        k = k + 1;
    }
    true
}

fn apply_template(lines: Vec<Vec<char>>, t: &TableTemplate) -> (r: Vec<Vec<char>>)
    ensures
        chars_view(r@) == with_header(
            chars_view(lines@),
            t.section_marker@,
            strs_view(t.header_lines@),
            strs_view(t.header_keywords@),
        ),
{
    let ghost lv = chars_view(lines@);
    let marker = chars_of(t.section_marker);
    match find_section(&lines, &marker) {
        None => lines,
        Some(s) => {
            let n = lines.len();
            let mut i = s + 1;
            while i < lines.len() && is_blank(&lines[i])
                invariant
                    s < lines@.len(),
                    s + 1 <= i <= lines@.len(),
                    lv == chars_view(lines@),
                    skip_blank(lv, s + 1) == skip_blank(lv, i as int),
                decreases lines@.len() - i,
            {
                assert(lv[i as int] == lines@[i as int]@);
                i = i + 1;
            }
            proof {
                if i < lines@.len() {
                    assert(lv[i as int] == lines@[i as int]@);
                }
            }
            assert(skip_blank(lv, i as int) == i);
            if is_header(&lines, i, &t.header_keywords) {
                return lines;
            }
            let mut out: Vec<Vec<char>> = Vec::new();
            let mut k: usize = 0;
            while k < i
                invariant
                    k <= i <= lines@.len(),
                    lv == chars_view(lines@),
                    chars_view(out@) == lv.subrange(0, k as int),
                decreases i - k,
            {
                let c = sub_vec(&lines[k], 0, lines[k].len());
                assert(lines@[k as int]@.subrange(0, lines@[k as int]@.len() as int) =~= lines@[k as int]@);
                proof {
                    lemma_chars_view_push(out@, c);
                }
                out.push(c);
                assert(chars_view(out@) =~= lv.subrange(0, k + 1));
                k = k + 1;
            }
            let ghost hv = strs_view(t.header_lines@);
            let mut h: usize = 0;
            while h < t.header_lines.len()
                invariant
                    h <= t.header_lines@.len(),
                    i <= lines@.len(),
                    lv == chars_view(lines@),
                    hv == strs_view(t.header_lines@),
                    chars_view(out@) == lv.subrange(0, i as int) + hv.subrange(0, h as int),
                decreases t.header_lines@.len() - h,
            {
                let c = chars_of(t.header_lines[h]);
                proof {
                    lemma_chars_view_push(out@, c);
                }
                out.push(c);
                assert(chars_view(out@) =~= lv.subrange(0, i as int) + hv.subrange(0, h + 1));
                h = h + 1;
            }
            assert(hv.subrange(0, h as int) =~= hv);
            let ghost pre = chars_view(out@);
            let mut k: usize = i;
            while k < lines.len()
                invariant
                    i <= k <= lines@.len(),
                    lv == chars_view(lines@),
                    chars_view(out@) == pre + lv.subrange(i as int, k as int),
                decreases lines@.len() - k,
            {
                let c = sub_vec(&lines[k], 0, lines[k].len());
                assert(lines@[k as int]@.subrange(0, lines@[k as int]@.len() as int) =~= lines@[k as int]@);
                proof {
                    lemma_chars_view_push(out@, c);
                }
                out.push(c);
                assert(chars_view(out@) =~= pre + lv.subrange(i as int, k + 1));
                k = k + 1;
            }
            out
        },
    }
}

/// Makes sure each expected table of a generated report has its header row:
/// where a section is present but its table header is missing, the header is
/// inserted after the section heading.
pub fn ensure_table_headers(report: &str) -> (r: String)
    ensures
        r@ == joined(with_headers(lines_of(report@), templates_view())),
{
    let templates = table_templates();
    let mut lines = split_lines(report);
    let mut k: usize = 0;
    while k < templates.len()
        invariant
            k <= templates@.len(),
            templates@.map_values(|t: TableTemplate| t@) == templates_view(),
            chars_view(lines@) == with_headers(
                lines_of(report@),
                templates_view().subrange(0, k as int),
            ),
        decreases templates@.len() - k,
    {
        assert(templates_view().subrange(0, k + 1).drop_last() =~= templates_view().subrange(
            0,
            k as int,
        ));
        assert(templates_view()[k as int] == templates@[k as int]@);
        lines = apply_template(lines, &templates[k]);
        k = k + 1;
    }
    assert(templates_view().subrange(0, k as int) =~= templates_view());
    join_lines(&lines)
}

/// Whether an opt-in value grants permission: once trimmed and lowercased
/// it is `1`, `true` or `yes`.
pub open spec fn opt_in_accepts(v: Seq<char>) -> bool {
    let t = trim(v).map_values(|c: char| ascii_lower(c));
    t == seq!['1'] || t == seq!['t', 'r', 'u', 'e'] || t == seq!['y', 'e', 's']
}

/// Why report generation may not run.
#[derive(Debug, Clone, Copy, PartialEq, Eq)]
pub enum OptInError {
    Missing,
}

impl OptInError {
    pub fn message(&self) -> (r: &'static str) {
        "Report generation requires explicit opt-in. Set YTRANSCRIPT_ALLOW_OPENAI=1 to enable uploads to OpenAI."
    }
}

/// The opt-in gate, given the variable's value (`None` when it is unset).
pub fn enforce_openai_opt_in(value: Option<&str>) -> (r: Result<(), OptInError>)
    ensures
        r is Ok <==> (value is Some && opt_in_accepts(value->0@)),
{
    match value {
        None => Err(OptInError::Missing),
        Some(v) => {
            let c = chars_of(v);
            let (a, b) = trim_bounds(&c);
            let mut t: Vec<char> = Vec::new();
            let mut i = a;
            while i < b
                invariant
                    a <= i <= b <= c@.len(),
                    t@ == c@.subrange(a as int, i as int).map_values(|x: char| ascii_lower(x)),
                decreases b - i,
            {
                t.push(to_ascii_lower(c[i]));
                assert(t@ =~= c@.subrange(a as int, i + 1).map_values(|x: char| ascii_lower(x)));
                i = i + 1;
            }
            let one = vec!['1'];
            let tru = vec!['t', 'r', 'u', 'e'];
            let yes = vec!['y', 'e', 's'];
            let ok = (t.len() == 1 && starts_with(&t, &one)) || (t.len() == 4 && starts_with(
                &t,
                &tru,
            )) || (t.len() == 3 && starts_with(&t, &yes));
            proof {
                assert(one@ =~= seq!['1']);
                assert(tru@ =~= seq!['t', 'r', 'u', 'e']);
                assert(yes@ =~= seq!['y', 'e', 's']);
                assert(t@.subrange(0, t@.len() as int) =~= t@);
            }
            if ok {
                Ok(())
            } else {
                Err(OptInError::Missing)
            }
        },
    }
}

} // verus!
