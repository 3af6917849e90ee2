//! Table layout: natural column widths, shrinking to a target width, cell
//! wrapping into physical sub-rows, and box-drawing borders.
use vstd::prelude::*;
use crate::text::{push_char, push_repeat, repeat};
use crate::layout::{
    chars_view, lemma_chars_view_push, display_width_of, lemma_lines_view_push, lines_view, plain_style, single_span_line,
    width_of, with_fg, wrap_chars, wrapped_of, Color, DisplayLine, LineView, SpanStyle, SpanView,
    StyledSpan,
};
use crate::text::string_of;

verus! {

/// No column is shrunk below this many display columns.
pub const MIN_COLUMN_WIDTH: usize = 3;

/// Views of table rows.
pub open spec fn rows_view(rows: Seq<Vec<Vec<char>>>) -> Seq<Seq<Seq<char>>> {
    rows.map_values(|r: Vec<Vec<char>>| chars_view(r@))
}

/// Cell `i` of a row, empty where the row is short.
pub open spec fn cell_at(r: Seq<Seq<char>>, i: int) -> Seq<char> {
    if 0 <= i < r.len() {
        r[i]
    } else {
        Seq::empty()
    }
}

/// A row cut or padded with empty cells to `cols` cells.
pub open spec fn norm_row(r: Seq<Seq<char>>, cols: nat) -> Seq<Seq<char>> {
    Seq::new(cols, |i: int| cell_at(r, i))
}

pub open spec fn max_row_len(rows: Seq<Seq<Seq<char>>>) -> nat
    decreases rows.len(),
{
    if rows.len() == 0 {
        0
    } else {
        let m = max_row_len(rows.drop_last());
        if rows.last().len() > m {
            rows.last().len()
        } else {
            m
        }
    }
}

/// The number of columns: the longest of the header and the body rows.
pub open spec fn column_count(headers: Seq<Seq<char>>, rows: Seq<Seq<Seq<char>>>) -> nat {
    if headers.len() >= max_row_len(rows) {
        headers.len()
    } else {
        max_row_len(rows)
    }
}

/// Widest display width of cell `i` over the rows.
pub open spec fn column_natural(rows: Seq<Seq<Seq<char>>>, i: int) -> usize
    decreases rows.len(),
{
    if rows.len() == 0 {
        0
    } else {
        let m = column_natural(rows.drop_last(), i);
        let w = display_width_of(cell_at(rows.last(), i));
        if w > m {
            w
        } else {
            m
        }
    }
}

/// Natural width of each column: the widest of its header and body cells.
pub open spec fn natural_widths(headers: Seq<Seq<char>>, rows: Seq<Seq<Seq<char>>>, cols: nat) -> Seq<
    usize,
> {
    Seq::new(
        cols,
        |i: int|
            {
                let h = display_width_of(cell_at(headers, i));
                let c = column_natural(rows, i);
                if h > c {
                    h
                } else {
                    c
                }
            },
    )
}

pub open spec fn sum(w: Seq<usize>) -> int
    decreases w.len(),
{
    if w.len() == 0 {
        0
    } else {
        sum(w.drop_last()) + w.last()
    }
}

/// Columns, padding and borders of a table with these column widths.
pub open spec fn table_width(w: Seq<usize>) -> int {
    sum(w) + 3 * w.len() + 1
}

/// Among the first `k` columns not yet done, the widest (the first of equals),
/// or -1.
pub open spec fn widest_open(w: Seq<usize>, done: Seq<bool>, k: int) -> int
    decreases k,
{
    if k <= 0 {
        -1
    } else {
        let b = widest_open(w, done, k - 1);
        if !done[k - 1] && (b < 0 || w[k - 1] > w[b]) {
            k - 1
        } else {
            b
        }
    }
}

/// How much column `i` of natural width `w` gives up when `over` columns
/// are still to be saved.
pub open spec fn reduction(w: usize, over: int) -> int {
    if w > MIN_COLUMN_WIDTH {
        if w - MIN_COLUMN_WIDTH < over {
            w - MIN_COLUMN_WIDTH
        } else {
            over
        }
    } else {
        0
    }
}

/// Shrinks the widest columns first, each once, down to the floor, until
/// `over` columns are saved or every column has been visited.
pub open spec fn shrink_rounds(w0: Seq<usize>, cur: Seq<usize>, done: Seq<bool>, over: int, n: nat) -> Seq<
    usize,
>
    decreases n,
{
    if n == 0 {
        cur
    } else {
        let i = widest_open(w0, done, w0.len() as int);
        if i < 0 {
            cur
        } else {
            let red = reduction(w0[i], over);
            shrink_rounds(
                w0,
                cur.update(i, (cur[i] - red) as usize),
                done.update(i, true),
                over - red,
                (n - 1) as nat,
            )
        }
    }
}

/// The final column widths for a target width.
pub open spec fn fitted_widths(w0: Seq<usize>, max_width: usize) -> Seq<usize> {
    if table_width(w0) > max_width {
        shrink_rounds(
            w0,
            w0,
            Seq::new(w0.len(), |_i: int| false),
            table_width(w0) - max_width,
            w0.len(),
        )
    } else {
        w0
    }
}

/// `s` centered in `width` columns (extra space on the right).
pub open spec fn centered(s: Seq<char>, width: usize) -> Seq<char> {
    let w = display_width_of(s);
    if w >= width {
        s
    } else {
        let left = ((width - w) / 2) as nat;
        let right = ((width - w) - left) as nat;
        repeat(' ', left) + s + repeat(' ', right)
    }
}

/// `s` padded with spaces on the right to `width` columns.
pub open spec fn padded(s: Seq<char>, width: usize) -> Seq<char> {
    let w = display_width_of(s);
    if w >= width {
        s
    } else {
        s + repeat(' ', (width - w) as nat)
    }
}

pub fn center_text(s: &Vec<char>, width: usize) -> (r: Vec<char>)
    ensures
        r@ == centered(s@, width),
{
    let w = width_of(s);
    if w >= width {
        return s.clone();
    }
    let total = width - w;
    let left = total / 2;
    let right = total - left;
    let mut out: Vec<char> = Vec::new();
    push_chars_repeat(&mut out, ' ', left);
    let ghost a = out@;
    let mut i: usize = 0;
    while i < s.len()
        invariant
            i <= s@.len(),
            out@ == a + s@.subrange(0, i as int),
        decreases s@.len() - i,
    {
        out.push(s[i]);
        assert(a + s@.subrange(0, i + 1) =~= (a + s@.subrange(0, i as int)).push(s@[i as int]));
        i = i + 1;
    }
    push_chars_repeat(&mut out, ' ', right);
    assert(s@.subrange(0, s@.len() as int) =~= s@);
    out
}

pub fn pad_right(s: &Vec<char>, width: usize) -> (r: Vec<char>)
    ensures
        r@ == padded(s@, width),
{
    let w = width_of(s);
    if w >= width {
        return s.clone();
    }
    let mut out = s.clone();
    assert(out@ =~= s@);
    push_chars_repeat(&mut out, ' ', width - w);
    out
}

/// Appends `n` copies of `c`.
pub fn push_chars_repeat(v: &mut Vec<char>, c: char, n: usize)
    ensures
        final(v)@ == old(v)@ + repeat(c, n as nat),
{
    let ghost start = v@;
    let mut i: usize = 0;
    while i < n
        invariant
            i <= n,
            v@ == start + repeat(c, i as nat),
        decreases n - i,
    {
        v.push(c);
        assert(start + repeat(c, (i + 1) as nat) =~= (start + repeat(c, i as nat)).push(c));
        i = i + 1;
    }
}

/// The text of a border line over the first `k` columns, without its ends.
pub open spec fn border_body(w: Seq<usize>, mid: char, horiz: char, k: int) -> Seq<char>
    decreases k,
{
    if k <= 0 {
        Seq::empty()
    } else {
        let seg = repeat(horiz, (w[k - 1] + 2) as nat);
        let joint = if k < w.len() {
            seq![mid]
        } else {
            Seq::empty()
        };
        border_body(w, mid, horiz, k - 1) + seg + joint
    }
}

/// A horizontal border: `left`, a run of `horiz` over each column and its
/// padding, `mid` between columns, and `right`.
pub open spec fn border(left: char, mid: char, right: char, horiz: char, w: Seq<usize>) -> Seq<char> {
    seq![left] + border_body(w, mid, horiz, w.len() as int) + seq![right]
}

pub fn draw_border(left: char, mid: char, right: char, horiz: char, col_widths: &Vec<usize>) -> (r:
    String)
    ensures
        r@ == border(left, mid, right, horiz, col_widths@),
{
    let mut s = String::new();
    push_char(&mut s, left);
    let ghost start = s@;
    let mut i: usize = 0;
    while i < col_widths.len()
        invariant
            i <= col_widths@.len(),
            start == seq![left],
            s@ == start + border_body(col_widths@, mid, horiz, i as int),
        decreases col_widths@.len() - i,
    {
        let ghost before = s@;
        push_repeat(&mut s, horiz, col_widths[i]);
        push_char(&mut s, horiz);
        push_char(&mut s, horiz);
        assert(s@ =~= before + repeat(horiz, (col_widths@[i as int] + 2) as nat));
        if i + 1 < col_widths.len() {
            push_char(&mut s, mid);
        }
        assert(s@ =~= start + border_body(col_widths@, mid, horiz, i + 1));
        i = i + 1;
    }
    push_char(&mut s, right);
    s
}

/// Cells of `r` cut or padded to `cols` cells.
fn norm_cells(r: &Vec<Vec<char>>, cols: usize) -> (out: Vec<Vec<char>>)
    ensures
        chars_view(out@) == norm_row(chars_view(r@), cols as nat),
{
    let mut out: Vec<Vec<char>> = Vec::new();
    let mut i: usize = 0;
    while i < cols
        invariant
            i <= cols,
            chars_view(out@) == norm_row(chars_view(r@), cols as nat).subrange(0, i as int),
        decreases cols - i,
    {
        let c = if i < r.len() {
            r[i].clone()
        } else {
            Vec::new()
        };
        proof {
            lemma_chars_view_push(out@, c);
        }
        out.push(c);
        assert(chars_view(out@) =~= norm_row(chars_view(r@), cols as nat).subrange(0, i + 1));
        i = i + 1;
    }
    assert(norm_row(chars_view(r@), cols as nat).subrange(0, i as int) =~= norm_row(
        chars_view(r@),
        cols as nat,
    ));
    out
}

pub proof fn lemma_rows_view_push(v: Seq<Vec<Vec<char>>>, x: Vec<Vec<char>>)
    ensures
        rows_view(v.push(x)) == rows_view(v).push(chars_view(x@)),
{
    assert(rows_view(v.push(x)) =~= rows_view(v).push(chars_view(x@)));
}

/// The number of columns of a table.
fn count_columns(headers: &Vec<Vec<char>>, rows: &Vec<Vec<Vec<char>>>) -> (r: usize)
    ensures
        r == column_count(chars_view(headers@), rows_view(rows@)),
{
    let mut m: usize = 0;
    let mut k: usize = 0;
    while k < rows.len()
        invariant
            k <= rows@.len(),
            m == max_row_len(rows_view(rows@).subrange(0, k as int)),
        decreases rows@.len() - k,
    {
        assert(rows_view(rows@).subrange(0, k + 1).drop_last() =~= rows_view(rows@).subrange(
            0,
            k as int,
        ));
        if rows[k].len() > m {
            m = rows[k].len();
        }
        k = k + 1;
    }
    assert(rows_view(rows@).subrange(0, k as int) =~= rows_view(rows@));
    if headers.len() >= m {
        headers.len()
    } else {
        m
    }
}

/// Natural widths of the columns of normalized rows.
fn natural_column_widths(headers: &Vec<Vec<char>>, rows: &Vec<Vec<Vec<char>>>, cols: usize) -> (r:
    Vec<usize>)
    requires
        headers@.len() == cols,
        forall|k: int| 0 <= k < rows@.len() ==> (#[trigger] rows@[k])@.len() == cols,
    ensures
        r@ == natural_widths(chars_view(headers@), rows_view(rows@), cols as nat),
{
    let ghost rv = rows_view(rows@);
    let mut out: Vec<usize> = Vec::new();
    let mut i: usize = 0;
    while i < cols
        invariant
            i <= cols,
            headers@.len() == cols,
            rv == rows_view(rows@),
            forall|k: int| 0 <= k < rows@.len() ==> (#[trigger] rows@[k])@.len() == cols,
            out@ == natural_widths(chars_view(headers@), rv, cols as nat).subrange(0, i as int),
        decreases cols - i,
    {
        let h = width_of(&headers[i]);
        let mut m: usize = 0;
        let mut k: usize = 0;
        while k < rows.len()
            invariant
                k <= rows@.len(),
                i < cols,
                rv == rows_view(rows@),
                forall|j: int| 0 <= j < rows@.len() ==> (#[trigger] rows@[j])@.len() == cols,
                m == column_natural(rv.subrange(0, k as int), i as int),
            decreases rows@.len() - k,
        {
            assert(rv.subrange(0, k + 1).drop_last() =~= rv.subrange(0, k as int));
            assert(rv[k as int] == chars_view(rows@[k as int]@));
            let w = width_of(&rows[k][i]);
            if w > m {
                m = w;
            }
            k = k + 1;
        }
        assert(rv.subrange(0, k as int) =~= rv);
        let v = if h > m {
            h
        } else {
            m
        };
        out.push(v);
        assert(out@ =~= natural_widths(chars_view(headers@), rv, cols as nat).subrange(0, i + 1));
        i = i + 1;
    }
    assert(natural_widths(chars_view(headers@), rv, cols as nat).subrange(0, i as int)
        =~= natural_widths(chars_view(headers@), rv, cols as nat));
    out
}

/// The widest column not yet done, the first of equals.
fn widest_open_exec(w: &Vec<usize>, done: &Vec<bool>) -> (r: Option<usize>)
    requires
        done@.len() == w@.len(),
    ensures
        match r {
            Some(i) => widest_open(w@, done@, w@.len() as int) == i && i < w@.len(),
            None => widest_open(w@, done@, w@.len() as int) == -1,
        },
{
    let mut best: Option<usize> = None;
    let mut k: usize = 0;
    while k < w.len()
        invariant
            k <= w@.len(),
            done@.len() == w@.len(),
            match best {
                Some(b) => widest_open(w@, done@, k as int) == b && b < k,
                None => widest_open(w@, done@, k as int) == -1,
            },
        decreases w@.len() - k,
    {
        if !done[k] {
            match best {
                None => {
                    best = Some(k);
                },
                Some(b) => {
                    if w[k] > w[b] {
                        best = Some(k);
                    }
                },
            }
        }
        k = k + 1;
    }
    best
}

proof fn lemma_sum_step(w: Seq<usize>, k: int)
    requires
        0 <= k < w.len(),
    ensures
        sum(w.subrange(0, k + 1)) == sum(w.subrange(0, k)) + w[k],
{
    assert(w.subrange(0, k + 1).drop_last() =~= w.subrange(0, k));
}

/// What the open columns among the first `k` can give up in all.
pub open spec fn reducible(w: Seq<usize>, done: Seq<bool>, k: int) -> int
    decreases k,
{
    if k <= 0 {
        0
    } else {
        reducible(w, done, k - 1) + if !done[k - 1] {
            reduction(w[k - 1], w[k - 1] as int)
        } else {
            0
        }
    }
}

proof fn lemma_widest_open(w: Seq<usize>, done: Seq<bool>, k: int)
    requires
        0 <= k <= w.len(),
        done.len() == w.len(),
    ensures
        -1 <= widest_open(w, done, k) < k,
        widest_open(w, done, k) >= 0 ==> !done[widest_open(w, done, k)],
    decreases k,
{
    if k > 0 {
        lemma_widest_open(w, done, k - 1);
    }
}

proof fn lemma_reducible_nonneg(w: Seq<usize>, done: Seq<bool>, k: int)
    requires
        0 <= k <= w.len(),
        done.len() == w.len(),
    ensures
        reducible(w, done, k) >= 0,
    decreases k,
{
    if k > 0 {
        lemma_reducible_nonneg(w, done, k - 1);
    }
}

proof fn lemma_reducible_close(w: Seq<usize>, done: Seq<bool>, i: int, k: int)
    requires
        0 <= i < w.len(),
        0 <= k <= w.len(),
        done.len() == w.len(),
        !done[i],
    ensures
        reducible(w, done.update(i, true), k) == reducible(w, done, k) - if i < k {
            reduction(w[i], w[i] as int)
        } else {
            0
        },
        i < k ==> reduction(w[i], w[i] as int) <= reducible(w, done, k),
    decreases k,
{
    if k > 0 {
        lemma_reducible_close(w, done, i, k - 1);
        lemma_reducible_nonneg(w, done, k - 1);
    }
}

/// Once the excess covers all that the open columns can give up, its exact
/// value no longer changes the outcome.
proof fn lemma_shrink_saturated(
    w0: Seq<usize>,
    cur: Seq<usize>,
    done: Seq<bool>,
    o1: int,
    o2: int,
    n: nat,
)
    requires
        done.len() == w0.len(),
        o1 >= reducible(w0, done, w0.len() as int),
        o2 >= reducible(w0, done, w0.len() as int),
    ensures
        shrink_rounds(w0, cur, done, o1, n) == shrink_rounds(w0, cur, done, o2, n),
    decreases n,
{
    if n > 0 {
        let i = widest_open(w0, done, w0.len() as int);
        lemma_widest_open(w0, done, w0.len() as int);
        if i >= 0 {
            lemma_reducible_close(w0, done, i, w0.len() as int);
            let red = reduction(w0[i], w0[i] as int);
            assert(reduction(w0[i], o1) == red);
            assert(reduction(w0[i], o2) == red);
            lemma_shrink_saturated(
                w0,
                cur.update(i, (cur[i] - red) as usize),
                done.update(i, true),
                o1 - red,
                o2 - red,
                (n - 1) as nat,
            );
        }
    }
}

proof fn lemma_reducible_le_sum(w: Seq<usize>, done: Seq<bool>, k: int)
    requires
        0 <= k <= w.len(),
        done.len() == w.len(),
    ensures
        reducible(w, done, k) <= sum(w.subrange(0, k)),
    decreases k,
{
    if k > 0 {
        lemma_reducible_le_sum(w, done, k - 1);
        lemma_sum_step(w, k - 1);
    }
}

/// Column widths after shrinking to `max_width`.
fn fit_widths(w0: &Vec<usize>, max_width: usize) -> (r: Vec<usize>)
    ensures
        r@ == fitted_widths(w0@, max_width),
{
    let n = w0.len();
    let mut total: u128 = 0;
    let mut k: usize = 0;
    while k < n
        invariant
            k <= n == w0@.len(),
            total == sum(w0@.subrange(0, k as int)),
            total <= k * 0xffff_ffff_ffff_ffffu128,
        decreases n - k,
    {
        proof {
            lemma_sum_step(w0@, k as int);
            assert(total + w0@[k as int] <= (k + 1) * 0xffff_ffff_ffff_ffffu128) by (nonlinear_arith)
                requires
                    total <= k * 0xffff_ffff_ffff_ffffu128,
                    w0@[k as int] <= 0xffff_ffff_ffff_ffffu128,
            ;
        }
        total = total + w0[k] as u128;
        k = k + 1;
    }
    assert(w0@.subrange(0, n as int) =~= w0@);
    assert(total <= n * 0xffff_ffff_ffff_ffffu128);
    assert(n * 0xffff_ffff_ffff_ffffu128 <= 0xffff_ffff_ffff_ffffu128 * 0xffff_ffff_ffff_ffffu128)
        by (nonlinear_arith)
        requires
            n <= 0xffff_ffff_ffff_ffffu128,
    ;
    let extra: u128 = 3 * (n as u128) + 1;
    if total <= max_width as u128 && extra <= max_width as u128 - total {
        return w0.clone();
    }
    let ghost true_over = table_width(w0@) - max_width;
    let mut over: u128 = if total <= 0xffff_ffff_ffff_ffff_ffff_ffff_ffff_ffffu128 - extra {
        total + extra - max_width as u128
    } else {
        0xffff_ffff_ffff_ffff_ffff_ffff_ffff_ffffu128
    };
    let mut cur = w0.clone();
    let mut done: Vec<bool> = Vec::new();
    let mut j: usize = 0;
    while j < n
        invariant
            j <= n,
            done@ == Seq::new(j as nat, |_i: int| false),
        decreases n - j,
    {
        done.push(false);
        assert(done@ =~= Seq::new((j + 1) as nat, |_i: int| false));
        j = j + 1;
    }
    assert(cur@ =~= w0@);
    proof {
        let d0 = Seq::new(n as nat, |_i: int| false);
        assert(done@ =~= d0);
        if over as int != true_over {
            lemma_reducible_le_sum(w0@, d0, n as int);
            lemma_shrink_saturated(w0@, w0@, d0, true_over, over as int, n as nat);
        }
    }
    let ghost goal = fitted_widths(w0@, max_width);
    let mut round: usize = 0;
    let mut finished = false;
    while round < n && !finished
        invariant
            round <= n == w0@.len(),
            finished ==> goal == cur@,
            cur@.len() == n,
            done@.len() == n,
            forall|i: int| 0 <= i < n ==> (#[trigger] cur@[i]) == w0@[i] || done@[i],
            forall|i: int| 0 <= i < n ==> (#[trigger] cur@[i]) <= w0@[i],
            goal == shrink_rounds(w0@, cur@, done@, over as int, (n - round) as nat),
        decreases n - round,
    {
        match widest_open_exec(w0, &done) {
            None => {
                finished = true;
            },
            Some(i) => {
                let w = w0[i];
                let red: usize = if w > MIN_COLUMN_WIDTH {
                    if ((w - MIN_COLUMN_WIDTH) as u128) < over {
                        w - MIN_COLUMN_WIDTH
                    } else {
                        over as usize
                    }
                } else {
                    0
                };
                assert(red == reduction(w0@[i as int], over as int));
                proof {
                    lemma_widest_open(w0@, done@, n as int);
                }
                let c = cur[i];
                assert(c == w0@[i as int]);
                cur.set(i, c - red);
                done.set(i, true);
                over = over - red as u128;
            },
        }
        round = round + 1;
    }
    cur
}

/// The wrapped lines of a cell in a column of width `w` (at least one column).
pub open spec fn cell_lines(cell: Seq<char>, w: usize) -> Seq<Seq<char>> {
    wrapped_of(
        cell,
        if w >= 1 {
            w
        } else {
            1usize
        },
    )
}

/// Physical rows that a logical row takes over its first `k` columns.
pub open spec fn height_upto(cells: Seq<Seq<char>>, w: Seq<usize>, k: int) -> nat
    decreases k,
{
    if k <= 0 {
        0
    } else {
        let m = height_upto(cells, w, k - 1);
        let n = cell_lines(cells[k - 1], w[k - 1]).len();
        let n1 = if n >= 1 {
            n
        } else {
            1
        };
        if n1 > m {
            n1
        } else {
            m
        }
    }
}

pub open spec fn seg_or_empty(segs: Seq<Seq<char>>, li: int) -> Seq<char> {
    if 0 <= li < segs.len() {
        segs[li]
    } else {
        Seq::empty()
    }
}

/// The cell texts of physical row `li` of a logical row.
pub open spec fn phys_cells(cells: Seq<Seq<char>>, w: Seq<usize>, li: int) -> Seq<Seq<char>> {
    Seq::new(w.len(), |i: int| seg_or_empty(cell_lines(cells[i], w[i]), li))
}

pub open spec fn border_span(text: Seq<char>) -> SpanView {
    (text, with_fg(plain_style(), Color::Gray))
}

pub open spec fn cell_style(header: bool) -> SpanStyle {
    if header {
        SpanStyle { bold: true, fg: Some(Color::Cyan), ..plain_style() }
    } else {
        plain_style()
    }
}

/// A cell's span: the text centered (header) or left-aligned, one space on
/// each side.
pub open spec fn cell_span(cell: Seq<char>, w: usize, header: bool) -> SpanView {
    let content = if header {
        centered(cell, w)
    } else {
        padded(cell, w)
    };
    (seq![' '] + content + seq![' '], cell_style(header))
}

/// Spans of a physical row over its first `k` cells, with vertical borders.
pub open spec fn row_spans(cells: Seq<Seq<char>>, w: Seq<usize>, header: bool, k: int) -> LineView
    decreases k,
{
    if k <= 0 {
        seq![border_span(seq!['│'])]
    } else {
        row_spans(cells, w, header, k - 1) + seq![
            cell_span(cells[k - 1], w[k - 1], header),
            border_span(seq!['│']),
        ]
    }
}

/// The physical rows of one logical row.
pub open spec fn block_lines(cells: Seq<Seq<char>>, w: Seq<usize>, header: bool) -> Seq<LineView> {
    Seq::new(
        height_upto(cells, w, w.len() as int),
        |li: int| row_spans(phys_cells(cells, w, li), w, header, w.len() as int),
    )
}

pub open spec fn border_line(left: char, mid: char, right: char, w: Seq<usize>) -> LineView {
    seq![border_span(border(left, mid, right, '─', w))]
}

/// Body rows, each followed by a separator line.
pub open spec fn body_lines(rows: Seq<Seq<Seq<char>>>, w: Seq<usize>, k: int) -> Seq<LineView>
    decreases k,
{
    if k <= 0 {
        Seq::empty()
    } else {
        body_lines(rows, w, k - 1) + block_lines(rows[k - 1], w, false) + seq![
            border_line('├', '┼', '┤', w),
        ]
    }
}

/// The lines of a table laid out for `max_width` columns: top border, the
/// header rows, a separator, each body row followed by a separator, and the
/// last separator replaced by the closing border.
pub open spec fn table_lines(headers: Seq<Seq<char>>, rows: Seq<Seq<Seq<char>>>, max_width: usize) -> Seq<
    LineView,
> {
    let cols = column_count(headers, rows);
    if cols == 0 {
        Seq::empty()
    } else {
        let hs = norm_row(headers, cols);
        let rs = rows.map_values(|r: Seq<Seq<char>>| norm_row(r, cols));
        let w = fitted_widths(natural_widths(hs, rs, cols), max_width);
        let all = seq![border_line('┌', '┬', '┐', w)] + block_lines(hs, w, true) + seq![
            border_line('├', '┼', '┤', w),
        ] + body_lines(rs, w, rs.len() as int);
        all.update(all.len() - 1, border_line('└', '┴', '┘', w))
    }
}

/// The wrapped lines of each cell of a logical row.
fn wrap_cells(cells: &Vec<Vec<char>>, w: &Vec<usize>) -> (r: Vec<Vec<Vec<char>>>)
    requires
        cells@.len() == w@.len(),
    ensures
        r@.len() == w@.len(),
        forall|i: int|
            0 <= i < w@.len() ==> chars_view((#[trigger] r@[i])@) == cell_lines(
                cells@[i]@,
                w@[i],
            ),
{
    let mut out: Vec<Vec<Vec<char>>> = Vec::new();
    let mut i: usize = 0;
    while i < w.len()
        invariant
            i <= w@.len(),
            cells@.len() == w@.len(),
            out@.len() == i,
            forall|j: int|
                0 <= j < i ==> chars_view((#[trigger] out@[j])@) == cell_lines(cells@[j]@, w@[j]),
        decreases w@.len() - i,
    {
        let cw = if w[i] >= 1 {
            w[i]
        } else {
            1
        };
        let segs = wrap_chars(&cells[i], cw);
        out.push(segs);
        i = i + 1;
    }
    out
}

/// Number of physical rows of a logical row.
fn row_height(segs: &Vec<Vec<Vec<char>>>, cells: Ghost<Seq<Seq<char>>>, w: Ghost<Seq<usize>>) -> (r:
    usize)
    requires
        segs@.len() == w@.len() == cells@.len(),
        forall|i: int|
            0 <= i < w@.len() ==> chars_view((#[trigger] segs@[i])@) == cell_lines(cells@[i], w@[i]),
    ensures
        r == height_upto(cells@, w@, w@.len() as int),
{
    let mut m: usize = 0;
    let mut i: usize = 0;
    while i < segs.len()
        invariant
            i <= segs@.len() == w@.len() == cells@.len(),
            forall|j: int|
                0 <= j < w@.len() ==> chars_view((#[trigger] segs@[j])@) == cell_lines(
                    cells@[j],
                    w@[j],
                ),
            m == height_upto(cells@, w@, i as int),
        decreases segs@.len() - i,
    {
        assert(chars_view(segs@[i as int]@).len() == segs@[i as int]@.len());
        let n = segs[i].len();
        let n1 = if n >= 1 {
            n
        } else {
            1
        };
        if n1 > m {
            m = n1;
        }
        i = i + 1;
    }
    m
}

/// The cell texts of physical row `li`.
fn phys_row(segs: &Vec<Vec<Vec<char>>>, li: usize, cells: Ghost<Seq<Seq<char>>>, w: Ghost<Seq<usize>>) -> (r:
    Vec<Vec<char>>)
    requires
        segs@.len() == w@.len() == cells@.len(),
        forall|i: int|
            0 <= i < w@.len() ==> chars_view((#[trigger] segs@[i])@) == cell_lines(cells@[i], w@[i]),
    ensures
        chars_view(r@) == phys_cells(cells@, w@, li as int),
{
    let mut out: Vec<Vec<char>> = Vec::new();
    let mut i: usize = 0;
    while i < segs.len()
        invariant
            i <= segs@.len() == w@.len() == cells@.len(),
            forall|j: int|
                0 <= j < w@.len() ==> chars_view((#[trigger] segs@[j])@) == cell_lines(
                    cells@[j],
                    w@[j],
                ),
            chars_view(out@) == phys_cells(cells@, w@, li as int).subrange(0, i as int),
        decreases segs@.len() - i,
    {
        assert(chars_view(segs@[i as int]@).len() == segs@[i as int]@.len());
        let c = if li < segs[i].len() {
            assert(chars_view(segs@[i as int]@)[li as int] == segs@[i as int]@[li as int]@);
            segs[i][li].clone()
        } else {
            Vec::new()
        };
        proof {
            lemma_chars_view_push(out@, c);
        }
        out.push(c);
        assert(chars_view(out@) =~= phys_cells(cells@, w@, li as int).subrange(0, i + 1));
        i = i + 1;
    }
    assert(phys_cells(cells@, w@, li as int).subrange(0, i as int) =~= phys_cells(
        cells@,
        w@,
        li as int,
    ));
    out
}

fn border_styled(text: String) -> (r: DisplayLine)
    ensures
        r@ == seq![border_span(text@)],
{
    let mut st = crate::layout::default_style();
    st.fg = Some(Color::Gray);
    single_span_line(text, st)
}

fn bar_span() -> (r: StyledSpan)
    ensures
        r@ == border_span(seq!['│']),
{
    let mut st = crate::layout::default_style();
    st.fg = Some(Color::Gray);
    let mut t = String::new();
    push_char(&mut t, '│');
    StyledSpan { text: t, style: st }
}

/// One physical row: vertical borders and each cell padded to its column.
pub fn render_row_styled(cells: &Vec<Vec<char>>, col_widths: &Vec<usize>, header: bool) -> (r:
    DisplayLine)
    requires
        cells@.len() == col_widths@.len(),
    ensures
        r@ == row_spans(chars_view(cells@), col_widths@, header, col_widths@.len() as int),
{
    let ghost cv = chars_view(cells@);
    let mut spans: Vec<StyledSpan> = Vec::new();
    let b0 = bar_span();
    spans.push(b0);
    let mut st = crate::layout::default_style();
    if header {
        st.bold = true;
        st.fg = Some(Color::Cyan);
    }
    assert(st == cell_style(header));
    assert(spans@.map_values(|s: StyledSpan| s@) =~= row_spans(cv, col_widths@, header, 0));
    let mut i: usize = 0;
    while i < cells.len()
        invariant
            i <= cells@.len() == col_widths@.len(),
            cv == chars_view(cells@),
            st == cell_style(header),
            spans@.map_values(|s: StyledSpan| s@) == row_spans(cv, col_widths@, header, i as int),
        decreases cells@.len() - i,
    {
        let content = if header {
            center_text(&cells[i], col_widths[i])
        } else {
            pad_right(&cells[i], col_widths[i])
        };
        let mut t: Vec<char> = Vec::new();
        t.push(' ');
        let mut j: usize = 0;
        while j < content.len()
            invariant
                j <= content@.len(),
                t@ == seq![' '] + content@.subrange(0, j as int),
            decreases content@.len() - j,
        {
            t.push(content[j]);
            assert(seq![' '] + content@.subrange(0, j + 1) =~= (seq![' '] + content@.subrange(
                0,
                j as int,
            )).push(content@[j as int]));
            j = j + 1;
        }
        t.push(' ');
        assert(content@.subrange(0, content@.len() as int) =~= content@);
        let span = StyledSpan { text: string_of(&t), style: st };
        assert(span@ == cell_span(cv[i as int], col_widths@[i as int], header));
        let b = bar_span();
        let ghost prev = spans@;
        spans.push(span);
        spans.push(b);
        assert(spans@.map_values(|s: StyledSpan| s@) =~= prev.map_values(|s: StyledSpan| s@)
            + seq![span@, b@]);
        i = i + 1;
    }
    DisplayLine { spans }
}

/// Appends the physical rows of one logical row.
fn push_block(out: &mut Vec<DisplayLine>, cells: &Vec<Vec<char>>, w: &Vec<usize>, header: bool)
    requires
        cells@.len() == w@.len(),
    ensures
        lines_view(final(out)@) == lines_view(old(out)@) + block_lines(chars_view(cells@), w@, header),
{
    let ghost cv = chars_view(cells@);
    let segs = wrap_cells(cells, w);
    let h = row_height(&segs, Ghost(cv), Ghost(w@));
    let ghost start = lines_view(out@);
    let ghost all = block_lines(cv, w@, header);
    let mut li: usize = 0;
    while li < h
        invariant
            li <= h,
            h == height_upto(cv, w@, w@.len() as int),
            cv == chars_view(cells@),
            cells@.len() == w@.len(),
            segs@.len() == w@.len(),
            forall|i: int|
                0 <= i < w@.len() ==> chars_view((#[trigger] segs@[i])@) == cell_lines(cv[i], w@[i]),
            all == block_lines(cv, w@, header),
            lines_view(out@) == start + all.subrange(0, li as int),
        decreases h - li,
    {
        let cells_li = phys_row(&segs, li, Ghost(cv), Ghost(w@));
        assert(chars_view(cells_li@).len() == cells_li@.len());
        let line = render_row_styled(&cells_li, w, header);
        proof {
            lemma_lines_view_push(out@, line);
        }
        out.push(line);
        assert(start + all.subrange(0, li + 1) =~= (start + all.subrange(0, li as int)).push(
            all[li as int],
        ));
        li = li + 1;
    }
    assert(all.subrange(0, li as int) =~= all);
}

/// Lays out a table for `max_width` columns (see `table_lines`).
pub fn render_table(headers: &Vec<Vec<char>>, rows: &Vec<Vec<Vec<char>>>, max_width: usize) -> (r:
    Vec<DisplayLine>)
    ensures
        lines_view(r@) == table_lines(chars_view(headers@), rows_view(rows@), max_width),
{
    let ghost hv = chars_view(headers@);
    let ghost rv = rows_view(rows@);
    let cols = count_columns(headers, rows);
    if cols == 0 {
        let r: Vec<DisplayLine> = Vec::new();
        assert(lines_view(r@) =~= Seq::<LineView>::empty());
        return r;
    }
    let hs = norm_cells(headers, cols);
    let ghost rsv = rv.map_values(|r: Seq<Seq<char>>| norm_row(r, cols as nat));
    let mut rs: Vec<Vec<Vec<char>>> = Vec::new();
    let mut k: usize = 0;
    while k < rows.len()
        invariant
            k <= rows@.len(),
            rv == rows_view(rows@),
            rsv == rv.map_values(|r: Seq<Seq<char>>| norm_row(r, cols as nat)),
            rows_view(rs@) == rsv.subrange(0, k as int),
            forall|j: int| 0 <= j < rs@.len() ==> (#[trigger] rs@[j])@.len() == cols,
        decreases rows@.len() - k,
    {
        let r = norm_cells(&rows[k], cols);
        assert(chars_view(r@).len() == r@.len());
        proof {
            lemma_rows_view_push(rs@, r);
        }
        rs.push(r);
        assert(rows_view(rs@) =~= rsv.subrange(0, k + 1));
        k = k + 1;
    }
    assert(rsv.subrange(0, k as int) =~= rsv);
    assert(chars_view(hs@).len() == hs@.len());
    let natural = natural_column_widths(&hs, &rs, cols);
    let w = fit_widths(&natural, max_width);
    let ghost wv = w@;
    assert(wv.len() == cols) by {
        lemma_fitted_len(natural@, max_width);
    }
    let mut out: Vec<DisplayLine> = Vec::new();
    let top = border_styled(draw_border('┌', '┬', '┐', '─', &w));
    proof {
        lemma_lines_view_push(out@, top);
    }
    out.push(top);
    push_block(&mut out, &hs, &w, true);
    let sep = border_styled(draw_border('├', '┼', '┤', '─', &w));
    proof {
        lemma_lines_view_push(out@, sep);
    }
    out.push(sep);
    let ghost head = lines_view(out@);
    let mut k: usize = 0;
    while k < rs.len()
        invariant
            k <= rs@.len(),
            w@ == wv,
            wv.len() == cols,
            rows_view(rs@) == rsv,
            forall|j: int| 0 <= j < rs@.len() ==> (#[trigger] rs@[j])@.len() == cols,
            lines_view(out@) == head + body_lines(rsv, wv, k as int),
        decreases rs@.len() - k,
    {
        assert(rsv[k as int] == chars_view(rs@[k as int]@));
        push_block(&mut out, &rs[k], &w, false);
        let sep = border_styled(draw_border('├', '┼', '┤', '─', &w));
        proof {
            lemma_lines_view_push(out@, sep);
        }
        out.push(sep);
        assert(lines_view(out@) =~= head + body_lines(rsv, wv, k + 1));
        k = k + 1;
    }
    let bottom = border_styled(draw_border('└', '┴', '┘', '─', &w));
    let last = out.len() - 1;
    let ghost before = out@;
    out.set(last, bottom);
    assert(lines_view(out@) =~= lines_view(before).update(last as int, bottom@));
    out
}

proof fn lemma_fitted_len(w0: Seq<usize>, max_width: usize)
    ensures
        fitted_widths(w0, max_width).len() == w0.len(),
{
    if table_width(w0) > max_width {
        lemma_shrink_len(w0, w0, Seq::new(w0.len(), |_i: int| false), table_width(w0) - max_width, w0.len());
    }
}

proof fn lemma_shrink_len(w0: Seq<usize>, cur: Seq<usize>, done: Seq<bool>, over: int, n: nat)
    requires
        cur.len() == w0.len(),
        done.len() == w0.len(),
    ensures
        shrink_rounds(w0, cur, done, over, n).len() == w0.len(),
    decreases n,
{
    if n > 0 {
        let i = widest_open(w0, done, w0.len() as int);
        lemma_widest_open(w0, done, w0.len() as int);
        if i >= 0 {
            let red = reduction(w0[i], over);
            lemma_shrink_len(
                w0,
                cur.update(i, (cur[i] - red) as usize),
                done.update(i, true),
                over - red,
                (n - 1) as nat,
            );
        }
    }
}

proof fn lemma_shrink_bounds(w0: Seq<usize>, cur: Seq<usize>, done: Seq<bool>, over: int, n: nat)
    requires
        cur.len() == w0.len(),
        done.len() == w0.len(),
        forall|i: int|
            0 <= i < w0.len() ==> cur[i] <= w0[i] && (cur[i] >= MIN_COLUMN_WIDTH || cur[i]
                == w0[i]),
        forall|i: int| 0 <= i < w0.len() && !done[i] ==> cur[i] == w0[i],
        over >= 0,
    ensures
        ({
            let r = shrink_rounds(w0, cur, done, over, n);
            &&& r.len() == w0.len()
            &&& forall|i: int|
                0 <= i < w0.len() ==> r[i] <= w0[i] && (r[i] >= MIN_COLUMN_WIDTH || r[i] == w0[i])
        }),
    decreases n,
{
    if n > 0 {
        let i = widest_open(w0, done, w0.len() as int);
        lemma_widest_open(w0, done, w0.len() as int);
        if i >= 0 {
            let red = reduction(w0[i], over);
            lemma_shrink_bounds(
                w0,
                cur.update(i, (cur[i] - red) as usize),
                done.update(i, true),
                over - red,
                (n - 1) as nat,
            );
        }
    }
}

/// Shrinking never widens a column, and never takes one below the floor of
/// three columns (a column narrower than that keeps its natural width): no
/// column is shrunk below its floor while another exceeds its natural width.
pub proof fn lemma_fitted_widths_bounds(natural: Seq<usize>, max_width: usize)
    ensures
        fitted_widths(natural, max_width).len() == natural.len(),
        forall|i: int|
            0 <= i < natural.len() ==> {
                let w = #[trigger] fitted_widths(natural, max_width)[i];
                &&& w <= natural[i]
                &&& w >= MIN_COLUMN_WIDTH || w == natural[i]
            },
{
    if table_width(natural) > max_width {
        lemma_shrink_bounds(
            natural,
            natural,
            Seq::new(natural.len(), |_i: int| false),
            table_width(natural) - max_width,
            natural.len(),
        );
    }
}

/// Columns not yet visited among the first `k`.
pub open spec fn open_count(done: Seq<bool>, k: int) -> nat
    decreases k,
{
    if k <= 0 {
        0
    } else {
        open_count(done, k - 1) + if !done[k - 1] {
            1nat
        } else {
            0nat
        }
    }
}

/// Each column at its floor: three columns, or its natural width if that is
/// less.
pub open spec fn floors(w: Seq<usize>) -> Seq<usize> {
    Seq::new(
        w.len(),
        |i: int|
            if w[i] > MIN_COLUMN_WIDTH {
                MIN_COLUMN_WIDTH
            } else {
                w[i]
            },
    )
}

proof fn lemma_sum_update(s: Seq<usize>, i: int, v: usize)
    requires
        0 <= i < s.len(),
    ensures
        sum(s.update(i, v)) == sum(s) - s[i] + v,
    decreases s.len(),
{
    if i == s.len() - 1 {
        assert(s.update(i, v).drop_last() =~= s.drop_last());
    } else {
        lemma_sum_update(s.drop_last(), i, v);
        assert(s.update(i, v).drop_last() =~= s.drop_last().update(i, v));
    }
}

proof fn lemma_open_close(done: Seq<bool>, i: int, k: int)
    requires
        0 <= i < done.len(),
        0 <= k <= done.len(),
        !done[i],
    ensures
        open_count(done.update(i, true), k) + if i < k {
            1nat
        } else {
            0nat
        } == open_count(done, k),
        i < k ==> open_count(done, k) >= 1,
    decreases k,
{
    if k > 0 {
        lemma_open_close(done, i, k - 1);
    }
}

proof fn lemma_none_open(w: Seq<usize>, done: Seq<bool>, k: int)
    requires
        0 <= k <= w.len(),
        done.len() == w.len(),
        widest_open(w, done, k) < 0,
    ensures
        open_count(done, k) == 0,
        reducible(w, done, k) == 0,
    decreases k,
{
    if k > 0 {
        lemma_none_open(w, done, k - 1);
    }
}

proof fn lemma_shrink_total(w0: Seq<usize>, cur: Seq<usize>, done: Seq<bool>, over: int, n: nat)
    requires
        cur.len() == w0.len(),
        done.len() == w0.len(),
        over >= 0,
        n >= open_count(done, w0.len() as int),
        forall|i: int| 0 <= i < w0.len() && !done[i] ==> cur[i] == w0[i],
    ensures
        ({
            let red = reducible(w0, done, w0.len() as int);
            sum(shrink_rounds(w0, cur, done, over, n)) == sum(cur) - if over < red {
                over
            } else {
                red
            }
        }),
    decreases n,
{
    let len = w0.len() as int;
    lemma_reducible_nonneg(w0, done, len);
    if n == 0 {
        lemma_widest_open(w0, done, len);
        let i = widest_open(w0, done, len);
        if i >= 0 {
            lemma_open_close(done, i, len);
        } else {
            lemma_none_open(w0, done, len);
        }
    } else {
        let i = widest_open(w0, done, len);
        lemma_widest_open(w0, done, len);
        if i < 0 {
            lemma_none_open(w0, done, len);
        } else {
            let red = reduction(w0[i], over);
            let cur2 = cur.update(i, (cur[i] - red) as usize);
            let done2 = done.update(i, true);
            lemma_open_close(done, i, len);
            lemma_reducible_close(w0, done, i, len);
            lemma_reducible_nonneg(w0, done2, len);
            lemma_sum_update(cur, i, (cur[i] - red) as usize);
            lemma_shrink_total(w0, cur2, done2, over - red, (n - 1) as nat);
        }
    }
}

proof fn lemma_reducible_all_open(w: Seq<usize>, k: int)
    requires
        0 <= k <= w.len(),
    ensures
        reducible(w, Seq::new(w.len(), |_i: int| false), k) == sum(w.subrange(0, k)) - sum(
            floors(w).subrange(0, k),
        ),
        open_count(Seq::new(w.len(), |_i: int| false), k) == k,
    decreases k,
{
    if k > 0 {
        lemma_reducible_all_open(w, k - 1);
        lemma_sum_step(w, k - 1);
        lemma_sum_step(floors(w), k - 1);
    }
}

/// When the columns at their floors fit the target width, a table wider than
/// the target is shrunk to exactly the target width.
pub proof fn lemma_fitted_widths_fit(natural: Seq<usize>, max_width: usize)
    requires
        table_width(natural) > max_width,
        table_width(floors(natural)) <= max_width,
    ensures
        table_width(fitted_widths(natural, max_width)) == max_width,
{
    let n = natural.len();
    let d0 = Seq::new(n, |_i: int| false);
    lemma_reducible_all_open(natural, n as int);
    assert(natural.subrange(0, n as int) =~= natural);
    assert(floors(natural).subrange(0, n as int) =~= floors(natural));
    lemma_shrink_total(natural, natural, d0, table_width(natural) - max_width, n);
    lemma_fitted_len(natural, max_width);
}

} // verus!
