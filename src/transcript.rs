//! Transcript formatting: timestamps, formatted lines and the language
//! preference list.
use vstd::prelude::*;
use crate::layout::chars_view;
use crate::layout::lemma_chars_view_push;
use crate::text::{chars_of, push_char, push_str, string_of, string_of_range, trim, trim_bounds};

verus! {

/// Decimal digits of `n`, most significant first.
pub open spec fn digits(n: nat) -> Seq<char>
    decreases n,
{
    if n < 10 {
        seq![digit_char(n)]
    } else {
        digits(n / 10).push(digit_char(n % 10))
    }
}

pub open spec fn digit_char(d: nat) -> char {
    if d < 10 {
        ((d + 48) as u8) as char
    } else {
        '?'
    }
}

/// `n` in decimal, zero-padded on the left to at least `w` digits.
pub open spec fn zero_padded(n: nat, w: nat) -> Seq<char> {
    let d = digits(n);
    if d.len() >= w {
        d
    } else {
        Seq::new((w - d.len()) as nat, |_i: int| '0') + d
    }
}

fn decimal(n: u64) -> (r: Vec<char>)
    ensures
        r@ == digits(n as nat),
    decreases n,
{
    if n < 10 {
        let c = ((n as u8) + 48) as char;
        vec![c]
    } else {
        let mut v = decimal(n / 10);
        let c = (((n % 10) as u8) + 48) as char;
        v.push(c);
        v
    }
}

fn push_padded(s: &mut String, n: u64, w: usize)
    ensures
        final(s)@ == old(s)@ + zero_padded(n as nat, w as nat),
{
    let d = decimal(n);
    if d.len() < w {
        let ghost before = s@;
        let k = w - d.len();
        let mut i: usize = 0;
        while i < k
            invariant
                i <= k,
                s@ == before + Seq::new(i as nat, |_i: int| '0'),
            decreases k - i,
        {
            push_char(s, '0');
            assert(s@ =~= before + Seq::new((i + 1) as nat, |_i: int| '0'));
            i = i + 1;
        }
    }
    let ghost mid = s@;
    let t = string_of(&d);
    push_str(s, t.as_str());
}

/// A timestamp as `[HH:]MM:SS.mmm`; the hours appear only when non-zero.
pub open spec fn timestamp_text(ms: nat) -> Seq<char> {
    let hours = ms / 3_600_000;
    let minutes = (ms % 3_600_000) / 60_000;
    let secs = (ms % 60_000) / 1_000;
    let millis = ms % 1_000;
    let tail = zero_padded(minutes, 2) + seq![':'] + zero_padded(secs, 2) + seq!['.'] + zero_padded(
        millis,
        3,
    );
    if hours > 0 {
        zero_padded(hours, 2) + seq![':'] + tail
    } else {
        tail
    }
}

/// Formats a time given in whole milliseconds.
pub fn format_timestamp(total_millis: u64) -> (r: String)
    ensures
        r@ == timestamp_text(total_millis as nat),
{
    let hours = total_millis / 3_600_000;
    let minutes = (total_millis % 3_600_000) / 60_000;
    let secs = (total_millis % 60_000) / 1_000;
    let millis = total_millis % 1_000;
    let mut s = String::new();
    if hours > 0 {
        push_padded(&mut s, hours, 2);
        push_char(&mut s, ':');
    }
    push_padded(&mut s, minutes, 2);
    push_char(&mut s, ':');
    push_padded(&mut s, secs, 2);
    push_char(&mut s, '.');
    push_padded(&mut s, millis, 3);
    proof {
        let tail = zero_padded(minutes as nat, 2) + seq![':'] + zero_padded(secs as nat, 2) + seq![
            '.',
        ] + zero_padded(millis as nat, 3);
        if hours > 0 {
            assert(s@ =~= zero_padded(hours as nat, 2) + seq![':'] + tail);
        } else {
            assert(s@ =~= tail);
        }
    }
    s
}

/// One transcript line: `[start - end] text`, the text trimmed.
pub open spec fn transcript_line(start_ms: nat, end_ms: nat, text: Seq<char>) -> Seq<char> {
    seq!['['] + timestamp_text(start_ms) + seq![' ', '-', ' '] + timestamp_text(end_ms) + seq![
        ']',
        ' ',
    ] + trim(text)
}

/// Formats one snippet of a transcript, its times in whole milliseconds.
pub fn format_transcript_line(start_ms: u64, end_ms: u64, text: &str) -> (r: String)
    ensures
        r@ == transcript_line(start_ms as nat, end_ms as nat, text@),
{
    let mut s = String::new();
    push_char(&mut s, '[');
    let a = format_timestamp(start_ms);
    push_str(&mut s, a.as_str());
    push_char(&mut s, ' ');
    push_char(&mut s, '-');
    push_char(&mut s, ' ');
    let b = format_timestamp(end_ms);
    push_str(&mut s, b.as_str());
    push_char(&mut s, ']');
    push_char(&mut s, ' ');
    let v = chars_of(text);
    let (x, y) = trim_bounds(&v);
    let t = string_of_range(&v, x, y);
    push_str(&mut s, t.as_str());
    assert(s@ =~= transcript_line(start_ms as nat, end_ms as nat, text@));
    s
}

/// Pieces of a text between commas, as `split(',')` yields them.
pub open spec fn comma_pieces(s: Seq<char>) -> Seq<Seq<char>> {
    let (done, cur) = comma_upto(s, s.len() as int);
    done.push(cur)
}

pub open spec fn comma_upto(s: Seq<char>, k: int) -> (Seq<Seq<char>>, Seq<char>)
    decreases k,
{
    if k <= 0 {
        (Seq::empty(), Seq::empty())
    } else {
        let (done, cur) = comma_upto(s, k - 1);
        if s[k - 1] == ',' {
            (done.push(cur), Seq::empty())
        } else {
            (done, cur.push(s[k - 1]))
        }
    }
}

/// The language preference list: comma-separated, each entry trimmed.
pub open spec fn languages_of(s: Seq<char>) -> Seq<Seq<char>> {
    comma_pieces(s).map_values(|p: Seq<char>| trim(p))
}

/// Parses a comma-separated language list.
pub fn parse_languages(s: &str) -> (r: Vec<String>)
    ensures
        r@.map_values(|x: String| x@) == languages_of(s@),
{
    let v = chars_of(s);
    let mut done: Vec<Vec<char>> = Vec::new();
    let mut cur: Vec<char> = Vec::new();
    let mut k: usize = 0;
    while k < v.len()
        invariant
            k <= v@.len(),
            v@ == s@,
            (chars_view(done@), cur@) == comma_upto(s@, k as int),
        decreases v@.len() - k,
    {
        if v[k] == ',' {
            proof {
                lemma_chars_view_push(done@, cur);
            }
            done.push(cur);
            cur = Vec::new();
            assert(cur@ =~= Seq::<char>::empty());
        } else {
            cur.push(v[k]);
        }
        k = k + 1;
    }
    proof {
        lemma_chars_view_push(done@, cur);
    }
    done.push(cur);
    let ghost pieces = chars_view(done@);
    let mut out: Vec<String> = Vec::new();
    let mut i: usize = 0;
    while i < done.len()
        invariant
            i <= done@.len(),
            pieces == chars_view(done@),
            pieces == comma_pieces(s@),
            out@.map_values(|x: String| x@) == pieces.map_values(|p: Seq<char>| trim(p)).subrange(
                0,
                i as int,
            ),
        decreases done@.len() - i,
    {
        let (a, b) = trim_bounds(&done[i]);
        let t = string_of_range(&done[i], a, b);
        let ghost before = out@;
        assert(pieces[i as int] == done@[i as int]@);
        out.push(t);
        assert(out@.map_values(|x: String| x@) =~= before.map_values(|x: String| x@).push(t@));
        assert(out@.map_values(|x: String| x@) =~= pieces.map_values(|p: Seq<char>| trim(p)).subrange(
            0,
            i + 1,
        ));
        i = i + 1;
    }
    assert(pieces.map_values(|p: Seq<char>| trim(p)).subrange(0, i as int) =~= pieces.map_values(
        |p: Seq<char>| trim(p),
    ));
    out
}

} // verus!
