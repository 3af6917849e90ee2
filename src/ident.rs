//! Identifier normalization: turning a raw URL or bare identifier into a
//! sanitized identifier that is safe for file names and service calls.
use vstd::prelude::*;
use crate::text::{
    chars_of, contains_seq, is_ascii_alnum, matches_at, occurs_at, string_of, string_of_range,
    sub_vec, trim, trim_bounds,
};

verus! {

/// Longest identifier accepted, in characters.
pub const MAX_VIDEO_ID_LEN: usize = 128;

/// Why an identifier was rejected.
#[derive(Debug, Clone, Copy, PartialEq, Eq)]
pub enum IdError {
    Empty,
    TooLong,
    UnsupportedCharacters,
}

impl IdError {
    /// A human-readable description of the error.
    pub fn message(&self) -> (r: &'static str) {
        match self {
            IdError::Empty => "Video ID cannot be empty",
            IdError::TooLong => "Video ID is unexpectedly long",
            IdError::UnsupportedCharacters => {
                "Video ID contains unsupported characters; expected only letters, numbers, '-' or '_'"
            },
        }
    }
}

/// Characters an identifier may hold: ASCII letters and digits, `-` and `_`.
pub open spec fn is_id_char(c: char) -> bool {
    is_ascii_alnum(c) || c == '-' || c == '_'
}

/// The identifier that `raw` stands for, or why it is rejected: the text is
/// trimmed, then must be non-empty, at most `MAX_VIDEO_ID_LEN` characters
/// long, and made of identifier characters only.
pub open spec fn sanitized(raw: Seq<char>) -> Result<Seq<char>, IdError> {
    let t = trim(raw);
    if t.len() == 0 {
        Err(IdError::Empty)
    } else if t.len() > MAX_VIDEO_ID_LEN {
        Err(IdError::TooLong)
    } else if !(forall|i: int| 0 <= i < t.len() ==> is_id_char(#[trigger] t[i])) {
        Err(IdError::UnsupportedCharacters)
    } else {
        Ok(t)
    }
}

/// Checks and normalizes an identifier.
pub fn sanitize_video_id(raw: &str) -> (r: Result<String, IdError>)
    ensures
        match r {
            Ok(s) => sanitized(raw@) == Ok::<Seq<char>, IdError>(s@),
            Err(e) => sanitized(raw@) == Err::<Seq<char>, IdError>(e),
        },
{
    let v = chars_of(raw);
    let (a, b) = trim_bounds(&v);
    let ghost t = v@.subrange(a as int, b as int);
    if a == b {
        return Err(IdError::Empty);
    }
    if b - a > MAX_VIDEO_ID_LEN {
        return Err(IdError::TooLong);
    }
    let mut i = a;
    while i < b
        invariant
            a <= i <= b <= v@.len(),
            t == v@.subrange(a as int, b as int),
            trim(raw@) == t,
            0 < t.len() <= MAX_VIDEO_ID_LEN,
            forall|k: int| 0 <= k < i - a ==> is_id_char(#[trigger] t[k]),
        decreases b - i,
    {
        let c = v[i];
        let ok = ('a' <= c && c <= 'z') || ('A' <= c && c <= 'Z') || ('0' <= c && c <= '9')
            || c == '-' || c == '_';
        if !ok {
            assert(t[i - a] == c);
            assert(!is_id_char(t[i - a]));
            assert(trim(raw@) == t);
            assert(!(forall|k: int| 0 <= k < t.len() ==> is_id_char(#[trigger] t[k])));
            return Err(IdError::UnsupportedCharacters);
        }
        i = i + 1;
    }
    Ok(string_of_range(&v, a, b))
}

/// Position of the first occurrence of `t` in `s`, if any.
#[verifier::opaque]
pub open spec fn first_at(s: Seq<char>, t: Seq<char>) -> Option<int> {
    if contains_seq(s, t) {
        Some(choose|k: int| occurs_at(s, t, k) && forall|m: int| 0 <= m < k ==> !occurs_at(s, t, m))
    } else {
        None
    }
}

/// What `split(t).next()` yields: the text before the first `t`, or all of it.
pub open spec fn piece_before(s: Seq<char>, t: Seq<char>) -> Seq<char> {
    match first_at(s, t) {
        Some(k) => s.subrange(0, k),
        None => s,
    }
}

/// What `split(t).nth(1)` yields: the text between the first and the second
/// `t`, if `t` occurs at all.
pub open spec fn second_piece(s: Seq<char>, t: Seq<char>) -> Option<Seq<char>> {
    match first_at(s, t) {
        Some(k) => Some(piece_before(s.subrange(k + t.len(), s.len() as int), t)),
        None => None,
    }
}

/// The raw identifier inside a URL: the `v=` query value, else the path after
/// `youtu.be/`, else the whole text.
pub open spec fn raw_id_of(url: Seq<char>) -> Seq<char> {
    match second_piece(url, seq!['v', '=']) {
        Some(p) => piece_before(p, seq!['&']),
        None => match second_piece(url, seq!['y', 'o', 'u', 't', 'u', '.', 'b', 'e', '/']) {
            Some(p) => piece_before(p, seq!['?']),
            None => url,
        },
    }
}

proof fn lemma_first_at(s: Seq<char>, t: Seq<char>, k: int)
    requires
        occurs_at(s, t, k),
        forall|m: int| 0 <= m < k ==> !occurs_at(s, t, m),
    ensures
        first_at(s, t) == Some(k),
{
    reveal(first_at);
    assert(contains_seq(s, t));
    let j = choose|j: int| occurs_at(s, t, j) && forall|m: int| 0 <= m < j ==> !occurs_at(s, t, m);
    if j < k {
        assert(!occurs_at(s, t, j));
    }
    if k < j {
        assert(!occurs_at(s, t, k));
    }
}

/// Position of the first occurrence of `t` in `s`, if any.
fn find(s: &Vec<char>, t: &Vec<char>) -> (r: Option<usize>)
    ensures
        match r {
            Some(k) => first_at(s@, t@) == Some(k as int) && k + t@.len() <= s@.len(),
            None => first_at(s@, t@) is None,
        },
{
    let mut k: usize = 0;
    while k < s.len()
        invariant
            k <= s@.len(),
            forall|m: int| 0 <= m < k ==> !occurs_at(s@, t@, m),
        decreases s@.len() - k,
    {
        if matches_at(s, t, k) {
            proof {
                lemma_first_at(s@, t@, k as int);
            }
            return Some(k);
        }
        k = k + 1;
    }
    if matches_at(s, t, k) {
        proof {
            lemma_first_at(s@, t@, k as int);
        }
        return Some(k);
    }
    assert forall|m: int| !occurs_at(s@, t@, m) by {
        if 0 <= m && m <= k {
        }
    }
    reveal(first_at);
    None
}

/// End of `piece_before(s, t)`.
fn piece_end(s: &Vec<char>, t: &Vec<char>) -> (r: usize)
    ensures
        r <= s@.len(),
        piece_before(s@, t@) == s@.subrange(0, r as int),
{
    match find(s, t) {
        Some(k) => k,
        None => {
            assert(s@.subrange(0, s@.len() as int) =~= s@);
            s.len()
        },
    }
}

/// `piece_before(second_piece(s, t), follow)`, when `t` occurs in `s`.
fn piece_of(s: &Vec<char>, t: &Vec<char>, follow: &Vec<char>) -> (r: Option<Vec<char>>)
    ensures
        match second_piece(s@, t@) {
            Some(p) => r is Some && r->0@ == piece_before(p, follow@),
            None => r is None,
        },
{
    match find(s, t) {
        None => None,
        Some(k) => {
            let n = s.len();
            let rest = sub_vec(s, k + t.len(), n);
            let mid = piece_end(&rest, t);
            let inner = sub_vec(&rest, 0, mid);
            let end = piece_end(&inner, follow);
            Some(sub_vec(&inner, 0, end))
        },
    }
}

/// Extracts the identifier from a URL or bare identifier and sanitizes it;
/// `None` when the result is not a valid identifier.
pub fn extract_video_id(url: &str) -> (r: Option<String>)
    ensures
        match sanitized(raw_id_of(url@)) {
            Ok(id) => r is Some && r->0@ == id,
            Err(_) => r is None,
        },
{
    let s = chars_of(url);
    let v_eq = vec!['v', '='];
    let be = vec!['y', 'o', 'u', 't', 'u', '.', 'b', 'e', '/'];
    let amp = vec!['&'];
    let qm = vec!['?'];
    assert(v_eq@ =~= seq!['v', '=']);
    assert(be@ =~= seq!['y', 'o', 'u', 't', 'u', '.', 'b', 'e', '/']);
    assert(amp@ =~= seq!['&']);
    assert(qm@ =~= seq!['?']);
    let raw = match piece_of(&s, &v_eq, &amp) {
        Some(p) => p,
        None => match piece_of(&s, &be, &qm) {
            Some(p) => p,
            None => s,
        },
    };
    let raw = string_of(&raw);
    match sanitize_video_id(raw.as_str()) {
        Ok(id) => Some(id),
        Err(_) => None,
    }
}

} // verus!
