//! Artifact naming and the sandbox rule for the two managed directories.
//! Reading and writing files is left to the caller; this module decides
//! names, recognizes artifacts and says whether a resolved path may be
//! touched.
use vstd::prelude::*;
use vstd::multiset::Multiset;
use crate::ident::{sanitize_video_id, sanitized, IdError};
use crate::scroll::ScrollWindow;
use crate::text::{chars_of, ends_with, is_prefix, is_suffix, push_str, starts_with, string_of, sub_vec};

verus! {

pub const TRANSCRIPTS_DIR: &'static str = "transcripts";

pub const REPORTS_DIR: &'static str = "reports";

pub const TRANSCRIPT_PREFIX: &'static str = "transcript_";

pub const TRANSCRIPT_SUFFIX: &'static str = ".txt";

pub const REPORT_PREFIX: &'static str = "report_";

pub const REPORT_SUFFIX: &'static str = ".md";

/// Kind of an artifact.
#[derive(Debug, Clone, Copy, PartialEq, Eq, Structural)]
pub enum FileType {
    Transcript,
    Report,
}

/// A stored artifact as listed by storage.
#[derive(Debug, Clone, PartialEq, Eq)]
pub struct FileEntry {
    /// Location of the file.
    pub path: String,
    /// File name.
    pub name: String,
    pub file_type: FileType,
    /// Size in bytes.
    pub size: u64,
    /// Last modification, in seconds since the Unix epoch.
    pub modified: u64,
}

/// The browse list: a scroll window over artifacts.
pub type FileList = ScrollWindow<FileEntry>;

/// Why a storage operation was refused.
#[derive(Debug, Clone, Copy, PartialEq, Eq)]
pub enum StorageError {
    /// The identifier is not valid.
    InvalidId(IdError),
    /// The target does not exist or cannot be resolved.
    Unresolvable,
    /// The target lies outside the managed directories.
    OutsideManaged,
}

impl StorageError {
    pub fn message(&self) -> (r: &'static str) {
        match self {
            StorageError::InvalidId(e) => e.message(),
            StorageError::Unresolvable => "Target file does not exist or cannot be resolved",
            StorageError::OutsideManaged => {
                "Refusing to operate on files outside managed transcript/report directories"
            },
        }
    }
}

/// `s` with every leading repetition of `p` removed, as `trim_start_matches`.
pub open spec fn strip_prefix_all(s: Seq<char>, p: Seq<char>) -> Seq<char>
    decreases s.len(),
{
    if p.len() > 0 && is_prefix(p, s) {
        strip_prefix_all(s.subrange(p.len() as int, s.len() as int), p)
    } else {
        s
    }
}

/// `s` with every trailing repetition of `p` removed, as `trim_end_matches`.
pub open spec fn strip_suffix_all(s: Seq<char>, p: Seq<char>) -> Seq<char>
    decreases s.len(),
{
    if p.len() > 0 && is_suffix(p, s) {
        strip_suffix_all(s.subrange(0, s.len() - p.len()), p)
    } else {
        s
    }
}

fn strip_prefix_exec(s: &Vec<char>, p: &Vec<char>) -> (r: Vec<char>)
    ensures
        r@ == strip_prefix_all(s@, p@),
{
    let mut cur = sub_vec(s, 0, s.len());
    assert(s@.subrange(0, s@.len() as int) =~= s@);
    while p.len() > 0 && starts_with(&cur, p)
        invariant
            strip_prefix_all(cur@, p@) == strip_prefix_all(s@, p@),
        decreases cur@.len(),
    {
        let n = cur.len();
        cur = sub_vec(&cur, p.len(), n);
    }
    cur
}

fn strip_suffix_exec(s: &Vec<char>, p: &Vec<char>) -> (r: Vec<char>)
    ensures
        r@ == strip_suffix_all(s@, p@),
{
    let mut cur = sub_vec(s, 0, s.len());
    assert(s@.subrange(0, s@.len() as int) =~= s@);
    while p.len() > 0 && ends_with(&cur, p)
        invariant
            strip_suffix_all(cur@, p@) == strip_suffix_all(s@, p@),
        decreases cur@.len(),
    {
        let n = cur.len();
        cur = sub_vec(&cur, 0, n - p.len());
    }
    cur
}

/// The identifier an artifact's file name stands for, if it is named like
/// one: `transcript_<id>.txt` or `report_<id>.md`.
pub open spec fn video_id_of(name: Seq<char>) -> Option<Seq<char>> {
    if is_prefix(TRANSCRIPT_PREFIX@, name) && is_suffix(TRANSCRIPT_SUFFIX@, name) {
        Some(strip_suffix_all(strip_prefix_all(name, TRANSCRIPT_PREFIX@), TRANSCRIPT_SUFFIX@))
    } else if is_prefix(REPORT_PREFIX@, name) && is_suffix(REPORT_SUFFIX@, name) {
        Some(strip_suffix_all(strip_prefix_all(name, REPORT_PREFIX@), REPORT_SUFFIX@))
    } else {
        None
    }
}

impl FileEntry {
    /// The identifier this artifact belongs to, read from its file name.
    pub fn video_id(&self) -> (r: Option<String>)
        ensures
            match video_id_of(self.name@) {
                Some(id) => r is Some && r->0@ == id,
                None => r is None,
            },
    {
        let name = chars_of(self.name.as_str());
        let tp = chars_of(TRANSCRIPT_PREFIX);
        let ts = chars_of(TRANSCRIPT_SUFFIX);
        let rp = chars_of(REPORT_PREFIX);
        let rs = chars_of(REPORT_SUFFIX);
        if starts_with(&name, &tp) && ends_with(&name, &ts) {
            let a = strip_prefix_exec(&name, &tp);
            let b = strip_suffix_exec(&a, &ts);
            Some(string_of(&b))
        } else if starts_with(&name, &rp) && ends_with(&name, &rs) {
            let a = strip_prefix_exec(&name, &rp);
            let b = strip_suffix_exec(&a, &rs);
            Some(string_of(&b))
        } else {
            None
        }
    }
}

/// Where the transcript of a valid identifier is stored.
pub open spec fn transcript_path_of(id: Seq<char>) -> Seq<char> {
    TRANSCRIPTS_DIR@ + seq!['/'] + TRANSCRIPT_PREFIX@ + id + TRANSCRIPT_SUFFIX@
}

/// Where the report of a valid identifier is stored.
pub open spec fn report_path_of(id: Seq<char>) -> Seq<char> {
    REPORTS_DIR@ + seq!['/'] + REPORT_PREFIX@ + id + REPORT_SUFFIX@
}

/// The components of a path: the pieces between `/`, empty ones and `.`
/// dropped, as `Path::components` yields them for a resolved path.
pub open spec fn components(s: Seq<char>) -> Seq<Seq<char>> {
    let (done, cur) = split_upto(s, s.len() as int);
    close_piece(done, cur)
}

pub open spec fn close_piece(done: Seq<Seq<char>>, cur: Seq<char>) -> Seq<Seq<char>> {
    if cur.len() > 0 && cur != seq!['.'] {
        done.push(cur)
    } else {
        done
    }
}

pub open spec fn split_upto(s: Seq<char>, k: int) -> (Seq<Seq<char>>, Seq<char>)
    decreases k,
{
    if k <= 0 {
        (Seq::empty(), Seq::empty())
    } else {
        let (done, cur) = split_upto(s, k - 1);
        if s[k - 1] == '/' {
            (close_piece(done, cur), Seq::empty())
        } else {
            (done, cur.push(s[k - 1]))
        }
    }
}

/// Whether `path` lies under `base`, compared component by component, with
/// absolute and relative paths never under one another.
pub open spec fn path_under(path: Seq<char>, base: Seq<char>) -> bool {
    let abs_p = path.len() > 0 && path[0] == '/';
    let abs_b = base.len() > 0 && base[0] == '/';
    let cp = components(path);
    let cb = components(base);
    abs_p == abs_b && cb.len() <= cp.len() && cp.subrange(0, cb.len() as int) == cb
}

fn components_exec(s: &Vec<char>) -> (r: Vec<Vec<char>>)
    ensures
        crate::layout::chars_view(r@) == components(s@),
{
    let mut done: Vec<Vec<char>> = Vec::new();
    let mut cur: Vec<char> = Vec::new();
    let mut k: usize = 0;
    while k < s.len()
        invariant
            k <= s@.len(),
            (crate::layout::chars_view(done@), cur@) == split_upto(s@, k as int),
        decreases s@.len() - k,
    {
        if s[k] == '/' {
            let dot = cur.len() == 1 && cur[0] == '.';
            if cur.len() > 0 && !dot {
                proof {
                    crate::layout::lemma_chars_view_push(done@, cur);
                }
                done.push(cur);
            } else {
                assert(dot ==> cur@ =~= seq!['.']);
                assert(cur@ =~= seq!['.'] ==> dot);
            }
            cur = Vec::new();
            assert(cur@ =~= Seq::<char>::empty());
        } else {
            cur.push(s[k]);
        }
        k = k + 1;
    }
    let dot = cur.len() == 1 && cur[0] == '.';
    if cur.len() > 0 && !dot {
        proof {
            crate::layout::lemma_chars_view_push(done@, cur);
        }
        done.push(cur);
    } else {
        assert(dot ==> cur@ =~= seq!['.']);
        assert(cur@ =~= seq!['.'] ==> dot);
    }
    done
}

fn same_chars(a: &Vec<char>, b: &Vec<char>) -> (r: bool)
    ensures
        r == (a@ == b@),
{
    if a.len() != b.len() {
        return false;
    }
    let r = starts_with(a, b);
    assert(a@.subrange(0, b@.len() as int) =~= a@);
    r
}

/// Whether the resolved `path` lies under the resolved `base`.
pub fn path_starts_with(path: &str, base: &str) -> (r: bool)
    ensures
        r == path_under(path@, base@),
{
    let p = chars_of(path);
    let b = chars_of(base);
    let abs_p = p.len() > 0 && p[0] == '/';
    let abs_b = b.len() > 0 && b[0] == '/';
    if abs_p != abs_b {
        return false;
    }
    let cp = components_exec(&p);
    let cb = components_exec(&b);
    let ghost vp = crate::layout::chars_view(cp@);
    let ghost vb = crate::layout::chars_view(cb@);
    if cb.len() > cp.len() {
        return false;
    }
    let mut i: usize = 0;
    while i < cb.len()
        invariant
            i <= cb@.len() <= cp@.len(),
            vp == crate::layout::chars_view(cp@),
            vb == crate::layout::chars_view(cb@),
            vp == components(path@),
            vb == components(base@),
            (path@.len() > 0 && path@[0] == '/') == (base@.len() > 0 && base@[0] == '/'),
            forall|j: int| 0 <= j < i ==> vp[j] == vb[j],
        decreases cb@.len() - i,
    {
        assert(vp[i as int] == cp@[i as int]@ && vb[i as int] == cb@[i as int]@);
        if !same_chars(&cp[i], &cb[i]) {
            assert(vp.subrange(0, vb.len() as int)[i as int] != vb[i as int]);
            return false;
        }
        i = i + 1;
    }
    assert(vp.subrange(0, vb.len() as int) =~= vb);
    true
}

/// Whether a resolved path may be operated on: it must lie under one of the
/// resolved managed directories (a directory that could not be resolved
/// admits nothing).
pub open spec fn managed(path: Seq<char>, transcripts: Option<Seq<char>>, reports: Option<Seq<char>>) -> bool {
    (transcripts is Some && path_under(path, transcripts->0)) || (reports is Some && path_under(
        path,
        reports->0,
    ))
}

/// The storage service: artifact naming for the managed directories.
pub struct StorageService;

impl StorageService {
    /// Path of the transcript for an identifier, once it is sanitized.
    pub fn transcript_path(video_id: &str) -> (r: Result<String, StorageError>)
        ensures
            match sanitized(video_id@) {
                Ok(id) => r == Ok::<String, StorageError>(r->Ok_0) && r->Ok_0@ == transcript_path_of(id),
                Err(e) => r == Err::<String, StorageError>(StorageError::InvalidId(e)),
            },
    {
        match sanitize_video_id(video_id) {
            Ok(id) => {
                let mut p = String::new();
                push_str(&mut p, TRANSCRIPTS_DIR);
                push_str(&mut p, "/");
                push_str(&mut p, TRANSCRIPT_PREFIX);
                push_str(&mut p, id.as_str());
                push_str(&mut p, TRANSCRIPT_SUFFIX);
                proof {
                    reveal_strlit("/");
                    assert("/"@ =~= seq!['/']);
                }
                Ok(p)
            },
            Err(e) => Err(StorageError::InvalidId(e)),
        }
    }

    /// Path of the report for an identifier, once it is sanitized.
    pub fn report_path(video_id: &str) -> (r: Result<String, StorageError>)
        ensures
            match sanitized(video_id@) {
                Ok(id) => r == Ok::<String, StorageError>(r->Ok_0) && r->Ok_0@ == report_path_of(id),
                Err(e) => r == Err::<String, StorageError>(StorageError::InvalidId(e)),
            },
    {
        match sanitize_video_id(video_id) {
            Ok(id) => {
                let mut p = String::new();
                push_str(&mut p, REPORTS_DIR);
                push_str(&mut p, "/");
                push_str(&mut p, REPORT_PREFIX);
                push_str(&mut p, id.as_str());
                push_str(&mut p, REPORT_SUFFIX);
                proof {
                    reveal_strlit("/");
                    assert("/"@ =~= seq!['/']);
                }
                Ok(p)
            },
            Err(e) => Err(StorageError::InvalidId(e)),
        }
    }
}

/// Decides whether a delete may go ahead, given the target and the two
/// managed directories as they resolved (`None` where resolution failed).
pub fn ensure_managed_path(
    canonical: Option<&str>,
    transcripts_base: Option<&str>,
    reports_base: Option<&str>,
) -> (r: Result<(), StorageError>)
    ensures
        match canonical {
            None => r == Err::<(), StorageError>(StorageError::Unresolvable),
            Some(p) => if managed(
                p@,
                match transcripts_base {
                    Some(t) => Some(t@),
                    None => None,
                },
                match reports_base {
                    Some(b) => Some(b@),
                    None => None,
                },
            ) {
                r == Ok::<(), StorageError>(())
            } else {
                r == Err::<(), StorageError>(StorageError::OutsideManaged)
            },
        },
{
    match canonical {
        None => Err(StorageError::Unresolvable),
        Some(p) => {
            let in_t = match transcripts_base {
                Some(t) => path_starts_with(p, t),
                None => false,
            };
            let in_r = match reports_base {
                Some(b) => path_starts_with(p, b),
                None => false,
            };
            if in_t || in_r {
                Ok(())
            } else {
                Err(StorageError::OutsideManaged)
            }
        },
    }
}

/// Whether a file name names an artifact of this kind: `transcript_*.txt` or
/// `report_*.md`.
pub open spec fn artifact_named(kind: FileType, name: Seq<char>) -> bool {
    match kind {
        FileType::Transcript => is_prefix(TRANSCRIPT_PREFIX@, name) && is_suffix(
            TRANSCRIPT_SUFFIX@,
            name,
        ),
        FileType::Report => is_prefix(REPORT_PREFIX@, name) && is_suffix(REPORT_SUFFIX@, name),
    }
}

/// Recognizes an artifact's file name in the directory of its kind.
pub fn is_artifact_name(kind: FileType, name: &str) -> (r: bool)
    ensures
        r == artifact_named(kind, name@),
{
    let n = chars_of(name);
    let (p, s) = match kind {
        FileType::Transcript => (chars_of(TRANSCRIPT_PREFIX), chars_of(TRANSCRIPT_SUFFIX)),
        FileType::Report => (chars_of(REPORT_PREFIX), chars_of(REPORT_SUFFIX)),
    };
    starts_with(&n, &p) && ends_with(&n, &s)
}

/// Artifacts ordered newest first; artifacts equally recent keep their order.
pub fn newest_first(v: Vec<FileEntry>) -> (r: Vec<FileEntry>)
    ensures
        r@.to_multiset() == v@.to_multiset(),
        forall|i: int, j: int| 0 <= i < j < r@.len() ==> r@[i].modified >= r@[j].modified,
{
    broadcast use vstd::seq_lib::group_to_multiset_ensures;

    let ghost orig = v@;
    let mut rem = v;
    let mut out: Vec<FileEntry> = Vec::new();
    assert(out@.to_multiset() =~= Multiset::<FileEntry>::empty());
    assert(out@.to_multiset().add(rem@.to_multiset()) =~= orig.to_multiset());
    while rem.len() > 0
        invariant
            out@.to_multiset().add(rem@.to_multiset()) == orig.to_multiset(),
            forall|i: int, j: int| 0 <= i < j < out@.len() ==> out@[i].modified >= out@[j].modified,
            forall|i: int, j: int|
                0 <= i < out@.len() && 0 <= j < rem@.len() ==> out@[i].modified
                    >= rem@[j].modified,
        decreases rem@.len(),
    {
        let mut best: usize = 0;
        let mut k: usize = 1;
        while k < rem.len()
            invariant
                best < rem@.len(),
                1 <= k <= rem@.len(),
                forall|j: int| 0 <= j < k ==> rem@[best as int].modified >= rem@[j].modified,
            decreases rem@.len() - k,
        {
            if rem[k].modified > rem[best].modified {
                best = k;
            }
            k = k + 1;
        }
        let ghost before_rem = rem@;
        let ghost before_out = out@;
        let e = rem.remove(best);
        assert(before_rem.contains(e)) by {
            assert(before_rem[best as int] == e);
        }
        out.push(e);
        proof {
            before_out.to_multiset_ensures();
            before_rem.to_multiset_ensures();
            assert(out@ == before_out.push(e));
            assert(rem@ == before_rem.remove(best as int));
        }
        assert(out@.to_multiset() =~= before_out.to_multiset().insert(e));
        assert(rem@.to_multiset() =~= before_rem.to_multiset().remove(e));
        assert(out@.to_multiset().add(rem@.to_multiset()) =~= before_out.to_multiset().add(
            before_rem.to_multiset(),
        ));
        assert forall|i: int, j: int|
            0 <= i < out@.len() && 0 <= j < rem@.len() implies out@[i].modified
                >= rem@[j].modified by {
            if j < best {
                assert(rem@[j] == before_rem[j]);
            } else {
                assert(rem@[j] == before_rem[j + 1]);
            }
        }
    }
    out
}

} // verus!
