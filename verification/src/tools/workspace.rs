//! Workspace paths, typo recovery for missing paths, and recognising SQLite
//! files that the tools must never read.
use vstd::prelude::*;

use crate::text::{
    chars_eq, chars_of, ends_with, ends_with_chars, eq_ignore_ascii_case,
    eq_ignore_ascii_case_chars, push_str, slice_range, starts_with, starts_with_chars, string_of,
};
use crate::tools::types::ToolError;

verus! {

pub open spec fn min_nat(a: nat, b: nat) -> nat {
    if a <= b {
        a
    } else {
        b
    }
}

/// Levenshtein distance: the fewest single-character insertions, deletions
/// and substitutions that turn `a` into `b`.
pub open spec fn edit_distance(a: Seq<char>, b: Seq<char>) -> nat
    decreases a.len() + b.len(),
{
    if a.len() == 0 {
        b.len()
    } else if b.len() == 0 {
        a.len()
    } else {
        let cost: nat = if a.last() == b.last() {
            0
        } else {
            1
        };
        min_nat(
            min_nat(edit_distance(a.drop_last(), b) + 1, edit_distance(a, b.drop_last()) + 1),
            edit_distance(a.drop_last(), b.drop_last()) + cost,
        )
    }
}

/// The distance never exceeds the longer length.
pub proof fn lemma_edit_distance_bound(a: Seq<char>, b: Seq<char>)
    ensures
        edit_distance(a, b) <= if a.len() >= b.len() {
            a.len()
        } else {
            b.len()
        },
    decreases a.len() + b.len(),
{
    if a.len() > 0 && b.len() > 0 {
        lemma_edit_distance_bound(a.drop_last(), b.drop_last());
    }
}

/// Distance from `a` to `b`, row by row.
pub fn str_distance(a: &str, b: &str) -> (r: usize)
    requires
        a@.len() < usize::MAX,
        b@.len() < usize::MAX,
    ensures
        r == edit_distance(a@, b@),
{
    let ac = chars_of(a);
    let bc = chars_of(b);
    let m = bc.len();
    let mut prev: Vec<usize> = Vec::new();
    let mut j: usize = 0;
    while j <= m
        invariant
            j <= m + 1,
            m == bc@.len(),
            m < usize::MAX,
            prev@.len() == j,
            forall|k: int| 0 <= k < j ==> #[trigger] prev@[k] == edit_distance(Seq::empty(), bc@.take(k)),
        decreases m + 1 - j,
    {
        prev.push(j);
        j = j + 1;
    }
    let n = ac.len();
    let mut i: usize = 0;
    while i < ac.len()
        invariant
            i <= ac@.len(),
            ac@.len() == n,
            n < usize::MAX,
            m == bc@.len(),
            m < usize::MAX,
            prev@.len() == m + 1,
            forall|k: int| 0 <= k <= m ==> #[trigger] prev@[k] == edit_distance(ac@.take(i as int), bc@.take(k)),
        decreases ac.len() - i,
    {
        let ghost ai = ac@.take(i as int);
        let ghost ai1 = ac@.take(i + 1);
        assert(ai1.drop_last() =~= ai);
        let mut curr: Vec<usize> = Vec::new();
        curr.push(i + 1);
        assert(bc@.take(0) =~= Seq::<char>::empty());
        let mut j: usize = 0;
        while j < m
            invariant
                i < ac@.len(),
                ac@.len() == n,
                n < usize::MAX,
                j <= m,
                m == bc@.len(),
                m < usize::MAX,
                ai == ac@.take(i as int),
                ai1 == ac@.take(i + 1),
                ai1.drop_last() == ai,
                ai1.last() == ac@[i as int],
                prev@.len() == m + 1,
                forall|k: int| 0 <= k <= m ==> #[trigger] prev@[k] == edit_distance(ai, bc@.take(k)),
                curr@.len() == j + 1,
                forall|k: int| 0 <= k <= j ==> #[trigger] curr@[k] == edit_distance(ai1, bc@.take(k)),
            decreases m - j,
        {
            let ghost bj = bc@.take(j as int);
            let ghost bj1 = bc@.take(j + 1);
            assert(bj1.drop_last() =~= bj);
            proof {
                lemma_edit_distance_bound(ai, bj1);
                lemma_edit_distance_bound(ai1, bj);
                lemma_edit_distance_bound(ai, bj);
            }
            assert(prev@[j + 1] == edit_distance(ai, bj1));
            assert(curr@[j as int] == edit_distance(ai1, bj));
            assert(prev@[j as int] == edit_distance(ai, bj));
            assert(ai.len() == i && ai1.len() == i + 1);
            assert(bj.len() == j && bj1.len() == j + 1);
            assert(prev@[j + 1] < usize::MAX);
            assert(curr@[j as int] < usize::MAX);
            let cost: usize = if ac[i] == bc[j] {
                0
            } else {
                1
            };
            let del = prev[j + 1] + 1;
            let ins = curr[j] + 1;
            let sub = prev[j] + cost;
            let mut best = if del <= ins {
                del
            } else {
                ins
            };
            if sub < best {
                best = sub;
            }
            curr.push(best);
            assert(curr@[j + 1] == edit_distance(ai1, bj1));
            j = j + 1;
        }
        prev = curr;
        i = i + 1;
    }
    assert(ac@.take(ac@.len() as int) =~= ac@);
    assert(bc@.take(m as int) =~= bc@);
    prev[m]
}

/// Whether the first bytes of a file mark a SQLite database or its journal
/// or write-ahead log.
pub open spec fn sqlite_magic(magic: Seq<u8>) -> bool {
    (magic.len() >= 15 && magic.take(15) == "SQLite format 3"@.map_values(|c: char| c as u8)) || (
    magic.len() >= 4 && ((magic[0] == 0x37 && magic[1] == 0x7f && magic[2] == 0x06 && (magic[3]
        == 0x82 || magic[3] == 0x83)) || ((magic[0] == 0x82 || magic[0] == 0x83) && magic[1] == 0x06
        && magic[2] == 0x7f && magic[3] == 0x37)))
}

pub fn sqlite_family_header(magic: &[u8]) -> (r: bool)
    ensures
        r == sqlite_magic(magic@),
{
    let text = chars_of("SQLite format 3");
    proof {
        reveal_strlit("SQLite format 3");
    }
    assert(text@.len() == 15);
    if magic.len() >= 15 {
        let mut k: usize = 0;
        let mut same = true;
        while k < 15
            invariant
                k <= 15,
                magic@.len() >= 15,
                text@ == "SQLite format 3"@,
                text@.len() == 15,
                same == forall|m: int| 0 <= m < k ==> magic@[m] == (text@[m] as u8),
            decreases 15 - k,
        {
            if magic[k] != (text[k] as u8) {
                same = false;
            }
            k = k + 1;
        }
        if same {
            assert(magic@.take(15) =~= "SQLite format 3"@.map_values(|c: char| c as u8));
            return true;
        } else {
            assert(magic@.take(15) != "SQLite format 3"@.map_values(|c: char| c as u8)) by {
                let m = choose|m: int| 0 <= m < 15 && magic@[m] != (text@[m] as u8);
                assert(magic@.take(15)[m] != "SQLite format 3"@.map_values(|c: char| c as u8)[m]);
            }
        }
    }
    if magic.len() < 4 {
        return false;
    }
    let (b0, b1, b2, b3) = (magic[0], magic[1], magic[2], magic[3]);
    (b0 == 0x37 && b1 == 0x7f && b2 == 0x06 && (b3 == 0x82 || b3 == 0x83)) || ((b0 == 0x82 || b0
        == 0x83) && b1 == 0x06 && b2 == 0x7f && b3 == 0x37)
}

/// The database a `-wal`, `-shm` or `-journal` file belongs to: the file name
/// without that suffix, when something is left.
pub open spec fn sidecar_stem(name: Seq<char>) -> Option<Seq<char>> {
    let stem = if ends_with(name, "-wal"@) {
        Some(name.take(name.len() - 4))
    } else if ends_with(name, "-shm"@) {
        Some(name.take(name.len() - 4))
    } else if ends_with(name, "-journal"@) {
        Some(name.take(name.len() - 8))
    } else {
        None
    };
    match stem {
        Some(s) => if s.len() > 0 {
            Some(s)
        } else {
            None
        },
        None => None,
    }
}

/// File name of the database beside a sidecar file, if `file_name` is one.
pub fn sqlite_sidecar_sibling(file_name: &str) -> (r: Option<String>)
    ensures
        match r {
            Some(s) => sidecar_stem(file_name@) == Some(s@),
            None => sidecar_stem(file_name@) is None,
        },
{
    proof {
        reveal_strlit("-wal");
        reveal_strlit("-shm");
        reveal_strlit("-journal");
    }
    let n = chars_of(file_name);
    let wal = chars_of("-wal");
    let shm = chars_of("-shm");
    let journal = chars_of("-journal");
    let cut = if ends_with_chars(n.as_slice(), wal.as_slice()) {
        4
    } else if ends_with_chars(n.as_slice(), shm.as_slice()) {
        4
    } else if ends_with_chars(n.as_slice(), journal.as_slice()) {
        8
    } else {
        return None;
    };
    let stem = slice_range(n.as_slice(), 0, n.len() - cut);
    assert(stem@ =~= n@.take(n@.len() - cut));
    if stem.len() == 0 {
        return None;
    }
    Some(string_of(stem.as_slice()))
}

/// A SQLite database, its write-ahead log, or the shared-memory file beside
/// it, judged from the first bytes of the file and, for a sidecar, of its
/// database.
pub fn file_starts_with_sqlite_header(magic: &[u8], sibling_magic: Option<&[u8]>) -> (r: bool)
    ensures
        r == (sqlite_magic(magic@) || match sibling_magic {
            Some(m) => sqlite_magic(m@),
            None => false,
        }),
{
    if sqlite_family_header(magic) {
        return true;
    }
    match sibling_magic {
        Some(m) => sqlite_family_header(m),
        None => false,
    }
}

/// `s` with every backslash turned into a slash.
pub open spec fn slashes(s: Seq<char>) -> Seq<char> {
    s.map_values(|c: char| if c == '\\' { '/' } else { c })
}

pub fn normalize_separators(s: &str) -> (r: String)
    ensures
        r@ == slashes(s@),
{
    let c = chars_of(s);
    let mut out: Vec<char> = Vec::new();
    let mut i: usize = 0;
    while i < c.len()
        invariant
            i <= c@.len(),
            out@ == slashes(c@.take(i as int)),
        decreases c.len() - i,
    {
        let ch = if c[i] == '\\' {
            '/'
        } else {
            c[i]
        };
        out.push(ch);
        assert(out@ =~= slashes(c@.take(i + 1)));
        i = i + 1;
    }
    assert(c@.take(c@.len() as int) =~= c@);
    string_of(out.as_slice())
}

/// `p` relative to `root`, when `p` is `root` or below it as a path.
pub open spec fn below(root: Seq<char>, p: Seq<char>) -> Option<Seq<char>> {
    if p == root {
        Some(Seq::empty())
    } else if starts_with(p, root + "/"@) {
        Some(p.skip(root.len() + 1 as int))
    } else {
        None
    }
}

/// A workspace root; tool paths resolve under it. The root is kept as it is
/// given: the host makes it canonical and absolute before building one.
#[derive(Debug)]
pub struct Workspace {
    root: String,
}

impl Clone for Workspace {
    fn clone(&self) -> (r: Self)
        ensures
            r.root_text() == self.root_text(),
    {
        Workspace { root: self.root.clone() }
    }
}

impl Workspace {
    pub closed spec fn root_text(&self) -> Seq<char> {
        self.root@
    }

    /// A workspace whose root is `root`, as given.
    pub fn new(root: String) -> (r: Self)
        ensures
            r.root_text() == root@,
    {
        Workspace { root }
    }

    pub fn root(&self) -> (r: &str)
        ensures
            r@ == self.root_text(),
    {
        self.root.as_str()
    }

    /// `p` relative to the root, when it is the root or below it.
    pub fn below_root(&self, p: &[char]) -> (r: Option<Vec<char>>)
        ensures
            match r {
                Some(x) => below(self.root_text(), p@) == Some(x@),
                None => below(self.root_text(), p@) is None,
            },
    {
        let root = chars_of(self.root.as_str());
        if chars_eq(p, root.as_slice()) {
            return Some(Vec::new());
        }
        let mut with_sep = root.clone();
        with_sep.push('/');
        proof {
            reveal_strlit("/");
        }
        assert(with_sep@ =~= root@ + "/"@);
        if starts_with_chars(p, with_sep.as_slice()) {
            let rest = slice_range(p, with_sep.len(), p.len());
            assert(rest@ =~= p@.skip(root@.len() + 1 as int));
            Some(rest)
        } else {
            None
        }
    }

    /// `p` relative to the root for display, with forward slashes; a path
    /// outside the root is shown whole.
    pub fn display_rel(&self, p: &str) -> (r: String)
        ensures
            r@ == slashes(match below(self.root_text(), p@) {
                Some(rel) => rel,
                None => p@,
            }),
    {
        let pc = chars_of(p);
        let shown = match self.below_root(pc.as_slice()) {
            Some(rel) => string_of(rel.as_slice()),
            None => String::from_str(p),
        };
        normalize_separators(shown.as_str())
    }
}

/// The workspace-relative path to re-check before a mutation: `path`
/// relative to the root, with forward slashes, or `OutsideWorkspace` when it
/// is not under the root.
pub fn mutating_rel_path(ws: &Workspace, path: &str) -> (r: Result<String, ToolError>)
    ensures
        match r {
            Ok(rel) => (below(ws.root_text(), path@) matches Some(x) && rel@ == slashes(x)),
            Err(e) => below(ws.root_text(), path@) is None && (e matches ToolError::OutsideWorkspace(p)
                && p@ == slashes(path@)),
        },
{
    let pc = chars_of(path);
    match ws.below_root(pc.as_slice()) {
        Some(rel) => {
            let s = string_of(rel.as_slice());
            Ok(normalize_separators(s.as_str()))
        },
        None => Err(ToolError::OutsideWorkspace(ws.display_rel(path))),
    }
}

/// What undoing a file mutation takes.
#[derive(Debug)]
pub enum RevertAction {
    /// Write the old contents back.
    Write(String),
    /// Remove the file, which did not exist before.
    Remove,
    /// Nothing to undo.
    Keep,
}

/// How to undo a mutation of a file whose old contents were `before`.
pub fn revert_file(before: Option<&str>, existed: bool) -> (r: RevertAction)
    ensures
        match before {
            Some(c) => r matches RevertAction::Write(s) && s@ == c@,
            None => if existed {
                r is Keep
            } else {
                r is Remove
            },
        },
{
    match before {
        Some(content) => RevertAction::Write(String::from_str(content)),
        None => if !existed {
            RevertAction::Remove
        } else {
            RevertAction::Keep
        },
    }
}

/// A file seen while walking the workspace for typo recovery.
#[derive(Debug)]
pub struct PathCandidate {
    /// Path relative to the root, with forward slashes.
    pub rel: String,
    /// Final component of the path, when it is valid text.
    pub file_name: Option<String>,
}

pub struct CandidateView {
    pub rel: Seq<char>,
    pub file_name: Option<Seq<char>>,
}

pub open spec fn candidate_view(c: PathCandidate) -> CandidateView {
    CandidateView {
        rel: c.rel@,
        file_name: match c.file_name {
            Some(f) => Some(f@),
            None => None,
        },
    }
}

/// Whether a distance is close enough to suggest: at most 3, or at most a
/// third of the request's UTF-8 byte length when that is at least 6.
pub open spec fn close_enough(dist: nat, req_len: nat) -> bool {
    dist <= 3 || (req_len >= 6 && dist <= req_len / 3)
}

/// Scan state after the candidates `cs`: either a suggestion made on an
/// exact file-name match, or the closest path so far (first one wins ties).
pub open spec fn scan(cs: Seq<CandidateView>, req: Seq<char>, req_name: Seq<char>, req_bytes: nat) -> (Option<Seq<char>>, Option<(nat, Seq<char>)>)
    decreases cs.len(),
{
    if cs.len() == 0 {
        (None, None)
    } else {
        let (done, best) = scan(cs.drop_last(), req, req_name, req_bytes);
        let c = cs.last();
        if done is Some {
            (done, best)
        } else if c.rel == req {
            (None, best)
        } else if (c.file_name matches Some(f) && eq_ignore_ascii_case(f, req_name)) {
            (Some(c.rel), best)
        } else {
            let d = edit_distance(c.rel, req);
            if close_enough(d, req_bytes) && match best {
                Some(b) => d < b.0,
                None => true,
            } {
                (None, Some((d, c.rel)))
            } else {
                (None, best)
            }
        }
    }
}

pub open spec fn did_you_mean(p: Seq<char>) -> Seq<char> {
    ". Did you mean '"@ + p + "'?"@
}

/// The typo-recovery hint for a missing path.
pub open spec fn suggestion(cs: Seq<CandidateView>, req: Seq<char>, req_name: Seq<char>, req_bytes: nat) -> Option<Seq<char>> {
    let (done, best) = scan(cs, req, req_name, req_bytes);
    match done {
        Some(p) => Some(did_you_mean(p)),
        None => match best {
            Some(b) => Some(did_you_mean(b.1)),
            None => None,
        },
    }
}

fn hint(p: &str) -> (r: String)
    ensures
        r@ == did_you_mean(p@),
{
    let mut s = String::from_str(". Did you mean '");
    push_str(&mut s, p);
    push_str(&mut s, "'?");
    s
}

/// A closely matching workspace file for a path that does not exist: the
/// first file of the same name (any ASCII case) elsewhere, else the closest
/// path by edit distance, if close enough.
pub fn find_similar_paths(requested: &str, requested_name: &str, candidates: &Vec<PathCandidate>) -> (r: Option<String>)
    requires
        requested@.len() < usize::MAX,
        forall|k: int| 0 <= k < candidates@.len() ==> #[trigger] candidates@[k].rel@.len() < usize::MAX,
    ensures
        match r {
            Some(s) => suggestion(candidates@.map_values(|c: PathCandidate| candidate_view(c)), requested@, requested_name@, requested.len() as nat) == Some(s@),
            None => suggestion(candidates@.map_values(|c: PathCandidate| candidate_view(c)), requested@, requested_name@, requested.len() as nat) is None,
        },
{
    let ghost cs = candidates@.map_values(|c: PathCandidate| candidate_view(c));
    let req = chars_of(requested);
    let req_name = chars_of(requested_name);
    let mut best: Option<(usize, usize)> = None;
    let mut i: usize = 0;
    while i < candidates.len()
        invariant
            i <= candidates@.len(),
            cs == candidates@.map_values(|c: PathCandidate| candidate_view(c)),
            req@ == requested@,
            req_name@ == requested_name@,
            requested@.len() < usize::MAX,
            forall|k: int| 0 <= k < candidates@.len() ==> #[trigger] candidates@[k].rel@.len() < usize::MAX,
            scan(cs.take(i as int), req@, req_name@, requested.len() as nat).0 is None,
            match best {
                Some((d, k)) => k < i && scan(cs.take(i as int), req@, req_name@, requested.len() as nat).1 == Some((d as nat, cs[k as int].rel)),
                None => scan(cs.take(i as int), req@, req_name@, requested.len() as nat).1 is None,
            },
        decreases candidates.len() - i,
    {
        let c = &candidates[i];
        let ghost prefix = cs.take(i as int);
        assert(cs.take(i + 1).drop_last() =~= prefix);
        assert(cs.take(i + 1).last() == candidate_view(*c));
        let rel = chars_of(c.rel.as_str());
        if !chars_eq(rel.as_slice(), req.as_slice()) {
            let same_name = match &c.file_name {
                Some(f) => {
                    let fc = chars_of(f.as_str());
                    eq_ignore_ascii_case_chars(fc.as_slice(), req_name.as_slice())
                },
                None => false,
            };
            if same_name {
                proof {
                    lemma_scan_done(cs, req@, req_name@, requested.len() as nat, i as int);
                }
                return Some(hint(c.rel.as_str()));
            }
            let dist = str_distance(c.rel.as_str(), requested);
            let req_bytes = requested.len();
            let close = dist <= 3 || (req_bytes >= 6 && dist <= req_bytes / 3);
            let better = match best {
                Some((d, _)) => dist < d,
                None => true,
            };
            if close && better {
                best = Some((dist, i));
            }
        }
        i = i + 1;
    }
    assert(cs.take(candidates@.len() as int) =~= cs);
    match best {
        Some((_, k)) => Some(hint(candidates[k].rel.as_str())),
        None => None,
    }
}

/// Once a same-name match is found, later candidates change nothing.
proof fn lemma_scan_done(cs: Seq<CandidateView>, req: Seq<char>, req_name: Seq<char>, req_bytes: nat, i: int)
    requires
        0 <= i < cs.len(),
        scan(cs.take(i + 1), req, req_name, req_bytes).0 is Some,
    ensures
        scan(cs, req, req_name, req_bytes).0 == scan(cs.take(i + 1), req, req_name, req_bytes).0,
    decreases cs.len() - i,
{
    if i + 1 < cs.len() {
        assert(cs.drop_last().take(i + 1) =~= cs.take(i + 1));
        lemma_scan_done(cs.drop_last(), req, req_name, req_bytes, i);
    } else {
        assert(cs.take(i + 1) =~= cs);
    }
}

} // verus!
