//! `read_file`: the `path:start-end` shorthand and the numbered line window.
use vstd::prelude::*;

use crate::text::{
    chars_of, decimal, first_idx, join_strings, lemma_first_idx_bounds, line_bounds, lines,
    marks, parse_usize, parse_usize_chars, push_all, push_decimal, push_str, slice_range,
    string_of, views_of,
};
use crate::tools::verify::{body_of, line_text, numbered, push_right6};

verus! {

/// Lines shown by a `path:start` read: the start line and the fifty after it.
pub const SHORTHAND_SPAN: usize = 50;

/// The path and range a `path:start-end` or `path:start` request names, split at
/// the first `:` and the first `-` after it, when both bounds parse as `usize`.
pub open spec fn shorthand(path: Seq<char>) -> Option<(Seq<char>, nat, nat)> {
    let c = first_idx(path, ':');
    if c < 0 {
        None
    } else {
        let range = path.skip(c + 1);
        let d = first_idx(range, '-');
        if d >= 0 {
            match (parse_usize(range.take(d)), parse_usize(range.skip(d + 1))) {
                (Some(s), Some(e)) => Some((path.take(c), s, e)),
                _ => None,
            }
        } else {
            match parse_usize(range) {
                Some(s) => Some((path.take(c), s, (s + SHORTHAND_SPAN) as nat)),
                None => None,
            }
        }
    }
}

/// The shorthand's end line fits in a `usize`.
pub open spec fn shorthand_fits(path: Seq<char>) -> bool {
    match shorthand(path) {
        Some((_, _, e)) => e <= usize::MAX,
        None => true,
    }
}

/// A read request after the shorthand is applied.
#[derive(Debug)]
pub struct ReadTarget {
    pub path: String,
    pub start_line: Option<usize>,
    pub end_line: Option<usize>,
}

pub open spec fn opt_nat(o: Option<usize>) -> Option<nat> {
    match o {
        Some(v) => Some(v as nat),
        None => None,
    }
}

/// The request's path and range: an explicit range is kept as given; without one,
/// a path carrying the shorthand is split.
pub fn resolve_read_target(path: &str, start_line: Option<usize>, end_line: Option<usize>) -> (r: ReadTarget)
    requires
        start_line is None && end_line is None ==> shorthand_fits(path@),
    ensures
        (start_line is None && end_line is None && shorthand(path@) is Some) ==> ({
            let (p, s, e) = shorthand(path@)->0;
            r.path@ == p && opt_nat(r.start_line) == Some(s) && opt_nat(r.end_line) == Some(e)
        }),
        !(start_line is None && end_line is None && shorthand(path@) is Some) ==> (r.path@ == path@
            && r.start_line == start_line && r.end_line == end_line),
{
    let unchanged = ReadTarget { path: String::from_str(path), start_line, end_line };
    if start_line.is_some() || end_line.is_some() {
        return unchanged;
    }
    let c = chars_of(path);
    proof {
        lemma_first_idx_bounds(path@, ':');
    }
    let colon = match first_char(c.as_slice(), ':') {
        Some(i) => i,
        None => return unchanged,
    };
    let head = slice_range(c.as_slice(), 0, colon);
    let range = slice_range(c.as_slice(), colon + 1, c.len());
    assert(range@ =~= path@.skip(colon + 1));
    assert(head@ =~= path@.take(colon as int));
    proof {
        lemma_first_idx_bounds(range@, '-');
    }
    match first_char(range.as_slice(), '-') {
        Some(d) => {
            let a = slice_range(range.as_slice(), 0, d);
            let b = slice_range(range.as_slice(), d + 1, range.len());
            assert(a@ =~= range@.take(d as int));
            assert(b@ =~= range@.skip(d + 1));
            match (parse_usize_chars(a.as_slice()), parse_usize_chars(b.as_slice())) {
                (Some(s), Some(e)) => ReadTarget {
                    path: string_of(head.as_slice()),
                    start_line: Some(s),
                    end_line: Some(e),
                },
                _ => unchanged,
            }
        },
        None => match parse_usize_chars(range.as_slice()) {
            Some(s) => {
                assert(s + SHORTHAND_SPAN <= usize::MAX);
                ReadTarget {
                    path: string_of(head.as_slice()),
                    start_line: Some(s),
                    end_line: Some(s + SHORTHAND_SPAN),
                }
            },
            None => unchanged,
        },
    }
}

/// Whether a `path:start` shorthand's end line fits in a `usize`.
pub fn read_shorthand_fits(path: &str) -> (r: bool)
    ensures
        r == shorthand_fits(path@),
{
    let c = chars_of(path);
    proof {
        lemma_first_idx_bounds(path@, ':');
    }
    let colon = match first_char(c.as_slice(), ':') {
        Some(i) => i,
        None => return true,
    };
    let range = slice_range(c.as_slice(), colon + 1, c.len());
    assert(range@ =~= path@.skip(colon + 1));
    proof {
        lemma_first_idx_bounds(range@, '-');
    }
    match first_char(range.as_slice(), '-') {
        Some(_) => true,
        None => match parse_usize_chars(range.as_slice()) {
            Some(s) => s <= usize::MAX - SHORTHAND_SPAN,
            None => true,
        },
    }
}

/// Index of the first `c` in `s`.
fn first_char(s: &[char], c: char) -> (r: Option<usize>)
    ensures
        match r {
            Some(i) => i as int == first_idx(s@, c),
            None => first_idx(s@, c) < 0,
        },
{
    proof {
        lemma_first_idx_bounds(s@, c);
    }
    let mut i: usize = 0;
    while i < s.len()
        invariant
            i <= s@.len(),
            forall|j: int| 0 <= j < i ==> s@[j] != c,
            -1 <= first_idx(s@, c) < s@.len(),
            first_idx(s@, c) >= 0 ==> s@[first_idx(s@, c)] == c,
            forall|j: int| 0 <= j < first_idx(s@, c) ==> s@[j] != c,
            first_idx(s@, c) < 0 ==> forall|j: int| 0 <= j < s@.len() ==> s@[j] != c,
        decreases s.len() - i,
    {
        if s[i] == c {
            proof {
                let f = first_idx(s@, c);
                if f < 0 || f > i {
                    assert(s@[i as int] == c);
                } else if f < i {
                    assert(s@[f] != c);
                }
            }
            return Some(i);
        }
        i = i + 1;
    }
    proof {
        let f = first_idx(s@, c);
        if f >= 0 {
            assert(s@[f] != c);
        }
    }
    None
}

/// First and past-the-last line index of a read: lines `start..=end` (1-based),
/// `start` at least 1 and by default 1, `end` by default unbounded, within the text.
pub open spec fn read_window(n: nat, start: Option<usize>, end: Option<usize>) -> (nat, nat) {
    let s: nat = match start {
        Some(v) => if v >= 1 {
            v as nat
        } else {
            1
        },
        None => 1,
    };
    let e: nat = match end {
        Some(v) => v as nat,
        None => usize::MAX as nat,
    };
    ((s - 1) as nat, if e < n {
        e
    } else {
        n
    })
}

/// The selected lines of `text`, each numbered `{:>6}| `, joined with newlines.
pub open spec fn selected_lines(text: Seq<char>, start: Option<usize>, end: Option<usize>) -> Seq<char> {
    let ls = lines(text);
    let w = read_window(ls.len(), start, end);
    if w.0 < w.1 {
        body_of(ls, w.0, w.1)
    } else {
        Seq::empty()
    }
}

/// The numbered lines of a ranged read.
pub fn select_lines(text: &str, start: Option<usize>, end: Option<usize>) -> (r: String)
    ensures
        r@ == selected_lines(text@, start, end),
{
    let at = chars_of(text);
    let bs = line_bounds(at.as_slice());
    let ghost ls = lines(text@);
    let s: usize = match start {
        Some(v) => if v >= 1 {
            v
        } else {
            1
        },
        None => 1,
    };
    let e: usize = match end {
        Some(v) => v,
        None => usize::MAX,
    };
    let lo = s - 1;
    let hi = if e < bs.len() {
        e
    } else {
        bs.len()
    };
    if lo >= hi {
        return String::new();
    }
    let mut rows: Vec<String> = Vec::new();
    let mut i: usize = lo;
    while i < hi
        invariant
            lo <= i <= hi <= bs@.len(),
            at@ == text@,
            ls == lines(at@),
            bs@.len() == ls.len(),
            forall|k: int| 0 <= k < bs@.len() ==> marks(at@, #[trigger] bs@[k], ls[k]),
            rows@.len() == i - lo,
            forall|k: int| 0 <= k < rows@.len() ==> #[trigger] rows@[k]@ == numbered(ls, lo + k),
        decreases hi - i,
    {
        let mut row = String::new();
        push_right6(&mut row, (i as u128) + 1);
        push_str(&mut row, "| ");
        let line = line_text(at.as_slice(), &bs, i, Ghost(ls));
        push_all(&mut row, line.as_slice());
        assert(row@ =~= numbered(ls, i as int));
        rows.push(row);
        i = i + 1;
    }
    assert(views_of(rows@) =~= Seq::new((hi - lo) as nat, |k: int| numbered(ls, lo + k)));
    join_strings(&rows, "\n")
}

/// The title of a read: `read <path> (<n> bytes)`, `n` the UTF-8 length of the text.
pub fn read_title(path: &str, text: &str) -> (r: String)
    ensures
        r@ == "read "@ + path@ + " ("@ + decimal(text.len() as nat) + " bytes)"@,
{
    let mut s = String::from_str("read ");
    push_str(&mut s, path);
    push_str(&mut s, " (");
    push_decimal(&mut s, text.len() as u128);
    push_str(&mut s, " bytes)");
    s
}

} // verus!
