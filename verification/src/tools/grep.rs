//! `grep`: the hits the host found, put in path and line order, capped and
//! rendered.
use vstd::prelude::*;

use crate::text::{chars_of, decimal, join, join_strings, push_decimal, push_str, views_of};

verus! {

/// Hits reported when the call names no limit.
pub const DEFAULT_GREP_RESULTS: usize = 100;

/// A matching line: workspace-relative path, 1-based line number, and the line
/// without trailing white space.
#[derive(Debug)]
pub struct GrepHit {
    pub path: String,
    pub line: usize,
    pub text: String,
}

pub open spec fn hit_view(h: GrepHit) -> (Seq<char>, nat, Seq<char>) {
    (h.path@, h.line as nat, h.text@)
}

pub open spec fn hit_views(hs: Seq<GrepHit>) -> Seq<(Seq<char>, nat, Seq<char>)> {
    hs.map_values(|h: GrepHit| hit_view(h))
}

/// Lexicographic order of texts by code point (the byte order of their UTF-8).
pub open spec fn text_less(a: Seq<char>, b: Seq<char>) -> bool
    decreases a.len(),
{
    if a.len() == 0 {
        b.len() > 0
    } else if b.len() == 0 {
        false
    } else if a[0] != b[0] {
        a[0] < b[0]
    } else {
        text_less(a.drop_first(), b.drop_first())
    }
}

/// Hit order: by path, then by line number.
pub open spec fn hit_before(a: (Seq<char>, nat, Seq<char>), b: (Seq<char>, nat, Seq<char>)) -> bool {
    text_less(a.0, b.0) || (a.0 == b.0 && a.1 < b.1)
}

pub open spec fn hits_sorted(s: Seq<(Seq<char>, nat, Seq<char>)>) -> bool {
    forall|i: int, j: int| 0 <= i < j < s.len() ==> !hit_before(#[trigger] s[j], #[trigger] s[i])
}

pub(crate) proof fn lemma_text_less_irrefl(a: Seq<char>)
    ensures
        !text_less(a, a),
    decreases a.len(),
{
    if a.len() > 0 {
        lemma_text_less_irrefl(a.drop_first());
    }
}

pub(crate) proof fn lemma_text_less_trans(a: Seq<char>, b: Seq<char>, c: Seq<char>)
    requires
        text_less(a, b),
        text_less(b, c),
    ensures
        text_less(a, c),
    decreases a.len(),
{
    if a.len() > 0 && b.len() > 0 && c.len() > 0 && a[0] == b[0] && b[0] == c[0] {
        lemma_text_less_trans(a.drop_first(), b.drop_first(), c.drop_first());
    }
}

pub(crate) proof fn lemma_text_less_total(a: Seq<char>, b: Seq<char>)
    requires
        !text_less(a, b),
        !text_less(b, a),
    ensures
        a == b,
    decreases a.len(),
{
    if a.len() > 0 && b.len() > 0 {
        if a[0] == b[0] {
            lemma_text_less_total(a.drop_first(), b.drop_first());
            assert(a =~= seq![a[0]] + a.drop_first());
            assert(b =~= seq![b[0]] + b.drop_first());
        }
    } else {
        assert(a.len() == 0 && b.len() == 0);
        assert(a =~= b);
    }
}

proof fn lemma_hit_before_trans(a: (Seq<char>, nat, Seq<char>), b: (Seq<char>, nat, Seq<char>), c: (Seq<char>, nat, Seq<char>))
    requires
        hit_before(a, b),
        hit_before(b, c),
    ensures
        hit_before(a, c),
{
    if text_less(a.0, b.0) && text_less(b.0, c.0) {
        lemma_text_less_trans(a.0, b.0, c.0);
    }
}

proof fn lemma_hit_before_irrefl(a: (Seq<char>, nat, Seq<char>))
    ensures
        !hit_before(a, a),
{
    lemma_text_less_irrefl(a.0);
}

/// Whether `a` comes before `b`.
pub(crate) fn text_less_exec(a: &[char], b: &[char]) -> (r: bool)
    ensures
        r == text_less(a@, b@),
{
    let mut i: usize = 0;
    assert(a@.skip(0) =~= a@ && b@.skip(0) =~= b@);
    while i < a.len() && i < b.len() && a[i] == b[i]
        invariant
            i <= a@.len(),
            i <= b@.len(),
            text_less(a@, b@) == text_less(a@.skip(i as int), b@.skip(i as int)),
        decreases a.len() - i,
    {
        assert(a@.skip(i as int).drop_first() =~= a@.skip(i + 1));
        assert(b@.skip(i as int).drop_first() =~= b@.skip(i + 1));
        i = i + 1;
    }
    if i == a.len() {
        i < b.len()
    } else if i == b.len() {
        false
    } else {
        a[i] < b[i]
    }
}

fn hit_before_exec(a: &GrepHit, b: &GrepHit) -> (r: bool)
    ensures
        r == hit_before(hit_view(*a), hit_view(*b)),
{
    let ac = chars_of(a.path.as_str());
    let bc = chars_of(b.path.as_str());
    if text_less_exec(ac.as_slice(), bc.as_slice()) {
        return true;
    }
    if text_less_exec(bc.as_slice(), ac.as_slice()) {
        return false;
    }
    proof {
        lemma_text_less_total(a.path@, b.path@);
    }
    a.line < b.line
}

/// The hits in path and line order: a sorted rearrangement of the input.
pub fn sort_hits(hits: Vec<GrepHit>) -> (r: Vec<GrepHit>)
    ensures
        hit_views(r@).to_multiset() == hit_views(hits@).to_multiset(),
        hits_sorted(hit_views(r@)),
{
    let mut out: Vec<GrepHit> = Vec::new();
    let mut rest = hits;
    let ghost orig = hit_views(rest@);
    let ghost mut taken: Seq<(Seq<char>, nat, Seq<char>)> = Seq::empty();
    assert(hit_views(out@) =~= Seq::<(Seq<char>, nat, Seq<char>)>::empty());
    while rest.len() > 0
        invariant
            orig == taken + hit_views(rest@),
            hit_views(out@).to_multiset() == taken.to_multiset(),
            hits_sorted(hit_views(out@)),
        decreases rest.len(),
    {
        let ghost r0 = rest@;
        let h = rest.remove(0);
        proof {
            assert(hit_views(r0) =~= seq![hit_view(h)] + hit_views(rest@));
        }
        let mut p: usize = 0;
        while p < out.len() && !hit_before_exec(&h, &out[p])
            invariant
                p <= out@.len(),
                forall|k: int| 0 <= k < p ==> !hit_before(hit_view(h), #[trigger] hit_views(out@)[k]),
            decreases out.len() - p,
        {
            assert(hit_views(out@)[p as int] == hit_view(out@[p as int]));
            p = p + 1;
        }
        let ghost before = hit_views(out@);
        let ghost hv = hit_view(h);
        proof {
            if p < out@.len() {
                assert(before[p as int] == hit_view(out@[p as int]));
                assert(hit_before(hv, before[p as int]));
            }
        }
        out.insert(p, h);
        proof {
            let after = hit_views(out@);
            assert(after =~= before.insert(p as int, hv));
            vstd::seq_lib::to_multiset_insert(before, p as int, hv);
            vstd::seq_lib::to_multiset_build(taken, hv);
            assert(after.to_multiset() == before.to_multiset().insert(hv));
            before.insert_ensures(p as int, hv);
            assert forall|i: int, j: int| 0 <= i < j < after.len() implies !hit_before(
                #[trigger] after[j],
                #[trigger] after[i],
            ) by {
                let at = |x: int|
                    if x < p {
                        before[x]
                    } else if x == p {
                        hv
                    } else {
                        before[x - 1]
                    };
                assert forall|x: int| 0 <= x < after.len() implies #[trigger] after[x] == at(x) by {
                    if x > p {
                        assert(after[(x - 1) + 1] == before[x - 1]);
                    }
                }
                assert(after[i] == at(i));
                assert(after[j] == at(j));
                if i == p && j > p {
                    if hit_before(before[j - 1], hv) {
                        lemma_hit_before_trans(before[j - 1], hv, before[p as int]);
                        if j - 1 == p {
                            lemma_hit_before_irrefl(before[p as int]);
                        }
                    }
                }
            }
            assert(orig =~= taken.push(hv) + hit_views(rest@));
            taken = taken.push(hv);
        }
    }
    proof {
        assert(hit_views(rest@) =~= Seq::<(Seq<char>, nat, Seq<char>)>::empty());
        assert(orig =~= taken);
    }
    out
}

/// The hit limit of a call.
pub fn grep_limit(max_results: Option<usize>) -> (r: usize)
    ensures
        r == match max_results {
            Some(n) => n,
            None => DEFAULT_GREP_RESULTS,
        },
{
    match max_results {
        Some(n) => n,
        None => DEFAULT_GREP_RESULTS,
    }
}

/// A hit as `path:line: text`.
pub open spec fn hit_line(h: (Seq<char>, nat, Seq<char>)) -> Seq<char> {
    h.0 + ":"@ + decimal(h.1) + ": "@ + h.2
}

/// The first `limit` hits of `s`, each as a line, joined with newlines.
pub open spec fn report_body(s: Seq<(Seq<char>, nat, Seq<char>)>, limit: nat) -> Seq<char> {
    let n = if limit < s.len() {
        limit
    } else {
        s.len()
    };
    join(s.take(n as int).map_values(|h: (Seq<char>, nat, Seq<char>)| hit_line(h)), "\n"@)
}

pub open spec fn report_title(shown: nat, pattern: Seq<char>) -> Seq<char> {
    decimal(shown) + " match(es) for /"@ + pattern + "/"@
}

/// What `grep` answers: its title and the hit lines.
#[derive(Debug)]
pub struct GrepReport {
    pub title: String,
    pub body: String,
}

/// The report of a search for `pattern`: the hits in path and line order, at
/// most `limit` of them.
pub fn grep_report(hits: Vec<GrepHit>, limit: usize, pattern: &str) -> (r: GrepReport)
    ensures
        exists|s: Seq<(Seq<char>, nat, Seq<char>)>|
            {
                &&& s.to_multiset() == hit_views(hits@).to_multiset()
                &&& hits_sorted(s)
                &&& r.body@ == report_body(s, limit as nat)
                &&& r.title@ == report_title(
                    if (limit as nat) < s.len() {
                        limit as nat
                    } else {
                        s.len()
                    },
                    pattern@,
                )
            },
{
    let sorted = sort_hits(hits);
    let ghost s = hit_views(sorted@);
    let n = if limit < sorted.len() {
        limit
    } else {
        sorted.len()
    };
    let mut rows: Vec<String> = Vec::new();
    let mut i: usize = 0;
    while i < n
        invariant
            i <= n <= sorted@.len(),
            s == hit_views(sorted@),
            rows@.len() == i,
            forall|k: int| 0 <= k < i ==> #[trigger] rows@[k]@ == hit_line(s[k]),
        decreases n - i,
    {
        let h = &sorted[i];
        let mut row = String::from_str(h.path.as_str());
        push_str(&mut row, ":");
        push_decimal(&mut row, h.line as u128);
        push_str(&mut row, ": ");
        push_str(&mut row, h.text.as_str());
        assert(s[i as int] == hit_view(sorted@[i as int]));
        assert(row@ =~= hit_line(s[i as int]));
        rows.push(row);
        i = i + 1;
    }
    assert(views_of(rows@) =~= s.take(n as int).map_values(|h: (Seq<char>, nat, Seq<char>)| hit_line(h)));
    let body = join_strings(&rows, "\n");
    let mut title = String::new();
    push_decimal(&mut title, n as u128);
    push_str(&mut title, " match(es) for /");
    push_str(&mut title, pattern);
    push_str(&mut title, "/");
    GrepReport { title, body }
}

} // verus!
