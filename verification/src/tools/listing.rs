//! `glob` and `list_dir`: the names the host found, sorted and rendered.
use vstd::prelude::*;

use crate::text::{chars_of, decimal, join, join_strings, push_decimal, push_str, views_of};
use crate::tools::grep::{lemma_text_less_irrefl, lemma_text_less_trans, text_less, text_less_exec};

verus! {

pub open spec fn texts_sorted(s: Seq<Seq<char>>) -> bool {
    forall|i: int, j: int| 0 <= i < j < s.len() ==> !text_less(#[trigger] s[j], #[trigger] s[i])
}

/// The texts in ascending order (by code point, as `str` orders them): a sorted
/// rearrangement of the input.
pub fn sort_texts(texts: Vec<String>) -> (r: Vec<String>)
    ensures
        views_of(r@).to_multiset() == views_of(texts@).to_multiset(),
        texts_sorted(views_of(r@)),
{
    let mut out: Vec<String> = Vec::new();
    let mut rest = texts;
    let ghost orig = views_of(rest@);
    let ghost mut taken: Seq<Seq<char>> = Seq::empty();
    assert(views_of(out@) =~= Seq::<Seq<char>>::empty());
    while rest.len() > 0
        invariant
            orig == taken + views_of(rest@),
            views_of(out@).to_multiset() == taken.to_multiset(),
            texts_sorted(views_of(out@)),
        decreases rest.len(),
    {
        let ghost r0 = rest@;
        let t = rest.remove(0);
        proof {
            assert(views_of(r0) =~= seq![t@] + views_of(rest@));
        }
        let tc = chars_of(t.as_str());
        let mut p: usize = 0;
        while p < out.len() && !text_less_exec(tc.as_slice(), chars_of(out[p].as_str()).as_slice())
            invariant
                p <= out@.len(),
                tc@ == t@,
                forall|k: int| 0 <= k < p ==> !text_less(t@, #[trigger] views_of(out@)[k]),
            decreases out.len() - p,
        {
            assert(views_of(out@)[p as int] == out@[p as int]@);
            p = p + 1;
        }
        let ghost before = views_of(out@);
        let ghost tv = t@;
        proof {
            if p < out@.len() {
                assert(before[p as int] == out@[p as int]@);
                assert(text_less(tv, before[p as int]));
            }
        }
        out.insert(p, t);
        proof {
            let after = views_of(out@);
            assert(after =~= before.insert(p as int, tv));
            before.insert_ensures(p as int, tv);
            vstd::seq_lib::to_multiset_insert(before, p as int, tv);
            vstd::seq_lib::to_multiset_build(taken, tv);
            assert forall|i: int, j: int| 0 <= i < j < after.len() implies !text_less(
                #[trigger] after[j],
                #[trigger] after[i],
            ) by {
                let at = |x: int|
                    if x < p {
                        before[x]
                    } else if x == p {
                        tv
                    } else {
                        before[x - 1]
                    };
                assert forall|x: int| 0 <= x < after.len() implies #[trigger] after[x] == at(x) by {
                    if x > p {
                        assert(after[(x - 1) + 1] == before[x - 1]);
                    }
                }
                assert(after[i] == at(i));
                assert(after[j] == at(j));
                if i == p && j > p {
                    if text_less(before[j - 1], tv) {
                        lemma_text_less_trans(before[j - 1], tv, before[p as int]);
                        if j - 1 == p {
                            lemma_text_less_irrefl(before[p as int]);
                        }
                    }
                }
            }
            assert(orig =~= taken.push(tv) + views_of(rest@));
            taken = taken.push(tv);
        }
    }
    proof {
        assert(views_of(rest@) =~= Seq::<Seq<char>>::empty());
        assert(orig =~= taken);
    }
    out
}

/// A listing: the sorted names and its title.
#[derive(Debug)]
pub struct Listing {
    pub title: String,
    pub body: String,
}

/// The title of a glob listing.
pub open spec fn glob_title(n: nat, pattern: Seq<char>) -> Seq<char> {
    decimal(n) + " file(s) match '"@ + pattern + "'"@
}

/// The title of a directory listing.
pub open spec fn dir_title(n: nat, rel: Seq<char>) -> Seq<char> {
    decimal(n) + " entries in "@ + rel
}

fn sorted_body(names: Vec<String>) -> (r: (String, usize))
    ensures
        exists|s: Seq<Seq<char>>|
            {
                &&& s.to_multiset() == views_of(names@).to_multiset()
                &&& texts_sorted(s)
                &&& r.0@ == join(s, "\n"@)
                &&& r.1 == s.len()
            },
{
    let sorted = sort_texts(names);
    proof {
        vstd::seq_lib::to_multiset_len(views_of(sorted@));
        vstd::seq_lib::to_multiset_len(views_of(names@));
    }
    let n = sorted.len();
    (join_strings(&sorted, "\n"), n)
}

/// The answer of `glob`: the matching workspace paths in order, and their count.
pub fn glob_listing(matches: Vec<String>, pattern: &str) -> (r: Listing)
    ensures
        exists|s: Seq<Seq<char>>|
            {
                &&& s.to_multiset() == views_of(matches@).to_multiset()
                &&& texts_sorted(s)
                &&& r.body@ == join(s, "\n"@)
                &&& r.title@ == glob_title(s.len(), pattern@)
            },
{
    let (body, n) = sorted_body(matches);
    let mut title = String::new();
    push_decimal(&mut title, n as u128);
    push_str(&mut title, " file(s) match '");
    push_str(&mut title, pattern);
    push_str(&mut title, "'");
    Listing { title, body }
}

/// A directory entry as listed: its name, with a trailing `/` for a directory.
pub fn dir_entry_name(name: &str, is_dir: bool) -> (r: String)
    ensures
        r@ == (if is_dir {
            name@ + "/"@
        } else {
            name@
        }),
{
    let mut s = String::from_str(name);
    if is_dir {
        push_str(&mut s, "/");
    }
    s
}

/// The answer of `list_dir` for `rel`: the entries in order, and their count.
pub fn dir_listing(entries: Vec<String>, rel: &str) -> (r: Listing)
    ensures
        exists|s: Seq<Seq<char>>|
            {
                &&& s.to_multiset() == views_of(entries@).to_multiset()
                &&& texts_sorted(s)
                &&& r.body@ == join(s, "\n"@)
                &&& r.title@ == dir_title(s.len(), rel@)
            },
{
    let (body, n) = sorted_body(entries);
    let mut title = String::new();
    push_decimal(&mut title, n as u128);
    push_str(&mut title, " entries in ");
    push_str(&mut title, rel);
    Listing { title, body }
}

} // verus!
