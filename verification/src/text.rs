//! Character-sequence model of the string operations the library relies on:
//! trimming, prefix/suffix tests, substring search, line splitting, ASCII case
//! folding, joining and decimal/hex rendering of integers.
use vstd::prelude::*;

verus! {

/// Appending one character to a `String` extends its character view by that character.
pub assume_specification[ String::push ](s: &mut String, ch: char)
    ensures
        final(s)@ == old(s)@.push(ch),
;

/// Unicode `White_Space`, the set `char::is_whitespace` and `str::trim` use.
pub open spec fn is_white(c: char) -> bool {
    let n = c as u32;
    (0x09 <= n && n <= 0x0d) || n == 0x20 || n == 0x85 || n == 0xa0 || n == 0x1680 || (0x2000
        <= n && n <= 0x200a) || n == 0x2028 || n == 0x2029 || n == 0x202f || n == 0x205f || n
        == 0x3000
}

pub open spec fn trim_start(s: Seq<char>) -> Seq<char>
    decreases s.len(),
{
    if s.len() > 0 && is_white(s[0]) {
        trim_start(s.drop_first())
    } else {
        s
    }
}

pub open spec fn trim_end(s: Seq<char>) -> Seq<char>
    decreases s.len(),
{
    if s.len() > 0 && is_white(s.last()) {
        trim_end(s.drop_last())
    } else {
        s
    }
}

/// `str::trim`: leading and trailing white space removed.
pub open spec fn trim(s: Seq<char>) -> Seq<char> {
    trim_end(trim_start(s))
}

pub open spec fn starts_with(s: Seq<char>, p: Seq<char>) -> bool {
    p.len() <= s.len() && s.subrange(0, p.len() as int) == p
}

pub open spec fn ends_with(s: Seq<char>, p: Seq<char>) -> bool {
    p.len() <= s.len() && s.subrange(s.len() - p.len(), s.len() as int) == p
}

pub open spec fn occurs_at<A>(s: Seq<A>, p: Seq<A>, i: int) -> bool {
    0 <= i && i + p.len() <= s.len() && s.subrange(i, i + p.len()) == p
}

/// `str::contains` with a string pattern.
pub open spec fn contains<A>(s: Seq<A>, p: Seq<A>) -> bool {
    exists|i: int| occurs_at(s, p, i)
}

pub open spec fn lower_char(c: char) -> char {
    if 'A' <= c && c <= 'Z' {
        ((c as u32) + 32) as char
    } else {
        c
    }
}

/// `to_ascii_lowercase`: ASCII capitals folded, every other character kept.
pub open spec fn lower(s: Seq<char>) -> Seq<char> {
    s.map_values(|c: char| lower_char(c))
}

/// Index of the first `c` in `s`, or -1.
pub open spec fn first_idx(s: Seq<char>, c: char) -> int
    decreases s.len(),
{
    if s.len() == 0 {
        -1
    } else if s[0] == c {
        0
    } else {
        let r = first_idx(s.drop_first(), c);
        if r < 0 {
            -1
        } else {
            r + 1
        }
    }
}

/// A line without its terminator: a `\r` right before the `\n` is dropped too.
pub open spec fn strip_cr(s: Seq<char>) -> Seq<char> {
    if s.len() > 0 && s.last() == '\r' {
        s.drop_last()
    } else {
        s
    }
}

/// `str::lines`: split at `\n` (and `\r\n`); a final terminator adds no empty line,
/// and a `\r` that ends the text without `\n` stays in the last line.
pub open spec fn lines(s: Seq<char>) -> Seq<Seq<char>>
    decreases s.len(),
{
    if s.len() == 0 {
        Seq::empty()
    } else {
        let i = first_idx(s, '\n');
        proof {
            lemma_first_idx_bounds(s, '\n');
        }
        if i < 0 {
            seq![s]
        } else {
            seq![strip_cr(s.take(i))] + lines(s.skip(i + 1))
        }
    }
}

/// `parts.join(sep)`.
pub open spec fn join(parts: Seq<Seq<char>>, sep: Seq<char>) -> Seq<char>
    decreases parts.len(),
{
    if parts.len() == 0 {
        Seq::empty()
    } else if parts.len() == 1 {
        parts[0]
    } else {
        join(parts.drop_last(), sep) + sep + parts.last()
    }
}

pub proof fn lemma_first_idx_bounds(s: Seq<char>, c: char)
    ensures
        -1 <= first_idx(s, c) < s.len(),
        first_idx(s, c) >= 0 ==> s[first_idx(s, c)] == c,
        forall|j: int| 0 <= j < first_idx(s, c) ==> s[j] != c,
        first_idx(s, c) < 0 ==> forall|j: int| 0 <= j < s.len() ==> s[j] != c,
    decreases s.len(),
{
    if s.len() > 0 && s[0] != c {
        lemma_first_idx_bounds(s.drop_first(), c);
        assert forall|j: int| 0 < j < s.len() implies s[j] == s.drop_first()[j - 1] by {}
    }
}

/// The first occurrence of `c` in `a + [c] + b`, when `a` holds no `c`, is right after `a`.
pub proof fn lemma_first_idx_after(a: Seq<char>, c: char, b: Seq<char>)
    requires
        forall|j: int| 0 <= j < a.len() ==> a[j] != c,
    ensures
        first_idx(a.push(c) + b, c) == a.len(),
    decreases a.len(),
{
    if a.len() > 0 {
        let s = a.push(c) + b;
        assert(s.drop_first() =~= a.drop_first().push(c) + b);
        lemma_first_idx_after(a.drop_first(), c, b);
    } else {
        assert((a.push(c) + b)[0] == c);
    }
}

/// A text with no `c` at all has no index for it.
pub proof fn lemma_first_idx_absent(s: Seq<char>, c: char)
    requires
        forall|j: int| 0 <= j < s.len() ==> s[j] != c,
    ensures
        first_idx(s, c) == -1,
    decreases s.len(),
{
    if s.len() > 0 {
        lemma_first_idx_absent(s.drop_first(), c);
    }
}

/// The characters of a string slice, in order.
pub fn chars_of(s: &str) -> (out: Vec<char>)
    ensures
        out@ == s@,
{
    let mut out: Vec<char> = Vec::new();
    for c in it: s.chars()
        invariant
            out@ == it.seq().take(it.index() as int),
            it.seq() == s@,
    {
        out.push(c);
    }
    out
}

/// A `String` holding exactly the characters `cs`.
pub fn string_of(cs: &[char]) -> (out: String)
    ensures
        out@ == cs@,
{
    let mut out = String::new();
    let mut i: usize = 0;
    while i < cs.len()
        invariant
            i <= cs.len(),
            out@ == cs@.take(i as int),
        decreases cs.len() - i,
    {
        out.push(cs[i]);
        i = i + 1;
        assert(cs@.take(i as int) =~= cs@.take(i - 1).push(cs@[i - 1]));
    }
    assert(cs@.take(cs.len() as int) =~= cs@);
    out
}

/// `s` followed by the characters of `t`.
pub fn push_all(s: &mut String, t: &[char])
    ensures
        final(s)@ == old(s)@ + t@,
{
    let mut i: usize = 0;
    while i < t.len()
        invariant
            i <= t.len(),
            s@ == old(s)@ + t@.take(i as int),
        decreases t.len() - i,
    {
        s.push(t[i]);
        i = i + 1;
        assert(t@.take(i as int) =~= t@.take(i - 1).push(t@[i - 1]));
    }
    assert(t@.take(t.len() as int) =~= t@);
}

/// `s` followed by the characters of the string slice `t`.
pub fn push_str(s: &mut String, t: &str)
    ensures
        final(s)@ == old(s)@ + t@,
{
    let cs = chars_of(t);
    push_all(s, cs.as_slice());
}

pub fn is_white_char(c: char) -> (r: bool)
    ensures
        r == is_white(c),
{
    let n = c as u32;
    (0x09 <= n && n <= 0x0d) || n == 0x20 || n == 0x85 || n == 0xa0 || n == 0x1680 || (0x2000
        <= n && n <= 0x200a) || n == 0x2028 || n == 0x2029 || n == 0x202f || n == 0x205f || n
        == 0x3000
}

proof fn lemma_trim_start_skip(s: Seq<char>, i: int)
    requires
        0 <= i <= s.len(),
        forall|j: int| 0 <= j < i ==> is_white(s[j]),
    ensures
        trim_start(s) == trim_start(s.skip(i)),
    decreases i,
{
    if i > 0 {
        lemma_trim_start_skip(s.drop_first(), i - 1);
        assert(s.drop_first().skip(i - 1) =~= s.skip(i));
    } else {
        assert(s.skip(0) =~= s);
    }
}

proof fn lemma_trim_end_take(s: Seq<char>, i: int)
    requires
        0 <= i <= s.len(),
        forall|j: int| i <= j < s.len() ==> is_white(s[j]),
    ensures
        trim_end(s) == trim_end(s.take(i)),
    decreases s.len() - i,
{
    if i < s.len() {
        lemma_trim_end_take(s.drop_last(), i);
        assert(s.drop_last().take(i) =~= s.take(i));
    } else {
        assert(s.take(i) =~= s);
    }
}

/// Bounds `(start, end)` with `s[start..end] == trim(s)`.
pub fn trim_bounds(s: &[char]) -> (r: (usize, usize))
    ensures
        r.0 <= r.1 <= s.len(),
        s@.subrange(r.0 as int, r.1 as int) == trim(s@),
{
    let mut a: usize = 0;
    while a < s.len() && is_white_char(s[a])
        invariant
            a <= s.len(),
            forall|j: int| 0 <= j < a ==> is_white(s@[j]),
        decreases s.len() - a,
    {
        a = a + 1;
    }
    proof {
        lemma_trim_start_skip(s@, a as int);
    }
    let ghost rest = s@.skip(a as int);
    assert(trim_start(rest) == rest);
    let mut b: usize = s.len();
    while b > a && is_white_char(s[b - 1])
        invariant
            a <= b <= s.len(),
            forall|j: int| b <= j < s.len() ==> is_white(s@[j]),
        decreases b,
    {
        b = b - 1;
    }
    proof {
        let t = s@.subrange(a as int, b as int);
        lemma_trim_end_take(rest, b - a);
        assert(rest.take(b - a) =~= t);
        if t.len() > 0 {
            assert(t.last() == s@[b - 1]);
        }
    }
    (a, b)
}

/// The characters of `s` without trailing white space.
pub fn trimmed_end(s: &[char]) -> (out: Vec<char>)
    ensures
        out@ == trim_end(s@),
{
    let mut b: usize = s.len();
    while b > 0 && is_white_char(s[b - 1])
        invariant
            b <= s.len(),
            forall|j: int| b <= j < s.len() ==> is_white(s@[j]),
        decreases b,
    {
        b = b - 1;
    }
    proof {
        lemma_trim_end_take(s@, b as int);
        let t = s@.take(b as int);
        if t.len() > 0 {
            assert(t.last() == s@[b - 1]);
        }
    }
    slice_range(s, 0, b)
}

/// The trimmed characters of `s`.
pub fn trimmed(s: &[char]) -> (out: Vec<char>)
    ensures
        out@ == trim(s@),
{
    let (a, b) = trim_bounds(s);
    slice_range(s, a, b)
}

/// A copy of `s[a..b]`.
pub fn slice_range(s: &[char], a: usize, b: usize) -> (out: Vec<char>)
    requires
        a <= b <= s.len(),
    ensures
        out@ == s@.subrange(a as int, b as int),
{
    let mut out: Vec<char> = Vec::new();
    let mut i = a;
    while i < b
        invariant
            a <= i <= b <= s.len(),
            out@ == s@.subrange(a as int, i as int),
        decreases b - i,
    {
        out.push(s[i]);
        i = i + 1;
        assert(out@ =~= s@.subrange(a as int, i as int));
    }
    out
}

/// Whether `p` occurs in `s` at position `i`.
pub fn matches_at(s: &[char], p: &[char], i: usize) -> (r: bool)
    ensures
        r == occurs_at(s@, p@, i as int),
{
    if i > s.len() || p.len() > s.len() - i {
        return false;
    }
    let mut k: usize = 0;
    while k < p.len()
        invariant
            i + p.len() <= s.len(),
            k <= p.len(),
            forall|j: int| 0 <= j < k ==> s@[i + j] == p@[j],
        decreases p.len() - k,
    {
        if s[i + k] != p[k] {
            assert(s@.subrange(i as int, i + p.len())[k as int] != p@[k as int]);
            return false;
        }
        k = k + 1;
    }
    assert(s@.subrange(i as int, i + p.len()) =~= p@);
    true
}

pub fn starts_with_chars(s: &[char], p: &[char]) -> (r: bool)
    ensures
        r == starts_with(s@, p@),
{
    matches_at(s, p, 0)
}

pub fn ends_with_chars(s: &[char], p: &[char]) -> (r: bool)
    ensures
        r == ends_with(s@, p@),
{
    if p.len() > s.len() {
        return false;
    }
    matches_at(s, p, s.len() - p.len())
}

/// First position where `p` occurs in `s`, if any.
pub fn find_chars(s: &[char], p: &[char]) -> (r: Option<usize>)
    ensures
        r matches Some(i) ==> occurs_at(s@, p@, i as int) && forall|j: int|
            0 <= j < i ==> !occurs_at(s@, p@, j),
        r is None ==> !contains(s@, p@),
{
    if p.len() > s.len() {
        assert forall|j: int| !occurs_at(s@, p@, j) by {}
        return None;
    }
    let last = s.len() - p.len();
    let mut i: usize = 0;
    loop
        invariant
            p.len() <= s.len(),
            last == s.len() - p.len(),
            i <= last,
            forall|j: int| 0 <= j < i ==> !occurs_at(s@, p@, j),
        decreases last - i,
    {
        if matches_at(s, p, i) {
            return Some(i);
        }
        if i == last {
            assert forall|j: int| !occurs_at(s@, p@, j) by {
                if 0 <= j && j <= i {
                }
            }
            return None;
        }
        i = i + 1;
    }
}

pub fn contains_chars(s: &[char], p: &[char]) -> (r: bool)
    ensures
        r == contains(s@, p@),
{
    match find_chars(s, p) {
        Some(_) => true,
        None => false,
    }
}

pub fn lower_char_exec(c: char) -> (r: char)
    ensures
        r == lower_char(c),
{
    if 'A' <= c && c <= 'Z' {
        let n = (c as u32) + 32;
        assert(n == 'a' as u32 || n != 'a' as u32);
        char_from_ascii(n)
    } else {
        c
    }
}

/// The character with ASCII code `n`.
fn char_from_ascii(n: u32) -> (r: char)
    requires
        n < 128,
    ensures
        r == n as char,
{
    let b = n as u8;
    b as char
}

pub fn lower_chars(s: &[char]) -> (out: Vec<char>)
    ensures
        out@ == lower(s@),
{
    let mut out: Vec<char> = Vec::new();
    let mut i: usize = 0;
    while i < s.len()
        invariant
            i <= s.len(),
            out@ == lower(s@.take(i as int)),
        decreases s.len() - i,
    {
        out.push(lower_char_exec(s[i]));
        i = i + 1;
        assert(lower(s@.take(i as int)) =~= lower(s@.take(i - 1)).push(lower_char(s@[i - 1])));
    }
    assert(s@.take(s.len() as int) =~= s@);
    out
}

/// Whether the two character sequences are equal.
pub fn chars_eq(a: &[char], b: &[char]) -> (r: bool)
    ensures
        r == (a@ == b@),
{
    if a.len() != b.len() {
        return false;
    }
    let r = matches_at(a, b, 0);
    proof {
        if r {
            assert(a@.subrange(0, b@.len() as int) =~= a@);
        } else {
            if a@ == b@ {
                assert(a@.subrange(0, b@.len() as int) =~= a@);
            }
        }
    }
    r
}

/// `b` marks the piece `l` of `s`.
pub open spec fn marks(s: Seq<char>, b: (usize, usize), l: Seq<char>) -> bool {
    &&& b.0 <= b.1
    &&& b.1 <= s.len()
    &&& s.subrange(b.0 as int, b.1 as int) == l
}

/// Bounds of each line of `s`, in order, as `str::lines` yields them.
pub fn line_bounds(s: &[char]) -> (out: Vec<(usize, usize)>)
    ensures
        out@.len() == lines(s@).len(),
        forall|k: int| 0 <= k < out@.len() ==> marks(s@, #[trigger] out@[k], lines(s@)[k]),
{
    let mut out: Vec<(usize, usize)> = Vec::new();
    let mut start: usize = 0;
    let mut i: usize = 0;
    let ghost mut done: Seq<Seq<char>> = Seq::empty();
    assert(s@.skip(0) =~= s@);
    assert(done + lines(s@) =~= lines(s@));
    while i < s.len()
        invariant
            start <= i <= s.len(),
            out@.len() == done.len(),
            forall|k: int| 0 <= k < out@.len() ==> marks(s@, #[trigger] out@[k], done[k]),
            lines(s@) == done + lines(s@.skip(start as int)),
            forall|j: int| start <= j < i ==> s@[j] != '\n',
        decreases s.len() - i,
    {
        if s[i] == '\n' {
            let ghost rest = s@.skip(start as int);
            let ghost line = s@.subrange(start as int, i as int);
            proof {
                assert(rest =~= line.push('\n') + s@.skip(i + 1));
                lemma_first_idx_after(line, '\n', s@.skip(i + 1));
                assert(rest.take(i - start) =~= line);
                assert(rest.skip(i - start + 1) =~= s@.skip(i + 1));
            }
            let ghost old_done = done;
            let mut end = i;
            if end > start && s[end - 1] == '\r' {
                end = end - 1;
            }
            proof {
                assert(s@.subrange(start as int, end as int) =~= strip_cr(line));
                assert(lines(rest) == seq![strip_cr(line)] + lines(s@.skip(i + 1)));
                assert(done + lines(rest) =~= done.push(strip_cr(line)) + lines(s@.skip(i + 1)));
                done = done.push(strip_cr(line));
            }
            let ghost old_out = out@;
            let ghost seg = s@.subrange(start as int, end as int);
            out.push((start, end));
            assert forall|k: int| 0 <= k < out@.len() implies marks(s@, #[trigger] out@[k], done[k]) by {
                if k < old_out.len() {
                    assert(out@[k] == old_out[k]);
                    assert(done[k] == old_done[k]);
                } else {
                    assert(out@[k] == (start, end));
                    assert(done[k] == seg);
                }
            }
            start = i + 1;
        }
        i = i + 1;
    }
    let ghost old_done = done;
    if start < s.len() {
        proof {
            let rest = s@.skip(start as int);
            lemma_first_idx_absent(rest, '\n');
            assert(lines(rest) == seq![rest]);
            assert(rest =~= s@.subrange(start as int, s.len() as int));
            done = done.push(rest);
        }
        let ghost old_out = out@;
        let ghost seg = s@.subrange(start as int, s.len() as int);
        out.push((start, s.len()));
        assert forall|k: int| 0 <= k < out@.len() implies marks(s@, #[trigger] out@[k], done[k]) by {
            if k < old_out.len() {
                assert(out@[k] == old_out[k]);
                assert(done[k] == old_done[k]);
            } else {
                assert(out@[k] == (start, s.len()));
                assert(done[k] == seg);
            }
        }
    } else {
        assert(lines(s@.skip(start as int)) =~= Seq::<Seq<char>>::empty());
        assert(done + Seq::<Seq<char>>::empty() =~= done);
    }
    proof {
        assert(lines(s@) =~= done);
    }
    out
}


/// Index of the first occurrence of `p` in `s`, or -1.
pub open spec fn find_first<A>(s: Seq<A>, p: Seq<A>) -> int
    decreases s.len(),
{
    if p.len() > s.len() {
        -1
    } else if s.take(p.len() as int) == p {
        0
    } else if s.len() == 0 {
        -1
    } else {
        let r = find_first(s.drop_first(), p);
        if r < 0 {
            -1
        } else {
            r + 1
        }
    }
}

pub proof fn lemma_find_first<A>(s: Seq<A>, p: Seq<A>)
    ensures
        -1 <= find_first(s, p) <= s.len(),
        find_first(s, p) >= 0 ==> occurs_at(s, p, find_first(s, p)),
        forall|j: int| 0 <= j < find_first(s, p) ==> !occurs_at(s, p, j),
        find_first(s, p) < 0 ==> !contains(s, p),
    decreases s.len(),
{
    if p.len() > s.len() {
        assert forall|i: int| !occurs_at(s, p, i) by {}
    } else if s.take(p.len() as int) == p {
        assert(s.subrange(0, p.len() as int) =~= s.take(p.len() as int));
    } else {
        assert(p.len() > 0) by {
            if p.len() == 0 {
                assert(s.take(0) =~= p);
            }
        }
        assert(s.len() > 0);
        let t = s.drop_first();
        lemma_find_first(t, p);
        assert(!occurs_at(s, p, 0)) by {
            assert(s.subrange(0, p.len() as int) =~= s.take(p.len() as int));
        }
        assert forall|j: int| 1 <= j < s.len() implies occurs_at(s, p, j) == occurs_at(t, p, j - 1) by {
            if j + p.len() <= s.len() {
                assert(s.subrange(j, j + p.len()) =~= t.subrange(j - 1, j - 1 + p.len()));
            }
        }
        if find_first(s, p) < 0 {
            assert forall|i: int| !occurs_at(s, p, i) by {
                if 1 <= i < s.len() {
                    assert(!occurs_at(t, p, i - 1));
                }
            }
        }
    }
}

/// `find_chars` agrees with `find_first`.
pub fn find_first_exec(s: &[char], p: &[char]) -> (r: Option<usize>)
    ensures
        match r {
            Some(i) => i as int == find_first(s@, p@),
            None => find_first(s@, p@) == -1,
        },
{
    let r = find_chars(s, p);
    proof {
        lemma_find_first(s@, p@);
        let f = find_first(s@, p@);
        match r {
            Some(i) => {
                if f >= 0 && f != i {
                    if f < i {
                    } else {
                    }
                }
                if f < 0 {
                    assert(occurs_at(s@, p@, i as int));
                }
            },
            None => {
                if f >= 0 {
                    assert(occurs_at(s@, p@, f));
                }
            },
        }
    }
    r
}

/// `s.split(sep)` for a non-empty separator: the pieces between separators, empty ones included.
pub open spec fn split_pieces(s: Seq<char>, sep: Seq<char>) -> Seq<Seq<char>>
    recommends
        sep.len() > 0,
    decreases s.len(),
{
    let i = find_first(s, sep);
    if i < 0 || sep.len() == 0 {
        seq![s]
    } else {
        proof {
            lemma_find_first(s, sep);
        }
        seq![s.take(i)] + split_pieces(s.skip(i + sep.len()), sep)
    }
}

/// Bounds of the pieces of `s.split(sep)`, in order.
pub fn split_bounds(s: &[char], sep: &[char]) -> (out: Vec<(usize, usize)>)
    requires
        sep.len() > 0,
    ensures
        out@.len() == split_pieces(s@, sep@).len(),
        forall|k: int| 0 <= k < out@.len() ==> marks(s@, #[trigger] out@[k], split_pieces(s@, sep@)[k]),
    decreases s.len(),
{
    let mut out: Vec<(usize, usize)> = Vec::new();
    let mut start: usize = 0;
    let ghost mut done: Seq<Seq<char>> = Seq::empty();
    assert(s@.skip(0) =~= s@);
    assert(done + split_pieces(s@, sep@) =~= split_pieces(s@, sep@));
    loop
        invariant
            start <= s.len(),
            sep.len() > 0,
            out@.len() == done.len(),
            forall|k: int| 0 <= k < out@.len() ==> marks(s@, #[trigger] out@[k], done[k]),
            split_pieces(s@, sep@) == done + split_pieces(s@.skip(start as int), sep@),
        decreases s.len() - start,
    {
        let rest = slice_range(s, start, s.len());
        assert(rest@ =~= s@.skip(start as int));
        let ghost old_out = out@;
        let ghost old_done = done;
        match find_first_exec(rest.as_slice(), sep) {
            None => {
                proof {
                    assert(split_pieces(rest@, sep@) == seq![rest@]);
                    done = done.push(rest@);
                    assert(split_pieces(s@, sep@) =~= done);
                }
                out.push((start, s.len()));
                assert forall|k: int| 0 <= k < out@.len() implies marks(s@, #[trigger] out@[k], done[k]) by {
                    if k < old_out.len() {
                        assert(out@[k] == old_out[k]);
                        assert(done[k] == old_done[k]);
                    } else {
                        assert(s@.subrange(start as int, s.len() as int) =~= rest@);
                    }
                }
                return out;
            },
            Some(i) => {
                proof {
                    lemma_find_first(rest@, sep@);
                    assert(split_pieces(rest@, sep@) == seq![rest@.take(i as int)] + split_pieces(
                        rest@.skip(i + sep.len()),
                        sep@,
                    ));
                    assert(rest@.skip(i + sep.len()) =~= s@.skip(start + i + sep.len()));
                    done = done.push(rest@.take(i as int));
                    assert(old_done + split_pieces(rest@, sep@) =~= done + split_pieces(
                        s@.skip(start + i + sep.len()),
                        sep@,
                    ));
                }
                out.push((start, start + i));
                assert forall|k: int| 0 <= k < out@.len() implies marks(s@, #[trigger] out@[k], done[k]) by {
                    if k < old_out.len() {
                        assert(out@[k] == old_out[k]);
                        assert(done[k] == old_done[k]);
                    } else {
                        assert(s@.subrange(start as int, start + i) =~= rest@.take(i as int));
                    }
                }
                start = start + i + sep.len();
            },
        }
    }
}

/// The white-space separated words of `s`, as `str::split_whitespace` yields them.
pub open spec fn words(s: Seq<char>) -> Seq<Seq<char>>
    decreases s.len(),
{
    let t = trim_start(s);
    if t.len() == 0 {
        Seq::empty()
    } else {
        let k = word_len(t);
        proof {
            lemma_trim_start_len(s);
            lemma_word_len(t);
        }
        seq![t.take(k)] + words(t.skip(k))
    }
}

/// Length of the run of non-white characters at the start of `s`.
pub open spec fn word_len(s: Seq<char>) -> int
    decreases s.len(),
{
    if s.len() == 0 || is_white(s[0]) {
        0
    } else {
        1 + word_len(s.drop_first())
    }
}

pub proof fn lemma_trim_start_len(s: Seq<char>)
    ensures
        trim_start(s).len() <= s.len(),
        trim_start(s).len() > 0 ==> !is_white(trim_start(s)[0]),
        trim_start(s) == s.skip(s.len() - trim_start(s).len()),
        forall|j: int| 0 <= j < s.len() - trim_start(s).len() ==> is_white(s[j]),
    decreases s.len(),
{
    if s.len() > 0 && is_white(s[0]) {
        lemma_trim_start_len(s.drop_first());
        assert(s.drop_first().skip(s.drop_first().len() - trim_start(s).len()) =~= s.skip(
            s.len() - trim_start(s).len(),
        ));
        assert forall|j: int| 0 <= j < s.len() - trim_start(s).len() implies is_white(s[j]) by {
            if j > 0 {
                assert(s[j] == s.drop_first()[j - 1]);
            }
        }
    } else {
        assert(s.skip(0) =~= s);
    }
}

pub proof fn lemma_word_len(s: Seq<char>)
    ensures
        0 <= word_len(s) <= s.len(),
        s.len() > 0 && !is_white(s[0]) ==> word_len(s) >= 1,
        forall|j: int| 0 <= j < word_len(s) ==> !is_white(s[j]),
        word_len(s) < s.len() ==> is_white(s[word_len(s)]),
    decreases s.len(),
{
    if s.len() > 0 && !is_white(s[0]) {
        lemma_word_len(s.drop_first());
        assert forall|j: int| 0 <= j < word_len(s) implies !is_white(s[j]) by {
            if j > 0 {
                assert(s[j] == s.drop_first()[j - 1]);
            }
        }
    }
}

/// Bounds of the first `n` words of `s` (fewer when `s` has fewer).
pub fn word_bounds(s: &[char], n: usize) -> (out: Vec<(usize, usize)>)
    ensures
        out@.len() == if words(s@).len() < n {
            words(s@).len()
        } else {
            n as nat
        },
        forall|k: int| 0 <= k < out@.len() ==> marks(s@, #[trigger] out@[k], words(s@)[k]),
{
    let mut out: Vec<(usize, usize)> = Vec::new();
    let mut pos: usize = 0;
    let ghost mut done: Seq<Seq<char>> = Seq::empty();
    assert(s@.skip(0) =~= s@);
    assert(done + words(s@) =~= words(s@));
    while out.len() < n
        invariant
            pos <= s.len(),
            out@.len() == done.len(),
            out@.len() <= n,
            forall|k: int| 0 <= k < out@.len() ==> marks(s@, #[trigger] out@[k], done[k]),
            words(s@) == done + words(s@.skip(pos as int)),
        decreases s.len() - pos,
    {
        let ghost rest = s@.skip(pos as int);
        let ghost p0 = pos;
        while pos < s.len() && is_white_char(s[pos])
            invariant
                p0 <= pos <= s.len(),
                rest == s@.skip(p0 as int),
                forall|j: int| p0 <= j < pos ==> is_white(s@[j]),
            decreases s.len() - pos,
        {
            pos = pos + 1;
        }
        proof {
            let d = pos - p0;
            assert forall|j: int| 0 <= j < d implies is_white(rest[j]) by {
                assert(rest[j] == s@[p0 + j]);
            }
            lemma_trim_start_skip(rest, d);
            assert(rest.skip(d) =~= s@.skip(pos as int));
            if pos < s.len() {
                assert(s@.skip(pos as int)[0] == s@[pos as int]);
            }
            assert(trim_start(s@.skip(pos as int)) == s@.skip(pos as int));
        }
        if pos == s.len() {
            proof {
                assert(trim_start(rest).len() == 0);
                assert(words(rest) =~= Seq::<Seq<char>>::empty());
                assert(words(s@) =~= done);
            }
            return out;
        }
        let start = pos;
        let ghost t = s@.skip(start as int);
        while pos < s.len() && !is_white_char(s[pos])
            invariant
                start <= pos <= s.len(),
                t == s@.skip(start as int),
                forall|j: int| start <= j < pos ==> !is_white(s@[j]),
            decreases s.len() - pos,
        {
            pos = pos + 1;
        }
        proof {
            lemma_word_len(t);
            let k = word_len(t);
            if k < pos - start {
                assert(!is_white(s@[start + k]));
            }
            if k > pos - start {
                assert(is_white(t[pos - start]));
            }
            assert(k == pos - start);
            assert(words(rest) == seq![t.take(k)] + words(t.skip(k)));
            assert(t.skip(k) =~= s@.skip(pos as int));
            assert(t.take(k) =~= s@.subrange(start as int, pos as int));
        }
        let ghost old_out = out@;
        let ghost old_done = done;
        proof {
            done = done.push(t.take(pos - start));
            assert(old_done + words(rest) =~= done + words(s@.skip(pos as int)));
        }
        out.push((start, pos));
        assert forall|k: int| 0 <= k < out@.len() implies marks(s@, #[trigger] out@[k], done[k]) by {
            if k < old_out.len() {
                assert(out@[k] == old_out[k]);
                assert(done[k] == old_done[k]);
            }
        }
    }
    proof {
        if words(s@).len() < n {
            assert(words(s@).len() >= done.len());
        }
    }
    out
}

pub open spec fn is_digit(c: char) -> bool {
    '0' <= c && c <= '9'
}

pub open spec fn digit_val(c: char) -> nat {
    ((c as u32) - ('0' as u32)) as nat
}

pub open spec fn all_digits(d: Seq<char>) -> bool {
    forall|j: int| 0 <= j < d.len() ==> is_digit(#[trigger] d[j])
}

/// Value of a string of decimal digits.
pub open spec fn digits_value(d: Seq<char>) -> nat
    decreases d.len(),
{
    if d.len() == 0 {
        0
    } else {
        digits_value(d.drop_last()) * 10 + digit_val(d.last())
    }
}

/// `str::parse::<usize>`: an optional `+`, then one or more ASCII digits whose value fits.
pub open spec fn parse_usize(s: Seq<char>) -> Option<nat> {
    let d = if s.len() > 0 && s[0] == '+' {
        s.drop_first()
    } else {
        s
    };
    if d.len() > 0 && all_digits(d) && digits_value(d) <= usize::MAX {
        Some(digits_value(d))
    } else {
        None
    }
}

proof fn lemma_digits_value_mono(d: Seq<char>, i: int)
    requires
        0 <= i <= d.len(),
        forall|j: int| 0 <= j < d.len() ==> is_digit(#[trigger] d[j]),
    ensures
        digits_value(d.take(i)) <= digits_value(d),
    decreases d.len() - i,
{
    if i < d.len() {
        lemma_digits_value_mono(d.drop_last(), i);
        assert(d.drop_last().take(i) =~= d.take(i));
        assert(d.drop_last()[0] == d[0] || d.drop_last().len() == 0);
    } else {
        assert(d.take(i) =~= d);
    }
}

/// Decimal value of `s` as `str::parse::<usize>` reads it.
pub fn parse_usize_chars(s: &[char]) -> (r: Option<usize>)
    ensures
        match r {
            Some(v) => parse_usize(s@) == Some(v as nat),
            None => parse_usize(s@) is None,
        },
{
    let start: usize = if s.len() > 0 && s[0] == '+' {
        1
    } else {
        0
    };
    let ghost d = if s@.len() > 0 && s@[0] == '+' {
        s@.drop_first()
    } else {
        s@
    };
    assert(d =~= s@.skip(start as int));
    if start == s.len() {
        return None;
    }
    let mut v: usize = 0;
    let mut i: usize = start;
    while i < s.len()
        invariant
            start <= i <= s.len(),
            d == s@.skip(start as int),
            d == (if s@.len() > 0 && s@[0] == '+' {
                s@.drop_first()
            } else {
                s@
            }),
            forall|j: int| start <= j < i ==> is_digit(s@[j]),
            v as nat == digits_value(d.take(i - start)),
        decreases s.len() - i,
    {
        let c = s[i];
        if !('0' <= c && c <= '9') {
            assert(!is_digit(d[i - start]));
            assert(!all_digits(d));
            return None;
        }
        let dv = (c as u32 - '0' as u32) as usize;
        assert(d.take(i - start + 1).drop_last() =~= d.take(i - start));
        assert(d.take(i - start + 1).last() == c);
        assert(digits_value(d.take(i - start + 1)) == v * 10 + dv);
        match v.checked_mul(10) {
            None => {
                proof {
                    lemma_none_if_prefix_overflows(s@, d, start as int, i as int);
                }
                return None;
            },
            Some(m) => match m.checked_add(dv) {
                None => {
                    proof {
                        lemma_none_if_prefix_overflows(s@, d, start as int, i as int);
                    }
                    return None;
                },
                Some(n) => {
                    v = n;
                },
            },
        }
        i = i + 1;
    }
    assert(d.take(s.len() - start) =~= d);
    Some(v)
}

proof fn lemma_none_if_prefix_overflows(s: Seq<char>, d: Seq<char>, start: int, i: int)
    requires
        0 <= start <= i < s.len(),
        d == s.skip(start),
        digits_value(d.take(i - start + 1)) > usize::MAX,
        d == (if s.len() > 0 && s[0] == '+' {
            s.drop_first()
        } else {
            s
        }),
    ensures
        parse_usize(s) is None,
{
    if all_digits(d) {
        lemma_digits_value_mono(d, i - start + 1);
    }
}

/// `eq_ignore_ascii_case`.
pub open spec fn eq_ignore_ascii_case(a: Seq<char>, b: Seq<char>) -> bool {
    lower(a) == lower(b)
}

pub fn eq_ignore_ascii_case_chars(a: &[char], b: &[char]) -> (r: bool)
    ensures
        r == eq_ignore_ascii_case(a@, b@),
{
    let la = lower_chars(a);
    let lb = lower_chars(b);
    chars_eq(la.as_slice(), lb.as_slice())
}

/// The characters of each string, in order.
pub open spec fn views_of(v: Seq<String>) -> Seq<Seq<char>> {
    v.map_values(|s: String| s@)
}

/// `parts.join(sep)` on owned strings.
pub fn join_strings(parts: &Vec<String>, sep: &str) -> (r: String)
    ensures
        r@ == join(views_of(parts@), sep@),
{
    let mut out = String::new();
    let mut i: usize = 0;
    while i < parts.len()
        invariant
            i <= parts.len(),
            out@ == join(views_of(parts@.take(i as int)), sep@),
        decreases parts.len() - i,
    {
        let ghost before = out@;
        if i > 0 {
            push_str(&mut out, sep);
        }
        push_str(&mut out, parts[i].as_str());
        assert(views_of(parts@.take(i + 1)).drop_last() =~= views_of(parts@.take(i as int)));
        assert(views_of(parts@.take(i + 1)).last() == parts@[i as int]@);
        if i == 0 {
            assert(before =~= Seq::<char>::empty());
            assert(out@ =~= parts@[0]@);
        }
        i = i + 1;
    }
    assert(parts@.take(parts@.len() as int) =~= parts@);
    out
}

pub open spec fn digit_char(d: nat) -> char {
    (('0' as u32) + d) as char
}

/// Decimal digits of `n`, as `{}` prints an unsigned integer.
pub open spec fn decimal(n: nat) -> Seq<char>
    decreases n,
{
    if n < 10 {
        seq![digit_char(n)]
    } else {
        decimal(n / 10).push(digit_char(n % 10))
    }
}

fn digit_of(d: u128) -> (c: char)
    requires
        d < 10,
    ensures
        c == digit_char(d as nat),
{
    match d {
        0 => '0',
        1 => '1',
        2 => '2',
        3 => '3',
        4 => '4',
        5 => '5',
        6 => '6',
        7 => '7',
        8 => '8',
        _ => '9',
    }
}

/// Append the decimal digits of `n`.
pub fn push_decimal(out: &mut String, n: u128)
    ensures
        final(out)@ == old(out)@ + decimal(n as nat),
    decreases n,
{
    if n >= 10 {
        push_decimal(out, n / 10);
    }
    let c = digit_of(n % 10);
    out.push(c);
    assert(out@ =~= old(out)@ + decimal(n as nat)) by {
        if n < 10 {
            assert(n % 10 == n);
        }
    }
}

/// The decimal text of `n`.
pub fn decimal_string(n: u128) -> (r: String)
    ensures
        r@ == decimal(n as nat),
{
    let mut s = String::new();
    push_decimal(&mut s, n);
    assert(s@ =~= decimal(n as nat));
    s
}

/// A text has no more words than characters.
pub proof fn lemma_words_len(s: Seq<char>)
    ensures
        words(s).len() <= s.len(),
    decreases s.len(),
{
    let t = trim_start(s);
    lemma_trim_start_len(s);
    if t.len() > 0 {
        let k = word_len(t);
        lemma_word_len(t);
        lemma_words_len(t.skip(k));
    }
}

/// Bounds of every word of `s`, as `str::split_whitespace` yields them.
pub fn all_word_bounds(s: &[char]) -> (out: Vec<(usize, usize)>)
    ensures
        out@.len() == words(s@).len(),
        forall|k: int| 0 <= k < out@.len() ==> marks(s@, #[trigger] out@[k], words(s@)[k]),
{
    proof {
        lemma_words_len(s@);
    }
    word_bounds(s, s.len())
}

pub open spec fn hex_digit(d: nat) -> char {
    if d < 10 {
        (('0' as u32) + d) as char
    } else {
        (('a' as u32) + (d - 10)) as char
    }
}

/// The last `k` lowercase hexadecimal digits of `n`, zero-padded, as
/// `{:0k$x}` prints a number below `16^k`.
pub open spec fn hex_fixed(n: nat, k: nat) -> Seq<char>
    decreases k,
{
    if k == 0 {
        Seq::empty()
    } else {
        hex_fixed(n / 16, (k - 1) as nat).push(hex_digit(n % 16))
    }
}

fn hex_char(d: u64) -> (c: char)
    requires
        d < 16,
    ensures
        c == hex_digit(d as nat),
{
    match d {
        0 => '0',
        1 => '1',
        2 => '2',
        3 => '3',
        4 => '4',
        5 => '5',
        6 => '6',
        7 => '7',
        8 => '8',
        9 => '9',
        10 => 'a',
        11 => 'b',
        12 => 'c',
        13 => 'd',
        14 => 'e',
        _ => 'f',
    }
}

/// Append the last `k` hexadecimal digits of `n`.
pub fn push_hex_fixed(out: &mut String, n: u64, k: u32)
    ensures
        final(out)@ == old(out)@ + hex_fixed(n as nat, k as nat),
    decreases k,
{
    if k > 0 {
        push_hex_fixed(out, n / 16, k - 1);
        out.push(hex_char(n % 16));
        assert(out@ =~= old(out)@ + hex_fixed(n as nat, k as nat));
    } else {
        assert(out@ =~= old(out)@ + hex_fixed(n as nat, k as nat));
    }
}

} // verus!
