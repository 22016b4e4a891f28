//! Choosing a verify-before-finish command for a workspace, and reading its
//! output back for the model.
use vstd::prelude::*;

use crate::text::{
    chars_eq, chars_of, contains, contains_chars, decimal, decimal_string, join, join_strings,
    line_bounds, lines, marks, push_decimal, push_str, slice_range, starts_with, starts_with_chars,
    string_of, trim, trimmed, views_of,
};
use crate::tools::types::FileChange;

verus! {

/// Whether a trimmed output line carries a diagnostic worth showing.
pub open spec fn key_line(t: Seq<char>) -> bool {
    ||| starts_with(t, "error[E"@)
    ||| starts_with(t, "error:"@)
    ||| starts_with(t, "FAIL "@)
    ||| starts_with(t, "--- FAIL:"@)
    ||| starts_with(t, "FAILED "@)
    ||| contains(t, "AssertionError"@)
    ||| starts_with(t, "assert "@)
    ||| contains(t, "SyntaxError:"@)
    ||| contains(t, "TypeError:"@)
    ||| contains(t, "re.error:"@)
}

/// The first four distinct non-empty diagnostic lines, trimmed, in order.
pub open spec fn key_lines(ls: Seq<Seq<char>>) -> Seq<Seq<char>>
    decreases ls.len(),
{
    if ls.len() == 0 {
        Seq::empty()
    } else {
        let a = key_lines(ls.drop_last());
        let t = trim(ls.last());
        if a.len() < 4 && t.len() > 0 && key_line(t) && !a.contains(t) {
            a.push(t)
        } else {
            a
        }
    }
}

/// Whether a trimmed line mentions an error or a failure.
pub open spec fn mentions_error(t: Seq<char>) -> bool {
    contains(t, "Error"@) || contains(t, "error"@) || contains(t, "FAIL"@)
}

/// The last non-empty trimmed line that mentions an error.
pub open spec fn last_error_line(ls: Seq<Seq<char>>) -> Option<Seq<char>>
    decreases ls.len(),
{
    if ls.len() == 0 {
        None
    } else {
        let t = trim(ls.last());
        if t.len() > 0 && mentions_error(t) {
            Some(t)
        } else {
            last_error_line(ls.drop_last())
        }
    }
}

/// The last non-empty trimmed line.
pub open spec fn last_nonempty(ls: Seq<Seq<char>>) -> Option<Seq<char>>
    decreases ls.len(),
{
    if ls.len() == 0 {
        None
    } else {
        let t = trim(ls.last());
        if t.len() > 0 {
            Some(t)
        } else {
            last_nonempty(ls.drop_last())
        }
    }
}

/// The summary of a failed verify run: its key lines joined by newlines;
/// failing those, the last line that mentions an error; failing that, the
/// last non-empty line.
pub open spec fn failure_summary(output: Seq<char>) -> Option<Seq<char>> {
    let ls = lines(output);
    let k = key_lines(ls);
    if k.len() > 0 {
        Some(join(k, "\n"@))
    } else if last_error_line(ls) is Some {
        last_error_line(ls)
    } else {
        last_nonempty(ls)
    }
}

fn has_text(t: &[char], word: &str) -> (r: bool)
    ensures
        r == contains(t@, word@),
{
    let w = chars_of(word);
    contains_chars(t, w.as_slice())
}

fn begins(t: &[char], word: &str) -> (r: bool)
    ensures
        r == starts_with(t@, word@),
{
    let w = chars_of(word);
    starts_with_chars(t, w.as_slice())
}

fn is_key_line(t: &[char]) -> (r: bool)
    ensures
        r == key_line(t@),
{
    begins(t, "error[E") || begins(t, "error:") || begins(t, "FAIL ") || begins(t, "--- FAIL:")
        || begins(t, "FAILED ") || has_text(t, "AssertionError") || begins(t, "assert ")
        || has_text(t, "SyntaxError:") || has_text(t, "TypeError:") || has_text(t, "re.error:")
}

fn holds_line(acc: &Vec<String>, t: &[char]) -> (r: bool)
    ensures
        r == views_of(acc@).contains(t@),
{
    let mut k: usize = 0;
    while k < acc.len()
        invariant
            k <= acc@.len(),
            forall|j: int| 0 <= j < k ==> #[trigger] views_of(acc@)[j] != t@,
        decreases acc.len() - k,
    {
        let c = chars_of(acc[k].as_str());
        if chars_eq(c.as_slice(), t) {
            assert(views_of(acc@)[k as int] == t@);
            return true;
        }
        k = k + 1;
    }
    false
}

fn line_at(text: &[char], bs: &Vec<(usize, usize)>, i: usize, Ghost(ls): Ghost<Seq<Seq<char>>>) -> (r: Vec<
    char,
>)
    requires
        i < bs@.len(),
        bs@.len() == ls.len(),
        forall|k: int| 0 <= k < bs@.len() ==> marks(text@, #[trigger] bs@[k], ls[k]),
    ensures
        r@ == trim(ls[i as int]),
{
    let (a, b) = bs[i];
    assert(marks(text@, bs@[i as int], ls[i as int]));
    let line = slice_range(text, a, b);
    trimmed(line.as_slice())
}

/// Pull high-signal diagnostic lines from verify output for model feedback.
pub fn summarize_verify_failure(output: &str) -> (r: Option<String>)
    ensures
        match r {
            Some(s) => failure_summary(output@) == Some(s@),
            None => failure_summary(output@) is None,
        },
{
    let text = chars_of(output);
    let bs = line_bounds(text.as_slice());
    let ghost ls = lines(output@);
    let mut acc: Vec<String> = Vec::new();
    let mut i: usize = 0;
    while i < bs.len()
        invariant
            i <= bs@.len(),
            text@ == output@,
            ls == lines(text@),
            bs@.len() == ls.len(),
            forall|k: int| 0 <= k < bs@.len() ==> marks(text@, #[trigger] bs@[k], ls[k]),
            views_of(acc@) == key_lines(ls.take(i as int)),
        decreases bs.len() - i,
    {
        let t = line_at(text.as_slice(), &bs, i, Ghost(ls));
        assert(ls.take(i + 1).drop_last() =~= ls.take(i as int));
        assert(ls.take(i + 1).last() == ls[i as int]);
        if acc.len() < 4 && t.len() > 0 && is_key_line(t.as_slice()) && !holds_line(
            &acc,
            t.as_slice(),
        ) {
            let ghost prev = views_of(acc@);
            acc.push(string_of(t.as_slice()));
            assert(views_of(acc@) =~= prev.push(t@));
        }
        i = i + 1;
    }
    assert(ls.take(ls.len() as int) =~= ls);
    if acc.len() > 0 {
        return Some(join_strings(&acc, "\n"));
    }
    let mut j: usize = bs.len();
    while j > 0
        invariant
            j <= bs@.len(),
            text@ == output@,
            ls == lines(text@),
            bs@.len() == ls.len(),
            forall|k: int| 0 <= k < bs@.len() ==> marks(text@, #[trigger] bs@[k], ls[k]),
            last_error_line(ls) == last_error_line(ls.take(j as int)),
            key_lines(ls).len() == 0,
        decreases j,
    {
        let t = line_at(text.as_slice(), &bs, j - 1, Ghost(ls));
        assert(ls.take(j as int).drop_last() =~= ls.take(j - 1));
        assert(ls.take(j as int).last() == ls[j - 1]);
        if t.len() > 0 && (has_text(t.as_slice(), "Error") || has_text(t.as_slice(), "error")
            || has_text(t.as_slice(), "FAIL")) {
            return Some(string_of(t.as_slice()));
        }
        j = j - 1;
    }
    assert(ls.take(0) =~= Seq::<Seq<char>>::empty());
    let mut j: usize = bs.len();
    while j > 0
        invariant
            j <= bs@.len(),
            text@ == output@,
            ls == lines(text@),
            bs@.len() == ls.len(),
            forall|k: int| 0 <= k < bs@.len() ==> marks(text@, #[trigger] bs@[k], ls[k]),
            last_nonempty(ls) == last_nonempty(ls.take(j as int)),
            key_lines(ls).len() == 0,
            last_error_line(ls) is None,
        decreases j,
    {
        let t = line_at(text.as_slice(), &bs, j - 1, Ghost(ls));
        assert(ls.take(j as int).drop_last() =~= ls.take(j - 1));
        assert(ls.take(j as int).last() == ls[j - 1]);
        if t.len() > 0 {
            return Some(string_of(t.as_slice()));
        }
        j = j - 1;
    }
    None
}

/// Lines shown at most in a snapshot, and context kept before the first change.
pub const SNAPSHOT_MAX_LINES: usize = 80;

pub const SNAPSHOT_CONTEXT: usize = 12;

/// Line `i` of `ls`, or the empty line past its end.
pub open spec fn line_or_empty(ls: Seq<Seq<char>>, i: int) -> Seq<char> {
    if 0 <= i < ls.len() {
        ls[i]
    } else {
        Seq::empty()
    }
}

pub open spec fn max_nat(a: nat, b: nat) -> nat {
    if a >= b {
        a
    } else {
        b
    }
}

/// First index at or after `i`, below the longer line count, where the two
/// texts' lines differ.
pub open spec fn first_diff(bl: Seq<Seq<char>>, al: Seq<Seq<char>>, i: nat) -> Option<nat>
    decreases max_nat(bl.len(), al.len()) - i,
{
    if i >= max_nat(bl.len(), al.len()) {
        None
    } else if line_or_empty(bl, i as int) != line_or_empty(al, i as int) {
        Some(i)
    } else {
        first_diff(bl, al, i + 1)
    }
}

pub open spec fn opt_text_of(s: Option<String>) -> Seq<char> {
    match s {
        Some(t) => t@,
        None => Seq::empty(),
    }
}

/// The first line where `after` differs from `before` (absent `before` reads
/// as empty).
pub open spec fn first_changed(before: Seq<char>, after: Seq<char>) -> Option<nat> {
    first_diff(lines(before), lines(after), 0)
}

pub(crate) fn line_text(text: &[char], bs: &Vec<(usize, usize)>, i: usize, Ghost(ls): Ghost<Seq<Seq<char>>>) -> (r: Vec<
    char,
>)
    requires
        bs@.len() == ls.len(),
        forall|k: int| 0 <= k < bs@.len() ==> marks(text@, #[trigger] bs@[k], ls[k]),
    ensures
        r@ == line_or_empty(ls, i as int),
{
    if i < bs.len() {
        let (a, b) = bs[i];
        assert(marks(text@, bs@[i as int], ls[i as int]));
        slice_range(text, a, b)
    } else {
        Vec::new()
    }
}

fn first_changed_line(before: &[char], after: &[char]) -> (r: Option<usize>)
    ensures
        match r {
            Some(i) => first_changed(before@, after@) == Some(i as nat),
            None => first_changed(before@, after@) is None,
        },
{
    let bb = line_bounds(before);
    let ab = line_bounds(after);
    let ghost bl = lines(before@);
    let ghost al = lines(after@);
    let max = if bb.len() >= ab.len() {
        bb.len()
    } else {
        ab.len()
    };
    let mut i: usize = 0;
    while i < max
        invariant
            i <= max,
            max == max_nat(bl.len(), al.len()),
            bl == lines(before@),
            al == lines(after@),
            bb@.len() == bl.len(),
            ab@.len() == al.len(),
            forall|k: int| 0 <= k < bb@.len() ==> marks(before@, #[trigger] bb@[k], bl[k]),
            forall|k: int| 0 <= k < ab@.len() ==> marks(after@, #[trigger] ab@[k], al[k]),
            first_diff(bl, al, 0) == first_diff(bl, al, i as nat),
        decreases max - i,
    {
        let b = line_text(before, &bb, i, Ghost(bl));
        let a = line_text(after, &ab, i, Ghost(al));
        if !chars_eq(b.as_slice(), a.as_slice()) {
            assert(first_diff(bl, al, i as nat) == Some(i as nat));
            return Some(i);
        }
        assert(first_diff(bl, al, i as nat) == first_diff(bl, al, (i + 1) as nat));
        i = i + 1;
    }
    assert(first_diff(bl, al, max as nat) is None);
    None
}

pub open spec fn sat_sub(a: nat, b: nat) -> nat {
    if a >= b {
        (a - b) as nat
    } else {
        0
    }
}

pub open spec fn min_nat(a: nat, b: nat) -> nat {
    if a <= b {
        a
    } else {
        b
    }
}

/// Lines `[start, end)` shown for a text of `n` lines whose first change is
/// `focus`: the whole text when it is short, else a window of at most 80
/// lines from 12 before the change.
pub open spec fn window(n: nat, focus: nat) -> (nat, nat) {
    if n <= SNAPSHOT_MAX_LINES {
        (0, n)
    } else {
        let start = sat_sub(focus, SNAPSHOT_CONTEXT as nat);
        let end = min_nat(max_nat(min_nat((focus + SNAPSHOT_CONTEXT + 1) as nat, n), (start + 1) as nat), n);
        (max_nat(sat_sub(end, SNAPSHOT_MAX_LINES as nat), start), end)
    }
}

pub open spec fn focus_of(f: Option<nat>) -> nat {
    match f {
        Some(i) => i,
        None => 0,
    }
}

fn snapshot_window(before: &[char], after: &[char], line_count: usize) -> (r: (usize, usize))
    ensures
        (r.0 as nat, r.1 as nat) == window(line_count as nat, focus_of(first_changed(before@, after@))),
{
    if line_count <= SNAPSHOT_MAX_LINES {
        return (0, line_count);
    }
    let focus = match first_changed_line(before, after) {
        Some(i) => i,
        None => 0,
    };
    let start = focus.saturating_sub(SNAPSHOT_CONTEXT);
    let reach = focus.saturating_add(SNAPSHOT_CONTEXT + 1);
    let mut end = if reach <= line_count {
        reach
    } else {
        line_count
    };
    if end < start + 1 {
        end = start + 1;
    }
    if end > line_count {
        end = line_count;
    }
    let low = end.saturating_sub(SNAPSHOT_MAX_LINES);
    let start = if low >= start {
        low
    } else {
        start
    };
    (start, end)
}

pub open spec fn spaces(k: nat) -> Seq<char> {
    Seq::new(k, |i: int| ' ')
}

/// `{:>6}` of a line number: right-aligned in six columns.
pub open spec fn right6(n: nat) -> Seq<char> {
    let d = decimal(n);
    if d.len() < 6 {
        spaces((6 - d.len()) as nat) + d
    } else {
        d
    }
}

/// Line `i` (0-based) of the snapshot body.
pub open spec fn numbered(ls: Seq<Seq<char>>, i: int) -> Seq<char> {
    right6((i + 1) as nat) + "| "@ + ls[i]
}

pub open spec fn body_of(ls: Seq<Seq<char>>, start: nat, end: nat) -> Seq<char> {
    join(Seq::new((end - start) as nat, |k: int| numbered(ls, start + k)), "\n"@)
}

/// Whether the window for `after` is a range of its lines. It is not when
/// `before` goes on, with lines that read the same as the missing ones past
/// the end of `after`, for more than the context past a text longer than
/// the window: the window then starts after its end.
pub open spec fn snapshot_fits(before: Seq<char>, after: Seq<char>) -> bool {
    let n = lines(after).len();
    let w = window(n, focus_of(first_changed(before, after)));
    n == 0 || w.0 <= w.1
}

/// The snapshot text of a change.
pub open spec fn snapshot_text(path: Seq<char>, before: Seq<char>, after: Option<Seq<char>>) -> Seq<char> {
    match after {
        None => Seq::empty(),
        Some(a) => {
            let ls = lines(a);
            if ls.len() == 0 {
                "\n[post-edit snapshot of "@ + path + "]\n(file is empty)"@
            } else {
                let w = window(ls.len(), focus_of(first_changed(before, a)));
                let note = if w.0 == 0 && w.1 == ls.len() {
                    Seq::empty()
                } else {
                    " (lines "@ + decimal(w.0 + 1) + "–"@ + decimal(w.1) + ")"@
                };
                "\n[post-edit snapshot of "@ + path + note + "]\n"@ + body_of(ls, w.0, w.1)
            }
        },
    }
}

pub(crate) fn push_right6(out: &mut String, n: u128)
    ensures
        final(out)@ == old(out)@ + right6(n as nat),
{
    let d = decimal_string(n);
    let dc = chars_of(d.as_str());
    let mut k: usize = dc.len();
    while k < 6
        invariant
            dc.len() <= k <= 6 || (k == dc.len() && k > 6),
            out@ == old(out)@ + spaces((k - dc.len()) as nat),
        decreases 6 - k,
    {
        out.push(' ');
        assert(spaces((k + 1 - dc.len()) as nat) =~= spaces((k - dc.len()) as nat).push(' '));
        k = k + 1;
    }
    let ghost pad = out@;
    push_str(out, d.as_str());
    proof {
        if dc@.len() < 6 {
            assert(k == 6);
        } else {
            assert(spaces(0) =~= Seq::<char>::empty());
            assert(pad =~= old(out)@);
        }
    }
}

/// Whether `format_post_edit_snapshot` can show `change`: its window is a range of lines.
pub fn snapshot_fits_change(change: &FileChange) -> (r: bool)
    ensures
        r == snapshot_fits(opt_text_of(change.before), opt_text_of(change.after)),
{
    let after = match &change.after {
        Some(a) => a,
        None => return true,
    };
    let at = chars_of(after.as_str());
    let bt = match &change.before {
        Some(b) => chars_of(b.as_str()),
        None => Vec::new(),
    };
    assert(bt@ == opt_text_of(change.before));
    let bs = line_bounds(at.as_slice());
    if bs.len() == 0 {
        return true;
    }
    let (start, end) = snapshot_window(bt.as_slice(), at.as_slice(), bs.len());
    start <= end
}

/// A numbered snapshot of the changed file, for injection after edit/write;
/// for large files, a window around the first changed line.
pub fn format_post_edit_snapshot(change: &FileChange) -> (r: String)
    requires
        snapshot_fits(opt_text_of(change.before), opt_text_of(change.after)),
    ensures
        r@ == snapshot_text(
            change.path@,
            opt_text_of(change.before),
            match change.after {
                Some(a) => Some(a@),
                None => None,
            },
        ),
{
    let after = match &change.after {
        Some(a) => a,
        None => return String::new(),
    };
    let at = chars_of(after.as_str());
    let bt = match &change.before {
        Some(b) => chars_of(b.as_str()),
        None => Vec::new(),
    };
    assert(bt@ == opt_text_of(change.before));
    let bs = line_bounds(at.as_slice());
    let ghost ls = lines(after@);
    if bs.len() == 0 {
        let mut s = String::from_str("\n[post-edit snapshot of ");
        push_str(&mut s, change.path.as_str());
        push_str(&mut s, "]\n(file is empty)");
        return s;
    }
    let (start, end) = snapshot_window(bt.as_slice(), at.as_slice(), bs.len());
    let ghost w = window(ls.len(), focus_of(first_changed(bt@, at@)));
    let mut rows: Vec<String> = Vec::new();
    let mut i: usize = start;
    while i < end
        invariant
            start <= i <= end <= bs@.len(),
            at@ == after@,
            ls == lines(at@),
            bs@.len() == ls.len(),
            forall|k: int| 0 <= k < bs@.len() ==> marks(at@, #[trigger] bs@[k], ls[k]),
            rows@.len() == i - start,
            forall|k: int| 0 <= k < rows@.len() ==> #[trigger] rows@[k]@ == numbered(ls, start + k),
        decreases end - i,
    {
        let mut row = String::new();
        push_right6(&mut row, (i as u128) + 1);
        push_str(&mut row, "| ");
        let line = line_text(at.as_slice(), &bs, i, Ghost(ls));
        crate::text::push_all(&mut row, line.as_slice());
        assert(row@ =~= numbered(ls, i as int));
        rows.push(row);
        i = i + 1;
    }
    assert(views_of(rows@) =~= Seq::new((end - start) as nat, |k: int| numbered(ls, start + k)));
    let body = join_strings(&rows, "\n");
    let mut s = String::from_str("\n[post-edit snapshot of ");
    push_str(&mut s, change.path.as_str());
    if !(start == 0 && end == bs.len()) {
        push_str(&mut s, " (lines ");
        push_decimal(&mut s, (start as u128) + 1);
        push_str(&mut s, "–");
        push_decimal(&mut s, end as u128);
        push_str(&mut s, ")");
    }
    push_str(&mut s, "]\n");
    push_str(&mut s, body.as_str());
    s
}

/// A snapshot of a text longer than the window shows at most 25 lines, and
/// its header's range `w.0 + 1 ..= w.1` lies within the text's lines, as long
/// as the first change lies before 12 lines past its end.
pub proof fn lemma_snapshot_window_bounds(before: Seq<char>, after: Seq<char>)
    requires
        lines(after).len() > SNAPSHOT_MAX_LINES,
        focus_of(first_changed(before, after)) < lines(after).len() + SNAPSHOT_CONTEXT,
    ensures
        ({
            let w = window(lines(after).len(), focus_of(first_changed(before, after)));
            &&& 1 <= w.0 + 1 <= w.1 <= lines(after).len()
            &&& w.1 - w.0 <= 25
        }),
        snapshot_fits(before, after),
{
}

} // verus!
