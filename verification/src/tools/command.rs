//! Static checks on shell commands and paths before a tool runs them: leaving
//! the workspace, running inline interpreter code, and touching credential
//! stores.
use vstd::prelude::*;

use crate::text::{
    all_word_bounds, chars_eq, chars_of, contains, contains_chars, is_white, is_white_char, lower,
    lower_chars, marks, slice_range, starts_with, starts_with_chars, words,
};
use crate::tools::workspace::{below, slashes};

verus! {

/// Characters that split a command into path-like pieces.
pub open spec fn is_cmd_sep(c: char) -> bool {
    is_white(c) || c == '"' || c == '\''
}

/// `(finished pieces, piece in progress)` after scanning `s`.
pub open spec fn pieces_acc(s: Seq<char>) -> (Seq<Seq<char>>, Seq<char>)
    decreases s.len(),
{
    if s.len() == 0 {
        (Seq::empty(), Seq::empty())
    } else {
        let (done, cur) = pieces_acc(s.drop_last());
        if is_cmd_sep(s.last()) {
            (done.push(cur), Seq::empty())
        } else {
            (done, cur.push(s.last()))
        }
    }
}

/// `s.split(is_cmd_sep)`: the pieces between single separators, empty ones
/// included.
pub open spec fn cmd_pieces(s: Seq<char>) -> Seq<Seq<char>> {
    pieces_acc(s).0.push(pieces_acc(s).1)
}

fn is_cmd_sep_char(c: char) -> (r: bool)
    ensures
        r == is_cmd_sep(c),
{
    is_white_char(c) || c == '"' || c == '\''
}

/// The pieces of `s`, in order.
pub fn split_cmd(s: &[char]) -> (out: Vec<Vec<char>>)
    ensures
        out@.map_values(|p: Vec<char>| p@) == cmd_pieces(s@),
{
    let mut done: Vec<Vec<char>> = Vec::new();
    let mut cur: Vec<char> = Vec::new();
    let mut i: usize = 0;
    while i < s.len()
        invariant
            i <= s@.len(),
            (done@.map_values(|p: Vec<char>| p@), cur@) == pieces_acc(s@.take(i as int)),
        decreases s.len() - i,
    {
        assert(s@.take(i + 1).drop_last() =~= s@.take(i as int));
        assert(s@.take(i + 1).last() == s@[i as int]);
        let ghost d = done@.map_values(|p: Vec<char>| p@);
        if is_cmd_sep_char(s[i]) {
            let piece = cur;
            cur = Vec::new();
            let ghost c = piece@;
            done.push(piece);
            assert(done@.map_values(|p: Vec<char>| p@) =~= d.push(c));
        } else {
            cur.push(s[i]);
        }
        i = i + 1;
    }
    assert(s@.take(s@.len() as int) =~= s@);
    let ghost d = done@.map_values(|p: Vec<char>| p@);
    let ghost c = cur@;
    done.push(cur);
    assert(done@.map_values(|p: Vec<char>| p@) =~= d.push(c));
    done
}

pub open spec fn traversal_token(t: Seq<char>) -> bool {
    t == ".."@ || starts_with(t, "../"@) || contains(t, "/../"@)
}

pub open spec fn has_traversal(cmd: Seq<char>) -> bool {
    exists|i: int| 0 <= i < cmd_pieces(cmd).len() && traversal_token(#[trigger] cmd_pieces(cmd)[i])
}

fn text_is(s: &[char], lit: &str) -> (r: bool)
    ensures
        r == (s@ == lit@),
{
    let l = chars_of(lit);
    chars_eq(s, l.as_slice())
}

fn begins(s: &[char], lit: &str) -> (r: bool)
    ensures
        r == starts_with(s@, lit@),
{
    let l = chars_of(lit);
    starts_with_chars(s, l.as_slice())
}

fn has(s: &[char], lit: &str) -> (r: bool)
    ensures
        r == contains(s@, lit@),
{
    let l = chars_of(lit);
    contains_chars(s, l.as_slice())
}

fn traversal_piece(t: &[char]) -> (r: bool)
    ensures
        r == traversal_token(t@),
{
    text_is(t, "..") || begins(t, "../") || has(t, "/../")
}

/// Whether any piece of the command climbs to a parent directory.
pub fn command_has_parent_traversal(command: &str) -> (r: bool)
    ensures
        r == has_traversal(command@),
{
    let c = chars_of(command);
    traversal_in(c.as_slice())
}

fn traversal_in(c: &[char]) -> (r: bool)
    ensures
        r == has_traversal(c@),
{
    let ps = split_cmd(c);
    let ghost v = ps@.map_values(|p: Vec<char>| p@);
    let mut i: usize = 0;
    while i < ps.len()
        invariant
            i <= ps@.len(),
            v == ps@.map_values(|p: Vec<char>| p@),
            v == cmd_pieces(c@),
            forall|j: int| 0 <= j < i ==> !traversal_token(#[trigger] v[j]),
        decreases ps.len() - i,
    {
        if traversal_piece(ps[i].as_slice()) {
            assert(traversal_token(v[i as int]));
            return true;
        }
        i = i + 1;
    }
    false
}

/// `s` without its trailing `/`s.
pub open spec fn strip_slashes(s: Seq<char>) -> Seq<char>
    decreases s.len(),
{
    if s.len() > 0 && s.last() == '/' {
        strip_slashes(s.drop_last())
    } else {
        s
    }
}

fn strip_slashes_exec(s: &[char]) -> (r: Vec<char>)
    ensures
        r@ == strip_slashes(s@),
{
    let mut b: usize = s.len();
    assert(s@.take(b as int) =~= s@);
    while b > 0 && s[b - 1] == '/'
        invariant
            b <= s.len(),
            strip_slashes(s@) == strip_slashes(s@.take(b as int)),
        decreases b,
    {
        assert(s@.take(b as int).drop_last() =~= s@.take(b - 1));
        b = b - 1;
    }
    assert(s@.take(b as int) =~= s@.subrange(0, b as int));
    slice_range(s, 0, b)
}

pub open spec fn is_ascii_alpha(c: char) -> bool {
    ('a' <= c && c <= 'z') || ('A' <= c && c <= 'Z')
}

/// A token naming an absolute path: `/...` or a drive path such as `C:/...`.
pub open spec fn absolute_token(t: Seq<char>) -> bool {
    starts_with(t, "/"@) || (t.len() >= 3 && is_ascii_alpha(t[0]) && t[1] == ':' && t[2] == '/')
}

pub fn is_absolute_command_token(token: &str) -> (r: bool)
    ensures
        r == absolute_token(token@),
{
    let t = chars_of(token);
    if begins(t.as_slice(), "/") {
        return true;
    }
    t.len() >= 3 && (('a' <= t[0] && t[0] <= 'z') || ('A' <= t[0] && t[0] <= 'Z')) && t[1] == ':'
        && t[2] == '/'
}

fn is_absolute_chars(t: &[char]) -> (r: bool)
    ensures
        r == absolute_token(t@),
{
    if begins(t, "/") {
        return true;
    }
    t.len() >= 3 && (('a' <= t[0] && t[0] <= 'z') || ('A' <= t[0] && t[0] <= 'Z')) && t[1] == ':'
        && t[2] == '/'
}

/// A piece `t` that leaves the workspace whose lowercased root is `ws`: a
/// home path, or an absolute path that is neither the root nor under it.
pub open spec fn escaping_piece(t: Seq<char>, ws: Seq<char>) -> bool {
    if t.len() == 0 {
        false
    } else if t == "~"@ || starts_with(t, "~/"@) {
        true
    } else {
        let u = lower(if starts_with(t, "//?/"@) {
            t.skip(4)
        } else {
            t
        });
        absolute_token(u) && strip_slashes(u) != ws && !starts_with(strip_slashes(u), ws + "/"@)
    }
}

/// Whether a shell command reaches outside the workspace: by a parent
/// traversal, a home path, or an absolute path outside the root (paths
/// compared with forward slashes and ASCII case folded).
pub open spec fn escapes(workspace: Seq<char>, command: Seq<char>) -> bool {
    let c = slashes(command);
    let ws = lower(strip_slashes(slashes(workspace)));
    has_traversal(c) || exists|i: int|
        0 <= i < cmd_pieces(c).len() && escaping_piece(#[trigger] cmd_pieces(c)[i], ws)
}

fn escaping_piece_exec(t: &[char], ws: &[char]) -> (r: bool)
    ensures
        r == escaping_piece(t@, ws@),
{
    proof {
        reveal_strlit("//?/");
    }
    if t.len() == 0 {
        return false;
    }
    if text_is(t, "~") || begins(t, "~/") {
        return true;
    }
    let raw = if begins(t, "//?/") {
        slice_range(t, 4, t.len())
    } else {
        slice_range(t, 0, t.len())
    };
    assert(raw@ =~= (if starts_with(t@, "//?/"@) {
        t@.skip(4)
    } else {
        t@
    }));
    let u = lower_chars(raw.as_slice());
    if !is_absolute_chars(u.as_slice()) {
        return false;
    }
    let stripped = strip_slashes_exec(u.as_slice());
    let mut under = slice_range(ws, 0, ws.len());
    under.push('/');
    proof {
        reveal_strlit("/");
    }
    assert(under@ =~= ws@ + "/"@);
    !chars_eq(stripped.as_slice(), ws) && !starts_with_chars(stripped.as_slice(), under.as_slice())
}

fn slash_chars(s: &[char]) -> (r: Vec<char>)
    ensures
        r@ == slashes(s@),
{
    let mut out: Vec<char> = Vec::new();
    let mut i: usize = 0;
    while i < s.len()
        invariant
            i <= s@.len(),
            out@ == slashes(s@.take(i as int)),
        decreases s.len() - i,
    {
        let ch = if s[i] == '\\' {
            '/'
        } else {
            s[i]
        };
        out.push(ch);
        assert(out@ =~= slashes(s@.take(i + 1)));
        i = i + 1;
    }
    assert(s@.take(s@.len() as int) =~= s@);
    out
}

pub fn command_escapes_workspace(workspace: &str, command: &str) -> (r: bool)
    ensures
        r == escapes(workspace@, command@),
{
    let raw = chars_of(command);
    let c = slash_chars(raw.as_slice());
    let ps = split_cmd(c.as_slice());
    let ghost v = ps@.map_values(|p: Vec<char>| p@);
    let mut i: usize = 0;
    while i < ps.len()
        invariant
            i <= ps@.len(),
            v == ps@.map_values(|p: Vec<char>| p@),
            v == cmd_pieces(c@),
            c@ == slashes(command@),
            forall|j: int| 0 <= j < i ==> !traversal_token(#[trigger] v[j]),
        decreases ps.len() - i,
    {
        if traversal_piece(ps[i].as_slice()) {
            assert(traversal_token(v[i as int]));
            assert(has_traversal(c@));
            return true;
        }
        i = i + 1;
    }
    assert(!has_traversal(c@));
    let wraw = chars_of(workspace);
    let w1 = slash_chars(wraw.as_slice());
    let w2 = strip_slashes_exec(w1.as_slice());
    let ws = lower_chars(w2.as_slice());
    let mut i: usize = 0;
    while i < ps.len()
        invariant
            i <= ps@.len(),
            v == ps@.map_values(|p: Vec<char>| p@),
            v == cmd_pieces(c@),
            c@ == slashes(command@),
            !has_traversal(c@),
            ws@ == lower(strip_slashes(slashes(workspace@))),
            forall|j: int| 0 <= j < i ==> !escaping_piece(#[trigger] v[j], ws@),
        decreases ps.len() - i,
    {
        if escaping_piece_exec(ps[i].as_slice(), ws.as_slice()) {
            assert(escaping_piece(v[i as int], ws@));
            return true;
        }
        i = i + 1;
    }
    false
}

pub open spec fn is_quote(c: char) -> bool {
    c == '"' || c == '\''
}

pub open spec fn strip_quotes_lead(s: Seq<char>) -> Seq<char>
    decreases s.len(),
{
    if s.len() > 0 && is_quote(s[0]) {
        strip_quotes_lead(s.drop_first())
    } else {
        s
    }
}

pub open spec fn strip_quotes_trail(s: Seq<char>) -> Seq<char>
    decreases s.len(),
{
    if s.len() > 0 && is_quote(s.last()) {
        strip_quotes_trail(s.drop_last())
    } else {
        s
    }
}

/// Length of the run of characters at the end of `s` that are not path
/// separators.
pub open spec fn tail_len(s: Seq<char>) -> nat
    decreases s.len(),
{
    if s.len() == 0 || s.last() == '/' || s.last() == '\\' {
        0
    } else {
        1 + tail_len(s.drop_last())
    }
}

/// The final path segment of a token: what follows its last `/` or `\`.
pub open spec fn last_segment(s: Seq<char>) -> Seq<char> {
    s.skip(s.len() - tail_len(s))
}

/// A word of a command as the checks read it: quotes stripped from both
/// ends, directory dropped, ASCII case folded.
pub open spec fn command_token(w: Seq<char>) -> Seq<char> {
    lower(last_segment(strip_quotes_trail(strip_quotes_lead(w))))
}

pub open spec fn tokens_of(command: Seq<char>) -> Seq<Seq<char>> {
    words(command).map_values(|w: Seq<char>| command_token(w))
}

proof fn lemma_tail_len(s: Seq<char>)
    ensures
        tail_len(s) <= s.len(),
    decreases s.len(),
{
    if s.len() > 0 && s.last() != '/' && s.last() != '\\' {
        lemma_tail_len(s.drop_last());
    }
}

fn token_of(w: &[char]) -> (r: Vec<char>)
    ensures
        r@ == command_token(w@),
{
    let mut a: usize = 0;
    assert(w@.skip(0) =~= w@);
    while a < w.len() && (w[a] == '"' || w[a] == '\'')
        invariant
            a <= w.len(),
            strip_quotes_lead(w@) == strip_quotes_lead(w@.skip(a as int)),
        decreases w.len() - a,
    {
        assert(w@.skip(a as int).drop_first() =~= w@.skip(a + 1));
        a = a + 1;
    }
    let mut b: usize = w.len();
    assert(strip_quotes_lead(w@) == w@.skip(a as int));
    assert(w@.skip(a as int).take(b - a) =~= w@.skip(a as int));
    while b > a && (w[b - 1] == '"' || w[b - 1] == '\'')
        invariant
            a <= b <= w.len(),
            strip_quotes_trail(strip_quotes_lead(w@)) == strip_quotes_trail(w@.subrange(a as int, b as int)),
        decreases b,
    {
        assert(w@.subrange(a as int, b as int).drop_last() =~= w@.subrange(a as int, b - 1));
        b = b - 1;
    }
    let ghost q = w@.subrange(a as int, b as int);
    assert(strip_quotes_trail(q) == q);
    let mut c: usize = b;
    assert(q.take(c - a) =~= q);
    proof {
        lemma_tail_len(q);
    }
    while c > a && w[c - 1] != '/' && w[c - 1] != '\\'
        invariant
            a <= c <= b,
            b <= w.len(),
            q == w@.subrange(a as int, b as int),
            tail_len(q) == (b - c) + tail_len(w@.subrange(a as int, c as int)),
        decreases c,
    {
        assert(w@.subrange(a as int, c as int).drop_last() =~= w@.subrange(a as int, c - 1));
        c = c - 1;
    }
    assert(tail_len(w@.subrange(a as int, c as int)) == 0);
    let seg = slice_range(w, c, b);
    assert(seg@ =~= last_segment(q));
    lower_chars(seg.as_slice())
}

/// The command's words as the checks read them.
pub fn command_tokens(command: &str) -> (r: Vec<Vec<char>>)
    ensures
        r@.map_values(|t: Vec<char>| t@) == tokens_of(command@),
{
    let c = chars_of(command);
    let bs = all_word_bounds(c.as_slice());
    let ghost ws = words(c@);
    let mut out: Vec<Vec<char>> = Vec::new();
    let mut i: usize = 0;
    while i < bs.len()
        invariant
            i <= bs@.len(),
            c@ == command@,
            ws == words(c@),
            bs@.len() == ws.len(),
            forall|k: int| 0 <= k < bs@.len() ==> marks(c@, #[trigger] bs@[k], ws[k]),
            out@.len() == i,
            forall|k: int| 0 <= k < i ==> #[trigger] out@[k]@ == command_token(ws[k]),
        decreases bs.len() - i,
    {
        let (a, b) = bs[i];
        assert(marks(c@, bs@[i as int], ws[i as int]));
        let w = slice_range(c.as_slice(), a, b);
        out.push(token_of(w.as_slice()));
        i = i + 1;
    }
    assert(out@.map_values(|t: Vec<char>| t@) =~= tokens_of(command@));
    out
}

pub open spec fn interpreter(t: Seq<char>) -> bool {
    t == "python"@ || t == "python.exe"@ || t == "python3"@ || t == "python3.exe"@ || t == "node"@
        || t == "node.exe"@ || t == "ruby"@ || t == "perl"@ || t == "deno"@ || t == "deno.exe"@ || t
        == "powershell"@ || t == "powershell.exe"@ || t == "pwsh"@ || t == "pwsh.exe"@ || t
        == "bash"@ || t == "bash.exe"@ || t == "sh"@ || t == "sh.exe"@ || t == "wsl"@ || t
        == "wsl.exe"@
}

pub open spec fn inline_flag(t: Seq<char>) -> bool {
    t == "-c"@ || t == "--command"@ || t == "-command"@ || t == "-e"@ || t == "--eval"@ || t
        == "-encodedcommand"@ || t == "-enc"@
}

pub open spec fn any_token(ts: Seq<Seq<char>>, p: spec_fn(Seq<char>) -> bool) -> bool {
    exists|i: int| 0 <= i < ts.len() && p(#[trigger] ts[i])
}

/// An interpreter is named together with an inline-code flag.
pub open spec fn runs_inline_code(command: Seq<char>) -> bool {
    any_token(tokens_of(command), |t: Seq<char>| interpreter(t)) && any_token(
        tokens_of(command),
        |t: Seq<char>| inline_flag(t),
    )
}

fn is_interpreter(t: &[char]) -> (r: bool)
    ensures
        r == interpreter(t@),
{
    text_is(t, "python") || text_is(t, "python.exe") || text_is(t, "python3") || text_is(
        t,
        "python3.exe",
    ) || text_is(t, "node") || text_is(t, "node.exe") || text_is(t, "ruby") || text_is(t, "perl")
        || text_is(t, "deno") || text_is(t, "deno.exe") || text_is(t, "powershell") || text_is(
        t,
        "powershell.exe",
    ) || text_is(t, "pwsh") || text_is(t, "pwsh.exe") || text_is(t, "bash") || text_is(
        t,
        "bash.exe",
    ) || text_is(t, "sh") || text_is(t, "sh.exe") || text_is(t, "wsl") || text_is(t, "wsl.exe")
}

fn is_inline_flag(t: &[char]) -> (r: bool)
    ensures
        r == inline_flag(t@),
{
    text_is(t, "-c") || text_is(t, "--command") || text_is(t, "-command") || text_is(t, "-e")
        || text_is(t, "--eval") || text_is(t, "-encodedcommand") || text_is(t, "-enc")
}

pub fn command_runs_inline_code(command: &str) -> (r: bool)
    ensures
        r == runs_inline_code(command@),
{
    let ts = command_tokens(command);
    let ghost v = ts@.map_values(|t: Vec<char>| t@);
    let mut interp = false;
    let mut flag = false;
    let mut i: usize = 0;
    while i < ts.len()
        invariant
            i <= ts@.len(),
            v == ts@.map_values(|t: Vec<char>| t@),
            v == tokens_of(command@),
            interp == exists|j: int| 0 <= j < i && interpreter(#[trigger] v[j]),
            flag == exists|j: int| 0 <= j < i && inline_flag(#[trigger] v[j]),
        decreases ts.len() - i,
    {
        let t = ts[i].as_slice();
        assert(v[i as int] == t@);
        if is_interpreter(t) {
            interp = true;
        }
        if is_inline_flag(t) {
            flag = true;
        }
        i = i + 1;
    }
    proof {
        let p1 = |t: Seq<char>| interpreter(t);
        let p2 = |t: Seq<char>| inline_flag(t);
        if interp {
            let j = choose|j: int| 0 <= j < v.len() && interpreter(#[trigger] v[j]);
            assert(p1(v[j]));
        }
        if any_token(v, p1) {
            let j = choose|j: int| 0 <= j < v.len() && p1(#[trigger] v[j]);
            assert(interpreter(v[j]));
        }
        if flag {
            let j = choose|j: int| 0 <= j < v.len() && inline_flag(#[trigger] v[j]);
            assert(p2(v[j]));
        }
        if any_token(v, p2) {
            let j = choose|j: int| 0 <= j < v.len() && p2(#[trigger] v[j]);
            assert(inline_flag(v[j]));
        }
    }
    interp && flag
}

/// File and directory names that hold credentials, in any ASCII case.
pub open spec fn credential_name(name: Seq<char>) -> bool {
    let n = lower(name);
    n == ".ssh"@ || n == ".aws"@ || n == ".gnupg"@ || n == ".kube"@ || n == ".git-credentials"@ || n
        == ".netrc"@ || n == "_netrc"@ || n == "id_rsa"@ || n == "id_dsa"@ || n == "id_ecdsa"@ || n
        == "id_ed25519"@
}

fn credential_chars(name: &[char]) -> (r: bool)
    ensures
        r == credential_name(name@),
{
    let n = lower_chars(name);
    let t = n.as_slice();
    text_is(t, ".ssh") || text_is(t, ".aws") || text_is(t, ".gnupg") || text_is(t, ".kube")
        || text_is(t, ".git-credentials") || text_is(t, ".netrc") || text_is(t, "_netrc")
        || text_is(t, "id_rsa") || text_is(t, "id_dsa") || text_is(t, "id_ecdsa") || text_is(
        t,
        "id_ed25519",
    )
}

pub fn credential_store_name(name: &str) -> (r: bool)
    ensures
        r == credential_name(name@),
{
    let c = chars_of(name);
    credential_chars(c.as_slice())
}

pub open spec fn credential_tool(t: Seq<char>) -> bool {
    t == "cmdkey"@ || t == "cmdkey.exe"@ || t == "vaultcmd"@ || t == "vaultcmd.exe"@ || t
        == "secret-tool"@
}

/// A credential-manager tool, or `git credential`, appears among the tokens.
pub open spec fn reads_credential_store(command: Seq<char>) -> bool {
    let ts = tokens_of(command);
    (exists|i: int| 0 <= i < ts.len() && credential_tool(#[trigger] ts[i])) || ((exists|i: int|
        0 <= i < ts.len() && (#[trigger] ts[i] == "git"@ || ts[i] == "git.exe"@)) && exists|i: int|
        0 <= i < ts.len() && #[trigger] ts[i] == "credential"@)
}

pub fn command_reads_credential_store(command: &str) -> (r: bool)
    ensures
        r == reads_credential_store(command@),
{
    let ts = command_tokens(command);
    let ghost v = ts@.map_values(|t: Vec<char>| t@);
    let mut tool = false;
    let mut git = false;
    let mut cred = false;
    let mut i: usize = 0;
    while i < ts.len()
        invariant
            i <= ts@.len(),
            v == ts@.map_values(|t: Vec<char>| t@),
            v == tokens_of(command@),
            tool == exists|j: int| 0 <= j < i && credential_tool(#[trigger] v[j]),
            git == exists|j: int| 0 <= j < i && (#[trigger] v[j] == "git"@ || v[j] == "git.exe"@),
            cred == exists|j: int| 0 <= j < i && #[trigger] v[j] == "credential"@,
        decreases ts.len() - i,
    {
        let t = ts[i].as_slice();
        assert(v[i as int] == t@);
        if text_is(t, "cmdkey") || text_is(t, "cmdkey.exe") || text_is(t, "vaultcmd") || text_is(
            t,
            "vaultcmd.exe",
        ) || text_is(t, "secret-tool") {
            tool = true;
        }
        if text_is(t, "git") || text_is(t, "git.exe") {
            git = true;
        }
        if text_is(t, "credential") {
            cred = true;
        }
        i = i + 1;
    }
    tool || (git && cred)
}

/// Scan of a path component by component: whether a finished component is
/// a credential name, and the component in progress.
pub open spec fn credential_scan(s: Seq<char>) -> (bool, Seq<char>)
    decreases s.len(),
{
    if s.len() == 0 {
        (false, Seq::empty())
    } else {
        let (found, cur) = credential_scan(s.drop_last());
        if s.last() == '/' {
            (found || credential_name(cur), Seq::empty())
        } else {
            (found, cur.push(s.last()))
        }
    }
}

/// A credential file or directory inside the workspace: some `/`-separated
/// component of the path below the root (the whole path when it is not
/// below it) is a credential name. The root's own components do not count.
pub open spec fn credential_path(root: Seq<char>, path: Seq<char>) -> bool {
    let rel = match below(root, path) {
        Some(r) => r,
        None => path,
    };
    credential_scan(rel).0 || credential_name(credential_scan(rel).1)
}

pub fn path_is_credential_store(root: &str, path: &str) -> (r: bool)
    ensures
        r == credential_path(root@, path@),
{
    let ws = crate::tools::workspace::Workspace::new(String::from_str(root));
    let p = chars_of(path);
    let rel = match ws.below_root(p.as_slice()) {
        Some(x) => x,
        None => p,
    };
    let mut cur: Vec<char> = Vec::new();
    let mut found = false;
    let mut i: usize = 0;
    while i < rel.len()
        invariant
            i <= rel@.len(),
            (found, cur@) == credential_scan(rel@.take(i as int)),
        decreases rel.len() - i,
    {
        assert(rel@.take(i + 1).drop_last() =~= rel@.take(i as int));
        assert(rel@.take(i + 1).last() == rel@[i as int]);
        if rel[i] == '/' {
            if credential_chars(cur.as_slice()) {
                found = true;
            }
            cur = Vec::new();
        } else {
            cur.push(rel[i]);
        }
        i = i + 1;
    }
    assert(rel@.take(rel@.len() as int) =~= rel@);
    found || credential_chars(cur.as_slice())
}

pub open spec fn normalized(p: Seq<char>) -> Seq<char> {
    lower(slashes(if starts_with(p, "\\\\?\\"@) {
        p.skip(4)
    } else {
        p
    }))
}

/// Two path texts name the same file once the verbatim prefix is dropped,
/// separators are slashes and ASCII case is folded.
pub fn paths_match(left: &str, right: &str) -> (r: bool)
    ensures
        r == (normalized(left@) == normalized(right@)),
{
    let a = normalize_path(left);
    let b = normalize_path(right);
    chars_eq(a.as_slice(), b.as_slice())
}

fn normalize_path(p: &str) -> (r: Vec<char>)
    ensures
        r@ == normalized(p@),
{
    proof {
        reveal_strlit("\\\\?\\");
    }
    let c = chars_of(p);
    let rest = if begins(c.as_slice(), "\\\\?\\") {
        slice_range(c.as_slice(), 4, c.len())
    } else {
        slice_range(c.as_slice(), 0, c.len())
    };
    assert(rest@ =~= (if starts_with(p@, "\\\\?\\"@) {
        p@.skip(4)
    } else {
        p@
    }));
    let s = slash_chars(rest.as_slice());
    lower_chars(s.as_slice())
}

/// A file outside the execution grant: its path as the host renders it, and its
/// final component when that is text.
#[derive(Debug)]
pub struct ReservedFile {
    pub path: String,
    pub file_name: Option<String>,
}

pub open spec fn reserved_view(r: ReservedFile) -> (Seq<char>, Option<Seq<char>>) {
    (
        r.path@,
        match r.file_name {
            Some(n) => Some(n@),
            None => None,
        },
    )
}

/// A command as the reserved-store check reads it: slashes, ASCII lowercase.
pub open spec fn folded(command: Seq<char>) -> Seq<char> {
    lower(slashes(command))
}

pub open spec fn strip_verbatim(t: Seq<char>) -> Seq<char> {
    if starts_with(t, "//?/"@) {
        t.skip(4)
    } else {
        t
    }
}

/// The folded command names the reserved file by its path or its file name.
pub open spec fn names_reserved(r: (Seq<char>, Option<Seq<char>>), cmd: Seq<char>) -> bool {
    let t = strip_verbatim(folded(r.0));
    (t.len() > 0 && contains(cmd, t)) || (r.1 matches Some(n) && lower(n).len() > 0 && contains(
        cmd,
        lower(n),
    ))
}

/// A shell command reaches a reserved store: there is one, and the command climbs
/// to a parent directory or names one of them.
pub open spec fn targets_reserved(rs: Seq<(Seq<char>, Option<Seq<char>>)>, command: Seq<char>) -> bool {
    rs.len() > 0 && (has_traversal(folded(command)) || exists|i: int|
        0 <= i < rs.len() && names_reserved(#[trigger] rs[i], folded(command)))
}

fn folded_chars(s: &[char]) -> (r: Vec<char>)
    ensures
        r@ == folded(s@),
{
    let t = slash_chars(s);
    lower_chars(t.as_slice())
}

fn names_reserved_exec(r: &ReservedFile, cmd: &[char]) -> (b: bool)
    ensures
        b == names_reserved(reserved_view(*r), cmd@),
{
    proof {
        reveal_strlit("//?/");
    }
    let p = chars_of(r.path.as_str());
    let f = folded_chars(p.as_slice());
    let t = if begins(f.as_slice(), "//?/") {
        slice_range(f.as_slice(), 4, f.len())
    } else {
        slice_range(f.as_slice(), 0, f.len())
    };
    assert(t@ =~= strip_verbatim(folded(r.path@)));
    if t.len() > 0 && contains_chars(cmd, t.as_slice()) {
        return true;
    }
    match &r.file_name {
        Some(n) => {
            let nc = chars_of(n.as_str());
            let l = lower_chars(nc.as_slice());
            l.len() > 0 && contains_chars(cmd, l.as_slice())
        },
        None => false,
    }
}

/// Whether a shell command could reach one of the reserved stores.
pub fn command_targets_reserved_store(reserved: &[ReservedFile], command: &str) -> (r: bool)
    ensures
        r == targets_reserved(reserved@.map_values(|x: ReservedFile| reserved_view(x)), command@),
{
    let ghost rs = reserved@.map_values(|x: ReservedFile| reserved_view(x));
    if reserved.len() == 0 {
        return false;
    }
    let c = chars_of(command);
    let cmd = folded_chars(c.as_slice());
    if traversal_in(cmd.as_slice()) {
        return true;
    }
    let mut i: usize = 0;
    while i < reserved.len()
        invariant
            i <= reserved@.len(),
            rs == reserved@.map_values(|x: ReservedFile| reserved_view(x)),
            cmd@ == folded(command@),
            forall|j: int| 0 <= j < i ==> !names_reserved(#[trigger] rs[j], cmd@),
        decreases reserved.len() - i,
    {
        if names_reserved_exec(&reserved[i], cmd.as_slice()) {
            assert(names_reserved(rs[i as int], cmd@));
            return true;
        }
        i = i + 1;
    }
    false
}

/// Whether `path` (as the host resolved it) is one of the reserved files.
pub fn path_is_reserved(reserved: &[ReservedFile], path: &str) -> (r: bool)
    ensures
        r == exists|i: int| 0 <= i < reserved@.len() && normalized(#[trigger] reserved@[i].path@) == normalized(path@),
{
    let mut i: usize = 0;
    while i < reserved.len()
        invariant
            i <= reserved@.len(),
            forall|j: int| 0 <= j < i ==> normalized(#[trigger] reserved@[j].path@) != normalized(path@),
        decreases reserved.len() - i,
    {
        if paths_match(reserved[i].path.as_str(), path) {
            return true;
        }
        i = i + 1;
    }
    false
}

/// Reserve a store file unless the same path is already reserved.
pub fn reserve_file(reserved: &mut Vec<ReservedFile>, file: ReservedFile)
    ensures
        (exists|i: int| 0 <= i < old(reserved)@.len() && normalized(#[trigger] old(reserved)@[i].path@) == normalized(file.path@))
            ==> final(reserved)@ == old(reserved)@,
        !(exists|i: int| 0 <= i < old(reserved)@.len() && normalized(#[trigger] old(reserved)@[i].path@) == normalized(file.path@))
            ==> final(reserved)@ == old(reserved)@.push(file),
{
    if !path_is_reserved(reserved.as_slice(), file.path.as_str()) {
        reserved.push(file);
    }
}

} // verus!
