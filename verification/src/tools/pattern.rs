//! The search patterns of `grep` (regular expressions) and `glob` (path globs),
//! compiled by their crates.
use vstd::prelude::*;

use crate::text::{chars_of, line_bounds, lines, marks, slice_range, string_of, trim_end, trimmed_end};
use crate::tools::grep::{hit_view, hit_views, GrepHit};
use crate::tools::types::ToolError;

verus! {

#[verifier::external_type_specification]
#[verifier::external_body]
pub struct ExRegex(regex::Regex);

#[verifier::external_type_specification]
#[verifier::external_body]
pub struct ExGlobMatcher(globset::GlobMatcher);

/// Why `regex` refuses a pattern (its error's text), or `None` when it compiles.
pub uninterp spec fn regex_refusal(pattern: Seq<char>) -> Option<Seq<char>>;

/// Whether the regular expression `pattern` matches somewhere in `text`.
pub uninterp spec fn regex_matches(pattern: Seq<char>, text: Seq<char>) -> bool;

/// Why `globset` refuses a glob without backslashes (its error's text), or
/// `None` when it parses.
pub uninterp spec fn glob_refusal(pattern: Seq<char>) -> Option<Seq<char>>;

/// Whether a glob without backslashes matches a path without backslashes.
pub uninterp spec fn glob_matches(pattern: Seq<char>, path: Seq<char>) -> bool;

/// `Regex::new`: the compiled expression, or its error's text. Compilation is
/// deterministic, so the outcome is named by the pattern.
#[verifier::external_body]
fn regex_new(pattern: &str) -> (r: Result<regex::Regex, String>)
    ensures
        match r {
            Ok(_) => regex_refusal(pattern@) is None,
            Err(m) => regex_refusal(pattern@) == Some(m@),
        },
{
    match regex::Regex::new(pattern) {
        Ok(re) => Ok(re),
        Err(e) => Err(e.to_string()),
    }
}

/// `Glob::new(pattern)?.compile_matcher()`: the matcher, or the glob's error
/// text. Whether `Glob::new` takes a backslash as an escape depends on the
/// platform's path separator, so only for a glob without backslashes is the
/// outcome named by the pattern; of others nothing is claimed.
#[verifier::external_body]
fn glob_matcher(pattern: &str) -> (r: Result<globset::GlobMatcher, String>)
    ensures
        !pattern@.contains('\\') ==> match r {
            Ok(_) => glob_refusal(pattern@) is None,
            Err(m) => glob_refusal(pattern@) == Some(m@),
        },
{
    match globset::Glob::new(pattern) {
        Ok(g) => Ok(g.compile_matcher()),
        Err(e) => Err(e.to_string()),
    }
}

/// A regular expression and its source.
pub struct LinePattern {
    source: String,
    re: regex::Regex,
}

/// A path glob and its source.
pub struct PathPattern {
    source: String,
    matcher: globset::GlobMatcher,
}

impl LinePattern {
    pub closed spec fn source_view(&self) -> Seq<char> {
        self.source@
    }
}

impl PathPattern {
    pub closed spec fn source_view(&self) -> Seq<char> {
        self.source@
    }
}

/// `Regex::is_match` of a pattern built by `compile_line_pattern`, whose
/// expression was compiled from its source.
#[verifier::external_body]
fn regex_is_match(p: &LinePattern, text: &str) -> (r: bool)
    ensures
        r == regex_matches(p.source_view(), text@),
{
    p.re.is_match(text)
}

/// `GlobMatcher::is_match` of a pattern built by `compile_path_pattern`, whose
/// matcher was compiled from its source. How backslashes read, in globs and in
/// paths, depends on the platform, so the answer is named only when neither
/// holds one.
#[verifier::external_body]
fn glob_is_match(p: &PathPattern, path: &str) -> (r: bool)
    ensures
        !p.source_view().contains('\\') && !path@.contains('\\') ==> r == glob_matches(p.source_view(), path@),
{
    p.matcher.is_match(path)
}

/// Compile a `grep` pattern; a refused one is a bad argument.
pub fn compile_line_pattern(pattern: &str) -> (r: Result<LinePattern, ToolError>)
    ensures
        match r {
            Ok(p) => regex_refusal(pattern@) is None && p.source_view() == pattern@,
            Err(e) => e matches ToolError::BadArgs(m) && regex_refusal(pattern@) == Some(m@),
        },
{
    match regex_new(pattern) {
        Ok(re) => Ok(LinePattern { source: String::from_str(pattern), re }),
        Err(m) => Err(ToolError::BadArgs(m)),
    }
}

/// Compile a `glob` pattern; a refused one is a bad argument carrying
/// `globset`'s error text. Which globs with backslashes are refused depends on
/// the platform.
pub fn compile_path_pattern(pattern: &str) -> (r: Result<PathPattern, ToolError>)
    ensures
        match r {
            Ok(p) => p.source_view() == pattern@,
            Err(e) => e is BadArgs,
        },
        !pattern@.contains('\\') ==> match r {
            Ok(_) => glob_refusal(pattern@) is None,
            Err(e) => e matches ToolError::BadArgs(m) && glob_refusal(pattern@) == Some(m@),
        },
{
    match glob_matcher(pattern) {
        Ok(matcher) => Ok(PathPattern { source: String::from_str(pattern), matcher }),
        Err(m) => Err(ToolError::BadArgs(m)),
    }
}

/// Whether a workspace path matches the glob; without backslashes in either,
/// the answer is named by the glob and the path.
pub fn path_matches(p: &PathPattern, rel: &str) -> (r: bool)
    ensures
        !p.source_view().contains('\\') && !rel@.contains('\\') ==> r == glob_matches(p.source_view(), rel@),
{
    glob_is_match(p, rel)
}

/// The hits of one file: every line the expression matches, numbered from 1,
/// without trailing white space.
pub open spec fn hits_in(pattern: Seq<char>, rel: Seq<char>, ls: Seq<Seq<char>>) -> Seq<(Seq<char>, nat, Seq<char>)>
    decreases ls.len(),
{
    if ls.len() == 0 {
        Seq::empty()
    } else {
        let r = hits_in(pattern, rel, ls.drop_last());
        if regex_matches(pattern, ls.last()) {
            r.push((rel, ls.len(), trim_end(ls.last())))
        } else {
            r
        }
    }
}

/// The lines of `text` (a file at `rel`) that the pattern matches.
pub fn file_hits(p: &LinePattern, rel: &str, text: &str) -> (r: Vec<GrepHit>)
    ensures
        hit_views(r@) == hits_in(p.source_view(), rel@, lines(text@)),
{
    let tc = chars_of(text);
    let bs = line_bounds(tc.as_slice());
    let ghost ls = lines(text@);
    let mut out: Vec<GrepHit> = Vec::new();
    let mut i: usize = 0;
    assert(ls.take(0) =~= Seq::<Seq<char>>::empty());
    while i < bs.len()
        invariant
            i <= bs@.len(),
            tc@ == text@,
            ls == lines(tc@),
            bs@.len() == ls.len(),
            forall|k: int| 0 <= k < bs@.len() ==> marks(tc@, #[trigger] bs@[k], ls[k]),
            hit_views(out@) == hits_in(p.source_view(), rel@, ls.take(i as int)),
        decreases bs.len() - i,
    {
        let (a, b) = bs[i];
        assert(marks(tc@, bs@[i as int], ls[i as int]));
        assert(ls.take(i + 1).drop_last() =~= ls.take(i as int));
        assert(ls.take(i + 1).last() == ls[i as int]);
        let lc = slice_range(tc.as_slice(), a, b);
        let line = string_of(lc.as_slice());
        if regex_is_match(p, line.as_str()) {
            let t = trimmed_end(lc.as_slice());
            let h = GrepHit { path: String::from_str(rel), line: i + 1, text: string_of(t.as_slice()) };
            let ghost before = hit_views(out@);
            out.push(h);
            assert(hit_views(out@) =~= before.push(hit_view(h)));
        }
        i = i + 1;
    }
    assert(ls.take(ls.len() as int) =~= ls);
    out
}

} // verus!
