//! Verify-command discovery: explicit project scripts and configuration win,
//! then ecosystem conventions, which are only advisory.
//!
//! The host reads the workspace (which files exist, the text of the few
//! configuration files consulted) into [`WorkspaceFacts`]; the choice is made
//! here from those facts.
use vstd::prelude::*;

use crate::enroll::http::json_text_parses;
use crate::text::{
    chars_eq, chars_of, contains, contains_chars, ends_with, ends_with_chars, line_bounds, lines,
    marks, push_str, slice_range, starts_with, starts_with_chars, string_of, trim, trimmed,
};

verus! {

/// How sure we are that the detected command is the right one for this workspace.
#[derive(Debug, Clone, Copy, PartialEq, Eq, Structural)]
pub enum VerifyConfidence {
    Low,
    High,
}

/// A candidate verification command plus where it came from.
#[derive(Debug)]
pub struct VerifyDetect {
    pub command: String,
    /// Human-readable label, e.g. `"pytest"`, `"cargo test"`, `"_lokai_verify.py"`.
    pub source: &'static str,
    pub confidence: VerifyConfidence,
}

/// What the host found in the workspace. A text is `None` when the file is
/// absent or could not be read as workspace text; a listing is `None` when the
/// directory is absent.
#[derive(Debug)]
pub struct WorkspaceFacts {
    pub lokai_verify_py: bool,
    pub verify_json: Option<String>,
    pub verify_toml: Option<String>,
    pub package_json: Option<String>,
    pub bun_lockb: bool,
    pub bun_lock: bool,
    pub pnpm_lock: bool,
    pub yarn_lock: bool,
    pub go_mod: bool,
    pub cargo_toml: bool,
    pub pytest_ini: bool,
    pub pyproject_toml: Option<String>,
    /// Names of the regular files directly under `tests/` and `test/`.
    pub tests_dir_files: Option<Vec<String>>,
    pub test_dir_files: Option<Vec<String>>,
    pub cmakelists: bool,
    pub makefile: Option<String>,
    pub pom_xml: bool,
    pub build_gradle: bool,
    pub build_gradle_kts: bool,
    /// Whether the host runs Windows (where Python is `python`, not `python3`).
    pub windows: bool,
}

/// What `serde_json` reads as the string member `key` of the JSON object in
/// `text`.
pub uninterp spec fn json_member_text(text: Seq<char>, key: Seq<char>) -> Option<Seq<char>>;

/// What `serde_json` reads as the string member `inner` of the object member
/// `outer` of the JSON object in `text`.
pub uninterp spec fn json_nested_member_text(text: Seq<char>, outer: Seq<char>, inner: Seq<char>) -> Option<Seq<char>>;

/// `serde_json::from_str::<Value>`, then `Value::get(key)` and `Value::as_str`:
/// the string member `key`, if the text is JSON with such a member. Nothing
/// is stated of which member wins when a key repeats.
#[verifier::external_body]
fn json_string_member(text: &str, key: &str) -> (r: Option<String>)
    ensures
        match r {
            Some(s) => json_member_text(text@, key@) == Some(s@),
            None => json_member_text(text@, key@) is None,
        },
        !json_text_parses(text@) ==> r is None,
{
    let v: serde_json::Value = serde_json::from_str(text).ok()?;
    v.get(key)?.as_str().map(|s| s.to_string())
}

/// As `json_string_member`, one object level deeper.
#[verifier::external_body]
fn json_nested_string_member(text: &str, outer: &str, inner: &str) -> (r: Option<String>)
    ensures
        match r {
            Some(s) => json_nested_member_text(text@, outer@, inner@) == Some(s@),
            None => json_nested_member_text(text@, outer@, inner@) is None,
        },
        !json_text_parses(text@) ==> r is None,
{
    let v: serde_json::Value = serde_json::from_str(text).ok()?;
    v.get(outer)?.get(inner)?.as_str().map(|s| s.to_string())
}

/// `s` without its leading `c`s.
pub open spec fn strip_lead(s: Seq<char>, c: char) -> Seq<char>
    decreases s.len(),
{
    if s.len() > 0 && s[0] == c {
        strip_lead(s.drop_first(), c)
    } else {
        s
    }
}

/// `s` without its trailing `c`s.
pub open spec fn strip_trail(s: Seq<char>, c: char) -> Seq<char>
    decreases s.len(),
{
    if s.len() > 0 && s.last() == c {
        strip_trail(s.drop_last(), c)
    } else {
        s
    }
}

/// `str::trim_matches(c)`.
pub open spec fn strip_both(s: Seq<char>, c: char) -> Seq<char> {
    strip_trail(strip_lead(s, c), c)
}

/// The value of a `command` line once its `=` and quotes are stripped.
pub open spec fn toml_value(rest: Seq<char>) -> Seq<char> {
    strip_both(strip_both(trim(strip_lead(trim(rest), '=')), '"'), '\'')
}

/// The first line starting (after trimming) with `command` whose value is not
/// empty, from line `i` on.
pub open spec fn toml_command_from(ls: Seq<Seq<char>>, i: nat) -> Option<Seq<char>>
    decreases ls.len() - i,
{
    if i >= ls.len() {
        None
    } else {
        let l = trim(ls[i as int]);
        if starts_with(l, "command"@) && toml_value(l.skip(7)).len() > 0 {
            Some(toml_value(l.skip(7)))
        } else {
            toml_command_from(ls, i + 1)
        }
    }
}

pub open spec fn opt_seq(s: Option<String>) -> Option<Seq<char>> {
    match s {
        Some(t) => Some(t@),
        None => None,
    }
}

/// The command named by `.lokai/verify.json` (its trimmed non-empty
/// `command`), else by `.lokai/verify.toml`.
pub open spec fn verify_file_cmd(json: Option<Seq<char>>, toml: Option<Seq<char>>) -> Option<Seq<char>> {
    let from_json = match json {
        Some(t) => match json_member_text(t, "command"@) {
            Some(c) => if trim(c).len() > 0 {
                Some(trim(c))
            } else {
                None
            },
            None => None,
        },
        None => None,
    };
    if from_json is Some {
        from_json
    } else {
        match toml {
            Some(t) => toml_command_from(lines(t), 0),
            None => None,
        }
    }
}

/// The package manager's test command when `package.json` has a real `test`
/// script.
pub open spec fn package_json_cmd(f: WorkspaceFacts) -> Option<Seq<char>> {
    match opt_seq(f.package_json) {
        None => None,
        Some(t) => match json_nested_member_text(t, "scripts"@, "test"@) {
            None => None,
            Some(ts) => if trim(ts).len() == 0 || contains(ts, "no test specified"@) {
                None
            } else if f.bun_lockb || f.bun_lock {
                Some("bun test"@)
            } else if f.pnpm_lock {
                Some("pnpm test"@)
            } else if f.yarn_lock {
                Some("yarn test"@)
            } else {
                Some("npm test"@)
            },
        },
    }
}

/// `python3 <script>`, or `python <script>` on Windows.
pub open spec fn python_cmd_text(script: Seq<char>, windows: bool) -> Seq<char> {
    if windows {
        "python "@ + script
    } else {
        "python3 "@ + script
    }
}

/// Whether a file name is a pytest test module.
pub open spec fn python_test_name(n: Seq<char>) -> bool {
    (starts_with(n, "test_"@) && ends_with(n, ".py"@)) || ends_with(n, "_test.py"@)
}

pub open spec fn any_test_module(ns: Seq<Seq<char>>) -> bool {
    exists|i: int| 0 <= i < ns.len() && python_test_name(#[trigger] ns[i])
}

pub open spec fn has_test_module(files: Option<Seq<Seq<char>>>) -> bool {
    match files {
        Some(ns) => any_test_module(ns),
        None => false,
    }
}

pub open spec fn names_of(v: Option<Vec<String>>) -> Option<Seq<Seq<char>>> {
    match v {
        Some(ns) => Some(ns@.map_values(|s: String| s@)),
        None => None,
    }
}

/// A detection, as values.
pub struct DetectView {
    pub command: Seq<char>,
    pub source: Seq<char>,
    pub confidence: VerifyConfidence,
}

pub open spec fn found(command: Seq<char>, source: Seq<char>, confidence: VerifyConfidence) -> Option<DetectView> {
    Some(DetectView { command, source, confidence })
}

/// The detection for a workspace, in order of precedence.
pub open spec fn detection(f: WorkspaceFacts) -> Option<DetectView> {
    if f.lokai_verify_py {
        found(python_cmd_text("_lokai_verify.py"@, f.windows), "_lokai_verify.py"@, VerifyConfidence::High)
    } else if verify_file_cmd(opt_seq(f.verify_json), opt_seq(f.verify_toml)) is Some {
        found(
            verify_file_cmd(opt_seq(f.verify_json), opt_seq(f.verify_toml))->0,
            ".lokai/verify"@,
            VerifyConfidence::High,
        )
    } else if package_json_cmd(f) is Some {
        found(package_json_cmd(f)->0, "package.json"@, VerifyConfidence::Low)
    } else if f.go_mod {
        found("go test ./..."@, "go.mod"@, VerifyConfidence::Low)
    } else if f.cargo_toml {
        found("cargo test --quiet"@, "Cargo.toml"@, VerifyConfidence::Low)
    } else if f.pytest_ini || match opt_seq(f.pyproject_toml) {
        Some(t) => contains(t, "[tool.pytest"@) || contains(t, "pytest"@),
        None => false,
    } {
        found("python -m pytest -q"@, "pytest"@, VerifyConfidence::Low)
    } else if has_test_module(names_of(f.tests_dir_files)) || has_test_module(names_of(f.test_dir_files)) {
        found("python -m pytest -q"@, "tests/"@, VerifyConfidence::Low)
    } else if f.cmakelists {
        found("ctest"@, "CMakeLists.txt"@, VerifyConfidence::Low)
    } else if match opt_seq(f.makefile) {
        Some(t) => contains(t, "test:"@) || contains(t, "check:"@),
        None => false,
    } {
        found("make test"@, "Makefile"@, VerifyConfidence::Low)
    } else if f.pom_xml {
        found("mvn test"@, "pom.xml"@, VerifyConfidence::Low)
    } else if f.build_gradle || f.build_gradle_kts {
        found("gradle test"@, "build.gradle"@, VerifyConfidence::Low)
    } else {
        None
    }
}

pub open spec fn detect_view(d: Option<VerifyDetect>) -> Option<DetectView> {
    match d {
        Some(x) => found(x.command@, x.source@, x.confidence),
        None => None,
    }
}

fn strip_lead_exec(s: &[char], c: char) -> (r: Vec<char>)
    ensures
        r@ == strip_lead(s@, c),
{
    let mut a: usize = 0;
    assert(s@.skip(0) =~= s@);
    while a < s.len() && s[a] == c
        invariant
            a <= s.len(),
            strip_lead(s@, c) == strip_lead(s@.skip(a as int), c),
        decreases s.len() - a,
    {
        assert(s@.skip(a as int).drop_first() =~= s@.skip(a + 1));
        a = a + 1;
    }
    assert(s@.skip(a as int) =~= s@.subrange(a as int, s@.len() as int));
    slice_range(s, a, s.len())
}

fn strip_trail_exec(s: &[char], c: char) -> (r: Vec<char>)
    ensures
        r@ == strip_trail(s@, c),
{
    let mut b: usize = s.len();
    assert(s@.take(b as int) =~= s@);
    while b > 0 && s[b - 1] == c
        invariant
            b <= s.len(),
            strip_trail(s@, c) == strip_trail(s@.take(b as int), c),
        decreases b,
    {
        assert(s@.take(b as int).drop_last() =~= s@.take(b - 1));
        b = b - 1;
    }
    assert(s@.take(b as int) =~= s@.subrange(0, b as int));
    slice_range(s, 0, b)
}

fn strip_both_exec(s: &[char], c: char) -> (r: Vec<char>)
    ensures
        r@ == strip_both(s@, c),
{
    let a = strip_lead_exec(s, c);
    strip_trail_exec(a.as_slice(), c)
}

/// The `command` of a `.lokai/verify.toml` text.
pub fn verify_toml_command(text: &str) -> (r: Option<String>)
    ensures
        opt_seq(r) == toml_command_from(lines(text@), 0),
{
    let t = chars_of(text);
    let bs = line_bounds(t.as_slice());
    let ghost ls = lines(text@);
    let key = chars_of("command");
    let mut i: usize = 0;
    while i < bs.len()
        invariant
            i <= bs@.len(),
            t@ == text@,
            ls == lines(text@),
            key@ == "command"@,
            bs@.len() == ls.len(),
            forall|k: int| 0 <= k < bs@.len() ==> marks(t@, #[trigger] bs@[k], ls[k]),
            toml_command_from(ls, 0) == toml_command_from(ls, i as nat),
        decreases bs.len() - i,
    {
        let (a, b) = bs[i];
        assert(marks(t@, bs@[i as int], ls[i as int]));
        let raw = slice_range(t.as_slice(), a, b);
        let line = trimmed(raw.as_slice());
        if starts_with_chars(line.as_slice(), key.as_slice()) {
            assert(key@.len() == 7) by {
                reveal_strlit("command");
            }
            let rest = slice_range(line.as_slice(), key.len(), line.len());
            assert(rest@ =~= line@.skip(7));
            let r1 = trimmed(rest.as_slice());
            let r2 = strip_lead_exec(r1.as_slice(), '=');
            let r3 = trimmed(r2.as_slice());
            let r4 = strip_both_exec(r3.as_slice(), '"');
            let clean = strip_both_exec(r4.as_slice(), '\'');
            if clean.len() > 0 {
                return Some(string_of(clean.as_slice()));
            }
        }
        i = i + 1;
    }
    None
}

fn trimmed_string(s: &String) -> (r: Vec<char>)
    ensures
        r@ == trim(s@),
{
    let c = chars_of(s.as_str());
    trimmed(c.as_slice())
}

fn verify_file_command(json: &Option<String>, toml: &Option<String>) -> (r: Option<String>)
    ensures
        opt_seq(r) == verify_file_cmd(opt_seq(*json), opt_seq(*toml)),
{
    if let Some(text) = json {
        if let Some(cmd) = json_string_member(text.as_str(), "command") {
            let t = trimmed_string(&cmd);
            if t.len() > 0 {
                return Some(string_of(t.as_slice()));
            }
        }
    }
    match toml {
        Some(text) => verify_toml_command(text.as_str()),
        None => None,
    }
}

fn has(t: &[char], word: &str) -> (r: bool)
    ensures
        r == contains(t@, word@),
{
    let w = chars_of(word);
    contains_chars(t, w.as_slice())
}

fn package_json_test_command(f: &WorkspaceFacts) -> (r: Option<String>)
    ensures
        opt_seq(r) == package_json_cmd(*f),
{
    let text = match &f.package_json {
        Some(t) => t,
        None => return None,
    };
    let script = match json_nested_string_member(text.as_str(), "scripts", "test") {
        Some(s) => s,
        None => return None,
    };
    let st = trimmed_string(&script);
    let sc = chars_of(script.as_str());
    if st.len() == 0 || has(sc.as_slice(), "no test specified") {
        return None;
    }
    if f.bun_lockb || f.bun_lock {
        Some(String::from_str("bun test"))
    } else if f.pnpm_lock {
        Some(String::from_str("pnpm test"))
    } else if f.yarn_lock {
        Some(String::from_str("yarn test"))
    } else {
        Some(String::from_str("npm test"))
    }
}

/// The command that runs a Python script.
pub fn python_cmd(script: &str, windows: bool) -> (r: String)
    ensures
        r@ == python_cmd_text(script@, windows),
{
    let mut s = if windows {
        String::from_str("python ")
    } else {
        String::from_str("python3 ")
    };
    push_str(&mut s, script);
    s
}

/// Whether `pyproject.toml` mentions pytest.
pub fn pyproject_has_pytest(text: &Option<String>) -> (r: bool)
    ensures
        r == match opt_seq(*text) {
            Some(t) => contains(t, "[tool.pytest"@) || contains(t, "pytest"@),
            None => false,
        },
{
    match text {
        Some(t) => {
            let c = chars_of(t.as_str());
            has(c.as_slice(), "[tool.pytest") || has(c.as_slice(), "pytest")
        },
        None => false,
    }
}

/// Whether a file name is a pytest module (`test_*.py` or `*_test.py`).
pub fn is_python_test_name(name: &str) -> (r: bool)
    ensures
        r == python_test_name(name@),
{
    let n = chars_of(name);
    let p = chars_of("test_");
    let s = chars_of(".py");
    let t = chars_of("_test.py");
    (starts_with_chars(n.as_slice(), p.as_slice()) && ends_with_chars(n.as_slice(), s.as_slice()))
        || ends_with_chars(n.as_slice(), t.as_slice())
}

fn dir_has_python_tests(files: &Option<Vec<String>>) -> (r: bool)
    ensures
        r == has_test_module(names_of(*files)),
{
    match files {
        None => false,
        Some(ns) => {
            let ghost v = ns@.map_values(|s: String| s@);
            let mut i: usize = 0;
            assert(names_of(*files) == Some(v));
            while i < ns.len()
                invariant
                    i <= ns@.len(),
                    v == ns@.map_values(|s: String| s@),
                    names_of(*files) == Some(v),
                    forall|j: int| 0 <= j < i ==> !python_test_name(#[trigger] v[j]),
                decreases ns.len() - i,
            {
                if is_python_test_name(ns[i].as_str()) {
                    assert(python_test_name(v[i as int]));
                    assert(any_test_module(v));
                    return true;
                }
                i = i + 1;
            }
            assert(names_of(*files) == Some(v));
            false
        },
    }
}

/// Whether `tests/` or `test/` holds a pytest module.
pub fn python_test_tree(f: &WorkspaceFacts) -> (r: bool)
    ensures
        r == (has_test_module(names_of(f.tests_dir_files)) || has_test_module(names_of(f.test_dir_files))),
{
    dir_has_python_tests(&f.tests_dir_files) || dir_has_python_tests(&f.test_dir_files)
}

fn detected(command: String, source: &'static str, confidence: VerifyConfidence) -> (r: Option<VerifyDetect>)
    ensures
        detect_view(r) == found(command@, source@, confidence),
{
    Some(VerifyDetect { command, source, confidence })
}

/// The highest-precedence verification command of the workspace.
pub fn detect_verify_command(f: &WorkspaceFacts) -> (r: Option<VerifyDetect>)
    ensures
        detect_view(r) == detection(*f),
{
    if f.lokai_verify_py {
        return detected(python_cmd("_lokai_verify.py", f.windows), "_lokai_verify.py", VerifyConfidence::High);
    }
    if let Some(cmd) = verify_file_command(&f.verify_json, &f.verify_toml) {
        return detected(cmd, ".lokai/verify", VerifyConfidence::High);
    }
    if let Some(cmd) = package_json_test_command(f) {
        return detected(cmd, "package.json", VerifyConfidence::Low);
    }
    if f.go_mod {
        return detected(String::from_str("go test ./..."), "go.mod", VerifyConfidence::Low);
    }
    if f.cargo_toml {
        return detected(String::from_str("cargo test --quiet"), "Cargo.toml", VerifyConfidence::Low);
    }
    if f.pytest_ini || pyproject_has_pytest(&f.pyproject_toml) {
        return detected(String::from_str("python -m pytest -q"), "pytest", VerifyConfidence::Low);
    }
    if python_test_tree(f) {
        return detected(String::from_str("python -m pytest -q"), "tests/", VerifyConfidence::Low);
    }
    if f.cmakelists {
        return detected(String::from_str("ctest"), "CMakeLists.txt", VerifyConfidence::Low);
    }
    if let Some(text) = &f.makefile {
        let c = chars_of(text.as_str());
        if has(c.as_slice(), "test:") || has(c.as_slice(), "check:") {
            return detected(String::from_str("make test"), "Makefile", VerifyConfidence::Low);
        }
    }
    if f.pom_xml {
        return detected(String::from_str("mvn test"), "pom.xml", VerifyConfidence::Low);
    }
    if f.build_gradle || f.build_gradle_kts {
        return detected(String::from_str("gradle test"), "build.gradle", VerifyConfidence::Low);
    }
    None
}

/// The session's verify command from an operator setting and the workspace:
/// `none`/`off`/`false`/`0` disable it, `auto` takes any detection, another
/// non-blank setting is used verbatim (trimmed), and no setting takes only a
/// high-confidence detection.
pub open spec fn resolution(explicit: Option<Seq<char>>, f: WorkspaceFacts) -> Option<Seq<char>> {
    let e = match explicit {
        Some(s) => if trim(s).len() > 0 {
            Some(trim(s))
        } else {
            None
        },
        None => None,
    };
    match e {
        Some(s) => if s == "none"@ || s == "off"@ || s == "false"@ || s == "0"@ {
            None
        } else if s == "auto"@ {
            match detection(f) {
                Some(d) => Some(d.command),
                None => None,
            }
        } else {
            Some(s)
        },
        None => match detection(f) {
            Some(d) => if d.confidence == VerifyConfidence::High {
                Some(d.command)
            } else {
                None
            },
            None => None,
        },
    }
}

fn text_is(s: &[char], lit: &str) -> (r: bool)
    ensures
        r == (s@ == lit@),
{
    let l = chars_of(lit);
    chars_eq(s, l.as_slice())
}

/// Resolve the verify command for a session.
pub fn resolve_verify_cmd(explicit: Option<&str>, f: &WorkspaceFacts) -> (r: Option<String>)
    ensures
        opt_seq(r) == resolution(
            match explicit {
                Some(s) => Some(s@),
                None => None,
            },
            *f,
        ),
{
    let e = match explicit {
        Some(s) => {
            let c = chars_of(s);
            let t = trimmed(c.as_slice());
            if t.len() > 0 {
                Some(t)
            } else {
                None
            }
        },
        None => None,
    };
    match e {
        Some(t) => {
            let s = t.as_slice();
            if text_is(s, "none") || text_is(s, "off") || text_is(s, "false") || text_is(s, "0") {
                None
            } else if text_is(s, "auto") {
                match detect_verify_command(f) {
                    Some(d) => Some(d.command),
                    None => None,
                }
            } else {
                Some(string_of(s))
            }
        },
        None => match detect_verify_command(f) {
            Some(d) => match d.confidence {
                VerifyConfidence::High => Some(d.command),
                VerifyConfidence::Low => None,
            },
            None => None,
        },
    }
}

/// The next step of a Python syntax check.
#[derive(Debug, Clone, Copy, PartialEq, Eq, Structural)]
pub enum SyntaxCheck {
    /// Nothing to check: not a Python file, or not a file.
    Skip,
    /// Run `python -m py_compile` on the file.
    Compile,
}

pub open spec fn syntax_plan(rel_path: Seq<char>, is_file: bool) -> Result<SyntaxCheck, Seq<char>> {
    if !ends_with(rel_path, ".py"@) {
        Ok(SyntaxCheck::Skip)
    } else if contains(rel_path, ".."@) || contains(rel_path, ";"@) || contains(rel_path, "|"@) {
        Err("invalid python path for syntax check"@)
    } else if !is_file {
        Ok(SyntaxCheck::Skip)
    } else {
        Ok(SyntaxCheck::Compile)
    }
}

/// Whether and how to syntax-check a workspace path: only `.py` files that
/// exist are compiled, and a path that could climb out of the workspace or
/// chain shell commands is refused.
pub fn check_python_syntax(rel_path: &str, is_file: bool) -> (r: Result<SyntaxCheck, String>)
    ensures
        match r {
            Ok(c) => syntax_plan(rel_path@, is_file) == Ok::<SyntaxCheck, Seq<char>>(c),
            Err(m) => syntax_plan(rel_path@, is_file) == Err::<SyntaxCheck, Seq<char>>(m@),
        },
{
    let p = chars_of(rel_path);
    let py = chars_of(".py");
    if !ends_with_chars(p.as_slice(), py.as_slice()) {
        return Ok(SyntaxCheck::Skip);
    }
    if has(p.as_slice(), "..") || has(p.as_slice(), ";") || has(p.as_slice(), "|") {
        return Err(String::from_str("invalid python path for syntax check"));
    }
    if !is_file {
        return Ok(SyntaxCheck::Skip);
    }
    Ok(SyntaxCheck::Compile)
}

/// A workspace with any build marker (a verify script, Go, Cargo, pytest,
/// CMake, Maven or Gradle) always gets a verify command.
pub proof fn lemma_marker_gives_command(f: WorkspaceFacts)
    requires
        f.lokai_verify_py || f.go_mod || f.cargo_toml || f.pytest_ini || f.cmakelists || f.pom_xml
            || f.build_gradle || f.build_gradle_kts,
    ensures
        detection(f) is Some,
{
}

/// A plain Maven project (a `pom.xml` and no other marker) is tested with
/// `mvn test`, found from `pom.xml`, at low confidence; a plain Gradle project
/// with `gradle test` from `build.gradle`.
pub proof fn lemma_plain_maven_and_gradle(f: WorkspaceFacts)
    requires
        !f.lokai_verify_py,
        f.verify_json is None,
        f.verify_toml is None,
        f.package_json is None,
        !f.go_mod,
        !f.cargo_toml,
        !f.pytest_ini,
        f.pyproject_toml is None,
        f.tests_dir_files is None,
        f.test_dir_files is None,
        !f.cmakelists,
        f.makefile is None,
    ensures
        f.pom_xml ==> detection(f) == Some(DetectView { command: "mvn test"@, source: "pom.xml"@, confidence: VerifyConfidence::Low }),
        !f.pom_xml && (f.build_gradle || f.build_gradle_kts) ==> detection(f) == Some(
            DetectView { command: "gradle test"@, source: "build.gradle"@, confidence: VerifyConfidence::Low },
        ),
        !f.pom_xml && !f.build_gradle && !f.build_gradle_kts ==> detection(f) is None,
{
}

} // verus!
