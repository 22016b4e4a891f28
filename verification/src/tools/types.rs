//! Tool errors and the argument shapes of the coding tools.
use vstd::prelude::*;

use crate::text::{decimal, push_decimal, push_str};

verus! {

#[derive(Debug)]
pub enum ToolError {
    NotFound { path: String, suggestion: String },
    OutsideWorkspace(String),
    NoMatch(String),
    Ambiguous(usize),
    BadArgs(String),
    Io(String),
    ShellNotApproved,
    Other(String),
}

pub open spec fn kind_text(e: ToolError) -> Seq<char> {
    match e {
        ToolError::NotFound { .. } => "not_found"@,
        ToolError::OutsideWorkspace(_) => "outside_workspace"@,
        ToolError::NoMatch(_) => "no_match"@,
        ToolError::Ambiguous(_) => "ambiguous"@,
        ToolError::BadArgs(_) => "bad_args"@,
        ToolError::Io(_) => "io"@,
        ToolError::ShellNotApproved => "denied"@,
        ToolError::Other(_) => "other"@,
    }
}

pub open spec fn tool_error_text(e: ToolError) -> Seq<char> {
    match e {
        ToolError::NotFound { path, suggestion } => "path '"@ + path@ + "' does not exist"@
            + suggestion@,
        ToolError::OutsideWorkspace(p) => "path '"@ + p@ + "' escapes the workspace root"@,
        ToolError::NoMatch(s) => s@,
        ToolError::Ambiguous(n) => "old_string is ambiguous: matched "@ + decimal(n as nat)
            + " times (make it unique)"@,
        ToolError::BadArgs(s) => "invalid arguments: "@ + s@,
        ToolError::Io(s) => "io error: "@ + s@,
        ToolError::ShellNotApproved => "shell command not approved (re-run with approval to allow)"@,
        ToolError::Other(s) => s@,
    }
}

impl ToolError {
    pub fn not_found(path: String, suggestion: String) -> (r: Self)
        ensures
            r == (ToolError::NotFound { path, suggestion }),
    {
        ToolError::NotFound { path, suggestion }
    }

    /// Stable, machine-facing kind (for the audit trail and approvals).
    pub fn kind(&self) -> (r: &'static str)
        ensures
            r@ == kind_text(*self),
    {
        match self {
            ToolError::NotFound { .. } => "not_found",
            ToolError::OutsideWorkspace(_) => "outside_workspace",
            ToolError::NoMatch(_) => "no_match",
            ToolError::Ambiguous(_) => "ambiguous",
            ToolError::BadArgs(_) => "bad_args",
            ToolError::Io(_) => "io",
            ToolError::ShellNotApproved => "denied",
            ToolError::Other(_) => "other",
        }
    }

    /// The error as shown to the model and the operator.
    pub fn message(&self) -> (r: String)
        ensures
            r@ == tool_error_text(*self),
    {
        let mut s = String::new();
        match self {
            ToolError::NotFound { path, suggestion } => {
                push_str(&mut s, "path '");
                push_str(&mut s, path.as_str());
                push_str(&mut s, "' does not exist");
                push_str(&mut s, suggestion.as_str());
            },
            ToolError::OutsideWorkspace(p) => {
                push_str(&mut s, "path '");
                push_str(&mut s, p.as_str());
                push_str(&mut s, "' escapes the workspace root");
            },
            ToolError::NoMatch(m) => push_str(&mut s, m.as_str()),
            ToolError::Ambiguous(n) => {
                push_str(&mut s, "old_string is ambiguous: matched ");
                push_decimal(&mut s, *n as u128);
                push_str(&mut s, " times (make it unique)");
            },
            ToolError::BadArgs(m) => {
                push_str(&mut s, "invalid arguments: ");
                push_str(&mut s, m.as_str());
            },
            ToolError::Io(m) => {
                push_str(&mut s, "io error: ");
                push_str(&mut s, m.as_str());
            },
            ToolError::ShellNotApproved => push_str(
                &mut s,
                "shell command not approved (re-run with approval to allow)",
            ),
            ToolError::Other(m) => push_str(&mut s, m.as_str()),
        }
        s
    }
}

#[derive(Debug)]
pub struct ReadFileArgs {
    pub path: String,
    pub start_line: Option<usize>,
    pub end_line: Option<usize>,
}

#[derive(Debug)]
pub struct ListDirArgs {
    pub path: Option<String>,
}

#[derive(Debug)]
pub struct GrepArgs {
    pub pattern: String,
    pub path: Option<String>,
    pub max_results: Option<usize>,
}

#[derive(Debug)]
pub struct GlobArgs {
    pub pattern: String,
}

#[derive(Debug)]
pub struct EditFileArgs {
    pub path: String,
    pub old_string: String,
    pub new_string: String,
}

#[derive(Debug)]
pub struct WriteFileArgs {
    pub path: String,
    pub content: String,
}

#[derive(Debug)]
pub struct RunShellArgs {
    pub command: String,
}

#[derive(Debug)]
pub struct FinishArgs {
    pub summary: String,
}

#[derive(Debug)]
pub struct FindDefinitionArgs {
    pub name: String,
    pub path: Option<String>,
}

#[derive(Debug)]
pub struct SearchCodeArgs {
    pub query: String,
    pub max_results: Option<usize>,
}

#[derive(Debug)]
pub struct OutlineArgs {
    pub path: String,
}

#[derive(Debug)]
pub struct FindMentionsArgs {
    pub name: String,
    pub max_results: Option<usize>,
}

#[derive(Debug)]
pub struct RecallArgs {
    pub query: String,
    pub max_results: Option<usize>,
}

/// Position arguments of the language-server navigation tools.
#[derive(Debug)]
pub struct LspPositionArgs {
    /// Workspace-relative file path.
    pub path: String,
    /// 1-based line number (matches read_file line numbers).
    pub line: u32,
    /// 0-based UTF-16 character offset on that line (default: 0 = line start).
    pub character: Option<u32>,
}

/// The character offset, line start when absent.
pub fn char_arg(a: &LspPositionArgs) -> (r: u32)
    ensures
        r == match a.character {
            Some(c) => c,
            None => 0,
        },
{
    match a.character {
        Some(c) => c,
        None => 0,
    }
}

/// Path argument of the language-server diagnostics tool.
#[derive(Debug)]
pub struct LspPathArgs {
    pub path: String,
}

/// What a tool did to a file.
#[derive(Debug, Clone, Copy, PartialEq, Eq, Structural)]
pub enum ChangeKind {
    Create,
    Edit,
    Delete,
}

/// A file as it was before and after a mutating tool call.
#[derive(Debug)]
pub struct FileChange {
    pub path: String,
    pub kind: ChangeKind,
    pub before: Option<String>,
    pub after: Option<String>,
}

} // verus!
