//! Admission of every tool call: which calls are refused outright,
//! which run through a capability, and which tool a name selects.
use vstd::prelude::*;

use crate::text::{chars_eq, chars_of, push_str};
use crate::tools::types::ToolError;

verus! {

/// Tools that only read the workspace.
pub open spec fn read_only_tool(name: Seq<char>) -> bool {
    name == "read_file"@ || name == "list_dir"@ || name == "grep"@ || name == "glob"@ || name
        == "outline"@ || name == "find_definition"@ || name == "find_mentions"@ || name
        == "search_code"@ || name == "recall"@ || name == "lsp_goto_definition"@ || name
        == "lsp_find_references"@ || name == "lsp_diagnostics"@ || name == "expand_context"@
}

/// Tools that touch the workspace and so need an issued capability when a
/// capability consumer is bound.
pub open spec fn capability_tool(name: Seq<char>) -> bool {
    name == "read_file"@ || name == "list_dir"@ || name == "grep"@ || name == "glob"@ || name
        == "edit_file"@ || name == "write_file"@ || name == "run_shell"@
}

fn text_is(s: &[char], lit: &str) -> (r: bool)
    ensures
        r == (s@ == lit@),
{
    let l = chars_of(lit);
    chars_eq(s, l.as_slice())
}

pub fn is_read_only(name: &str) -> (r: bool)
    ensures
        r == read_only_tool(name@),
{
    let n = chars_of(name);
    let t = n.as_slice();
    text_is(t, "read_file") || text_is(t, "list_dir") || text_is(t, "grep") || text_is(t, "glob")
        || text_is(t, "outline") || text_is(t, "find_definition") || text_is(t, "find_mentions")
        || text_is(t, "search_code") || text_is(t, "recall") || text_is(t, "lsp_goto_definition")
        || text_is(t, "lsp_find_references") || text_is(t, "lsp_diagnostics") || text_is(
        t,
        "expand_context",
    )
}

pub fn tool_requires_capability(name: &str) -> (r: bool)
    ensures
        r == capability_tool(name@),
{
    let n = chars_of(name);
    let t = n.as_slice();
    text_is(t, "read_file") || text_is(t, "list_dir") || text_is(t, "grep") || text_is(t, "glob")
        || text_is(t, "edit_file") || text_is(t, "write_file") || text_is(t, "run_shell")
}

pub open spec fn listed(allowed: Seq<Seq<char>>, name: Seq<char>) -> bool {
    exists|i: int| 0 <= i < allowed.len() && allowed[i] == name
}

/// The refusal, if any, before a call's arguments are even read: a canceled
/// attempt, a tool outside the specialist's allow-list, or any tool but
/// `finish` and `recall` when the execution has no repository.
pub open spec fn admission_refusal(
    name: Seq<char>,
    canceled: bool,
    allowed: Option<Seq<Seq<char>>>,
    repository_disabled: bool,
) -> Option<Seq<char>> {
    if canceled {
        Some("attempt canceled"@)
    } else if allowed is Some && !listed(allowed->0, name) {
        Some("tool '"@ + name + "' not allowed for this specialist role"@)
    } else if repository_disabled && !(name == "finish"@ || name == "recall"@) {
        Some("this execution has no repository"@)
    } else {
        None
    }
}

fn is_listed(allowed: &Vec<String>, name: &[char]) -> (r: bool)
    ensures
        r == listed(allowed@.map_values(|s: String| s@), name@),
{
    let ghost v = allowed@.map_values(|s: String| s@);
    let mut i: usize = 0;
    while i < allowed.len()
        invariant
            i <= allowed@.len(),
            v == allowed@.map_values(|s: String| s@),
            forall|j: int| 0 <= j < i ==> v[j] != name@,
        decreases allowed.len() - i,
    {
        let a = chars_of(allowed[i].as_str());
        if chars_eq(a.as_slice(), name) {
            assert(v[i as int] == name@);
            return true;
        }
        i = i + 1;
    }
    false
}

/// Refuse a tool call before dispatch, with the `Other` error the caller
/// reports; `None` lets the call proceed.
pub fn admission_error(
    name: &str,
    canceled: bool,
    allowed: Option<&Vec<String>>,
    repository_disabled: bool,
) -> (r: Option<ToolError>)
    ensures
        match r {
            Some(e) => (e matches ToolError::Other(m) && admission_refusal(
                name@,
                canceled,
                match allowed {
                    Some(a) => Some(a@.map_values(|s: String| s@)),
                    None => None,
                },
                repository_disabled,
            ) == Some(m@)),
            None => admission_refusal(
                name@,
                canceled,
                match allowed {
                    Some(a) => Some(a@.map_values(|s: String| s@)),
                    None => None,
                },
                repository_disabled,
            ) is None,
        },
{
    if canceled {
        return Some(ToolError::Other(String::from_str("attempt canceled")));
    }
    let n = chars_of(name);
    if let Some(list) = allowed {
        if !is_listed(list, n.as_slice()) {
            let mut m = String::from_str("tool '");
            push_str(&mut m, name);
            push_str(&mut m, "' not allowed for this specialist role");
            return Some(ToolError::Other(m));
        }
    }
    if repository_disabled && !(text_is(n.as_slice(), "finish") || text_is(n.as_slice(), "recall")) {
        return Some(ToolError::Other(String::from_str("this execution has no repository")));
    }
    None
}

/// How an admitted call runs once its arguments parsed.
#[derive(Debug)]
pub enum CapabilityRoute {
    /// Refuse with this error.
    Refuse(ToolError),
    /// Hand the authorized action to the mutation service.
    Mutation,
    /// Run the authorized process through the executor.
    Process,
    /// Have the consumer authorize the action, then dispatch by name.
    AuthorizeThenDispatch,
    /// Dispatch by name.
    Dispatch,
}

pub open spec fn route_for(name: Seq<char>, has_auth: bool, has_consumer: bool) -> CapabilityRoute {
    if capability_tool(name) && has_consumer {
        if !has_auth {
            CapabilityRoute::Refuse(ToolError::Other(arbitrary()))
        } else if name == "edit_file"@ || name == "write_file"@ {
            CapabilityRoute::Mutation
        } else if name == "run_shell"@ {
            CapabilityRoute::Process
        } else {
            CapabilityRoute::AuthorizeThenDispatch
        }
    } else if has_auth && (name == "edit_file"@ || name == "write_file"@) {
        CapabilityRoute::Mutation
    } else if has_auth && name == "run_shell"@ {
        CapabilityRoute::Process
    } else {
        CapabilityRoute::Dispatch
    }
}

/// Route a call by its name and whether it carries an authorization and the
/// tool set has a capability consumer: with a consumer, a workspace tool
/// without authorization is refused, mutations and shell run through their
/// authorized paths and reads are authorized first; without one, an
/// authorized mutation or shell call still takes its authorized path.
pub fn capability_route(name: &str, has_auth: bool, has_consumer: bool) -> (r: CapabilityRoute)
    ensures
        match (r, route_for(name@, has_auth, has_consumer)) {
            (CapabilityRoute::Refuse(e), CapabilityRoute::Refuse(_)) => e matches ToolError::Other(m)
                && m@ == "capability required for '"@ + name@ + "' (R6-1)"@,
            (CapabilityRoute::Mutation, CapabilityRoute::Mutation) => true,
            (CapabilityRoute::Process, CapabilityRoute::Process) => true,
            (CapabilityRoute::AuthorizeThenDispatch, CapabilityRoute::AuthorizeThenDispatch) => true,
            (CapabilityRoute::Dispatch, CapabilityRoute::Dispatch) => true,
            _ => false,
        },
{
    let n = chars_of(name);
    let t = n.as_slice();
    let mutation = text_is(t, "edit_file") || text_is(t, "write_file");
    let shell = text_is(t, "run_shell");
    if tool_requires_capability(name) && has_consumer {
        if !has_auth {
            let mut m = String::from_str("capability required for '");
            push_str(&mut m, name);
            push_str(&mut m, "' (R6-1)");
            return CapabilityRoute::Refuse(ToolError::Other(m));
        }
        if mutation {
            CapabilityRoute::Mutation
        } else if shell {
            CapabilityRoute::Process
        } else {
            CapabilityRoute::AuthorizeThenDispatch
        }
    } else if has_auth && mutation {
        CapabilityRoute::Mutation
    } else if has_auth && shell {
        CapabilityRoute::Process
    } else {
        CapabilityRoute::Dispatch
    }
}

/// The tools a call can name.
#[derive(Debug, Clone, Copy, PartialEq, Eq, Structural)]
pub enum ToolName {
    ReadFile,
    ListDir,
    Grep,
    Glob,
    EditFile,
    WriteFile,
    RunShell,
    Finish,
    FindDefinition,
    SearchCode,
    Outline,
    FindMentions,
    Recall,
    LspGotoDefinition,
    LspFindReferences,
    LspDiagnostics,
}

pub open spec fn tool_of(name: Seq<char>) -> Option<ToolName> {
    if name == "read_file"@ {
        Some(ToolName::ReadFile)
    } else if name == "list_dir"@ {
        Some(ToolName::ListDir)
    } else if name == "grep"@ {
        Some(ToolName::Grep)
    } else if name == "glob"@ {
        Some(ToolName::Glob)
    } else if name == "edit_file"@ {
        Some(ToolName::EditFile)
    } else if name == "write_file"@ {
        Some(ToolName::WriteFile)
    } else if name == "run_shell"@ {
        Some(ToolName::RunShell)
    } else if name == "finish"@ {
        Some(ToolName::Finish)
    } else if name == "find_definition"@ {
        Some(ToolName::FindDefinition)
    } else if name == "search_code"@ {
        Some(ToolName::SearchCode)
    } else if name == "outline"@ {
        Some(ToolName::Outline)
    } else if name == "find_mentions"@ || name == "find_references"@ {
        Some(ToolName::FindMentions)
    } else if name == "recall"@ {
        Some(ToolName::Recall)
    } else if name == "lsp_goto_definition"@ {
        Some(ToolName::LspGotoDefinition)
    } else if name == "lsp_find_references"@ {
        Some(ToolName::LspFindReferences)
    } else if name == "lsp_diagnostics"@ {
        Some(ToolName::LspDiagnostics)
    } else {
        None
    }
}

/// The text of the error for a name no tool answers to.
pub open spec fn unknown_tool_text(name: Seq<char>) -> Seq<char> {
    if name == "spawn_agent"@ {
        "spawn_agent is handled by the orchestrator host"@
    } else {
        "unknown tool '"@ + name + "'"@
    }
}

/// The tool a name selects, or the error for a name no tool here answers to.
pub fn select_tool(name: &str) -> (r: Result<ToolName, ToolError>)
    ensures
        match r {
            Ok(t) => tool_of(name@) == Some(t),
            Err(e) => tool_of(name@) is None && (e matches ToolError::Other(m) && m@
                == unknown_tool_text(name@)),
        },
{
    let n = chars_of(name);
    let t = n.as_slice();
    if text_is(t, "read_file") {
        Ok(ToolName::ReadFile)
    } else if text_is(t, "list_dir") {
        Ok(ToolName::ListDir)
    } else if text_is(t, "grep") {
        Ok(ToolName::Grep)
    } else if text_is(t, "glob") {
        Ok(ToolName::Glob)
    } else if text_is(t, "edit_file") {
        Ok(ToolName::EditFile)
    } else if text_is(t, "write_file") {
        Ok(ToolName::WriteFile)
    } else if text_is(t, "run_shell") {
        Ok(ToolName::RunShell)
    } else if text_is(t, "finish") {
        Ok(ToolName::Finish)
    } else if text_is(t, "find_definition") {
        Ok(ToolName::FindDefinition)
    } else if text_is(t, "search_code") {
        Ok(ToolName::SearchCode)
    } else if text_is(t, "outline") {
        Ok(ToolName::Outline)
    } else if text_is(t, "find_mentions") || text_is(t, "find_references") {
        Ok(ToolName::FindMentions)
    } else if text_is(t, "recall") {
        Ok(ToolName::Recall)
    } else if text_is(t, "lsp_goto_definition") {
        Ok(ToolName::LspGotoDefinition)
    } else if text_is(t, "lsp_find_references") {
        Ok(ToolName::LspFindReferences)
    } else if text_is(t, "lsp_diagnostics") {
        Ok(ToolName::LspDiagnostics)
    } else if text_is(t, "spawn_agent") {
        Err(ToolError::Other(String::from_str("spawn_agent is handled by the orchestrator host")))
    } else {
        let mut m = String::from_str("unknown tool '");
        push_str(&mut m, name);
        push_str(&mut m, "'");
        Err(ToolError::Other(m))
    }
}

/// The outcome text of `finish`.
pub fn finish_message(summary: &str) -> (r: String)
    ensures
        r@ == "Task complete: "@ + summary@,
{
    let mut m = String::from_str("Task complete: ");
    push_str(&mut m, summary);
    m
}

/// The argument shape a tool call's arguments are checked against.
#[derive(Debug, Clone, Copy, PartialEq, Eq, Structural)]
pub enum ArgsShape {
    Tool(ToolName),
    /// Orchestrator arguments of `spawn_agent`.
    SpawnAgent,
}

/// The shape to validate a call's arguments against, or the error for a name
/// that no tool answers to.
pub fn args_shape(name: &str) -> (r: Result<ArgsShape, String>)
    ensures
        match r {
            Ok(ArgsShape::Tool(t)) => tool_of(name@) == Some(t),
            Ok(ArgsShape::SpawnAgent) => tool_of(name@) is None && name@ == "spawn_agent"@,
            Err(m) => tool_of(name@) is None && name@ != "spawn_agent"@ && m@ == "unknown tool '"@
                + name@ + "'"@,
        },
{
    match select_tool(name) {
        Ok(t) => Ok(ArgsShape::Tool(t)),
        Err(_) => {
            let n = chars_of(name);
            if text_is(n.as_slice(), "spawn_agent") {
                Ok(ArgsShape::SpawnAgent)
            } else {
                let mut m = String::from_str("unknown tool '");
                push_str(&mut m, name);
                push_str(&mut m, "'");
                Err(m)
            }
        },
    }
}

} // verus!
