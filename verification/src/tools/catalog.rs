//! Operator-card and tool-catalogue prompt text.
use vstd::prelude::*;

use crate::text::{join, join_strings, push_str, views_of};

verus! {

pub open spec fn card_head() -> Seq<Seq<char>> {
    seq![
        "You are Lokai — a local-only coding agent. Hard constraints:"@,
        "- All work stays on this machine; default-deny egress (no cloud APIs)."@,
        "- run_shell requires explicit user approval when enabled."@,
        "- Project memory holds intent/decisions; the code index holds current code truth — do not confuse them."@,
    ]
}

pub open spec fn opt_line(on: bool, line: Seq<char>) -> Seq<Seq<char>> {
    if on {
        seq![line]
    } else {
        Seq::empty()
    }
}

/// The card's lines: the fixed constraints, then the memory, index and LSP
/// hints that apply.
pub open spec fn card_lines(has_index: bool, has_memory: bool, has_lsp: bool) -> Seq<Seq<char>> {
    card_head() + opt_line(
        has_memory,
        "- Use `recall` to pull snippets from prior sessions when continuity matters."@,
    ) + opt_line(
        has_index,
        "- Prefer find_definition / search_code / outline over brute grep for navigation."@,
    ) + opt_line(
        has_lsp,
        "- Run lsp_diagnostics on edited files before finish when LSP is available."@,
    )
}

/// The operator card: its lines joined by newlines.
pub fn operator_card(has_index: bool, has_memory: bool, has_lsp: bool) -> (r: String)
    ensures
        r@ == join(card_lines(has_index, has_memory, has_lsp), "\n"@),
{
    let mut lines: Vec<String> = Vec::new();
    lines.push(String::from_str("You are Lokai — a local-only coding agent. Hard constraints:"));
    lines.push(
        String::from_str("- All work stays on this machine; default-deny egress (no cloud APIs)."),
    );
    lines.push(String::from_str("- run_shell requires explicit user approval when enabled."));
    lines.push(
        String::from_str(
            "- Project memory holds intent/decisions; the code index holds current code truth — do not confuse them.",
        ),
    );
    let ghost head = views_of(lines@);
    assert(head =~= card_head());
    if has_memory {
        lines.push(
            String::from_str(
                "- Use `recall` to pull snippets from prior sessions when continuity matters.",
            ),
        );
    }
    let ghost with_memory = views_of(lines@);
    assert(with_memory =~= card_head() + opt_line(
        has_memory,
        "- Use `recall` to pull snippets from prior sessions when continuity matters."@,
    ));
    if has_index {
        lines.push(
            String::from_str(
                "- Prefer find_definition / search_code / outline over brute grep for navigation.",
            ),
        );
    }
    let ghost with_index = views_of(lines@);
    assert(with_index =~= with_memory + opt_line(
        has_index,
        "- Prefer find_definition / search_code / outline over brute grep for navigation."@,
    ));
    if has_lsp {
        lines.push(
            String::from_str(
                "- Run lsp_diagnostics on edited files before finish when LSP is available.",
            ),
        );
    }
    assert(views_of(lines@) =~= card_lines(has_index, has_memory, has_lsp));
    join_strings(&lines, "\n")
}

pub open spec fn opt_text(on: bool, t: Seq<char>) -> Seq<char> {
    if on {
        t
    } else {
        Seq::empty()
    }
}

pub open spec fn index_hint() -> Seq<char> {
    "- A code index is available: use find_definition to jump to a symbol, search_code for keyword search, outline to list a file's symbols, and find_mentions to locate textual uses (keyword/FTS — prefer lsp_find_references for precise refs). Prefer these over grep for locating code.\n"@
}

pub open spec fn memory_hint() -> Seq<char> {
    "- Prior sessions are searchable with the `recall` tool — use it for decisions and context from earlier work.\n"@
}

pub open spec fn lsp_hint() -> Seq<char> {
    "- Language servers are available: lsp_goto_definition and lsp_find_references for typed navigation; lsp_diagnostics before finish to catch compile/type errors. Index tools still work if LSP fails.\n"@
}

pub open spec fn python_hint() -> Seq<char> {
    "- Python: after edit/write, syntax must be valid (py_compile). Fix SyntaxError/IndentationError before calling finish.\n"@
}

/// Catalogue lines for the available tool families, then the Python rule.
pub fn catalog_prompt_lines(has_index: bool, has_memory: bool, has_lsp: bool) -> (r: String)
    ensures
        r@ == opt_text(has_index, index_hint()) + opt_text(has_memory, memory_hint()) + opt_text(
            has_lsp,
            lsp_hint(),
        ) + python_hint(),
{
    let mut out = String::new();
    let ghost e = out@;
    if has_index {
        push_str(
            &mut out,
            "- A code index is available: use find_definition to jump to a symbol, search_code for keyword search, outline to list a file's symbols, and find_mentions to locate textual uses (keyword/FTS — prefer lsp_find_references for precise refs). Prefer these over grep for locating code.\n",
        );
    }
    let ghost a = out@;
    assert(a =~= opt_text(has_index, index_hint()));
    if has_memory {
        push_str(
            &mut out,
            "- Prior sessions are searchable with the `recall` tool — use it for decisions and context from earlier work.\n",
        );
    }
    let ghost b = out@;
    assert(b =~= a + opt_text(has_memory, memory_hint()));
    if has_lsp {
        push_str(
            &mut out,
            "- Language servers are available: lsp_goto_definition and lsp_find_references for typed navigation; lsp_diagnostics before finish to catch compile/type errors. Index tools still work if LSP fails.\n",
        );
    }
    let ghost c = out@;
    assert(c =~= b + opt_text(has_lsp, lsp_hint()));
    push_str(
        &mut out,
        "- Python: after edit/write, syntax must be valid (py_compile). Fix SyntaxError/IndentationError before calling finish.\n",
    );
    out
}

} // verus!
