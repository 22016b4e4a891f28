//! Answers of the code-index and recall tools: how many results a query asks
//! the index or the store for, and how the results they return are shown.
//! The index and the store are queried by the host.
use vstd::prelude::*;

use crate::text::{chars_of, decimal, join, join_strings, push_decimal, push_str, string_of, trim_end, trimmed_end, views_of};

verus! {

/// A tool's answer: a one-line title and the result text.
#[derive(Debug)]
pub struct ToolReport {
    pub title: String,
    pub body: String,
}

/// `max.unwrap_or(default).min(cap)`: how many results a query asks for.
pub fn capped_limit(max: Option<usize>, default: usize, cap: u32) -> (r: u32)
    ensures
        r == (match max {
            Some(m) => if m < cap { m } else { cap as usize },
            None => if default < cap { default } else { cap as usize },
        }),
{
    let want = match max {
        Some(m) => m,
        None => default,
    };
    if want < cap as usize {
        want as u32
    } else {
        cap
    }
}

/// Results `search_code` asks the index for: 10 unless given, at most 50.
pub fn search_limit(max: Option<usize>) -> (r: u32)
    ensures
        r == (match max {
            Some(m) => if m < 50 { m } else { 50 },
            None => 10,
        }),
{
    capped_limit(max, 10, 50)
}

/// Results `find_mentions` asks the index for: 30 unless given, at most 100.
pub fn mentions_limit(max: Option<usize>) -> (r: u32)
    ensures
        r == (match max {
            Some(m) => if m < 100 { m } else { 100 },
            None => 30,
        }),
{
    capped_limit(max, 30, 100)
}

/// Results `recall` asks the store for: 8 unless given, at most 20.
pub fn recall_limit(max: Option<usize>) -> (r: u32)
    ensures
        r == (match max {
            Some(m) => if m < 20 { m } else { 20 },
            None => 8,
        }),
{
    capped_limit(max, 8, 20)
}

/// A definition the code index found.
#[derive(Debug, Clone)]
pub struct DefinitionHit {
    pub kind: String,
    pub rel: String,
    pub start_line: u64,
    pub signature: String,
}

/// A definition as `kind rel:line  signature`, without trailing white space.
pub open spec fn definition_line(d: DefinitionHit) -> Seq<char> {
    trim_end(d.kind@ + " "@ + d.rel@ + ":"@ + decimal(d.start_line as nat) + "  "@ + d.signature@)
}

pub open spec fn definition_lines(ds: Seq<DefinitionHit>) -> Seq<Seq<char>> {
    ds.map_values(|d: DefinitionHit| definition_line(d))
}

/// What `find_definition` shows for `name`.
pub open spec fn definition_report(name: Seq<char>, ds: Seq<DefinitionHit>) -> (Seq<char>, Seq<char>) {
    if ds.len() == 0 {
        (
            "no definition for '"@ + name + "'"@,
            "No indexed definition named '"@ + name + "'. Try search_code or grep."@,
        )
    } else {
        (decimal(ds.len()) + " definition(s) for '"@ + name + "'"@, join(definition_lines(ds), "\n"@))
    }
}

fn definition_row(d: &DefinitionHit) -> (r: String)
    ensures
        r@ == definition_line(*d),
{
    let mut s = String::new();
    push_str(&mut s, d.kind.as_str());
    push_str(&mut s, " ");
    push_str(&mut s, d.rel.as_str());
    push_str(&mut s, ":");
    push_decimal(&mut s, d.start_line as u128);
    push_str(&mut s, "  ");
    push_str(&mut s, d.signature.as_str());
    let cs = chars_of(s.as_str());
    let t = trimmed_end(cs.as_slice());
    string_of(t.as_slice())
}

/// The answer of `find_definition` for `name` given the index's definitions.
pub fn find_definition_report(name: &str, defs: &Vec<DefinitionHit>) -> (r: ToolReport)
    ensures
        (r.title@, r.body@) == definition_report(name@, defs@),
{
    if defs.len() == 0 {
        let mut title = String::new();
        push_str(&mut title, "no definition for '");
        push_str(&mut title, name);
        push_str(&mut title, "'");
        let mut body = String::new();
        push_str(&mut body, "No indexed definition named '");
        push_str(&mut body, name);
        push_str(&mut body, "'. Try search_code or grep.");
        return ToolReport { title, body };
    }
    let mut rows: Vec<String> = Vec::new();
    let mut i: usize = 0;
    while i < defs.len()
        invariant
            i <= defs@.len(),
            views_of(rows@) == definition_lines(defs@).take(i as int),
        decreases defs.len() - i,
    {
        let row = definition_row(&defs[i]);
        assert(definition_lines(defs@).take(i + 1) =~= definition_lines(defs@).take(i as int).push(row@));
        let ghost before = rows@;
        rows.push(row);
        assert(views_of(rows@) =~= views_of(before).push(definition_lines(defs@)[i as int]));
        i = i + 1;
    }
    assert(definition_lines(defs@).take(i as int) =~= definition_lines(defs@));
    let body = join_strings(&rows, "\n");
    let mut title = String::new();
    push_decimal(&mut title, defs.len() as u128);
    push_str(&mut title, " definition(s) for '");
    push_str(&mut title, name);
    push_str(&mut title, "'");
    ToolReport { title, body }
}

/// A chunk the keyword search over the code index found.
#[derive(Debug, Clone)]
pub struct SearchHit {
    pub rel: String,
    pub start_line: u64,
    pub end_line: u64,
    /// The enclosing symbol, empty when there is none.
    pub symbol_name: String,
    pub preview: String,
}

/// A chunk as `rel:start-end [symbol]  preview`, the symbol part only when there is one.
pub open spec fn search_line(h: SearchHit) -> Seq<char> {
    let sym = if h.symbol_name@.len() == 0 {
        Seq::<char>::empty()
    } else {
        " ["@ + h.symbol_name@ + "]"@
    };
    h.rel@ + ":"@ + decimal(h.start_line as nat) + "-"@ + decimal(h.end_line as nat) + sym + "  "@ + h.preview@
}

pub open spec fn search_lines(hs: Seq<SearchHit>) -> Seq<Seq<char>> {
    hs.map_values(|h: SearchHit| search_line(h))
}

/// What `search_code` shows for `query`.
pub open spec fn search_report(query: Seq<char>, hs: Seq<SearchHit>) -> (Seq<char>, Seq<char>) {
    if hs.len() == 0 {
        (
            "no matches for '"@ + query + "'"@,
            "No indexed matches. Try different terms, or grep for a regex."@,
        )
    } else {
        (decimal(hs.len()) + " match(es) for '"@ + query + "'"@, join(search_lines(hs), "\n"@))
    }
}

fn search_row(h: &SearchHit) -> (r: String)
    ensures
        r@ == search_line(*h),
{
    let mut s = String::new();
    push_str(&mut s, h.rel.as_str());
    push_str(&mut s, ":");
    push_decimal(&mut s, h.start_line as u128);
    push_str(&mut s, "-");
    push_decimal(&mut s, h.end_line as u128);
    let sym = chars_of(h.symbol_name.as_str());
    if sym.len() != 0 {
        push_str(&mut s, " [");
        push_str(&mut s, h.symbol_name.as_str());
        push_str(&mut s, "]");
    } else {
        assert(h.symbol_name@ =~= sym@);
        assert(h.symbol_name@ =~= Seq::<char>::empty());
    }
    push_str(&mut s, "  ");
    push_str(&mut s, h.preview.as_str());
    s
}

/// The answer of `search_code` for `query` given the index's hits.
pub fn search_code_report(query: &str, hits: &Vec<SearchHit>) -> (r: ToolReport)
    ensures
        (r.title@, r.body@) == search_report(query@, hits@),
{
    if hits.len() == 0 {
        let mut title = String::new();
        push_str(&mut title, "no matches for '");
        push_str(&mut title, query);
        push_str(&mut title, "'");
        return ToolReport {
            title,
            body: String::from_str("No indexed matches. Try different terms, or grep for a regex."),
        };
    }
    let mut rows: Vec<String> = Vec::new();
    let mut i: usize = 0;
    while i < hits.len()
        invariant
            i <= hits@.len(),
            views_of(rows@) == search_lines(hits@).take(i as int),
        decreases hits.len() - i,
    {
        let row = search_row(&hits[i]);
        assert(search_lines(hits@).take(i + 1) =~= search_lines(hits@).take(i as int).push(row@));
        let ghost before = rows@;
        rows.push(row);
        assert(views_of(rows@) =~= views_of(before).push(search_lines(hits@)[i as int]));
        i = i + 1;
    }
    assert(search_lines(hits@).take(i as int) =~= search_lines(hits@));
    let body = join_strings(&rows, "\n");
    let mut title = String::new();
    push_decimal(&mut title, hits.len() as u128);
    push_str(&mut title, " match(es) for '");
    push_str(&mut title, query);
    push_str(&mut title, "'");
    ToolReport { title, body }
}

/// A symbol of a file's outline.
#[derive(Debug, Clone)]
pub struct OutlineRow {
    /// Nesting depth, 0 at the top level.
    pub depth: usize,
    pub kind: String,
    pub name: String,
    pub start_line: u64,
}

/// `n` copies of two spaces.
pub open spec fn indent(n: nat) -> Seq<char>
    decreases n,
{
    if n == 0 {
        Seq::<char>::empty()
    } else {
        indent((n - 1) as nat) + "  "@
    }
}

/// A symbol as `<indent>kind name :line`.
pub open spec fn outline_line(r: OutlineRow) -> Seq<char> {
    indent(r.depth as nat) + r.kind@ + " "@ + r.name@ + " :"@ + decimal(r.start_line as nat)
}

pub open spec fn outline_lines(rs: Seq<OutlineRow>) -> Seq<Seq<char>> {
    rs.map_values(|r: OutlineRow| outline_line(r))
}

/// What `outline` shows for `path`.
pub open spec fn outline_report(path: Seq<char>, rs: Seq<OutlineRow>) -> (Seq<char>, Seq<char>) {
    if rs.len() == 0 {
        ("no outline for "@ + path, "No indexed symbols in "@ + path + " (read_file to view it)."@)
    } else {
        (decimal(rs.len()) + " symbol(s) in "@ + path, join(outline_lines(rs), "\n"@))
    }
}

fn outline_row(r: &OutlineRow) -> (s: String)
    ensures
        s@ == outline_line(*r),
{
    let mut s = String::new();
    let mut k: usize = 0;
    while k < r.depth
        invariant
            k <= r.depth,
            s@ == indent(k as nat),
        decreases r.depth - k,
    {
        push_str(&mut s, "  ");
        k = k + 1;
    }
    push_str(&mut s, r.kind.as_str());
    push_str(&mut s, " ");
    push_str(&mut s, r.name.as_str());
    push_str(&mut s, " :");
    push_decimal(&mut s, r.start_line as u128);
    s
}

/// The answer of `outline` for `path` given the index's symbols.
pub fn outline_report_of(path: &str, rows: &Vec<OutlineRow>) -> (r: ToolReport)
    ensures
        (r.title@, r.body@) == outline_report(path@, rows@),
{
    if rows.len() == 0 {
        let mut title = String::new();
        push_str(&mut title, "no outline for ");
        push_str(&mut title, path);
        let mut body = String::new();
        push_str(&mut body, "No indexed symbols in ");
        push_str(&mut body, path);
        push_str(&mut body, " (read_file to view it).");
        return ToolReport { title, body };
    }
    let mut lines: Vec<String> = Vec::new();
    let mut i: usize = 0;
    while i < rows.len()
        invariant
            i <= rows@.len(),
            views_of(lines@) == outline_lines(rows@).take(i as int),
        decreases rows.len() - i,
    {
        let line = outline_row(&rows[i]);
        assert(outline_lines(rows@).take(i + 1) =~= outline_lines(rows@).take(i as int).push(line@));
        let ghost before = lines@;
        lines.push(line);
        assert(views_of(lines@) =~= views_of(before).push(outline_lines(rows@)[i as int]));
        i = i + 1;
    }
    assert(outline_lines(rows@).take(i as int) =~= outline_lines(rows@));
    let body = join_strings(&lines, "\n");
    let mut title = String::new();
    push_decimal(&mut title, rows.len() as u128);
    push_str(&mut title, " symbol(s) in ");
    push_str(&mut title, path);
    ToolReport { title, body }
}

/// An indexed location that mentions a name.
#[derive(Debug, Clone)]
pub struct MentionHit {
    pub rel: String,
    pub start_line: u64,
    pub end_line: u64,
    pub preview: String,
}

/// A mention as `rel:start-end  preview`.
pub open spec fn mention_line(h: MentionHit) -> Seq<char> {
    h.rel@ + ":"@ + decimal(h.start_line as nat) + "-"@ + decimal(h.end_line as nat) + "  "@ + h.preview@
}

pub open spec fn mention_lines(hs: Seq<MentionHit>) -> Seq<Seq<char>> {
    hs.map_values(|h: MentionHit| mention_line(h))
}

/// What `find_mentions` shows for `name`.
pub open spec fn mentions_report(name: Seq<char>, hs: Seq<MentionHit>) -> (Seq<char>, Seq<char>) {
    if hs.len() == 0 {
        (
            "no mentions of '"@ + name + "'"@,
            "No indexed mentions of '"@ + name
                + "'. This is keyword search — try lsp_find_references or grep for precise uses."@,
        )
    } else {
        (decimal(hs.len()) + " mention(s) of '"@ + name + "'"@, join(mention_lines(hs), "\n"@))
    }
}

fn mention_row(h: &MentionHit) -> (r: String)
    ensures
        r@ == mention_line(*h),
{
    let mut s = String::new();
    push_str(&mut s, h.rel.as_str());
    push_str(&mut s, ":");
    push_decimal(&mut s, h.start_line as u128);
    push_str(&mut s, "-");
    push_decimal(&mut s, h.end_line as u128);
    push_str(&mut s, "  ");
    push_str(&mut s, h.preview.as_str());
    s
}

/// The answer of `find_mentions` for `name` given the index's hits.
pub fn find_mentions_report(name: &str, hits: &Vec<MentionHit>) -> (r: ToolReport)
    ensures
        (r.title@, r.body@) == mentions_report(name@, hits@),
{
    if hits.len() == 0 {
        let mut title = String::new();
        push_str(&mut title, "no mentions of '");
        push_str(&mut title, name);
        push_str(&mut title, "'");
        let mut body = String::new();
        push_str(&mut body, "No indexed mentions of '");
        push_str(&mut body, name);
        push_str(&mut body, "'. This is keyword search — try lsp_find_references or grep for precise uses.");
        return ToolReport { title, body };
    }
    let mut rows: Vec<String> = Vec::new();
    let mut i: usize = 0;
    while i < hits.len()
        invariant
            i <= hits@.len(),
            views_of(rows@) == mention_lines(hits@).take(i as int),
        decreases hits.len() - i,
    {
        let row = mention_row(&hits[i]);
        assert(mention_lines(hits@).take(i + 1) =~= mention_lines(hits@).take(i as int).push(row@));
        let ghost before = rows@;
        rows.push(row);
        assert(views_of(rows@) =~= views_of(before).push(mention_lines(hits@)[i as int]));
        i = i + 1;
    }
    assert(mention_lines(hits@).take(i as int) =~= mention_lines(hits@));
    let body = join_strings(&rows, "\n");
    let mut title = String::new();
    push_decimal(&mut title, hits.len() as u128);
    push_str(&mut title, " mention(s) of '");
    push_str(&mut title, name);
    push_str(&mut title, "'");
    ToolReport { title, body }
}

/// A message the scoped recall found in an execution's information context.
#[derive(Debug, Clone)]
pub struct ContextRecallHit {
    pub session_id: String,
    pub label: String,
    pub snippet: String,
}

/// A context hit, fenced as untrusted text.
pub open spec fn context_line(h: ContextRecallHit) -> Seq<char> {
    "<untrusted recall>\n["@ + h.session_id@ + " "@ + h.label@ + "] "@ + h.snippet@ + "\n</untrusted recall>"@
}

pub open spec fn context_lines(hs: Seq<ContextRecallHit>) -> Seq<Seq<char>> {
    hs.map_values(|h: ContextRecallHit| context_line(h))
}

fn context_row(h: &ContextRecallHit) -> (r: String)
    ensures
        r@ == context_line(*h),
{
    let mut s = String::new();
    push_str(&mut s, "<untrusted recall>\n[");
    push_str(&mut s, h.session_id.as_str());
    push_str(&mut s, " ");
    push_str(&mut s, h.label.as_str());
    push_str(&mut s, "] ");
    push_str(&mut s, h.snippet.as_str());
    push_str(&mut s, "\n</untrusted recall>");
    s
}

/// The answer of a scoped recall given the store's hits: their count, and
/// each hit fenced as untrusted text.
pub fn recall_context_report(hits: &Vec<ContextRecallHit>) -> (r: ToolReport)
    ensures
        r.title@ == decimal(hits@.len()) + " authorized message hit(s)"@,
        r.body@ == join(context_lines(hits@), "\n"@),
{
    let mut rows: Vec<String> = Vec::new();
    let mut i: usize = 0;
    while i < hits.len()
        invariant
            i <= hits@.len(),
            views_of(rows@) == context_lines(hits@).take(i as int),
        decreases hits.len() - i,
    {
        let row = context_row(&hits[i]);
        assert(context_lines(hits@).take(i + 1) =~= context_lines(hits@).take(i as int).push(row@));
        let ghost before = rows@;
        rows.push(row);
        assert(views_of(rows@) =~= views_of(before).push(context_lines(hits@)[i as int]));
        i = i + 1;
    }
    assert(context_lines(hits@).take(i as int) =~= context_lines(hits@));
    let body = join_strings(&rows, "\n");
    let mut title = String::new();
    push_decimal(&mut title, hits.len() as u128);
    push_str(&mut title, " authorized message hit(s)");
    ToolReport { title, body }
}

/// The snippet a history hit shows: a tool result fenced as untrusted text,
/// anything else as it is.
pub open spec fn shown_snippet(kind: Seq<char>, snippet: Seq<char>) -> Seq<char> {
    if kind == "tool"@ {
        "<untrusted recall>\n"@ + snippet + "\n</untrusted recall>"@
    } else {
        snippet
    }
}

/// The snippet a history hit of `kind` shows; the host classifies this text.
pub fn recall_snippet(kind: &str, snippet: &str) -> (r: String)
    ensures
        r@ == shown_snippet(kind@, snippet@),
{
    let k = chars_of(kind);
    let tool = chars_of("tool");
    let mut s = String::new();
    if crate::text::chars_eq(k.as_slice(), tool.as_slice()) {
        push_str(&mut s, "<untrusted recall>\n");
        push_str(&mut s, snippet);
        push_str(&mut s, "\n</untrusted recall>");
    } else {
        push_str(&mut s, snippet);
    }
    s
}

/// A message or tool outcome the workspace history recall found.
#[derive(Debug, Clone)]
pub struct RecallHit {
    pub started_at: String,
    pub kind: String,
    pub label: String,
    pub session_id: String,
    pub snippet: String,
    /// The data class the host's classifier found in the shown snippet, if any.
    pub class_name: Option<String>,
}

/// A history hit as `[class:c] [started kind label] session: snippet`, the
/// class tag only when the snippet was classified.
pub open spec fn recall_line(h: RecallHit) -> Seq<char> {
    let tag = match h.class_name {
        Some(c) => "[class:"@ + c@ + "] "@,
        None => Seq::<char>::empty(),
    };
    tag + "["@ + h.started_at@ + " "@ + h.kind@ + " "@ + h.label@ + "] "@ + h.session_id@ + ": "@
        + shown_snippet(h.kind@, h.snippet@)
}

pub open spec fn recall_lines(hs: Seq<RecallHit>) -> Seq<Seq<char>> {
    hs.map_values(|h: RecallHit| recall_line(h))
}

/// What `recall` shows for `query`.
pub open spec fn recall_report(query: Seq<char>, hs: Seq<RecallHit>) -> (Seq<char>, Seq<char>) {
    if hs.len() == 0 {
        (
            "no recall hits for '"@ + query + "'"@,
            "No prior sessions matched. Try broader keywords or check project digest in briefing."@,
        )
    } else {
        (decimal(hs.len()) + " recall hit(s) for '"@ + query + "'"@, join(recall_lines(hs), "\n"@))
    }
}

fn recall_row(h: &RecallHit) -> (r: String)
    ensures
        r@ == recall_line(*h),
{
    let mut s = String::new();
    match &h.class_name {
        Some(c) => {
            push_str(&mut s, "[class:");
            push_str(&mut s, c.as_str());
            push_str(&mut s, "] ");
        },
        None => {},
    }
    push_str(&mut s, "[");
    push_str(&mut s, h.started_at.as_str());
    push_str(&mut s, " ");
    push_str(&mut s, h.kind.as_str());
    push_str(&mut s, " ");
    push_str(&mut s, h.label.as_str());
    push_str(&mut s, "] ");
    push_str(&mut s, h.session_id.as_str());
    push_str(&mut s, ": ");
    let shown = recall_snippet(h.kind.as_str(), h.snippet.as_str());
    push_str(&mut s, shown.as_str());
    s
}

/// The answer of `recall` for `query` given the store's history hits.
pub fn recall_report_of(query: &str, hits: &Vec<RecallHit>) -> (r: ToolReport)
    ensures
        (r.title@, r.body@) == recall_report(query@, hits@),
{
    if hits.len() == 0 {
        let mut title = String::new();
        push_str(&mut title, "no recall hits for '");
        push_str(&mut title, query);
        push_str(&mut title, "'");
        return ToolReport {
            title,
            body: String::from_str(
                "No prior sessions matched. Try broader keywords or check project digest in briefing.",
            ),
        };
    }
    let mut rows: Vec<String> = Vec::new();
    let mut i: usize = 0;
    while i < hits.len()
        invariant
            i <= hits@.len(),
            views_of(rows@) == recall_lines(hits@).take(i as int),
        decreases hits.len() - i,
    {
        let row = recall_row(&hits[i]);
        assert(recall_lines(hits@).take(i + 1) =~= recall_lines(hits@).take(i as int).push(row@));
        let ghost before = rows@;
        rows.push(row);
        assert(views_of(rows@) =~= views_of(before).push(recall_lines(hits@)[i as int]));
        i = i + 1;
    }
    assert(recall_lines(hits@).take(i as int) =~= recall_lines(hits@));
    let body = join_strings(&rows, "\n");
    let mut title = String::new();
    push_decimal(&mut title, hits.len() as u128);
    push_str(&mut title, " recall hit(s) for '");
    push_str(&mut title, query);
    push_str(&mut title, "'");
    ToolReport { title, body }
}

} // verus!
