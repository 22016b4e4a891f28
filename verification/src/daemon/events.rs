//! Which JSON-RPC notifications the daemon sends for each application event:
//! to which channel and agent, by which method, with which payload fields.
//! Values whose JSON form the host already has are carried as JSON text.
use vstd::prelude::*;

use crate::text::push_str;

verus! {

/// An application event, with the fields the daemon reads.
#[derive(Debug, Clone)]
pub enum AppEvent {
    SessionStarted { session_id: String },
    /// `status` as the session status displays.
    SessionEnded { session_id: String, status: String },
    /// `status_json`: the run status as JSON.
    RunStatus { run_id: String, status_json: String, agent_id: Option<String>, error: Option<String> },
    /// `status_json` and `error_json`: the turn status and its error as JSON.
    TurnCompleted { session_id: String, status_json: String, error_json: Option<String> },
    Cancellation { session_id: String },
    /// `kind_json`, `detail_json`, `missing_controls_json`: those values as JSON.
    ApprovalRequest {
        session_id: String,
        approval_id: String,
        call_id: String,
        kind_json: String,
        detail_json: String,
        tool: String,
        missing_controls_json: String,
        user_approval_required: bool,
    },
    ModelToken { session_id: String, agent_id: String, token: String },
    /// `data_class`: the name of the context's data class, if classified.
    ContextSnapshot {
        session_id: String,
        agent_id: String,
        system_tokens: u64,
        tools_tokens: u64,
        conversation_tokens: u64,
        total_tokens: u64,
        budget: u64,
        dropped_messages: u64,
        estimated: bool,
        data_class: Option<String>,
    },
    DispatchPlacement {
        session_id: String,
        agent_id: String,
        target_json: String,
        decision_json: String,
        reason_code: Option<String>,
        reason: Option<String>,
        data_class: Option<String>,
        redacted: bool,
    },
    StageTransition { session_id: String, agent_id: String, stage_json: String, detail_json: String },
    ThoughtToken { session_id: String, agent_id: String, token: String },
    /// `meta_json`: the node's metadata as JSON.
    NodeStarted { session_id: String, node_id: String, meta_json: String },
    NodeProgress { node_id: String, state_json: String },
    NodeCompleted { node_id: String, state_json: String, duration_ms: u64 },
    TurnAnswer { session_id: String, agent_id: String, text: String, from_finish: bool },
    /// `args_json`: the call's arguments, never sent on.
    ToolCall { session_id: String, agent_id: String, call_id: String, tool: String, args_json: String },
    ToolResult {
        session_id: String,
        agent_id: String,
        call_id: String,
        ok: bool,
        summary: String,
        error_kind_json: String,
    },
    CapacityProgress { job_id: String, percent_json: String, message_json: String },
    PolicyUpdated,
    LogDiagnostic { session_id: Option<String>, agent_id: Option<String>, message: String },
    ContextInformation { info: String },
    /// Any other event: only logged.
    Other,
}

/// Where a notification goes.
#[derive(Debug, Clone)]
pub enum Channel {
    Session(String),
    /// The capacity-optimizer channel.
    Capacity,
}

/// The agent a notification is about.
#[derive(Debug, Clone)]
pub enum AgentRef {
    Root,
    /// The capacity optimizer.
    Capacity,
    Named(String),
}

/// The notification method.
#[derive(Debug, Clone, Copy, PartialEq, Eq, Structural)]
pub enum Method {
    Log,
    RunStatus,
    ToolCall,
    ApprovalRequest,
    Token,
    Context,
    DispatchPlacement,
    Stage,
    Thought,
    NodeStarted,
    NodeProgress,
    NodeCompleted,
    Answer,
    ToolResult,
    CapacityProgress,
}

/// A payload value.
#[derive(Debug, Clone)]
pub enum FieldValue {
    Text(String),
    Flag(bool),
    Number(u64),
    /// A value already written as JSON.
    Json(String),
}

#[derive(Debug, Clone)]
pub struct Field {
    pub key: &'static str,
    pub value: FieldValue,
}

#[derive(Debug, Clone)]
pub struct Notification {
    pub channel: Channel,
    pub agent: AgentRef,
    pub method: Method,
    pub fields: Vec<Field>,
}

pub enum ChannelView {
    Session(Seq<char>),
    Capacity,
}

pub enum AgentView {
    Root,
    Capacity,
    Named(Seq<char>),
}

pub enum ValueView {
    Text(Seq<char>),
    Flag(bool),
    Number(u64),
    Json(Seq<char>),
}

#[verifier::ext_equal]
pub struct NoteView {
    pub channel: ChannelView,
    pub agent: AgentView,
    pub method: Method,
    pub fields: Seq<(Seq<char>, ValueView)>,
}

pub open spec fn value_view(v: FieldValue) -> ValueView {
    match v {
        FieldValue::Text(s) => ValueView::Text(s@),
        FieldValue::Flag(b) => ValueView::Flag(b),
        FieldValue::Number(n) => ValueView::Number(n),
        FieldValue::Json(s) => ValueView::Json(s@),
    }
}

pub open spec fn field_view(f: Field) -> (Seq<char>, ValueView) {
    (f.key@, value_view(f.value))
}

pub open spec fn note_view(n: Notification) -> NoteView {
    NoteView {
        channel: match n.channel {
            Channel::Session(s) => ChannelView::Session(s@),
            Channel::Capacity => ChannelView::Capacity,
        },
        agent: match n.agent {
            AgentRef::Root => AgentView::Root,
            AgentRef::Capacity => AgentView::Capacity,
            AgentRef::Named(s) => AgentView::Named(s@),
        },
        method: n.method,
        fields: n.fields@.map_values(|f: Field| field_view(f)),
    }
}

pub open spec fn notes_view(ns: Seq<Notification>) -> Seq<NoteView> {
    ns.map_values(|n: Notification| note_view(n))
}

pub open spec fn text(key: Seq<char>, v: Seq<char>) -> (Seq<char>, ValueView) {
    (key, ValueView::Text(v))
}

pub open spec fn json(key: Seq<char>, v: Seq<char>) -> (Seq<char>, ValueView) {
    (key, ValueView::Json(v))
}

/// An info-level log line.
pub open spec fn log_fields(message: Seq<char>) -> Seq<(Seq<char>, ValueView)> {
    seq![text("level"@, "info"@), text("message"@, message)]
}

pub open spec fn one(c: ChannelView, a: AgentView, m: Method, fs: Seq<(Seq<char>, ValueView)>) -> Seq<NoteView> {
    seq![NoteView { channel: c, agent: a, method: m, fields: fs }]
}

/// `fs` with the field `key` when `v` is present.
pub open spec fn with_opt(fs: Seq<(Seq<char>, ValueView)>, key: Seq<char>, v: Option<String>) -> Seq<(Seq<char>, ValueView)> {
    match v {
        Some(s) => fs.push(text(key, s@)),
        None => fs,
    }
}

/// The message of a completed turn: its JSON payload (keys in order, the
/// error only when there is one) after `turn completed: `.
pub open spec fn turn_message(status_json: Seq<char>, error_json: Option<String>) -> Seq<char> {
    "turn completed: {"@ + match error_json {
        Some(e) => "\"error\":"@ + e@ + ","@,
        None => Seq::<char>::empty(),
    } + "\"status\":"@ + status_json + "}"@
}

/// The notifications an event gives, in order.
pub open spec fn notifications(e: AppEvent) -> Seq<NoteView> {
    match e {
        AppEvent::SessionStarted { session_id } => one(
            ChannelView::Session(session_id@),
            AgentView::Root,
            Method::Log,
            log_fields("session started"@),
        ),
        AppEvent::SessionEnded { session_id, status } => one(
            ChannelView::Session(session_id@),
            AgentView::Root,
            Method::Log,
            log_fields("session ended ("@ + status@ + ")"@),
        ),
        AppEvent::RunStatus { run_id, status_json, agent_id, error } => one(
            ChannelView::Session(run_id@),
            match agent_id {
                Some(a) => AgentView::Named(a@),
                None => AgentView::Root,
            },
            Method::RunStatus,
            with_opt(seq![json("status"@, status_json@)], "error"@, error),
        ),
        AppEvent::TurnCompleted { session_id, status_json, error_json } => one(
            ChannelView::Session(session_id@),
            AgentView::Root,
            Method::Log,
            log_fields(turn_message(status_json@, error_json)),
        ),
        AppEvent::Cancellation { session_id } => one(
            ChannelView::Session(session_id@),
            AgentView::Root,
            Method::Log,
            log_fields("run canceled"@),
        ),
        AppEvent::ApprovalRequest {
            session_id,
            approval_id,
            call_id,
            kind_json,
            detail_json,
            tool,
            missing_controls_json,
            user_approval_required,
        } => seq![
            NoteView {
                channel: ChannelView::Session(session_id@),
                agent: AgentView::Root,
                method: Method::ToolCall,
                fields: seq![text("tool_call_id"@, call_id@), text("tool"@, tool@), text("phase"@, "proposed"@)],
            },
            NoteView {
                channel: ChannelView::Session(session_id@),
                agent: AgentView::Root,
                method: Method::ApprovalRequest,
                fields: seq![
                    text("approval_id"@, approval_id@),
                    json("kind"@, kind_json@),
                    json("detail"@, detail_json@),
                    text("tool_call_id"@, call_id@),
                    json("missing_controls"@, missing_controls_json@),
                    ("user_approval_required"@, ValueView::Flag(user_approval_required)),
                ],
            },
        ],
        AppEvent::ModelToken { session_id, agent_id, token } => one(
            ChannelView::Session(session_id@),
            AgentView::Named(agent_id@),
            Method::Token,
            seq![text("delta"@, token@), text("role"@, "assistant"@)],
        ),
        AppEvent::ContextSnapshot {
            session_id,
            agent_id,
            system_tokens,
            tools_tokens,
            conversation_tokens,
            total_tokens,
            budget,
            dropped_messages,
            estimated,
            data_class,
        } => one(
            ChannelView::Session(session_id@),
            AgentView::Named(agent_id@),
            Method::Context,
            with_opt(
                seq![
                    ("system_tokens"@, ValueView::Number(system_tokens)),
                    ("tools_tokens"@, ValueView::Number(tools_tokens)),
                    ("conversation_tokens"@, ValueView::Number(conversation_tokens)),
                    ("total_tokens"@, ValueView::Number(total_tokens)),
                    ("budget"@, ValueView::Number(budget)),
                    ("dropped_messages"@, ValueView::Number(dropped_messages)),
                    ("estimated"@, ValueView::Flag(estimated)),
                ],
                "data_class"@,
                data_class,
            ),
        ),
        AppEvent::DispatchPlacement {
            session_id,
            agent_id,
            target_json,
            decision_json,
            reason_code,
            reason,
            data_class,
            redacted,
        } => one(
            ChannelView::Session(session_id@),
            AgentView::Named(agent_id@),
            Method::DispatchPlacement,
            with_opt(
                with_opt(
                    with_opt(
                        seq![
                            json("target"@, target_json@),
                            json("decision"@, decision_json@),
                            ("redacted"@, ValueView::Flag(redacted)),
                        ],
                        "reason_code"@,
                        reason_code,
                    ),
                    "reason"@,
                    reason,
                ),
                "data_class"@,
                data_class,
            ),
        ),
        AppEvent::StageTransition { session_id, agent_id, stage_json, detail_json } => one(
            ChannelView::Session(session_id@),
            AgentView::Named(agent_id@),
            Method::Stage,
            seq![json("stage"@, stage_json@), json("detail"@, detail_json@)],
        ),
        AppEvent::ThoughtToken { session_id, agent_id, token } => one(
            ChannelView::Session(session_id@),
            AgentView::Named(agent_id@),
            Method::Thought,
            seq![text("delta"@, token@)],
        ),
        AppEvent::NodeStarted { session_id, node_id, meta_json } => one(
            ChannelView::Session(session_id@),
            AgentView::Named(node_id@),
            Method::NodeStarted,
            seq![json("meta"@, meta_json@)],
        ),
        AppEvent::NodeProgress { node_id, state_json } => one(
            ChannelView::Session(Seq::empty()),
            AgentView::Named(node_id@),
            Method::NodeProgress,
            seq![text("node_id"@, node_id@), json("state"@, state_json@)],
        ),
        AppEvent::NodeCompleted { node_id, state_json, duration_ms } => one(
            ChannelView::Session(Seq::empty()),
            AgentView::Named(node_id@),
            Method::NodeCompleted,
            seq![
                text("node_id"@, node_id@),
                json("state"@, state_json@),
                ("duration_ms"@, ValueView::Number(duration_ms)),
            ],
        ),
        AppEvent::TurnAnswer { session_id, agent_id, text: t, from_finish } => one(
            ChannelView::Session(session_id@),
            AgentView::Named(agent_id@),
            Method::Answer,
            seq![text("text"@, t@), ("from_finish"@, ValueView::Flag(from_finish))],
        ),
        AppEvent::ToolCall { session_id, agent_id, call_id, tool, args_json } => one(
            ChannelView::Session(session_id@),
            AgentView::Named(agent_id@),
            Method::ToolCall,
            seq![text("tool_call_id"@, call_id@), text("tool"@, tool@), text("phase"@, "started"@)],
        ),
        AppEvent::ToolResult { session_id, agent_id, call_id, ok, summary, error_kind_json } => one(
            ChannelView::Session(session_id@),
            AgentView::Named(agent_id@),
            Method::ToolResult,
            seq![
                text("tool_call_id"@, call_id@),
                ("ok"@, ValueView::Flag(ok)),
                text("summary"@, summary@),
                json("error_kind"@, error_kind_json@),
            ],
        ),
        AppEvent::CapacityProgress { job_id, percent_json, message_json } => one(
            ChannelView::Capacity,
            AgentView::Capacity,
            Method::CapacityProgress,
            seq![
                text("job_id"@, job_id@),
                text("phase"@, "queued"@),
                json("percent"@, percent_json@),
                json("message"@, message_json@),
            ],
        ),
        AppEvent::LogDiagnostic { session_id: Some(s), agent_id: Some(a), message } => one(
            ChannelView::Session(s@),
            AgentView::Named(a@),
            Method::Log,
            log_fields(message@),
        ),
        _ => Seq::empty(),
    }
}

fn s(t: &str) -> (r: String)
    ensures
        r@ == t@,
{
    String::from_str(t)
}

fn tf(key: &'static str, v: String) -> (f: Field)
    ensures
        field_view(f) == text(key@, v@),
{
    Field { key, value: FieldValue::Text(v) }
}

fn jf(key: &'static str, v: String) -> (f: Field)
    ensures
        field_view(f) == json(key@, v@),
{
    Field { key, value: FieldValue::Json(v) }
}

fn bf(key: &'static str, v: bool) -> (f: Field)
    ensures
        field_view(f) == (key@, ValueView::Flag(v)),
{
    Field { key, value: FieldValue::Flag(v) }
}

fn nf(key: &'static str, v: u64) -> (f: Field)
    ensures
        field_view(f) == (key@, ValueView::Number(v)),
{
    Field { key, value: FieldValue::Number(v) }
}

pub open spec fn fields_view(fs: Seq<Field>) -> Seq<(Seq<char>, ValueView)> {
    fs.map_values(|f: Field| field_view(f))
}

fn put(fs: &mut Vec<Field>, f: Field)
    ensures
        fields_view(final(fs)@) == fields_view(old(fs)@).push(field_view(f)),
{
    let ghost before = fs@;
    fs.push(f);
    assert(fields_view(fs@) =~= fields_view(before).push(field_view(f)));
}

fn put_opt(fs: &mut Vec<Field>, key: &'static str, v: Option<String>)
    ensures
        fields_view(final(fs)@) == with_opt(fields_view(old(fs)@), key@, v),
{
    match v {
        Some(x) => put(fs, tf(key, x)),
        None => {},
    }
}

fn log_of(message: String) -> (fs: Vec<Field>)
    ensures
        fields_view(fs@) == log_fields(message@),
{
    let mut fs: Vec<Field> = Vec::new();
    assert(fields_view(fs@) =~= Seq::<(Seq<char>, ValueView)>::empty());
    put(&mut fs, tf("level", s("info")));
    put(&mut fs, tf("message", message));
    fs
}

fn single(channel: Channel, agent: AgentRef, method: Method, fields: Vec<Field>) -> (r: Vec<Notification>)
    ensures
        notes_view(r@) == seq![note_view(Notification { channel, agent, method, fields })],
{
    let n = Notification { channel, agent, method, fields };
    let r = vec![n];
    assert(notes_view(r@) =~= seq![note_view(n)]);
    r
}

fn cat3(a: &str, b: &str, c: &str) -> (r: String)
    ensures
        r@ == a@ + b@ + c@,
{
    let mut x = String::new();
    push_str(&mut x, a);
    push_str(&mut x, b);
    push_str(&mut x, c);
    x
}

/// The notifications the daemon sends for an application event, in order;
/// none for an event it only logs.
pub fn notification_of(e: AppEvent) -> (r: Vec<Notification>)
    ensures
        notes_view(r@) == notifications(e),
{
    let ghost ev = e;
    match e {
        AppEvent::SessionStarted { session_id } => {
            let r = single(Channel::Session(session_id), AgentRef::Root, Method::Log, log_of(s("session started")));
            assert(notes_view(r@) =~~= notifications(ev));
            r
        },
        AppEvent::SessionEnded { session_id, status } => {
            let m = cat3("session ended (", status.as_str(), ")");
            let r = single(Channel::Session(session_id), AgentRef::Root, Method::Log, log_of(m));
            assert(notes_view(r@) =~~= notifications(ev));
            r
        },
        AppEvent::RunStatus { run_id, status_json, agent_id, error } => {
            let agent = match agent_id {
                Some(a) => AgentRef::Named(a),
                None => AgentRef::Root,
            };
            let mut fs: Vec<Field> = Vec::new();
            assert(fields_view(fs@) =~= Seq::<(Seq<char>, ValueView)>::empty());
            put(&mut fs, jf("status", status_json));
            put_opt(&mut fs, "error", error);
            let r = single(Channel::Session(run_id), agent, Method::RunStatus, fs);
            assert(notes_view(r@) =~~= notifications(ev));
            r
        },
        AppEvent::TurnCompleted { session_id, status_json, error_json } => {
            let mut m = s("turn completed: {");
            match &error_json {
                Some(err) => {
                    push_str(&mut m, "\"error\":");
                    push_str(&mut m, err.as_str());
                    push_str(&mut m, ",");
                },
                None => {},
            }
            push_str(&mut m, "\"status\":");
            push_str(&mut m, status_json.as_str());
            push_str(&mut m, "}");
            assert(m@ =~= turn_message(status_json@, error_json));
            let r = single(Channel::Session(session_id), AgentRef::Root, Method::Log, log_of(m));
            assert(notes_view(r@) =~~= notifications(ev));
            r
        },
        AppEvent::Cancellation { session_id } => {
            let r = single(Channel::Session(session_id), AgentRef::Root, Method::Log, log_of(s("run canceled")));
            assert(notes_view(r@) =~~= notifications(ev));
            r
        },
        AppEvent::ApprovalRequest {
            session_id,
            approval_id,
            call_id,
            kind_json,
            detail_json,
            tool,
            missing_controls_json,
            user_approval_required,
        } => {
            let mut a: Vec<Field> = Vec::new();
            assert(fields_view(a@) =~= Seq::<(Seq<char>, ValueView)>::empty());
            put(&mut a, tf("tool_call_id", call_id.clone()));
            put(&mut a, tf("tool", tool));
            put(&mut a, tf("phase", s("proposed")));
            let mut b: Vec<Field> = Vec::new();
            assert(fields_view(b@) =~= Seq::<(Seq<char>, ValueView)>::empty());
            put(&mut b, tf("approval_id", approval_id));
            put(&mut b, jf("kind", kind_json));
            put(&mut b, jf("detail", detail_json));
            put(&mut b, tf("tool_call_id", call_id));
            put(&mut b, jf("missing_controls", missing_controls_json));
            put(&mut b, bf("user_approval_required", user_approval_required));
            let n1 = Notification { channel: Channel::Session(session_id.clone()), agent: AgentRef::Root, method: Method::ToolCall, fields: a };
            let n2 = Notification { channel: Channel::Session(session_id), agent: AgentRef::Root, method: Method::ApprovalRequest, fields: b };
            let r = vec![n1, n2];
            assert(notes_view(r@) =~= seq![note_view(n1), note_view(n2)]);
            assert(notes_view(r@) =~~= notifications(ev));
            r
        },
        AppEvent::ModelToken { session_id, agent_id, token } => {
            let mut fs: Vec<Field> = Vec::new();
            assert(fields_view(fs@) =~= Seq::<(Seq<char>, ValueView)>::empty());
            put(&mut fs, tf("delta", token));
            put(&mut fs, tf("role", s("assistant")));
            let r = single(Channel::Session(session_id), AgentRef::Named(agent_id), Method::Token, fs);
            assert(notes_view(r@) =~~= notifications(ev));
            r
        },
        AppEvent::ContextSnapshot {
            session_id,
            agent_id,
            system_tokens,
            tools_tokens,
            conversation_tokens,
            total_tokens,
            budget,
            dropped_messages,
            estimated,
            data_class,
        } => {
            let mut fs: Vec<Field> = Vec::new();
            assert(fields_view(fs@) =~= Seq::<(Seq<char>, ValueView)>::empty());
            put(&mut fs, nf("system_tokens", system_tokens));
            put(&mut fs, nf("tools_tokens", tools_tokens));
            put(&mut fs, nf("conversation_tokens", conversation_tokens));
            put(&mut fs, nf("total_tokens", total_tokens));
            put(&mut fs, nf("budget", budget));
            put(&mut fs, nf("dropped_messages", dropped_messages));
            put(&mut fs, bf("estimated", estimated));
            put_opt(&mut fs, "data_class", data_class);
            let r = single(Channel::Session(session_id), AgentRef::Named(agent_id), Method::Context, fs);
            assert(notes_view(r@) =~~= notifications(ev));
            r
        },
        AppEvent::DispatchPlacement {
            session_id,
            agent_id,
            target_json,
            decision_json,
            reason_code,
            reason,
            data_class,
            redacted,
        } => {
            let mut fs: Vec<Field> = Vec::new();
            assert(fields_view(fs@) =~= Seq::<(Seq<char>, ValueView)>::empty());
            put(&mut fs, jf("target", target_json));
            put(&mut fs, jf("decision", decision_json));
            put(&mut fs, bf("redacted", redacted));
            put_opt(&mut fs, "reason_code", reason_code);
            put_opt(&mut fs, "reason", reason);
            put_opt(&mut fs, "data_class", data_class);
            let r = single(Channel::Session(session_id), AgentRef::Named(agent_id), Method::DispatchPlacement, fs);
            assert(notes_view(r@) =~~= notifications(ev));
            r
        },
        AppEvent::StageTransition { session_id, agent_id, stage_json, detail_json } => {
            let mut fs: Vec<Field> = Vec::new();
            assert(fields_view(fs@) =~= Seq::<(Seq<char>, ValueView)>::empty());
            put(&mut fs, jf("stage", stage_json));
            put(&mut fs, jf("detail", detail_json));
            let r = single(Channel::Session(session_id), AgentRef::Named(agent_id), Method::Stage, fs);
            assert(notes_view(r@) =~~= notifications(ev));
            r
        },
        AppEvent::ThoughtToken { session_id, agent_id, token } => {
            let mut fs: Vec<Field> = Vec::new();
            assert(fields_view(fs@) =~= Seq::<(Seq<char>, ValueView)>::empty());
            put(&mut fs, tf("delta", token));
            let r = single(Channel::Session(session_id), AgentRef::Named(agent_id), Method::Thought, fs);
            assert(notes_view(r@) =~~= notifications(ev));
            r
        },
        AppEvent::NodeStarted { session_id, node_id, meta_json } => {
            let mut fs: Vec<Field> = Vec::new();
            assert(fields_view(fs@) =~= Seq::<(Seq<char>, ValueView)>::empty());
            put(&mut fs, jf("meta", meta_json));
            let r = single(Channel::Session(session_id), AgentRef::Named(node_id), Method::NodeStarted, fs);
            assert(notes_view(r@) =~~= notifications(ev));
            r
        },
        AppEvent::NodeProgress { node_id, state_json } => {
            let mut fs: Vec<Field> = Vec::new();
            assert(fields_view(fs@) =~= Seq::<(Seq<char>, ValueView)>::empty());
            put(&mut fs, tf("node_id", node_id.clone()));
            put(&mut fs, jf("state", state_json));
            let empty = String::new();
            assert(empty@ =~= Seq::<char>::empty());
            let r = single(Channel::Session(empty), AgentRef::Named(node_id), Method::NodeProgress, fs);
            assert(notes_view(r@) =~~= notifications(ev));
            r
        },
        AppEvent::NodeCompleted { node_id, state_json, duration_ms } => {
            let mut fs: Vec<Field> = Vec::new();
            assert(fields_view(fs@) =~= Seq::<(Seq<char>, ValueView)>::empty());
            put(&mut fs, tf("node_id", node_id.clone()));
            put(&mut fs, jf("state", state_json));
            put(&mut fs, nf("duration_ms", duration_ms));
            let empty = String::new();
            assert(empty@ =~= Seq::<char>::empty());
            let r = single(Channel::Session(empty), AgentRef::Named(node_id), Method::NodeCompleted, fs);
            assert(notes_view(r@) =~~= notifications(ev));
            r
        },
        AppEvent::TurnAnswer { session_id, agent_id, text: t, from_finish } => {
            let mut fs: Vec<Field> = Vec::new();
            assert(fields_view(fs@) =~= Seq::<(Seq<char>, ValueView)>::empty());
            put(&mut fs, tf("text", t));
            put(&mut fs, bf("from_finish", from_finish));
            let r = single(Channel::Session(session_id), AgentRef::Named(agent_id), Method::Answer, fs);
            assert(notes_view(r@) =~~= notifications(ev));
            r
        },
        AppEvent::ToolCall { session_id, agent_id, call_id, tool, args_json: _ } => {
            let mut fs: Vec<Field> = Vec::new();
            assert(fields_view(fs@) =~= Seq::<(Seq<char>, ValueView)>::empty());
            put(&mut fs, tf("tool_call_id", call_id));
            put(&mut fs, tf("tool", tool));
            put(&mut fs, tf("phase", s("started")));
            let r = single(Channel::Session(session_id), AgentRef::Named(agent_id), Method::ToolCall, fs);
            assert(notes_view(r@) =~~= notifications(ev));
            r
        },
        AppEvent::ToolResult { session_id, agent_id, call_id, ok, summary, error_kind_json } => {
            let mut fs: Vec<Field> = Vec::new();
            assert(fields_view(fs@) =~= Seq::<(Seq<char>, ValueView)>::empty());
            put(&mut fs, tf("tool_call_id", call_id));
            put(&mut fs, bf("ok", ok));
            put(&mut fs, tf("summary", summary));
            put(&mut fs, jf("error_kind", error_kind_json));
            let r = single(Channel::Session(session_id), AgentRef::Named(agent_id), Method::ToolResult, fs);
            assert(notes_view(r@) =~~= notifications(ev));
            r
        },
        AppEvent::CapacityProgress { job_id, percent_json, message_json } => {
            let mut fs: Vec<Field> = Vec::new();
            assert(fields_view(fs@) =~= Seq::<(Seq<char>, ValueView)>::empty());
            put(&mut fs, tf("job_id", job_id));
            put(&mut fs, tf("phase", s("queued")));
            put(&mut fs, jf("percent", percent_json));
            put(&mut fs, jf("message", message_json));
            let r = single(Channel::Capacity, AgentRef::Capacity, Method::CapacityProgress, fs);
            assert(notes_view(r@) =~~= notifications(ev));
            r
        },
        AppEvent::LogDiagnostic { session_id: Some(sid), agent_id: Some(aid), message } => {
            let r = single(Channel::Session(sid), AgentRef::Named(aid), Method::Log, log_of(message));
            assert(notes_view(r@) =~~= notifications(ev));
            r
        },
        _ => {
            let r: Vec<Notification> = Vec::new();
            assert(notes_view(r@) =~= Seq::<NoteView>::empty());
            assert(notes_view(r@) =~~= notifications(ev));
            r
        },
    }
}

/// A tool call's notification never carries its arguments: each of its
/// fields is the call id, the tool or the phase.
pub proof fn lemma_tool_call_hides_arguments(
    session_id: String,
    agent_id: String,
    call_id: String,
    tool: String,
    args_json: String,
)
    ensures
        ({
            let ns = notifications(AppEvent::ToolCall { session_id, agent_id, call_id, tool, args_json });
            &&& ns.len() == 1
            &&& forall|i: int| 0 <= i < ns[0].fields.len() ==> #[trigger] ns[0].fields[i].1 == ValueView::Text(call_id@)
                || ns[0].fields[i].1 == ValueView::Text(tool@) || ns[0].fields[i].1 == ValueView::Text("started"@)
        }),
{
}

} // verus!
