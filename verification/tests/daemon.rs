use lokai_engine::daemon::map::{map_app_error, AppError, ErrorCode};

#[test]
fn app_errors_map_to_rpc_codes() {
    let e = map_app_error(AppError::SessionNotFound("unknown session s1".into()));
    assert_eq!(e.code, ErrorCode::UnknownSession);
    assert_eq!(e.message, "unknown session s1");
    let e = map_app_error(AppError::ExecutionCapacityExceeded);
    assert_eq!(e.code, ErrorCode::InvalidRequest);
    assert_eq!(
        e.message,
        "registered agent already has admitted work; retry after it has quiesced"
    );
    let e = map_app_error(AppError::InferenceUnavailable);
    assert_eq!((e.code, e.message.as_str()), (ErrorCode::InternalError, "inference unavailable"));
    let e = map_app_error(AppError::PersistenceFailed("db locked".into()));
    assert_eq!((e.code, e.message.as_str()), (ErrorCode::InternalError, "db locked"));
    let e = map_app_error(AppError::PolicyDenied("no".into()));
    assert_eq!(e.code, ErrorCode::InvalidRequest);
    assert_eq!(map_app_error(AppError::Canceled).message, "canceled");
    assert_eq!(map_app_error(AppError::SessionConflict).message, "session conflict");
    assert_eq!(map_app_error(AppError::WorkspaceUnavailable).message, "workspace unavailable");
    assert_eq!(map_app_error(AppError::ToolExecutionFailed("x".into())).code, ErrorCode::InternalError);
}

use lokai_engine::daemon::events::{
    notification_of, AgentRef, AppEvent, Channel, FieldValue, Method, Notification,
};

fn shown(ns: &[Notification]) -> String {
    let mut out = String::new();
    for n in ns {
        for f in &n.fields {
            out.push_str(f.key);
            out.push('=');
            match &f.value {
                FieldValue::Text(t) | FieldValue::Json(t) => out.push_str(t),
                FieldValue::Flag(b) => out.push_str(&b.to_string()),
                FieldValue::Number(x) => out.push_str(&x.to_string()),
            }
            out.push(';');
        }
    }
    out
}

#[test]
fn tool_call_notification_does_not_repeat_argument_bodies() {
    let ns = notification_of(AppEvent::ToolCall {
        session_id: "sess".into(),
        agent_id: "a0".into(),
        call_id: "call-1".into(),
        tool: "write_file".into(),
        args_json: r#"{"path":"notes.txt","content":"PRIVATECANARY file body"}"#.into(),
    });
    let shown = shown(&ns);
    assert!(shown.contains("write_file"), "{shown}");
    assert!(shown.contains("call-1"), "{shown}");
    assert!(!shown.contains("PRIVATECANARY"), "{shown}");
    assert!(!shown.contains("notes.txt"), "{shown}");
}

#[test]
fn events_map_to_channel_agent_and_method() {
    let ns = notification_of(AppEvent::SessionEnded { session_id: "s".into(), status: "ok".into() });
    assert_eq!(ns.len(), 1);
    assert!(matches!(ns[0].channel, Channel::Session(ref s) if s == "s"));
    assert!(matches!(ns[0].agent, AgentRef::Root));
    assert_eq!(ns[0].method, Method::Log);
    assert_eq!(shown(&ns), "level=info;message=session ended (ok);");
    let ns = notification_of(AppEvent::TurnCompleted {
        session_id: "s".into(),
        status_json: "\"failed\"".into(),
        error_json: Some("\"boom\"".into()),
    });
    assert_eq!(shown(&ns), "level=info;message=turn completed: {\"error\":\"boom\",\"status\":\"failed\"};");
    let ns = notification_of(AppEvent::ApprovalRequest {
        session_id: "s".into(),
        approval_id: "ap".into(),
        call_id: "c".into(),
        kind_json: "\"shell\"".into(),
        detail_json: "\"rm\"".into(),
        tool: "run_shell".into(),
        missing_controls_json: "[]".into(),
        user_approval_required: true,
    });
    assert_eq!(ns.len(), 2);
    assert_eq!((ns[0].method, ns[1].method), (Method::ToolCall, Method::ApprovalRequest));
    assert!(shown(&ns[..1]).contains("phase=proposed"));
    let ns = notification_of(AppEvent::CapacityProgress {
        job_id: "j".into(),
        percent_json: "40".into(),
        message_json: "\"warming\"".into(),
    });
    assert!(matches!((&ns[0].channel, &ns[0].agent), (Channel::Capacity, AgentRef::Capacity)));
    let ns = notification_of(AppEvent::RunStatus {
        run_id: "r".into(),
        status_json: "\"done\"".into(),
        agent_id: None,
        error: None,
    });
    assert_eq!(shown(&ns), "status=\"done\";");
    assert!(notification_of(AppEvent::PolicyUpdated).is_empty());
    assert!(notification_of(AppEvent::LogDiagnostic { session_id: Some("s".into()), agent_id: None, message: "m".into() }).is_empty());
    let ns = notification_of(AppEvent::NodeProgress { node_id: "n".into(), state_json: "\"run\"".into() });
    assert!(matches!(ns[0].channel, Channel::Session(ref s) if s.is_empty()));
}
