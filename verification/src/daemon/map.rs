//! How the daemon answers a failed application command over JSON-RPC.
use vstd::prelude::*;

verus! {

/// Why an application command failed.
#[derive(Debug, Clone)]
pub enum AppError {
    ExecutionCapacityExceeded,
    InvalidRequest(String),
    SessionNotFound(String),
    SessionConflict,
    PersistenceFailed(String),
    InternalViolation(String),
    PolicyDenied(String),
    ApprovalRequired(String),
    Canceled,
    WorkspaceUnavailable,
    InferenceUnavailable,
    ToolExecutionFailed(String),
}

/// The JSON-RPC error codes the daemon answers with.
#[derive(Debug, Clone, Copy, PartialEq, Eq, Structural)]
pub enum ErrorCode {
    InvalidRequest,
    InvalidParams,
    UnknownSession,
    InternalError,
}

/// A JSON-RPC error: its code and message.
#[derive(Debug, Clone)]
pub struct RpcError {
    pub code: ErrorCode,
    pub message: String,
}

/// The code and message a command failure is answered with: the caller's
/// mistakes and refusals as invalid requests, a missing session as such, the
/// daemon's own failures as internal errors; a failure that carries a message
/// passes it on.
pub open spec fn rpc_answer(err: AppError) -> (ErrorCode, Seq<char>) {
    match err {
        AppError::ExecutionCapacityExceeded => (
            ErrorCode::InvalidRequest,
            "registered agent already has admitted work; retry after it has quiesced"@,
        ),
        AppError::InvalidRequest(m) => (ErrorCode::InvalidRequest, m@),
        AppError::SessionNotFound(m) => (ErrorCode::UnknownSession, m@),
        AppError::SessionConflict => (ErrorCode::InvalidRequest, "session conflict"@),
        AppError::PersistenceFailed(m) => (ErrorCode::InternalError, m@),
        AppError::InternalViolation(m) => (ErrorCode::InternalError, m@),
        AppError::PolicyDenied(m) => (ErrorCode::InvalidRequest, m@),
        AppError::ApprovalRequired(m) => (ErrorCode::InvalidRequest, m@),
        AppError::Canceled => (ErrorCode::InvalidRequest, "canceled"@),
        AppError::WorkspaceUnavailable => (ErrorCode::InvalidRequest, "workspace unavailable"@),
        AppError::InferenceUnavailable => (ErrorCode::InternalError, "inference unavailable"@),
        AppError::ToolExecutionFailed(m) => (ErrorCode::InternalError, m@),
    }
}

fn rpc_error(code: ErrorCode, message: &str) -> (r: RpcError)
    ensures
        r.code == code,
        r.message@ == message@,
{
    RpcError { code, message: String::from_str(message) }
}

/// Translate an application failure into the JSON-RPC error the client sees.
pub fn map_app_error(err: AppError) -> (r: RpcError)
    ensures
        (r.code, r.message@) == rpc_answer(err),
{
    match err {
        AppError::ExecutionCapacityExceeded => rpc_error(
            ErrorCode::InvalidRequest,
            "registered agent already has admitted work; retry after it has quiesced",
        ),
        AppError::InvalidRequest(m) => RpcError { code: ErrorCode::InvalidRequest, message: m },
        AppError::SessionNotFound(m) => RpcError { code: ErrorCode::UnknownSession, message: m },
        AppError::SessionConflict => rpc_error(ErrorCode::InvalidRequest, "session conflict"),
        AppError::PersistenceFailed(m) => RpcError { code: ErrorCode::InternalError, message: m },
        AppError::InternalViolation(m) => RpcError { code: ErrorCode::InternalError, message: m },
        AppError::PolicyDenied(m) => RpcError { code: ErrorCode::InvalidRequest, message: m },
        AppError::ApprovalRequired(m) => RpcError { code: ErrorCode::InvalidRequest, message: m },
        AppError::Canceled => rpc_error(ErrorCode::InvalidRequest, "canceled"),
        AppError::WorkspaceUnavailable => rpc_error(ErrorCode::InvalidRequest, "workspace unavailable"),
        AppError::InferenceUnavailable => rpc_error(ErrorCode::InternalError, "inference unavailable"),
        AppError::ToolExecutionFailed(m) => RpcError { code: ErrorCode::InternalError, message: m },
    }
}

} // verus!
