//! Requests that clients send over the control socket, and what the compositor does with
//! each.
use vstd::prelude::*;

use crate::text::{concat_str, copy_str};

verus! {

/// A request sent over the control socket.
#[derive(Debug, Clone, PartialEq)]
pub enum IpcRequest {
    GetRuntimeSnapshot,
    Quit,
    Lock,
    Unlock,
    /// Capture the next frame to the file at `path`.
    Screenshot { path: String },
}

/// What the compositor does with a request.
#[derive(Debug, Clone, PartialEq)]
pub enum IpcStep {
    /// Answer with a snapshot of the runtime state.
    SendSnapshot,
    /// Stop the compositor and answer `message`.
    Quit { message: String },
    /// Lock or unlock the session and answer `message`.
    SetLocked { locked: bool, message: String },
    /// Check the screenshot path (see `crate::paths::check_screenshot_target`), then
    /// queue the capture.
    CheckScreenshot { path: String },
    /// Answer with an error.
    Refuse { message: String },
}

/// Decides what to do with `request`; screenshots are taken only on the nested backend
/// (`tty_backend` false).
pub fn decide_ipc_request(request: IpcRequest, tty_backend: bool) -> (r: IpcStep)
    ensures
        match request {
            IpcRequest::GetRuntimeSnapshot => r is SendSnapshot,
            IpcRequest::Quit => r matches IpcStep::Quit { message } && message@ == "quitting compositor"@,
            IpcRequest::Lock => r matches IpcStep::SetLocked { locked, message } && locked && message@ == "session locked"@,
            IpcRequest::Unlock => r matches IpcStep::SetLocked { locked, message } && !locked && message@ == "session unlocked"@,
            IpcRequest::Screenshot { path } => if tty_backend {
                r matches IpcStep::Refuse { message } && message@ == "screenshot capture is currently supported on the nested backend only"@
            } else {
                r == IpcStep::CheckScreenshot { path }
            },
        },
{
    match request {
        IpcRequest::GetRuntimeSnapshot => IpcStep::SendSnapshot,
        IpcRequest::Quit => IpcStep::Quit { message: copy_str("quitting compositor") },
        IpcRequest::Lock => IpcStep::SetLocked { locked: true, message: copy_str("session locked") },
        IpcRequest::Unlock => IpcStep::SetLocked { locked: false, message: copy_str("session unlocked") },
        IpcRequest::Screenshot { path } => {
            if tty_backend {
                IpcStep::Refuse { message: copy_str("screenshot capture is currently supported on the nested backend only") }
            } else {
                IpcStep::CheckScreenshot { path }
            }
        },
    }
}

/// The largest request, in bytes, that the control socket accepts.
pub const MAX_IPC_REQUEST_BYTES: usize = 1048576;

/// The refusal of a request of `len` bytes, if it is larger than the control socket
/// accepts.
pub fn oversized_request_message(len: usize) -> (r: Option<String>)
    ensures
        len <= MAX_IPC_REQUEST_BYTES ==> r is None,
        len > MAX_IPC_REQUEST_BYTES ==> (r matches Some(m) && m@ == "ipc request exceeds 1048576 bytes"@),
{
    if len > MAX_IPC_REQUEST_BYTES {
        Some(copy_str("ipc request exceeds 1048576 bytes"))
    } else {
        None
    }
}

/// The answer to a request that could not be parsed, with the parser's explanation.
pub fn invalid_request_message(error: &str) -> (r: String)
    ensures
        r@ == "invalid ipc request: "@ + error@,
{
    concat_str("invalid ipc request: ", error)
}

/// The answer to a screenshot request queued for the file shown as `path`.
pub fn screenshot_queued_message(path: &str) -> (r: String)
    ensures
        r@ == "queued screenshot capture to "@ + path@,
{
    concat_str("queued screenshot capture to ", path)
}

} // verus!
