//! The `turn/continue` request, its response, and the errors that refuse it.
use vstd::prelude::*;

use crate::text::opt_text;

verus! {

/// The request itself is at fault, or comes at the wrong time.
pub const INVALID_REQUEST_CODE: i64 = -32600;

/// The server failed while it worked on the request.
pub const INTERNAL_ERROR_CODE: i64 = -32603;

/// The error object of a JSON-RPC reply. `data` holds its JSON text.
#[derive(Debug, PartialEq, Eq)]
pub struct JSONRPCErrorError {
    pub code: i64,
    pub message: String,
    pub data: Option<String>,
}

/// An error as its code and its texts.
pub struct ErrorView {
    pub code: i64,
    pub message: Seq<char>,
    pub data: Option<Seq<char>>,
}

impl View for JSONRPCErrorError {
    type V = ErrorView;

    open spec fn view(&self) -> ErrorView {
        ErrorView { code: self.code, message: self.message@, data: opt_text(self.data) }
    }
}

/// The error that blames the request, with this message and no data.
pub open spec fn invalid_request_error(message: Seq<char>) -> ErrorView {
    ErrorView { code: INVALID_REQUEST_CODE, message, data: None }
}

/// The error that blames the server, with this message and no data.
pub open spec fn internal_server_error(message: Seq<char>) -> ErrorView {
    ErrorView { code: INTERNAL_ERROR_CODE, message, data: None }
}

/// What a client sends to continue the last turn of a thread. There is no
/// input in it.
#[derive(Debug, PartialEq, Eq)]
pub struct TurnContinueParams {
    pub thread_id: String,
}

/// The turn that runs again.
#[derive(Debug, PartialEq, Eq)]
pub struct TurnContinueResponse {
    pub turn_id: String,
}

/// An error that blames the request.
pub fn invalid_request(message: String) -> (error: JSONRPCErrorError)
    ensures
        error@ == invalid_request_error(message@),
        error.code == -32600,
        error.message == message,
        error.data is None,
{
    JSONRPCErrorError { code: INVALID_REQUEST_CODE, message, data: None }
}

/// An error that blames the server.
pub fn internal_error(message: String) -> (error: JSONRPCErrorError)
    ensures
        error@ == internal_server_error(message@),
        error.code == -32603,
        error.message == message,
        error.data is None,
{
    JSONRPCErrorError { code: INTERNAL_ERROR_CODE, message, data: None }
}

/// The two kinds of errors differ in their code alone, and say just what they
/// are given to say.
pub proof fn law_errors_carry_their_message(message: Seq<char>)
    ensures
        invalid_request_error(message).code == -32600,
        internal_server_error(message).code == -32603,
        invalid_request_error(message).message == message,
        internal_server_error(message).message == message,
        invalid_request_error(message).data is None,
        internal_server_error(message).data is None,
{
}

/// All of an error is seen.
pub proof fn law_error_is_seen_whole(error: JSONRPCErrorError)
    ensures
        error@.code == error.code,
        error@.message == error.message@,
        error.data is Some <==> error@.data is Some,
        error.data is Some ==> error@.data->0 == error.data->0@,
{
}

} // verus!
