//! The `/continue` command of a client. It asks the server to take a turn up
//! again, and submits no input.
use vstd::prelude::*;

use crate::rpc::{TurnContinueParams, TurnContinueResponse};
use crate::text::opt_text;

verus! {

/// The id that pairs a request with its response.
#[derive(Debug, PartialEq, Eq)]
pub enum RequestId {
    Text(String),
    Integer(i64),
}

/// A request to the server.
#[derive(Debug, PartialEq, Eq)]
pub enum ClientRequest {
    TurnContinue { request_id: RequestId, params: TurnContinueParams },
}

/// What the command leads to.
#[derive(Debug, PartialEq, Eq)]
pub enum ContinueCommand {
    /// Ask the server to continue the last turn of the thread.
    ContinueTurn { thread_id: String },
    /// Show an error, and ask nothing.
    ShowError { message: String },
}

/// What the command leads to, as texts.
pub enum ContinueCommandView {
    ContinueTurn { thread_id: Seq<char> },
    ShowError { message: Seq<char> },
}

impl View for ContinueCommand {
    type V = ContinueCommandView;

    open spec fn view(&self) -> ContinueCommandView {
        match *self {
            ContinueCommand::ContinueTurn { thread_id } => ContinueCommandView::ContinueTurn {
                thread_id: thread_id@,
            },
            ContinueCommand::ShowError { message } => ContinueCommandView::ShowError {
                message: message@,
            },
        }
    }
}

/// The command is off while a task runs, and needs a session.
pub open spec fn continue_command(
    thread_id: Option<Seq<char>>,
    task_running: bool,
) -> ContinueCommandView {
    if task_running {
        ContinueCommandView::ShowError {
            message: "'/continue' is disabled while a task is in progress."@,
        }
    } else {
        match thread_id {
            Some(thread_id) => ContinueCommandView::ContinueTurn { thread_id },
            None => ContinueCommandView::ShowError {
                message: "There is no unfinished turn to continue."@,
            },
        }
    }
}

/// Carries the command out, in the session with the thread `thread_id`.
pub fn dispatch_continue(thread_id: Option<String>, task_running: bool) -> (command:
    ContinueCommand)
    ensures
        command@ == continue_command(opt_text(thread_id), task_running),
        task_running ==> command is ShowError && command->message@
            == "'/continue' is disabled while a task is in progress."@,
        !task_running && thread_id is None ==> command is ShowError && command->message@
            == "There is no unfinished turn to continue."@,
        !task_running && thread_id is Some ==> command is ContinueTurn && command->thread_id
            == thread_id->0,
{
    if task_running {
        return ContinueCommand::ShowError {
            message: "'/continue' is disabled while a task is in progress.".to_string(),
        };
    }
    match thread_id {
        Some(thread_id) => ContinueCommand::ContinueTurn { thread_id },
        None => ContinueCommand::ShowError {
            message: "There is no unfinished turn to continue.".to_string(),
        },
    }
}

/// The request that continues the last turn of a thread.
pub fn continue_turn_request(request_id: RequestId, thread_id: String) -> (request: ClientRequest)
    ensures
        request == (ClientRequest::TurnContinue {
            request_id,
            params: TurnContinueParams { thread_id },
        }),
{
    ClientRequest::TurnContinue { request_id, params: TurnContinueParams { thread_id } }
}

/// What is shown of the server's reply: a failure, and nothing else. The error
/// of a reply is its text as it is shown to people.
pub fn continue_turn_error(reply: &Result<TurnContinueResponse, String>) -> (message: Option<
    String,
>)
    ensures
        opt_text(message) == match *reply {
            Ok(_) => None,
            Err(text) => Some("Failed to continue turn: "@ + text@),
        },
        message is Some <==> *reply is Err,
        message is Some ==> message->0@ == "Failed to continue turn: "@ + (*reply)->Err_0@,
{
    match reply {
        Ok(_) => None,
        Err(text) => {
            let mut message = "Failed to continue turn: ".to_string();
            message.append(text.as_str());
            Some(message)
        },
    }
}

/// An error as a line of the history that a client shows.
pub fn error_line(message: &str) -> (line: String)
    ensures
        line@ == "■ "@ + message@,
{
    let mut line = "■ ".to_string();
    line.append(message);
    line
}

/// The command asks the server exactly in a session in which no task runs, and
/// it asks for the thread of that session.
pub proof fn law_command_asks_only_an_idle_session(
    thread_id: Option<Seq<char>>,
    task_running: bool,
)
    ensures
        continue_command(thread_id, task_running) is ContinueTurn <==> (thread_id is Some
            && !task_running),
        continue_command(thread_id, task_running) is ContinueTurn ==> continue_command(
            thread_id,
            task_running,
        )->thread_id == thread_id->0,
{
}

/// A task that runs is told before all else, whether or not there is a session;
/// a client without a session is told that there is nothing to continue.
pub proof fn law_command_tells_why_it_does_not_ask(
    thread_id: Option<Seq<char>>,
    task_running: bool,
)
    ensures
        task_running ==> {
            &&& continue_command(thread_id, task_running) is ShowError
            &&& continue_command(thread_id, task_running)->message
                == "'/continue' is disabled while a task is in progress."@
        },
        !task_running && thread_id is None ==> {
            &&& continue_command(thread_id, task_running) is ShowError
            &&& continue_command(thread_id, task_running)->message
                == "There is no unfinished turn to continue."@
        },
{
}

/// All of what the command leads to is seen.
pub proof fn law_command_is_seen_whole(command: ContinueCommand)
    ensures
        match command {
            ContinueCommand::ContinueTurn { thread_id } => command@ is ContinueTurn
                && command@->thread_id == thread_id@,
            ContinueCommand::ShowError { message } => command@ is ShowError && command@->message
                == message@,
        },
{
}

} // verus!
