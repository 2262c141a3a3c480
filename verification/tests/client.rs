use turn_recovery::client::{
    continue_turn_error, continue_turn_request, dispatch_continue, error_line, ClientRequest,
    ContinueCommand, RequestId,
};
use turn_recovery::rpc::{TurnContinueParams, TurnContinueResponse};

fn shown(command: ContinueCommand) -> String {
    match command {
        ContinueCommand::ShowError { message } => error_line(&message),
        ContinueCommand::ContinueTurn { .. } => panic!("no error"),
    }
}

#[test]
fn continue_dispatches_control_event_without_user_input() {
    let thread_id = "thread".to_string();
    assert_eq!(
        dispatch_continue(Some(thread_id.clone()), false),
        ContinueCommand::ContinueTurn { thread_id }
    );
}

#[test]
fn continue_without_session_displays_local_error() {
    assert_eq!(
        shown(dispatch_continue(None, false)),
        "■ There is no unfinished turn to continue."
    );
}

#[test]
fn continue_while_running_displays_local_error() {
    assert_eq!(
        shown(dispatch_continue(Some("thread".to_string()), true)),
        "■ '/continue' is disabled while a task is in progress."
    );
    assert_eq!(
        shown(dispatch_continue(None, true)),
        "■ '/continue' is disabled while a task is in progress."
    );
}

#[test]
fn request_names_the_thread() {
    assert_eq!(
        continue_turn_request(RequestId::Integer(7), "thread".to_string()),
        ClientRequest::TurnContinue {
            request_id: RequestId::Integer(7),
            params: TurnContinueParams { thread_id: "thread".to_string() },
        }
    );
}

#[test]
fn only_a_failed_reply_is_shown() {
    let reply = Ok(TurnContinueResponse { turn_id: "a".to_string() });
    assert_eq!(continue_turn_error(&reply), None);
    let reply = Err("connection lost".to_string());
    assert_eq!(
        continue_turn_error(&reply),
        Some("Failed to continue turn: connection lost".to_string())
    );
}
