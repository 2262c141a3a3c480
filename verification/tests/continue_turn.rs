use turn_recovery::continue_turn::{
    Action, AgentStatus, Event, RecoverTurnRequest, StartIfIdleSubmission, ThreadSettingsOverrides,
    ThreadStoreError, TurnContinue,
};
use turn_recovery::history::{
    EventMsg, TurnAbortedEvent, TurnCompletedEvent, TurnStartedEvent,
};
use turn_recovery::paginated_turn_items::{ItemsPage, StoreListItemsParams};
use turn_recovery::recovery_plan::{LoadedHistory, RolloutItem, ThreadHistoryMode};
use turn_recovery::rpc::{JSONRPCErrorError, TurnContinueParams, TurnContinueResponse};
use turn_recovery::thread_state::ThreadState;
use turn_recovery::turn::{CodexErrorInfo, ThreadItem, Turn, TurnError, TurnStatus};

const PAGE_SIZE: usize = 1;

/// A server with one thread, which answers actions the way a scenario sets it up.
struct Server {
    status: AgentStatus,
    has_conversation: bool,
    knows_model_contexts: bool,
    mode: ThreadHistoryMode,
    context_turns: Vec<Turn>,
    stored_items: Vec<ThreadItem>,
    state: ThreadState,
    found: Result<String, JSONRPCErrorError>,
    allowed: Option<JSONRPCErrorError>,
    flush_error: Option<String>,
    context_error: Option<ThreadStoreError>,
    history_error: Option<String>,
    page_error: Option<JSONRPCErrorError>,
    submission: Option<Result<StartIfIdleSubmission, String>>,
    contexts: Vec<(Option<String>, Option<String>)>,
    log: Vec<String>,
    recovered: Vec<RecoverTurnRequest>,
    listed: Vec<StoreListItemsParams>,
    recorded: Vec<String>,
}

impl Server {
    fn new(mode: ThreadHistoryMode) -> Server {
        Server {
            status: AgentStatus::NotRunning,
            has_conversation: true,
            knows_model_contexts: true,
            mode,
            context_turns: Vec::new(),
            stored_items: Vec::new(),
            state: ThreadState::new(),
            found: Ok("thread".to_string()),
            allowed: None,
            flush_error: None,
            context_error: None,
            history_error: None,
            page_error: None,
            submission: None,
            contexts: Vec::new(),
            log: Vec::new(),
            recovered: Vec::new(),
            listed: Vec::new(),
            recorded: Vec::new(),
        }
    }

    fn with_turn(turn: Turn) -> Server {
        let mut server = Server::new(ThreadHistoryMode::Legacy);
        server.context_turns.push(turn);
        server
    }

    fn history(&self) -> LoadedHistory {
        let mut items = vec![RolloutItem::SessionMeta { history_mode: self.mode }];
        for (turn_id, cyber_access_program) in &self.contexts {
            items.push(RolloutItem::TurnContext {
                turn_id: turn_id.clone(),
                cyber_access_program: cyber_access_program.clone(),
            });
        }
        items.push(RolloutItem::Other);
        LoadedHistory { items, turns: self.context_turns.clone() }
    }

    fn page(&self, params: &StoreListItemsParams) -> ItemsPage {
        let start = match &params.cursor {
            Some(cursor) => cursor.parse::<usize>().expect("cursor"),
            None => 0,
        };
        let end = (start + params.page_size).min(self.stored_items.len());
        ItemsPage {
            items: self.stored_items[start..end].iter().cloned().map(Ok).collect(),
            next_cursor: if end < self.stored_items.len() { Some(end.to_string()) } else { None },
        }
    }

    fn answer(&mut self, action: Action) -> Event {
        match action {
            Action::LoadThread { thread_id } => {
                assert_eq!(thread_id, "thread");
                self.log.push("load_thread".to_string());
                match &self.found {
                    Ok(id) => Event::ThreadLoaded(Ok(id.clone())),
                    Err(error) => Event::ThreadLoaded(Err(copy(error))),
                }
            }
            Action::EnsureDirectInputAllowed => {
                self.log.push("ensure_direct_input_allowed".to_string());
                match &self.allowed {
                    None => Event::DirectInputChecked(Ok(())),
                    Some(error) => Event::DirectInputChecked(Err(copy(error))),
                }
            }
            Action::ReadAgentStatus => {
                self.log.push("agent_status".to_string());
                Event::AgentStatusRead(self.status)
            }
            Action::ReadConversation => {
                self.log.push("conversation".to_string());
                Event::ConversationRead { has_items: self.has_conversation }
            }
            Action::FlushRollout => {
                self.log.push("flush_rollout".to_string());
                match self.flush_error.take() {
                    None => Event::RolloutFlushed(Ok(())),
                    Some(text) => Event::RolloutFlushed(Err(text)),
                }
            }
            Action::LoadLatestModelContext { thread_id, include_archived } => {
                assert_eq!(thread_id, "thread");
                assert!(!include_archived);
                self.log.push("load_latest_model_context".to_string());
                if let Some(error) = self.context_error.take() {
                    return Event::ModelContextLoaded(Err(error));
                }
                if !self.knows_model_contexts {
                    return Event::ModelContextLoaded(Err(ThreadStoreError::Unsupported {
                        operation: "load_latest_model_context".to_string(),
                        text: "unsupported".to_string(),
                    }));
                }
                Event::ModelContextLoaded(Ok(self.history()))
            }
            Action::LoadHistory { include_archived } => {
                assert!(!include_archived);
                self.log.push("load_history".to_string());
                match self.history_error.take() {
                    None => Event::HistoryLoaded(Ok(self.history())),
                    Some(text) => Event::HistoryLoaded(Err(text)),
                }
            }
            Action::OpenThreadState { thread_id } => {
                assert_eq!(thread_id, "thread");
                self.log.push("thread_state".to_string());
                Event::ThreadStateOpened
            }
            Action::ListItems(params) => {
                self.log.push("list_items".to_string());
                let answer = match self.page_error.take() {
                    None => Ok(self.page(&params)),
                    Some(error) => Err(error),
                };
                self.listed.push(params);
                Event::ItemsListed(answer)
            }
            Action::SetPendingRecoveryHistory(history) => {
                self.log.push(if history.is_some() { "install" } else { "drop" }.to_string());
                self.state.set_pending_recovery_history(history);
                Event::PendingRecoveryHistorySet
            }
            Action::ReadTraceContext => {
                self.log.push("trace".to_string());
                Event::TraceContextRead(Some("trace-parent".to_string()))
            }
            Action::RecoverTurnIfIdle(request) => {
                self.log.push("recover".to_string());
                let turn_id = request.turn_id.clone();
                self.recovered.push(request);
                match self.submission.take() {
                    Some(submission) => Event::TurnRecovered(submission),
                    None => {
                        self.status = AgentStatus::Running;
                        Event::TurnRecovered(Ok(StartIfIdleSubmission::Started { turn_id }))
                    }
                }
            }
            Action::RecordRequestTurnId { turn_id } => {
                self.log.push("record".to_string());
                self.recorded.push(turn_id);
                Event::RequestTurnIdRecorded
            }
            Action::Respond(_) => unreachable!(),
        }
    }

    fn turn_continue(&mut self) -> Result<TurnContinueResponse, JSONRPCErrorError> {
        let params = TurnContinueParams { thread_id: "thread".to_string() };
        let (mut request, mut action) = TurnContinue::start(params, PAGE_SIZE);
        loop {
            if let Action::Respond(answer) = action {
                return answer;
            }
            let event = self.answer(action);
            assert!(request.expects(&event));
            (request, action) = request.on_event(event);
        }
    }

    fn assert_continue_rejected(&mut self) -> String {
        let error = self.turn_continue().expect_err("rejected");
        assert_eq!(error.code, -32600);
        assert_eq!(error.data, None);
        error.message
    }
}

fn copy(error: &JSONRPCErrorError) -> JSONRPCErrorError {
    JSONRPCErrorError {
        code: error.code,
        message: error.message.clone(),
        data: error.data.clone(),
    }
}

fn agent_message(id: &str, text: &str) -> ThreadItem {
    ThreadItem::AgentMessage {
        id: id.to_string(),
        text: text.to_string(),
        phase: None,
        memory_citation: None,
        delivery: None,
        questions: None,
    }
}

fn user_message(id: &str, text: &str) -> ThreadItem {
    ThreadItem::Other { id: id.to_string(), body: text.to_string() }
}

fn turn(id: &str, status: TurnStatus) -> Turn {
    Turn {
        id: id.to_string(),
        items: vec![
            user_message("item-1", "finish the original task"),
            agent_message("item-2", "Already inspected the source."),
        ],
        status,
        error: None,
        started_at: Some(10),
        completed_at: Some(12),
        duration_ms: Some(2000),
    }
}

fn reopened(turn: &Turn, started_at: i64) -> Turn {
    let mut turn = turn.clone();
    turn.status = TurnStatus::InProgress;
    turn.error = None;
    turn.started_at = Some(started_at);
    turn.completed_at = None;
    turn.duration_ms = None;
    turn
}

#[derive(Clone, Copy, PartialEq)]
enum RecoveryLocation {
    Live,
    Reopened,
    CompactedReopened,
}

#[derive(Clone, Copy)]
enum Interruption {
    User,
    Disconnected,
}

#[test]
fn continue_interrupted_turn_without_user_input() {
    for (location, interruption, mode) in [
        (RecoveryLocation::Live, Interruption::User, ThreadHistoryMode::Paginated),
        (RecoveryLocation::Reopened, Interruption::User, ThreadHistoryMode::Paginated),
        (RecoveryLocation::CompactedReopened, Interruption::User, ThreadHistoryMode::Paginated),
        (RecoveryLocation::Live, Interruption::Disconnected, ThreadHistoryMode::Paginated),
        (RecoveryLocation::Reopened, Interruption::Disconnected, ThreadHistoryMode::Paginated),
        (RecoveryLocation::Live, Interruption::User, ThreadHistoryMode::Legacy),
        (RecoveryLocation::Reopened, Interruption::User, ThreadHistoryMode::Legacy),
        (RecoveryLocation::Live, Interruption::Disconnected, ThreadHistoryMode::Legacy),
        (RecoveryLocation::Reopened, Interruption::Disconnected, ThreadHistoryMode::Legacy),
    ] {
        // A new thread has nothing to continue.
        let mut server = Server::new(mode);
        server.has_conversation = false;
        assert_eq!(
            server.assert_continue_rejected(),
            "There is no unfinished turn to continue."
        );

        // The first attempt runs.
        let started = EventMsg::TurnStarted(TurnStartedEvent {
            turn_id: "started-turn".to_string(),
            started_at: Some(10),
        });
        server.has_conversation = true;
        server.status = AgentStatus::Running;
        server.state.track_current_turn_event(&started);
        assert_eq!(
            server.assert_continue_rejected(),
            "Cannot continue a running turn."
        );

        // It ends before it is through.
        let mut original = match interruption {
            Interruption::User => turn("started-turn", TurnStatus::Interrupted),
            Interruption::Disconnected => turn("started-turn", TurnStatus::Failed),
        };
        if let Interruption::Disconnected = interruption {
            original.error = Some(TurnError {
                message: "stream disconnected".to_string(),
                codex_error_info: Some(CodexErrorInfo::Other("stream".to_string())),
            });
        }
        server.status = AgentStatus::NotRunning;
        server.stored_items = original.items.clone();
        server.context_turns = vec![original.clone()];
        let ended = match interruption {
            Interruption::User => EventMsg::TurnAborted(TurnAbortedEvent {
                turn_id: Some("started-turn".to_string()),
                completed_at: Some(12),
                duration_ms: Some(2000),
            }),
            Interruption::Disconnected => EventMsg::TurnCompleted(TurnCompletedEvent {
                turn_id: "started-turn".to_string(),
                error: original.error.clone(),
                completed_at: Some(12),
                duration_ms: Some(2000),
            }),
        };
        if location == RecoveryLocation::Live {
            server.state.track_current_turn_event(&ended);
        } else {
            server.state = ThreadState::new();
        }
        if location == RecoveryLocation::CompactedReopened {
            // The context of the later attempt holds none of the visible items.
            server.context_turns[0].items.clear();
        }

        // It is continued.
        let recovered = server.turn_continue().expect("continued");
        assert_eq!(
            recovered,
            TurnContinueResponse { turn_id: "started-turn".to_string() }
        );
        assert_eq!(server.recorded, vec!["started-turn".to_string()]);
        server.assert_continue_rejected();
        server.state.track_current_turn_event(&EventMsg::TurnStarted(TurnStartedEvent {
            turn_id: "started-turn".to_string(),
            started_at: Some(20),
        }));
        let expected = reopened(&original, 20);
        let history = server.state.current_turn_history();
        assert_eq!(history.active_turn_snapshot(), Some(expected.clone()));

        // It is through.
        server.status = AgentStatus::NotRunning;
        let mut completed = expected;
        completed.status = TurnStatus::Completed;
        server.context_turns = vec![completed];
        assert_eq!(
            server.assert_continue_rejected(),
            "The last turn has already completed."
        );
        assert_eq!(server.recovered.len(), 1);
    }
}

#[test]
fn actions_follow_in_order() {
    let mut server = Server::with_turn(turn("a", TurnStatus::Interrupted));
    server.turn_continue().expect("continued");
    assert_eq!(
        server.log,
        vec![
            "load_thread",
            "ensure_direct_input_allowed",
            "agent_status",
            "conversation",
            "flush_rollout",
            "load_latest_model_context",
            "thread_state",
            "install",
            "trace",
            "recover",
            "record",
        ]
    );
    assert_eq!(
        server.recovered,
        vec![RecoverTurnRequest {
            turn_id: "a".to_string(),
            thread_settings: ThreadSettingsOverrides::Unchanged,
            trace: Some("trace-parent".to_string()),
            cyber_access_program: None,
        }]
    );
}

#[test]
fn in_progress_turn_of_an_idle_thread_is_continued() {
    let mut server = Server::with_turn(turn("a", TurnStatus::InProgress));
    assert_eq!(
        server.turn_continue(),
        Ok(TurnContinueResponse { turn_id: "a".to_string() })
    );
}

#[test]
fn unknown_thread_gives_the_error_of_the_lookup() {
    let error = JSONRPCErrorError {
        code: -32001,
        message: "thread not found".to_string(),
        data: Some("{}".to_string()),
    };
    let mut server = Server::with_turn(turn("a", TurnStatus::Failed));
    server.found = Err(copy(&error));
    assert_eq!(server.turn_continue(), Err(error));
    assert_eq!(server.log, vec!["load_thread"]);
}

#[test]
fn barred_client_gives_the_error_of_the_check() {
    let error = JSONRPCErrorError {
        code: -32600,
        message: "no direct input".to_string(),
        data: None,
    };
    let mut server = Server::with_turn(turn("a", TurnStatus::Failed));
    server.allowed = Some(copy(&error));
    assert_eq!(server.turn_continue(), Err(error));
    assert_eq!(server.log.len(), 2);
}

#[test]
fn running_thread_reads_no_history() {
    let mut server = Server::with_turn(turn("a", TurnStatus::Interrupted));
    server.status = AgentStatus::Running;
    assert_eq!(server.assert_continue_rejected(), "Cannot continue a running turn.");
    assert_eq!(
        server.log,
        vec!["load_thread", "ensure_direct_input_allowed", "agent_status"]
    );
}

#[test]
fn failed_flush_is_an_internal_error() {
    let mut server = Server::with_turn(turn("a", TurnStatus::Interrupted));
    server.flush_error = Some("disk full".to_string());
    let error = server.turn_continue().expect_err("failed");
    assert_eq!(error.code, -32603);
    assert_eq!(error.message, "failed to flush turn history: disk full");
}

#[test]
fn whole_history_stands_in_for_a_missing_model_context() {
    let mut server = Server::with_turn(turn("a", TurnStatus::Interrupted));
    server.knows_model_contexts = false;
    assert!(server.turn_continue().is_ok());
    assert!(server.log.contains(&"load_history".to_string()));

    let mut server = Server::with_turn(turn("a", TurnStatus::Interrupted));
    server.knows_model_contexts = false;
    server.history_error = Some("gone".to_string());
    let error = server.turn_continue().expect_err("failed");
    assert_eq!(error.code, -32603);
    assert_eq!(error.message, "failed to load turn history: gone");
}

#[test]
fn other_store_errors_are_internal_errors() {
    for (store_error, text) in [
        (
            ThreadStoreError::Unsupported {
                operation: "list_items".to_string(),
                text: "list_items is unsupported".to_string(),
            },
            "failed to load turn context: list_items is unsupported",
        ),
        (
            ThreadStoreError::Other { text: "broken".to_string() },
            "failed to load turn context: broken",
        ),
    ] {
        let mut server = Server::with_turn(turn("a", TurnStatus::Interrupted));
        server.context_error = Some(store_error);
        let error = server.turn_continue().expect_err("failed");
        assert_eq!(error.code, -32603);
        assert_eq!(error.message, text);
        assert!(!server.log.contains(&"load_history".to_string()));
    }
}

#[test]
fn history_without_turns_is_refused() {
    let mut server = Server::new(ThreadHistoryMode::Legacy);
    assert_eq!(
        server.assert_continue_rejected(),
        "There is no unfinished turn to continue."
    );
}

#[test]
fn only_the_last_turn_counts() {
    let mut server = Server::with_turn(turn("a", TurnStatus::Interrupted));
    server.context_turns.push(turn("b", TurnStatus::Completed));
    assert_eq!(
        server.assert_continue_rejected(),
        "The last turn has already completed."
    );
    let mut server = Server::with_turn(turn("a", TurnStatus::Completed));
    server.context_turns.push(turn("b", TurnStatus::Failed));
    assert_eq!(
        server.turn_continue(),
        Ok(TurnContinueResponse { turn_id: "b".to_string() })
    );
}

#[test]
fn turn_stopped_as_a_precaution_is_refused() {
    let mut stopped = turn("a", TurnStatus::Failed);
    stopped.error = Some(TurnError {
        message: "stopped".to_string(),
        codex_error_info: Some(CodexErrorInfo::MisalignmentPolicyViolation),
    });
    let mut server = Server::with_turn(stopped);
    assert_eq!(
        server.assert_continue_rejected(),
        "This turn was stopped as a precaution and cannot be continued."
    );
    assert!(!server.log.contains(&"install".to_string()));
}

#[test]
fn latest_context_of_the_turn_gives_the_access_program() {
    let mut server = Server::with_turn(turn("a", TurnStatus::Interrupted));
    server.contexts = vec![
        (Some("a".to_string()), Some("first".to_string())),
        (Some("a".to_string()), Some("second".to_string())),
        (Some("b".to_string()), Some("other".to_string())),
        (None, Some("nameless".to_string())),
    ];
    server.turn_continue().expect("continued");
    assert_eq!(server.recovered[0].cyber_access_program, Some("second".to_string()));

    let mut server = Server::with_turn(turn("a", TurnStatus::Interrupted));
    server.contexts = vec![
        (Some("a".to_string()), Some("first".to_string())),
        (Some("a".to_string()), None),
    ];
    server.turn_continue().expect("continued");
    assert_eq!(server.recovered[0].cyber_access_program, None);
}

#[test]
fn failed_page_leaves_nothing_waiting() {
    let mut server = Server::with_turn(turn("a", TurnStatus::Interrupted));
    server.mode = ThreadHistoryMode::Paginated;
    let error = JSONRPCErrorError {
        code: -32603,
        message: "failed to list".to_string(),
        data: None,
    };
    server.page_error = Some(copy(&error));
    assert_eq!(server.turn_continue(), Err(error));
    assert!(!server.log.contains(&"install".to_string()));
}

#[test]
fn pages_are_fetched_until_the_turn_is_whole() {
    let whole = turn("a", TurnStatus::Interrupted);
    let mut server = Server::with_turn(whole.clone());
    server.mode = ThreadHistoryMode::Paginated;
    server.context_turns[0].items.clear();
    server.stored_items = whole.items.clone();
    server.turn_continue().expect("continued");
    assert_eq!(server.listed.len(), 2);
    assert_eq!(server.listed[0].cursor, None);
    assert_eq!(server.listed[1].cursor, Some("1".to_string()));
    assert_eq!(server.listed[1].turn_id, Some("a".to_string()));
    assert_eq!(server.listed[1].page_size, PAGE_SIZE);
    assert!(server.listed[1].include_archived);
    server.state.track_current_turn_event(&EventMsg::TurnStarted(TurnStartedEvent {
        turn_id: "a".to_string(),
        started_at: Some(30),
    }));
    let history = server.state.current_turn_history();
    assert_eq!(history.active_turn_snapshot(), Some(reopened(&whole, 30)));
}

#[test]
fn refused_submission_drops_the_recovery() {
    for (submission, code, message) in [
        (
            Ok(StartIfIdleSubmission::NotSubmitted { reason: "Busy".to_string() }),
            -32600,
            "Cannot continue turn: Busy",
        ),
        (Err("channel closed".to_string()), -32603, "failed to continue turn: channel closed"),
    ] {
        let mut server = Server::with_turn(turn("a", TurnStatus::Interrupted));
        server.submission = Some(submission);
        let error = server.turn_continue().expect_err("failed");
        assert_eq!(error.code, code);
        assert_eq!(error.message, message);
        assert_eq!(server.log.last(), Some(&"drop".to_string()));
        assert!(server.recorded.is_empty());

        // Nothing waits: the next turn begins without items.
        server.state.track_current_turn_event(&EventMsg::TurnStarted(TurnStartedEvent {
            turn_id: "a".to_string(),
            started_at: Some(40),
        }));
        let active = server.state.current_turn_history().active_turn_snapshot();
        assert!(active.expect("active turn").items.is_empty());
    }
}

#[test]
fn answer_names_the_turn_that_was_started() {
    let mut server = Server::with_turn(turn("a", TurnStatus::Interrupted));
    server.submission = Some(Ok(StartIfIdleSubmission::Started { turn_id: "c".to_string() }));
    assert_eq!(
        server.turn_continue(),
        Ok(TurnContinueResponse { turn_id: "c".to_string() })
    );
    assert_eq!(server.recorded, vec!["c".to_string()]);
}

#[test]
fn event_that_answers_another_action_is_not_expected() {
    let params = TurnContinueParams { thread_id: "thread".to_string() };
    let (request, _) = TurnContinue::start(params, PAGE_SIZE);
    assert!(!request.expects(&Event::ThreadStateOpened));
    assert!(request.expects(&Event::ThreadLoaded(Ok("thread".to_string()))));
}
