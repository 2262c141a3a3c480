//! The course of a `turn/continue` request.
//!
//! The course is a sequence of actions, each of which has to be carried out and
//! answered with an event before the next one is known. Every decision on the
//! way is taken here.
use vstd::pervasive::unreached;
use vstd::prelude::*;

use crate::history::{HistoryView, ThreadHistoryBuilder};
use crate::paginated_turn_items::{
    page_result_view, ItemsPage, ListItemsView, PageView, PagerStep, PagerStepView, PagerView,
    StoreListItemsParams, TurnItemsPager,
};
use crate::recovery_plan::{plan_recovery, LoadedHistory, LoadedView, PlanView, RecoveryPlan};
use crate::rpc::{
    internal_error, internal_server_error, invalid_request, invalid_request_error, ErrorView,
    JSONRPCErrorError, TurnContinueParams, TurnContinueResponse,
};
use crate::text::opt_text;
use crate::turn::{Turn, TurnView};

verus! {

/// What the agent of a thread is doing, as far as it matters.
#[derive(Debug, Clone, Copy, PartialEq, Eq, Structural)]
pub enum AgentStatus {
    Running,
    NotRunning,
}

/// Why the store did not load a model context. `text` is the error as it is
/// shown to people.
#[derive(Debug, PartialEq, Eq)]
pub enum ThreadStoreError {
    Unsupported { operation: String, text: String },
    Other { text: String },
}

/// Settings that a new attempt takes in place of those of its thread.
#[derive(Debug, Clone, Copy, PartialEq, Eq, Structural)]
pub enum ThreadSettingsOverrides {
    Unchanged,
}

/// Asks a thread to take a turn up again if nothing runs. There is no input in
/// it: what the turn goes on from is in the history of the thread.
#[derive(Debug, PartialEq, Eq)]
pub struct RecoverTurnRequest {
    pub turn_id: String,
    pub thread_settings: ThreadSettingsOverrides,
    pub trace: Option<String>,
    pub cyber_access_program: Option<String>,
}

/// What became of the request to take a turn up again. `reason` is the reason
/// in its `Debug` form: the client's error message holds it as it is.
#[derive(Debug, PartialEq, Eq)]
pub enum StartIfIdleSubmission {
    Started { turn_id: String },
    NotSubmitted { reason: String },
}

/// What is to be done next.
#[derive(Debug)]
pub enum Action {
    /// Find the thread that the client names.
    LoadThread { thread_id: String },
    /// Check that the client may give the thread direct input.
    EnsureDirectInputAllowed,
    /// Read what the agent is doing.
    ReadAgentStatus,
    /// Look whether the conversation has any item.
    ReadConversation,
    /// Write the rollout out.
    FlushRollout,
    /// Load the latest model context of the thread.
    LoadLatestModelContext { thread_id: String, include_archived: bool },
    /// Load the whole history of the thread.
    LoadHistory { include_archived: bool },
    /// Get at the state of the thread.
    OpenThreadState { thread_id: String },
    /// Get a page of items from the store.
    ListItems(StoreListItemsParams),
    /// Set the recovered history that waits for the turn to begin again.
    SetPendingRecoveryHistory(Option<ThreadHistoryBuilder>),
    /// Get the trace context of the client's request.
    ReadTraceContext,
    /// Take the turn up again if nothing runs.
    RecoverTurnIfIdle(RecoverTurnRequest),
    /// Note that the client's request belongs to the turn.
    RecordRequestTurnId { turn_id: String },
    /// Answer the client. This is the last action.
    Respond(Result<TurnContinueResponse, JSONRPCErrorError>),
}

/// What an action has led to.
#[derive(Debug)]
pub enum Event {
    ThreadLoaded(Result<String, JSONRPCErrorError>),
    DirectInputChecked(Result<(), JSONRPCErrorError>),
    AgentStatusRead(AgentStatus),
    ConversationRead { has_items: bool },
    RolloutFlushed(Result<(), String>),
    ModelContextLoaded(Result<LoadedHistory, ThreadStoreError>),
    HistoryLoaded(Result<LoadedHistory, String>),
    ThreadStateOpened,
    ItemsListed(Result<ItemsPage, JSONRPCErrorError>),
    PendingRecoveryHistorySet,
    TraceContextRead(Option<String>),
    TurnRecovered(Result<StartIfIdleSubmission, String>),
    RequestTurnIdRecorded,
}

/// How far the request has come: which event is awaited, and what is kept for
/// later.
#[derive(Debug)]
pub enum Stage {
    LoadingThread,
    CheckingDirectInput { thread_id: String },
    ReadingAgentStatus { thread_id: String },
    ReadingConversation { thread_id: String },
    FlushingRollout { thread_id: String },
    LoadingModelContext { thread_id: String },
    LoadingHistory { thread_id: String },
    OpeningThreadState { thread_id: String, plan: RecoveryPlan },
    ListingItems { turn: Turn, cyber_access_program: Option<String>, pager: TurnItemsPager },
    InstallingRecovery { turn_id: String, cyber_access_program: Option<String> },
    ReadingTraceContext { turn_id: String, cyber_access_program: Option<String> },
    RecoveringTurn,
    DroppingRecovery { error: JSONRPCErrorError },
    RecordingTurnId { turn_id: String },
    Answered,
}

/// A `turn/continue` request under way.
#[derive(Debug)]
pub struct TurnContinue {
    items_page_size: usize,
    stage: Stage,
}

/// A store error as its texts.
pub enum StoreErrorView {
    Unsupported { operation: Seq<char>, text: Seq<char> },
    Other { text: Seq<char> },
}

/// A request to take a turn up again, as its parts.
pub struct RecoverTurnView {
    pub turn_id: Seq<char>,
    pub thread_settings: ThreadSettingsOverrides,
    pub trace: Option<Seq<char>>,
    pub cyber_access_program: Option<Seq<char>>,
}

/// What became of that request, as texts.
pub enum SubmissionView {
    Started { turn_id: Seq<char> },
    NotSubmitted { reason: Seq<char> },
}

/// An action as its parts. A response stands for the id of the turn in it.
pub enum ActionView {
    LoadThread { thread_id: Seq<char> },
    EnsureDirectInputAllowed,
    ReadAgentStatus,
    ReadConversation,
    FlushRollout,
    LoadLatestModelContext { thread_id: Seq<char>, include_archived: bool },
    LoadHistory { include_archived: bool },
    OpenThreadState { thread_id: Seq<char> },
    ListItems(ListItemsView),
    SetPendingRecoveryHistory(Option<HistoryView>),
    ReadTraceContext,
    RecoverTurnIfIdle(RecoverTurnView),
    RecordRequestTurnId { turn_id: Seq<char> },
    Respond(Result<Seq<char>, ErrorView>),
}

/// An event as its parts.
pub enum EventView {
    ThreadLoaded(Result<Seq<char>, ErrorView>),
    DirectInputChecked(Result<(), ErrorView>),
    AgentStatusRead(AgentStatus),
    ConversationRead { has_items: bool },
    RolloutFlushed(Result<(), Seq<char>>),
    ModelContextLoaded(Result<LoadedView, StoreErrorView>),
    HistoryLoaded(Result<LoadedView, Seq<char>>),
    ThreadStateOpened,
    ItemsListed(Result<PageView, ErrorView>),
    PendingRecoveryHistorySet,
    TraceContextRead(Option<Seq<char>>),
    TurnRecovered(Result<SubmissionView, Seq<char>>),
    RequestTurnIdRecorded,
}

/// A stage as its parts.
pub enum StageView {
    LoadingThread,
    CheckingDirectInput { thread_id: Seq<char> },
    ReadingAgentStatus { thread_id: Seq<char> },
    ReadingConversation { thread_id: Seq<char> },
    FlushingRollout { thread_id: Seq<char> },
    LoadingModelContext { thread_id: Seq<char> },
    LoadingHistory { thread_id: Seq<char> },
    OpeningThreadState { thread_id: Seq<char>, plan: PlanView },
    ListingItems { turn: TurnView, cyber_access_program: Option<Seq<char>>, pager: PagerView },
    InstallingRecovery { turn_id: Seq<char>, cyber_access_program: Option<Seq<char>> },
    ReadingTraceContext { turn_id: Seq<char>, cyber_access_program: Option<Seq<char>> },
    RecoveringTurn,
    DroppingRecovery { error: ErrorView },
    RecordingTurnId { turn_id: Seq<char> },
    Answered,
}

/// A request under way as its parts.
pub struct ContinueView {
    pub items_page_size: usize,
    pub stage: StageView,
}

impl View for ThreadStoreError {
    type V = StoreErrorView;

    open spec fn view(&self) -> StoreErrorView {
        match *self {
            ThreadStoreError::Unsupported { operation, text } => StoreErrorView::Unsupported {
                operation: operation@,
                text: text@,
            },
            ThreadStoreError::Other { text } => StoreErrorView::Other { text: text@ },
        }
    }
}

impl View for RecoverTurnRequest {
    type V = RecoverTurnView;

    open spec fn view(&self) -> RecoverTurnView {
        RecoverTurnView {
            turn_id: self.turn_id@,
            thread_settings: self.thread_settings,
            trace: opt_text(self.trace),
            cyber_access_program: opt_text(self.cyber_access_program),
        }
    }
}

impl View for StartIfIdleSubmission {
    type V = SubmissionView;

    open spec fn view(&self) -> SubmissionView {
        match *self {
            StartIfIdleSubmission::Started { turn_id } => SubmissionView::Started {
                turn_id: turn_id@,
            },
            StartIfIdleSubmission::NotSubmitted { reason } => SubmissionView::NotSubmitted {
                reason: reason@,
            },
        }
    }
}

impl View for Action {
    type V = ActionView;

    open spec fn view(&self) -> ActionView {
        match *self {
            Action::LoadThread { thread_id } => ActionView::LoadThread { thread_id: thread_id@ },
            Action::EnsureDirectInputAllowed => ActionView::EnsureDirectInputAllowed,
            Action::ReadAgentStatus => ActionView::ReadAgentStatus,
            Action::ReadConversation => ActionView::ReadConversation,
            Action::FlushRollout => ActionView::FlushRollout,
            Action::LoadLatestModelContext { thread_id, include_archived } =>
                ActionView::LoadLatestModelContext { thread_id: thread_id@, include_archived },
            Action::LoadHistory { include_archived } => ActionView::LoadHistory {
                include_archived,
            },
            Action::OpenThreadState { thread_id } => ActionView::OpenThreadState {
                thread_id: thread_id@,
            },
            Action::ListItems(params) => ActionView::ListItems(params@),
            Action::SetPendingRecoveryHistory(history) => ActionView::SetPendingRecoveryHistory(
                match history {
                    Some(history) => Some(history@),
                    None => None,
                },
            ),
            Action::ReadTraceContext => ActionView::ReadTraceContext,
            Action::RecoverTurnIfIdle(request) => ActionView::RecoverTurnIfIdle(request@),
            Action::RecordRequestTurnId { turn_id } => ActionView::RecordRequestTurnId {
                turn_id: turn_id@,
            },
            Action::Respond(response) => ActionView::Respond(
                match response {
                    Ok(response) => Ok(response.turn_id@),
                    Err(error) => Err(error@),
                },
            ),
        }
    }
}

impl View for Event {
    type V = EventView;

    open spec fn view(&self) -> EventView {
        match *self {
            Event::ThreadLoaded(result) => EventView::ThreadLoaded(
                match result {
                    Ok(thread_id) => Ok(thread_id@),
                    Err(error) => Err(error@),
                },
            ),
            Event::DirectInputChecked(result) => EventView::DirectInputChecked(
                match result {
                    Ok(_) => Ok(()),
                    Err(error) => Err(error@),
                },
            ),
            Event::AgentStatusRead(status) => EventView::AgentStatusRead(status),
            Event::ConversationRead { has_items } => EventView::ConversationRead { has_items },
            Event::RolloutFlushed(result) => EventView::RolloutFlushed(
                match result {
                    Ok(_) => Ok(()),
                    Err(text) => Err(text@),
                },
            ),
            Event::ModelContextLoaded(result) => EventView::ModelContextLoaded(
                match result {
                    Ok(history) => Ok(history@),
                    Err(error) => Err(error@),
                },
            ),
            Event::HistoryLoaded(result) => EventView::HistoryLoaded(
                match result {
                    Ok(history) => Ok(history@),
                    Err(text) => Err(text@),
                },
            ),
            Event::ThreadStateOpened => EventView::ThreadStateOpened,
            Event::ItemsListed(page) => EventView::ItemsListed(page_result_view(page)),
            Event::PendingRecoveryHistorySet => EventView::PendingRecoveryHistorySet,
            Event::TraceContextRead(trace) => EventView::TraceContextRead(opt_text(trace)),
            Event::TurnRecovered(result) => EventView::TurnRecovered(
                match result {
                    Ok(submission) => Ok(submission@),
                    Err(text) => Err(text@),
                },
            ),
            Event::RequestTurnIdRecorded => EventView::RequestTurnIdRecorded,
        }
    }
}

impl View for Stage {
    type V = StageView;

    open spec fn view(&self) -> StageView {
        match *self {
            Stage::LoadingThread => StageView::LoadingThread,
            Stage::CheckingDirectInput { thread_id } => StageView::CheckingDirectInput {
                thread_id: thread_id@,
            },
            Stage::ReadingAgentStatus { thread_id } => StageView::ReadingAgentStatus {
                thread_id: thread_id@,
            },
            Stage::ReadingConversation { thread_id } => StageView::ReadingConversation {
                thread_id: thread_id@,
            },
            Stage::FlushingRollout { thread_id } => StageView::FlushingRollout {
                thread_id: thread_id@,
            },
            Stage::LoadingModelContext { thread_id } => StageView::LoadingModelContext {
                thread_id: thread_id@,
            },
            Stage::LoadingHistory { thread_id } => StageView::LoadingHistory {
                thread_id: thread_id@,
            },
            Stage::OpeningThreadState { thread_id, plan } => StageView::OpeningThreadState {
                thread_id: thread_id@,
                plan: plan@,
            },
            Stage::ListingItems { turn, cyber_access_program, pager } => StageView::ListingItems {
                turn: turn@,
                cyber_access_program: opt_text(cyber_access_program),
                pager: pager@,
            },
            Stage::InstallingRecovery { turn_id, cyber_access_program } =>
                StageView::InstallingRecovery {
                    turn_id: turn_id@,
                    cyber_access_program: opt_text(cyber_access_program),
                },
            Stage::ReadingTraceContext { turn_id, cyber_access_program } =>
                StageView::ReadingTraceContext {
                    turn_id: turn_id@,
                    cyber_access_program: opt_text(cyber_access_program),
                },
            Stage::RecoveringTurn => StageView::RecoveringTurn,
            Stage::DroppingRecovery { error } => StageView::DroppingRecovery { error: error@ },
            Stage::RecordingTurnId { turn_id } => StageView::RecordingTurnId { turn_id: turn_id@ },
            Stage::Answered => StageView::Answered,
        }
    }
}

impl View for TurnContinue {
    type V = ContinueView;

    closed spec fn view(&self) -> ContinueView {
        ContinueView { items_page_size: self.items_page_size, stage: self.stage@ }
    }
}

/// The store cannot load a model context at all, for any thread.
pub open spec fn lacks_model_contexts(error: StoreErrorView) -> bool {
    match error {
        StoreErrorView::Unsupported { operation, .. } => operation == "load_latest_model_context"@,
        StoreErrorView::Other { .. } => false,
    }
}

/// The error as it is shown to people.
pub open spec fn store_error_text(error: StoreErrorView) -> Seq<char> {
    match error {
        StoreErrorView::Unsupported { text, .. } => text,
        StoreErrorView::Other { text } => text,
    }
}

impl ContinueView {
    /// The event answers the action that is under way.
    pub open spec fn expects(self, event: EventView) -> bool {
        match self.stage {
            StageView::LoadingThread => event is ThreadLoaded,
            StageView::CheckingDirectInput { .. } => event is DirectInputChecked,
            StageView::ReadingAgentStatus { .. } => event is AgentStatusRead,
            StageView::ReadingConversation { .. } => event is ConversationRead,
            StageView::FlushingRollout { .. } => event is RolloutFlushed,
            StageView::LoadingModelContext { .. } => event is ModelContextLoaded,
            StageView::LoadingHistory { .. } => event is HistoryLoaded,
            StageView::OpeningThreadState { .. } => event is ThreadStateOpened,
            StageView::ListingItems { .. } => event is ItemsListed,
            StageView::InstallingRecovery { .. } => event is PendingRecoveryHistorySet,
            StageView::ReadingTraceContext { .. } => event is TraceContextRead,
            StageView::RecoveringTurn => event is TurnRecovered,
            StageView::DroppingRecovery { .. } => event is PendingRecoveryHistorySet,
            StageView::RecordingTurnId { .. } => event is RequestTurnIdRecorded,
            StageView::Answered => false,
        }
    }

    /// The request in another stage.
    pub open spec fn at(self, stage: StageView) -> ContinueView {
        ContinueView { stage, ..self }
    }

    /// The client is answered, and that is all.
    pub open spec fn answered(self, answer: Result<Seq<char>, ErrorView>) -> (
        ContinueView,
        ActionView,
    ) {
        (self.at(StageView::Answered), ActionView::Respond(answer))
    }

    /// The client is told that the request is at fault.
    pub open spec fn refused(self, message: Seq<char>) -> (ContinueView, ActionView) {
        self.answered(Err(invalid_request_error(message)))
    }

    /// The client is told that the server has failed.
    pub open spec fn failed(self, message: Seq<char>) -> (ContinueView, ActionView) {
        self.answered(Err(internal_server_error(message)))
    }

    /// The history is there: the last turn is taken up, or the client refused.
    pub open spec fn after_history(self, thread_id: Seq<char>, history: LoadedView) -> (
        ContinueView,
        ActionView,
    ) {
        match history.decision() {
            Err(error) => self.answered(Err(error)),
            Ok(plan) => (
                self.at(StageView::OpeningThreadState { thread_id, plan }),
                ActionView::OpenThreadState { thread_id },
            ),
        }
    }

    /// The turn is complete: its history is left waiting for the new attempt.
    pub open spec fn install(self, turn: TurnView, cyber_access_program: Option<Seq<char>>) -> (
        ContinueView,
        ActionView,
    ) {
        (
            self.at(StageView::InstallingRecovery { turn_id: turn.id, cyber_access_program }),
            ActionView::SetPendingRecoveryHistory(Some(HistoryView::of_turn(turn))),
        )
    }

    /// A page of the turn's items is due.
    pub open spec fn list_items(
        self,
        turn: TurnView,
        cyber_access_program: Option<Seq<char>>,
        pager: PagerView,
    ) -> (ContinueView, ActionView) {
        (
            self.at(StageView::ListingItems { turn, cyber_access_program, pager }),
            ActionView::ListItems(pager.request()),
        )
    }

    /// The new attempt does not run: the waiting history is dropped before the
    /// client hears of it.
    pub open spec fn drop_recovery(self, error: ErrorView) -> (ContinueView, ActionView) {
        (
            self.at(StageView::DroppingRecovery { error }),
            ActionView::SetPendingRecoveryHistory(None),
        )
    }

    /// What follows on the event. Once the client is answered nothing does: no
    /// event is expected any more.
    pub open spec fn after(self, event: EventView) -> (ContinueView, ActionView)
        recommends
            self.expects(event),
    {
        match self.stage {
            StageView::LoadingThread => match event->ThreadLoaded_0 {
                Ok(thread_id) => (
                    self.at(StageView::CheckingDirectInput { thread_id }),
                    ActionView::EnsureDirectInputAllowed,
                ),
                Err(error) => self.answered(Err(error)),
            },
            StageView::CheckingDirectInput { thread_id } => match event->DirectInputChecked_0 {
                Ok(_) => (
                    self.at(StageView::ReadingAgentStatus { thread_id }),
                    ActionView::ReadAgentStatus,
                ),
                Err(error) => self.answered(Err(error)),
            },
            StageView::ReadingAgentStatus { thread_id } => match event->AgentStatusRead_0 {
                AgentStatus::Running => self.refused("Cannot continue a running turn."@),
                AgentStatus::NotRunning => (
                    self.at(StageView::ReadingConversation { thread_id }),
                    ActionView::ReadConversation,
                ),
            },
            StageView::ReadingConversation { thread_id } => if event->has_items {
                (self.at(StageView::FlushingRollout { thread_id }), ActionView::FlushRollout)
            } else {
                self.refused("There is no unfinished turn to continue."@)
            },
            StageView::FlushingRollout { thread_id } => match event->RolloutFlushed_0 {
                Ok(_) => (
                    self.at(StageView::LoadingModelContext { thread_id }),
                    ActionView::LoadLatestModelContext { thread_id, include_archived: false },
                ),
                Err(text) => self.failed("failed to flush turn history: "@ + text),
            },
            StageView::LoadingModelContext { thread_id } => match event->ModelContextLoaded_0 {
                Ok(history) => self.after_history(thread_id, history),
                Err(error) => if lacks_model_contexts(error) {
                    (
                        self.at(StageView::LoadingHistory { thread_id }),
                        ActionView::LoadHistory { include_archived: false },
                    )
                } else {
                    self.failed("failed to load turn context: "@ + store_error_text(error))
                },
            },
            StageView::LoadingHistory { thread_id } => match event->HistoryLoaded_0 {
                Ok(history) => self.after_history(thread_id, history),
                Err(text) => self.failed("failed to load turn history: "@ + text),
            },
            StageView::OpeningThreadState { thread_id, plan } => if plan.paginated {
                self.list_items(
                    plan.turn,
                    plan.cyber_access_program,
                    PagerView::start(thread_id, plan.turn.id, self.items_page_size),
                )
            } else {
                self.install(plan.turn, plan.cyber_access_program)
            },
            StageView::ListingItems { turn, cyber_access_program, pager } => match pager.after_page(
                event->ItemsListed_0,
            ) {
                PagerStepView::Failed(error) => self.answered(Err(error)),
                PagerStepView::More(pager) => self.list_items(turn, cyber_access_program, pager),
                PagerStepView::Finished(items) => self.install(
                    TurnView { items, ..turn },
                    cyber_access_program,
                ),
            },
            StageView::InstallingRecovery { turn_id, cyber_access_program } => (
                self.at(StageView::ReadingTraceContext { turn_id, cyber_access_program }),
                ActionView::ReadTraceContext,
            ),
            StageView::ReadingTraceContext { turn_id, cyber_access_program } => (
                self.at(StageView::RecoveringTurn),
                ActionView::RecoverTurnIfIdle(
                    RecoverTurnView {
                        turn_id,
                        thread_settings: ThreadSettingsOverrides::Unchanged,
                        trace: event->TraceContextRead_0,
                        cyber_access_program,
                    },
                ),
            ),
            StageView::RecoveringTurn => match event->TurnRecovered_0 {
                Ok(SubmissionView::Started { turn_id }) => (
                    self.at(StageView::RecordingTurnId { turn_id }),
                    ActionView::RecordRequestTurnId { turn_id },
                ),
                Ok(SubmissionView::NotSubmitted { reason }) => self.drop_recovery(
                    invalid_request_error("Cannot continue turn: "@ + reason),
                ),
                Err(text) => self.drop_recovery(
                    internal_server_error("failed to continue turn: "@ + text),
                ),
            },
            StageView::DroppingRecovery { error } => self.answered(Err(error)),
            StageView::RecordingTurnId { turn_id } => self.answered(Ok(turn_id)),
            StageView::Answered => arbitrary(),
        }
    }

    /// The beginning of a request, and its first action.
    pub open spec fn start(thread_id: Seq<char>, items_page_size: usize) -> (
        ContinueView,
        ActionView,
    ) {
        (
            ContinueView { items_page_size, stage: StageView::LoadingThread },
            ActionView::LoadThread { thread_id },
        )
    }
}

/// A text behind the words that introduce it.
fn introduced(words: &str, text: &String) -> (message: String)
    ensures
        message@ == words@ + text@,
{
    let mut message = words.to_string();
    message.append(text.as_str());
    message
}

impl TurnContinue {
    /// Begins a request. Items are fetched in pages of `items_page_size`.
    pub fn start(params: TurnContinueParams, items_page_size: usize) -> (started: (
        TurnContinue,
        Action,
    ))
        ensures
            (started.0@, started.1@) == ContinueView::start(params.thread_id@, items_page_size),
    {
        (
            TurnContinue { items_page_size, stage: Stage::LoadingThread },
            Action::LoadThread { thread_id: params.thread_id },
        )
    }

    /// Tells whether the event answers the action that is under way.
    pub fn expects(&self, event: &Event) -> (expected: bool)
        ensures
            expected == self@.expects(event@),
    {
        match (&self.stage, event) {
            (Stage::LoadingThread, Event::ThreadLoaded(_)) => true,
            (Stage::CheckingDirectInput { .. }, Event::DirectInputChecked(_)) => true,
            (Stage::ReadingAgentStatus { .. }, Event::AgentStatusRead(_)) => true,
            (Stage::ReadingConversation { .. }, Event::ConversationRead { .. }) => true,
            (Stage::FlushingRollout { .. }, Event::RolloutFlushed(_)) => true,
            (Stage::LoadingModelContext { .. }, Event::ModelContextLoaded(_)) => true,
            (Stage::LoadingHistory { .. }, Event::HistoryLoaded(_)) => true,
            (Stage::OpeningThreadState { .. }, Event::ThreadStateOpened) => true,
            (Stage::ListingItems { .. }, Event::ItemsListed(_)) => true,
            (Stage::InstallingRecovery { .. }, Event::PendingRecoveryHistorySet) => true,
            (Stage::ReadingTraceContext { .. }, Event::TraceContextRead(_)) => true,
            (Stage::RecoveringTurn, Event::TurnRecovered(_)) => true,
            (Stage::DroppingRecovery { .. }, Event::PendingRecoveryHistorySet) => true,
            (Stage::RecordingTurnId { .. }, Event::RequestTurnIdRecorded) => true,
            _ => false,
        }
    }

    fn at(self, stage: Stage) -> (next: TurnContinue)
        ensures
            next@ == self@.at(stage@),
    {
        TurnContinue { items_page_size: self.items_page_size, stage }
    }

    fn fail(self, error: JSONRPCErrorError) -> (next: (TurnContinue, Action))
        ensures
            (next.0@, next.1@) == self@.answered(Err(error@)),
    {
        (self.at(Stage::Answered), Action::Respond(Err(error)))
    }

    fn take_up(self, thread_id: String, history: LoadedHistory) -> (next: (TurnContinue, Action))
        ensures
            (next.0@, next.1@) == self@.after_history(thread_id@, history@),
    {
        match plan_recovery(history) {
            Err(error) => self.fail(error),
            Ok(plan) => {
                let action = Action::OpenThreadState { thread_id: thread_id.clone() };
                (self.at(Stage::OpeningThreadState { thread_id, plan }), action)
            },
        }
    }

    fn install(self, turn: Turn, cyber_access_program: Option<String>) -> (next: (
        TurnContinue,
        Action,
    ))
        ensures
            (next.0@, next.1@) == self@.install(turn@, opt_text(cyber_access_program)),
    {
        let turn_id = turn.id.clone();
        let history = ThreadHistoryBuilder::from_turn(turn);
        (
            self.at(Stage::InstallingRecovery { turn_id, cyber_access_program }),
            Action::SetPendingRecoveryHistory(Some(history)),
        )
    }

    fn list_items(
        self,
        turn: Turn,
        cyber_access_program: Option<String>,
        pager: TurnItemsPager,
    ) -> (next: (TurnContinue, Action))
        ensures
            (next.0@, next.1@) == self@.list_items(turn@, opt_text(cyber_access_program), pager@),
    {
        let action = Action::ListItems(pager.request());
        (self.at(Stage::ListingItems { turn, cyber_access_program, pager }), action)
    }

    fn drop_recovery(self, error: JSONRPCErrorError) -> (next: (TurnContinue, Action))
        ensures
            (next.0@, next.1@) == self@.drop_recovery(error@),
    {
        (
            self.at(Stage::DroppingRecovery { error }),
            Action::SetPendingRecoveryHistory(None),
        )
    }

    /// Takes in the event that answers the action under way.
    pub fn on_event(self, event: Event) -> (next: (TurnContinue, Action))
        requires
            self@.expects(event@),
        ensures
            (next.0@, next.1@) == self@.after(event@),
    {
        let items_page_size: usize = self.items_page_size;
        let request = TurnContinue { items_page_size, stage: Stage::Answered };
        match (self.stage, event) {
            (Stage::LoadingThread, Event::ThreadLoaded(result)) => match result {
                Ok(thread_id) => (
                    request.at(Stage::CheckingDirectInput { thread_id }),
                    Action::EnsureDirectInputAllowed,
                ),
                Err(error) => request.fail(error),
            },
            (Stage::CheckingDirectInput { thread_id }, Event::DirectInputChecked(result)) => {
                match result {
                    Ok(()) => (
                        request.at(Stage::ReadingAgentStatus { thread_id }),
                        Action::ReadAgentStatus,
                    ),
                    Err(error) => request.fail(error),
                }
            },
            (Stage::ReadingAgentStatus { thread_id }, Event::AgentStatusRead(status)) => {
                // This comes before the history is read: a turn that runs could end while the
                // history is on its way, and would be begun again from what is out of date.
                match status {
                    AgentStatus::Running => request.fail(
                        invalid_request("Cannot continue a running turn.".to_string()),
                    ),
                    AgentStatus::NotRunning => (
                        request.at(Stage::ReadingConversation { thread_id }),
                        Action::ReadConversation,
                    ),
                }
            },
            (Stage::ReadingConversation { thread_id }, Event::ConversationRead { has_items }) => {
                // A new thread has no rollout yet that the store could open.
                if has_items {
                    (request.at(Stage::FlushingRollout { thread_id }), Action::FlushRollout)
                } else {
                    request.fail(
                        invalid_request("There is no unfinished turn to continue.".to_string()),
                    )
                }
            },
            (Stage::FlushingRollout { thread_id }, Event::RolloutFlushed(result)) => match result {
                Ok(()) => {
                    let action = Action::LoadLatestModelContext {
                        thread_id: thread_id.clone(),
                        include_archived: false,
                    };
                    (request.at(Stage::LoadingModelContext { thread_id }), action)
                },
                Err(text) => request.fail(
                    internal_error(introduced("failed to flush turn history: ", &text)),
                ),
            },
            (Stage::LoadingModelContext { thread_id }, Event::ModelContextLoaded(result)) => {
                match result {
                    Ok(history) => request.take_up(thread_id, history),
                    Err(ThreadStoreError::Unsupported { operation, text }) => {
                        if operation == "load_latest_model_context".to_string() {
                            (
                                request.at(Stage::LoadingHistory { thread_id }),
                                Action::LoadHistory { include_archived: false },
                            )
                        } else {
                            request.fail(
                                internal_error(introduced("failed to load turn context: ", &text)),
                            )
                        }
                    },
                    Err(ThreadStoreError::Other { text }) => request.fail(
                        internal_error(introduced("failed to load turn context: ", &text)),
                    ),
                }
            },
            (Stage::LoadingHistory { thread_id }, Event::HistoryLoaded(result)) => match result {
                Ok(history) => request.take_up(thread_id, history),
                Err(text) => request.fail(
                    internal_error(introduced("failed to load turn history: ", &text)),
                ),
            },
            (Stage::OpeningThreadState { thread_id, plan }, Event::ThreadStateOpened) => {
                if plan.paginated {
                    // A model context can lack earlier attempts at this turn.
                    let pager = TurnItemsPager::new(
                        thread_id,
                        plan.turn.id.clone(),
                        items_page_size,
                    );
                    request.list_items(plan.turn, plan.cyber_access_program, pager)
                } else {
                    request.install(plan.turn, plan.cyber_access_program)
                }
            },
            (
                Stage::ListingItems { turn, cyber_access_program, pager },
                Event::ItemsListed(page),
            ) => match pager.on_page(page) {
                PagerStep::Failed(error) => request.fail(error),
                PagerStep::More(pager) => request.list_items(turn, cyber_access_program, pager),
                PagerStep::Finished(items) => {
                    let mut turn = turn;
                    turn.items = items;
                    request.install(turn, cyber_access_program)
                },
            },
            (
                Stage::InstallingRecovery { turn_id, cyber_access_program },
                Event::PendingRecoveryHistorySet,
            ) => (
                request.at(Stage::ReadingTraceContext { turn_id, cyber_access_program }),
                Action::ReadTraceContext,
            ),
            (
                Stage::ReadingTraceContext { turn_id, cyber_access_program },
                Event::TraceContextRead(trace),
            ) => (
                request.at(Stage::RecoveringTurn),
                Action::RecoverTurnIfIdle(
                    RecoverTurnRequest {
                        turn_id,
                        thread_settings: ThreadSettingsOverrides::Unchanged,
                        trace,
                        cyber_access_program,
                    },
                ),
            ),
            (Stage::RecoveringTurn, Event::TurnRecovered(result)) => match result {
                Ok(StartIfIdleSubmission::Started { turn_id }) => {
                    let action = Action::RecordRequestTurnId { turn_id: turn_id.clone() };
                    (request.at(Stage::RecordingTurnId { turn_id }), action)
                },
                Ok(StartIfIdleSubmission::NotSubmitted { reason }) => request.drop_recovery(
                    invalid_request(introduced("Cannot continue turn: ", &reason)),
                ),
                Err(text) => request.drop_recovery(
                    internal_error(introduced("failed to continue turn: ", &text)),
                ),
            },
            (Stage::DroppingRecovery { error }, Event::PendingRecoveryHistorySet) => request.fail(
                error,
            ),
            (Stage::RecordingTurnId { turn_id }, Event::RequestTurnIdRecorded) => (
                request.at(Stage::Answered),
                Action::Respond(Ok(TurnContinueResponse { turn_id })),
            ),
            _ => unreached(),
        }
    }
}

/// All of a store error is seen.
pub proof fn law_store_error_is_seen_whole(error: ThreadStoreError)
    ensures
        match error {
            ThreadStoreError::Unsupported { operation, text } => {
                &&& error@ is Unsupported
                &&& error@->operation == operation@
                &&& error@->Unsupported_text == text@
            },
            ThreadStoreError::Other { text } => error@ is Other && error@->Other_text == text@,
        },
{
}

/// Only a store that says that it does not know of model contexts lacks them;
/// what else it cannot do, and how it says so, makes no difference.
pub proof fn law_only_a_store_without_model_contexts_lacks_them(
    operation: Seq<char>,
    text: Seq<char>,
)
    ensures
        lacks_model_contexts(StoreErrorView::Unsupported { operation, text }) <==> operation
            == "load_latest_model_context"@,
        !lacks_model_contexts(StoreErrorView::Other { text }),
        store_error_text(StoreErrorView::Unsupported { operation, text }) == text,
        store_error_text(StoreErrorView::Other { text }) == text,
{
}

/// All of a request to take a turn up again, and of what became of it, is seen.
pub proof fn law_recovery_request_is_seen_whole(
    request: RecoverTurnRequest,
    submission: StartIfIdleSubmission,
)
    ensures
        request@.turn_id == request.turn_id@,
        request@.thread_settings == request.thread_settings,
        request@.trace == opt_text(request.trace),
        request@.cyber_access_program == opt_text(request.cyber_access_program),
        match submission {
            StartIfIdleSubmission::Started { turn_id } => submission@ is Started
                && submission@->turn_id == turn_id@,
            StartIfIdleSubmission::NotSubmitted { reason } => submission@ is NotSubmitted
                && submission@->reason == reason@,
        },
{
}

/// All of an event is seen.
pub proof fn law_event_is_seen_whole(event: Event)
    ensures
        match event {
            Event::ThreadLoaded(result) => event@ is ThreadLoaded && match result {
                Ok(thread_id) => event@->ThreadLoaded_0 == Ok::<Seq<char>, ErrorView>(thread_id@),
                Err(error) => event@->ThreadLoaded_0 == Err::<Seq<char>, ErrorView>(error@),
            },
            Event::DirectInputChecked(result) => event@ is DirectInputChecked && match result {
                Ok(_) => event@->DirectInputChecked_0 is Ok,
                Err(error) => event@->DirectInputChecked_0 == Err::<(), ErrorView>(error@),
            },
            Event::AgentStatusRead(status) => event@ is AgentStatusRead
                && event@->AgentStatusRead_0 == status,
            Event::ConversationRead { has_items } => event@ is ConversationRead
                && event@->has_items == has_items,
            Event::RolloutFlushed(result) => event@ is RolloutFlushed && match result {
                Ok(_) => event@->RolloutFlushed_0 is Ok,
                Err(text) => event@->RolloutFlushed_0 == Err::<(), Seq<char>>(text@),
            },
            Event::ModelContextLoaded(result) => event@ is ModelContextLoaded && match result {
                Ok(history) => event@->ModelContextLoaded_0 == Ok::<LoadedView, StoreErrorView>(
                    history@,
                ),
                Err(error) => event@->ModelContextLoaded_0 == Err::<LoadedView, StoreErrorView>(
                    error@,
                ),
            },
            Event::HistoryLoaded(result) => event@ is HistoryLoaded && match result {
                Ok(history) => event@->HistoryLoaded_0 == Ok::<LoadedView, Seq<char>>(history@),
                Err(text) => event@->HistoryLoaded_0 == Err::<LoadedView, Seq<char>>(text@),
            },
            Event::ThreadStateOpened => event@ is ThreadStateOpened,
            Event::ItemsListed(result) => event@ is ItemsListed && match result {
                Ok(page) => event@->ItemsListed_0 == Ok::<PageView, ErrorView>(page@),
                Err(error) => event@->ItemsListed_0 == Err::<PageView, ErrorView>(error@),
            },
            Event::PendingRecoveryHistorySet => event@ is PendingRecoveryHistorySet,
            Event::TraceContextRead(trace) => event@ is TraceContextRead
                && event@->TraceContextRead_0 == opt_text(trace),
            Event::TurnRecovered(result) => event@ is TurnRecovered && match result {
                Ok(submission) => event@->TurnRecovered_0 == Ok::<SubmissionView, Seq<char>>(
                    submission@,
                ),
                Err(text) => event@->TurnRecovered_0 == Err::<SubmissionView, Seq<char>>(text@),
            },
            Event::RequestTurnIdRecorded => event@ is RequestTurnIdRecorded,
        },
{
}

/// All of an action is seen.
pub proof fn law_action_is_seen_whole(action: Action)
    ensures
        match action {
            Action::LoadThread { thread_id } => action@ is LoadThread
                && action@->LoadThread_thread_id == thread_id@,
            Action::EnsureDirectInputAllowed => action@ is EnsureDirectInputAllowed,
            Action::ReadAgentStatus => action@ is ReadAgentStatus,
            Action::ReadConversation => action@ is ReadConversation,
            Action::FlushRollout => action@ is FlushRollout,
            Action::LoadLatestModelContext { thread_id, include_archived } => {
                &&& action@ is LoadLatestModelContext
                &&& action@->LoadLatestModelContext_thread_id == thread_id@
                &&& action@->LoadLatestModelContext_include_archived == include_archived
            },
            Action::LoadHistory { include_archived } => action@ is LoadHistory
                && action@->LoadHistory_include_archived == include_archived,
            Action::OpenThreadState { thread_id } => action@ is OpenThreadState
                && action@->OpenThreadState_thread_id == thread_id@,
            Action::ListItems(params) => action@ is ListItems && action@->ListItems_0 == params@,
            Action::SetPendingRecoveryHistory(history) => {
                &&& action@ is SetPendingRecoveryHistory
                &&& history is Some <==> action@->SetPendingRecoveryHistory_0 is Some
                &&& history is Some ==> action@->SetPendingRecoveryHistory_0->0 == history->0@
            },
            Action::ReadTraceContext => action@ is ReadTraceContext,
            Action::RecoverTurnIfIdle(request) => action@ is RecoverTurnIfIdle
                && action@->RecoverTurnIfIdle_0 == request@,
            Action::RecordRequestTurnId { turn_id } => action@ is RecordRequestTurnId
                && action@->turn_id == turn_id@,
            Action::Respond(answer) => action@ is Respond && match answer {
                Ok(response) => action@->Respond_0 == Ok::<Seq<char>, ErrorView>(
                    response.turn_id@,
                ),
                Err(error) => action@->Respond_0 == Err::<Seq<char>, ErrorView>(error@),
            },
        },
{
}

/// A request is seen with its stage and the size of its pages.
proof fn law_request_is_seen_whole(request: TurnContinue)
    ensures
        request@.items_page_size == request.items_page_size,
        request@.stage == request.stage@,
        match request.stage {
            Stage::LoadingThread => request@.stage is LoadingThread,
            Stage::CheckingDirectInput { thread_id } => request@.stage is CheckingDirectInput
                && request@.stage->CheckingDirectInput_thread_id == thread_id@,
            Stage::ReadingAgentStatus { thread_id } => request@.stage is ReadingAgentStatus
                && request@.stage->ReadingAgentStatus_thread_id == thread_id@,
            Stage::ReadingConversation { thread_id } => request@.stage is ReadingConversation
                && request@.stage->ReadingConversation_thread_id == thread_id@,
            Stage::FlushingRollout { thread_id } => request@.stage is FlushingRollout
                && request@.stage->FlushingRollout_thread_id == thread_id@,
            Stage::LoadingModelContext { thread_id } => request@.stage is LoadingModelContext
                && request@.stage->LoadingModelContext_thread_id == thread_id@,
            Stage::LoadingHistory { thread_id } => request@.stage is LoadingHistory
                && request@.stage->LoadingHistory_thread_id == thread_id@,
            Stage::OpeningThreadState { thread_id, plan } => {
                &&& request@.stage is OpeningThreadState
                &&& request@.stage->OpeningThreadState_thread_id == thread_id@
                &&& request@.stage->plan == plan@
            },
            Stage::ListingItems { turn, cyber_access_program, pager } => {
                &&& request@.stage is ListingItems
                &&& request@.stage->turn == turn@
                &&& request@.stage->ListingItems_cyber_access_program == opt_text(
                    cyber_access_program,
                )
                &&& request@.stage->pager == pager@
            },
            Stage::InstallingRecovery { turn_id, cyber_access_program } => {
                &&& request@.stage is InstallingRecovery
                &&& request@.stage->InstallingRecovery_turn_id == turn_id@
                &&& request@.stage->InstallingRecovery_cyber_access_program == opt_text(
                    cyber_access_program,
                )
            },
            Stage::ReadingTraceContext { turn_id, cyber_access_program } => {
                &&& request@.stage is ReadingTraceContext
                &&& request@.stage->ReadingTraceContext_turn_id == turn_id@
                &&& request@.stage->ReadingTraceContext_cyber_access_program == opt_text(
                    cyber_access_program,
                )
            },
            Stage::RecoveringTurn => request@.stage is RecoveringTurn,
            Stage::DroppingRecovery { error } => request@.stage is DroppingRecovery
                && request@.stage->error == error@,
            Stage::RecordingTurnId { turn_id } => request@.stage is RecordingTurnId
                && request@.stage->RecordingTurnId_turn_id == turn_id@,
            Stage::Answered => request@.stage is Answered,
        },
{
}

} // verus!
