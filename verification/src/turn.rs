//! Turns and the items that they hold.
use vstd::prelude::*;

use crate::text::opt_text;

verus! {

/// One entry of a turn. Of the entries that are no agent messages only the id
/// is read; `body` keeps the rest of the entry as text.
#[derive(Debug, PartialEq, Eq)]
pub enum ThreadItem {
    AgentMessage {
        id: String,
        text: String,
        phase: Option<String>,
        memory_citation: Option<String>,
        delivery: Option<String>,
        questions: Option<String>,
    },
    Other { id: String, body: String },
}

/// A thread item as its texts.
pub enum ThreadItemView {
    AgentMessage {
        id: Seq<char>,
        text: Seq<char>,
        phase: Option<Seq<char>>,
        memory_citation: Option<Seq<char>>,
        delivery: Option<Seq<char>>,
        questions: Option<Seq<char>>,
    },
    Other { id: Seq<char>, body: Seq<char> },
}

impl ThreadItemView {
    pub open spec fn id(self) -> Seq<char> {
        match self {
            ThreadItemView::AgentMessage { id, .. } => id,
            ThreadItemView::Other { id, .. } => id,
        }
    }
}

impl View for ThreadItem {
    type V = ThreadItemView;

    open spec fn view(&self) -> ThreadItemView {
        match *self {
            ThreadItem::AgentMessage { id, text, phase, memory_citation, delivery, questions } =>
                ThreadItemView::AgentMessage {
                    id: id@,
                    text: text@,
                    phase: opt_text(phase),
                    memory_citation: opt_text(memory_citation),
                    delivery: opt_text(delivery),
                    questions: opt_text(questions),
                },
            ThreadItem::Other { id, body } => ThreadItemView::Other { id: id@, body: body@ },
        }
    }
}

impl Clone for ThreadItem {
    fn clone(&self) -> (copy: Self)
        ensures
            copy == *self,
    {
        match self {
            ThreadItem::AgentMessage { id, text, phase, memory_citation, delivery, questions } =>
                ThreadItem::AgentMessage {
                    id: id.clone(),
                    text: text.clone(),
                    phase: phase.clone(),
                    memory_citation: memory_citation.clone(),
                    delivery: delivery.clone(),
                    questions: questions.clone(),
                },
            ThreadItem::Other { id, body } => ThreadItem::Other {
                id: id.clone(),
                body: body.clone(),
            },
        }
    }
}

impl ThreadItem {
    /// The id of the item.
    pub fn id(&self) -> (id: &String)
        ensures
            id@ == self@.id(),
            match *self {
                ThreadItem::AgentMessage { id: own, .. } => *id == own,
                ThreadItem::Other { id: own, .. } => *id == own,
            },
    {
        match self {
            ThreadItem::AgentMessage { id, .. } => id,
            ThreadItem::Other { id, .. } => id,
        }
    }
}

/// How far a turn has come.
#[derive(Debug, Clone, Copy, PartialEq, Eq, Structural)]
pub enum TurnStatus {
    Completed,
    Interrupted,
    Failed,
    InProgress,
}

/// What kind of error ended a turn. `Other` keeps the name of a kind that makes
/// no difference here.
#[derive(Debug, PartialEq, Eq)]
pub enum CodexErrorInfo {
    MisalignmentPolicyViolation,
    Other(String),
}

impl Clone for CodexErrorInfo {
    fn clone(&self) -> (copy: Self)
        ensures
            copy == *self,
    {
        match self {
            CodexErrorInfo::MisalignmentPolicyViolation =>
                CodexErrorInfo::MisalignmentPolicyViolation,
            CodexErrorInfo::Other(name) => CodexErrorInfo::Other(name.clone()),
        }
    }
}

/// The error that ended a turn.
#[derive(Debug, PartialEq, Eq)]
pub struct TurnError {
    pub message: String,
    pub codex_error_info: Option<CodexErrorInfo>,
}

impl Clone for TurnError {
    fn clone(&self) -> (copy: Self)
        ensures
            copy == *self,
    {
        TurnError {
            message: self.message.clone(),
            codex_error_info: self.codex_error_info.clone(),
        }
    }
}

/// One turn of a thread: the items that it produced, and how it stands.
#[derive(Debug, PartialEq, Eq)]
pub struct Turn {
    pub id: String,
    pub items: Vec<ThreadItem>,
    pub status: TurnStatus,
    pub error: Option<TurnError>,
    pub started_at: Option<i64>,
    pub completed_at: Option<i64>,
    pub duration_ms: Option<i64>,
}

/// A turn as its parts.
pub struct TurnView {
    pub id: Seq<char>,
    pub items: Seq<ThreadItemView>,
    pub status: TurnStatus,
    pub error: Option<TurnError>,
    pub started_at: Option<i64>,
    pub completed_at: Option<i64>,
    pub duration_ms: Option<i64>,
}

impl TurnView {
    /// The turn was stopped for a misalignment policy violation.
    pub open spec fn stopped_as_precaution(self) -> bool {
        self.error is Some && self.error->0.codex_error_info == Some(
            CodexErrorInfo::MisalignmentPolicyViolation,
        )
    }

    /// The turn runs again since `started_at`: what it has produced stays,
    /// what tells of its end is gone.
    pub open spec fn reopened(self, started_at: Option<i64>) -> TurnView {
        TurnView {
            id: self.id,
            items: self.items,
            status: TurnStatus::InProgress,
            error: None,
            started_at,
            completed_at: None,
            duration_ms: None,
        }
    }
}

/// The items of a turn, each by its view.
pub open spec fn items_view(items: Seq<ThreadItem>) -> Seq<ThreadItemView> {
    items.map_values(|item: ThreadItem| item@)
}

impl View for Turn {
    type V = TurnView;

    open spec fn view(&self) -> TurnView {
        TurnView {
            id: self.id@,
            items: items_view(self.items@),
            status: self.status,
            error: self.error,
            started_at: self.started_at,
            completed_at: self.completed_at,
            duration_ms: self.duration_ms,
        }
    }
}

impl Clone for Turn {
    fn clone(&self) -> (copy: Self)
        ensures
            copy@ == self@,
            copy.id == self.id,
            copy.items@ == self.items@,
            copy.status == self.status,
            copy.error == self.error,
            copy.started_at == self.started_at,
            copy.completed_at == self.completed_at,
            copy.duration_ms == self.duration_ms,
    {
        let items = self.items.clone();
        assert(items@ =~= self.items@);
        Turn {
            id: self.id.clone(),
            items,
            status: self.status,
            error: self.error.clone(),
            started_at: self.started_at,
            completed_at: self.completed_at,
            duration_ms: self.duration_ms,
        }
    }
}

impl Turn {
    /// Tells whether the turn was stopped for a misalignment policy violation.
    pub fn stopped_as_precaution(&self) -> (stopped: bool)
        ensures
            stopped == self@.stopped_as_precaution(),
            stopped <==> (self.error is Some && self.error->0.codex_error_info is Some
                && self.error->0.codex_error_info->0 is MisalignmentPolicyViolation),
    {
        match &self.error {
            Some(error) => match &error.codex_error_info {
                Some(CodexErrorInfo::MisalignmentPolicyViolation) => true,
                _ => false,
            },
            None => false,
        }
    }
}

/// A turn counts as stopped as a precaution exactly if it has an error, and that
/// error says that it is a misalignment policy violation. No error, an error of
/// no stated kind and an error of another kind do not count, whatever the status
/// of the turn.
pub proof fn law_only_a_violation_is_a_precaution(turn: TurnView)
    ensures
        turn.error is None ==> !turn.stopped_as_precaution(),
        turn.error is Some && turn.error->0.codex_error_info is None
            ==> !turn.stopped_as_precaution(),
        turn.error is Some && turn.error->0.codex_error_info is Some ==> (
        turn.stopped_as_precaution()
            <==> turn.error->0.codex_error_info->0 is MisalignmentPolicyViolation),
{
}

/// All of an item is seen.
pub proof fn law_item_is_seen_whole(item: ThreadItem)
    ensures
        match item {
            ThreadItem::AgentMessage {
                id,
                text,
                phase,
                memory_citation,
                delivery,
                questions,
            } => {
                &&& item@ is AgentMessage
                &&& item@.id() == id@
                &&& item@->AgentMessage_id == id@
                &&& item@->text == text@
                &&& item@->phase == opt_text(phase)
                &&& item@->memory_citation == opt_text(memory_citation)
                &&& item@->delivery == opt_text(delivery)
                &&& item@->questions == opt_text(questions)
            },
            ThreadItem::Other { id, body } => {
                &&& item@ is Other
                &&& item@.id() == id@
                &&& item@->Other_id == id@
                &&& item@->body == body@
            },
        },
{
}

/// All of a turn is seen, each item in its place.
pub proof fn law_turn_is_seen_whole(turn: Turn)
    ensures
        turn@.id == turn.id@,
        turn@.items.len() == turn.items@.len(),
        forall|i: int| 0 <= i < turn.items@.len() ==> #[trigger] turn@.items[i] == turn.items@[i]@,
        turn@.status == turn.status,
        turn@.error == turn.error,
        turn@.started_at == turn.started_at,
        turn@.completed_at == turn.completed_at,
        turn@.duration_ms == turn.duration_ms,
{
}

/// The items of a sequence are seen one for one, and in their order.
pub proof fn law_items_are_seen_one_for_one(items: Seq<ThreadItem>)
    ensures
        items_view(items).len() == items.len(),
        forall|i: int| 0 <= i < items.len() ==> #[trigger] items_view(items)[i] == items[i]@,
{
}

/// A turn that begins again keeps its id and its items, and nothing of its end.
pub proof fn law_reopened_turn_keeps_only_id_and_items(turn: TurnView, started_at: Option<i64>)
    ensures
        turn.reopened(started_at).id == turn.id,
        turn.reopened(started_at).items == turn.items,
        turn.reopened(started_at).status is InProgress,
        turn.reopened(started_at).error is None,
        turn.reopened(started_at).started_at == started_at,
        turn.reopened(started_at).completed_at is None,
        turn.reopened(started_at).duration_ms is None,
{
}

} // verus!
