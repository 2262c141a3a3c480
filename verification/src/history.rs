//! The turns of a thread, built up from the events of its turns.
use vstd::prelude::*;

use crate::text::{
    decimal, item_id, item_id_text, item_index, law_item_id_is_prefixed_numeral,
    law_item_index_of_item_id, opt_text, parse_item_index,
};
use crate::turn::{
    items_view, ThreadItem, ThreadItemView, Turn, TurnError, TurnStatus, TurnView,
};

verus! {

/// A turn begins, or an unfinished one begins again.
#[derive(Debug, Clone, PartialEq, Eq)]
pub struct TurnStartedEvent {
    pub turn_id: String,
    pub started_at: Option<i64>,
}

/// The agent has said something.
#[derive(Debug, Clone, PartialEq, Eq)]
pub struct AgentMessageEvent {
    pub message: String,
    pub phase: Option<String>,
    pub memory_citation: Option<String>,
    pub delivery: Option<String>,
    pub questions: Option<String>,
}

/// A turn was stopped before it was through.
#[derive(Debug, Clone, PartialEq, Eq)]
pub struct TurnAbortedEvent {
    pub turn_id: Option<String>,
    pub completed_at: Option<i64>,
    pub duration_ms: Option<i64>,
}

/// A turn has come to its end by itself: it is through, or the error has ended
/// it.
#[derive(Debug, Clone, PartialEq, Eq)]
pub struct TurnCompletedEvent {
    pub turn_id: String,
    pub error: Option<TurnError>,
    pub completed_at: Option<i64>,
    pub duration_ms: Option<i64>,
}

/// The events that open a turn, add to it, stop it, and end it.
#[derive(Debug, Clone, PartialEq, Eq)]
pub enum EventMsg {
    TurnStarted(TurnStartedEvent),
    AgentMessage(AgentMessageEvent),
    TurnAborted(TurnAbortedEvent),
    TurnCompleted(TurnCompletedEvent),
}

/// The event tells that a turn runs no more.
pub open spec fn is_terminal(event: EventMsg) -> bool {
    event is TurnAborted || event is TurnCompleted
}

/// Builds up turns from events. The turn that the last events belong to is the
/// active one; a stopped turn stays active until another one begins.
#[derive(Debug)]
pub struct ThreadHistoryBuilder {
    turns: Vec<Turn>,
    current_turn: Option<Turn>,
    last_item_index: u64,
}

/// The state of a builder: the turns before the active one, the active one, and
/// the highest number that an item has.
pub struct HistoryView {
    pub turns: Seq<TurnView>,
    pub current_turn: Option<TurnView>,
    pub last_item_index: nat,
}

/// The turns, each by its view.
pub open spec fn turns_view(turns: Seq<Turn>) -> Seq<TurnView> {
    turns.map_values(|turn: Turn| turn@)
}

/// A turn without items that runs since `started_at`.
pub open spec fn new_turn(id: Seq<char>, started_at: Option<i64>) -> TurnView {
    TurnView {
        id,
        items: Seq::empty(),
        status: TurnStatus::InProgress,
        error: None,
        started_at,
        completed_at: None,
        duration_ms: None,
    }
}

/// A turn that no event has announced: it is named after its first item, and
/// nothing is known to be left of it.
pub open spec fn unannounced_turn(first_item: ThreadItemView) -> TurnView {
    TurnView {
        id: first_item.id(),
        items: seq![first_item],
        status: TurnStatus::Completed,
        error: None,
        started_at: None,
        completed_at: None,
        duration_ms: None,
    }
}

/// The item that an agent message becomes.
pub open spec fn message_item(index: nat, event: AgentMessageEvent) -> ThreadItemView {
    ThreadItemView::AgentMessage {
        id: item_id(index),
        text: event.message@,
        phase: opt_text(event.phase),
        memory_citation: opt_text(event.memory_citation),
        delivery: opt_text(event.delivery),
        questions: opt_text(event.questions),
    }
}

/// The turn as a completion leaves it: failed where there is an error, else
/// completed.
pub open spec fn completed(turn: TurnView, event: TurnCompletedEvent) -> TurnView {
    TurnView {
        status: if event.error is Some {
            TurnStatus::Failed
        } else {
            TurnStatus::Completed
        },
        error: event.error,
        completed_at: event.completed_at,
        duration_ms: event.duration_ms,
        ..turn
    }
}

/// The turn as a stop leaves it.
pub open spec fn interrupted(turn: TurnView, event: TurnAbortedEvent) -> TurnView {
    TurnView {
        status: TurnStatus::Interrupted,
        completed_at: event.completed_at,
        duration_ms: event.duration_ms,
        ..turn
    }
}

/// The highest number among the numbered items; 0 where none is numbered.
pub open spec fn highest_index(items: Seq<ThreadItemView>) -> nat
    decreases items.len(),
{
    if items.len() == 0 {
        0
    } else {
        let before = highest_index(items.drop_last());
        match item_index(items.last().id()) {
            Some(index) if index > before => index,
            _ => before,
        }
    }
}

/// The first of the turns with this id.
pub open spec fn first_with_id(turns: Seq<TurnView>, id: Seq<char>) -> Option<int>
    decreases turns.len(),
{
    if turns.len() == 0 {
        None
    } else {
        match first_with_id(turns.drop_last(), id) {
            Some(at) => Some(at),
            None => if turns.last().id == id {
                Some(turns.len() - 1)
            } else {
                None
            },
        }
    }
}

impl HistoryView {
    /// Nothing has happened.
    pub open spec fn empty() -> HistoryView {
        HistoryView { turns: Seq::empty(), current_turn: None, last_item_index: 0 }
    }

    /// The turn is the active one, and there is no other.
    pub open spec fn of_turn(turn: TurnView) -> HistoryView {
        HistoryView {
            turns: Seq::empty(),
            current_turn: Some(turn),
            last_item_index: highest_index(turn.items),
        }
    }

    /// The active turn has this id.
    pub open spec fn is_active(self, turn_id: Seq<char>) -> bool {
        self.current_turn is Some && self.current_turn->0.id == turn_id
    }

    /// The active turn is under way.
    pub open spec fn is_running(self) -> bool {
        self.current_turn is Some && self.current_turn->0.status == TurnStatus::InProgress
    }

    /// All turns, the active one last.
    pub open spec fn all_turns(self) -> Seq<TurnView> {
        match self.current_turn {
            Some(turn) => self.turns.push(turn),
            None => self.turns,
        }
    }

    /// The active turn begins again if the event names it; else it is put to
    /// the others, and a turn without items begins.
    pub open spec fn after_turn_started(self, event: TurnStartedEvent) -> HistoryView {
        if self.is_active(event.turn_id@) {
            HistoryView {
                current_turn: Some(self.current_turn->0.reopened(event.started_at)),
                ..self
            }
        } else {
            HistoryView {
                turns: self.all_turns(),
                current_turn: Some(new_turn(event.turn_id@, event.started_at)),
                ..self
            }
        }
    }

    /// The message becomes the last item of the active turn, with the next
    /// number.
    pub open spec fn after_agent_message(self, event: AgentMessageEvent) -> HistoryView {
        let item = message_item(self.last_item_index + 1, event);
        HistoryView {
            current_turn: Some(
                match self.current_turn {
                    Some(turn) => TurnView { items: turn.items.push(item), ..turn },
                    None => unannounced_turn(item),
                },
            ),
            last_item_index: self.last_item_index + 1,
            ..self
        }
    }

    /// The turn before the active one that a name means: the first with that
    /// id, unless the active turn has it.
    pub open spec fn earlier_turn(self, name: Option<Seq<char>>) -> Option<int> {
        if name is Some && !self.is_active(name->0) {
            first_with_id(self.turns, name->0)
        } else {
            None
        }
    }

    /// The turn that the name means changes to `change` of it: the active one,
    /// or else the first one before it. A name that none of the turns has, and
    /// no name, mean the active one.
    pub open spec fn change_named(
        self,
        name: Option<Seq<char>>,
        change: spec_fn(TurnView) -> TurnView,
    ) -> HistoryView {
        match (self.earlier_turn(name), self.current_turn) {
            (Some(at), _) => HistoryView {
                turns: self.turns.update(at, change(self.turns[at])),
                ..self
            },
            (None, Some(turn)) => HistoryView { current_turn: Some(change(turn)), ..self },
            (None, None) => self,
        }
    }

    /// The turn that the event means is interrupted.
    pub open spec fn after_turn_aborted(self, event: TurnAbortedEvent) -> HistoryView {
        self.change_named(opt_text(event.turn_id), |turn: TurnView| interrupted(turn, event))
    }

    /// The turn that the event means is over.
    pub open spec fn after_turn_completed(self, event: TurnCompletedEvent) -> HistoryView {
        self.change_named(Some(event.turn_id@), |turn: TurnView| completed(turn, event))
    }

    pub open spec fn after(self, event: EventMsg) -> HistoryView {
        match event {
            EventMsg::TurnStarted(event) => self.after_turn_started(event),
            EventMsg::AgentMessage(event) => self.after_agent_message(event),
            EventMsg::TurnAborted(event) => self.after_turn_aborted(event),
            EventMsg::TurnCompleted(event) => self.after_turn_completed(event),
        }
    }

    /// The counter has a number left for the item that the event adds.
    pub open spec fn has_room_for(self, event: EventMsg) -> bool {
        event is AgentMessage ==> self.last_item_index < u64::MAX
    }
}

impl View for ThreadHistoryBuilder {
    type V = HistoryView;

    closed spec fn view(&self) -> HistoryView {
        HistoryView {
            turns: turns_view(self.turns@),
            current_turn: match self.current_turn {
                Some(turn) => Some(turn@),
                None => None,
            },
            last_item_index: self.last_item_index as nat,
        }
    }
}

fn highest_item_index(items: &Vec<ThreadItem>) -> (highest: u64)
    ensures
        highest == highest_index(items_view(items@)),
{
    let mut highest: u64 = 0;
    let ghost all = items_view(items@);
    assert(all.take(0) =~= Seq::<ThreadItemView>::empty());
    for i in 0..items.len()
        invariant
            all == items_view(items@),
            highest == highest_index(all.take(i as int)),
    {
        assert(all.take(i + 1).drop_last() =~= all.take(i as int));
        assert(all.take(i + 1).last() == items@[i as int]@);
        if let Some(index) = parse_item_index(items[i].id().as_str()) {
            if index > highest {
                highest = index;
            }
        }
    }
    assert(all.take(items.len() as int) =~= all);
    highest
}

impl ThreadHistoryBuilder {
    /// A builder that has seen no event.
    pub fn new() -> (builder: ThreadHistoryBuilder)
        ensures
            builder@ == HistoryView::empty(),
    {
        let builder = ThreadHistoryBuilder {
            turns: Vec::new(),
            current_turn: None,
            last_item_index: 0,
        };
        assert(builder@.turns =~= Seq::<TurnView>::empty());
        builder
    }

    /// A builder that goes on from a turn of the past. The items to come are
    /// numbered after those that the turn holds.
    pub fn from_turn(turn: Turn) -> (builder: ThreadHistoryBuilder)
        ensures
            builder@ == HistoryView::of_turn(turn@),
    {
        let last_item_index: u64 = highest_item_index(&turn.items);
        let builder = ThreadHistoryBuilder {
            turns: Vec::new(),
            current_turn: Some(turn),
            last_item_index,
        };
        assert(builder@.turns =~= Seq::<TurnView>::empty());
        builder
    }

    /// Tells whether the counter has a number left for what the event adds.
    pub fn has_room_for(&self, event: &EventMsg) -> (room: bool)
        ensures
            room == self@.has_room_for(*event),
    {
        match event {
            EventMsg::AgentMessage(_) => self.last_item_index < u64::MAX,
            _ => true,
        }
    }

    /// Takes an event in.
    pub fn handle_event(&mut self, event: &EventMsg)
        requires
            old(self)@.has_room_for(*event),
        ensures
            final(self)@ == old(self)@.after(*event),
    {
        match event {
            EventMsg::TurnStarted(event) => self.handle_turn_started(event),
            EventMsg::AgentMessage(event) => self.handle_agent_message(event),
            EventMsg::TurnAborted(event) => self.handle_turn_aborted(event),
            EventMsg::TurnCompleted(event) => self.handle_turn_completed(event),
        }
    }

    /// A copy of the active turn.
    pub fn active_turn_snapshot(&self) -> (turn: Option<Turn>)
        ensures
            match turn {
                Some(turn) => self@.current_turn == Some(turn@),
                None => self@.current_turn is None,
            },
    {
        match &self.current_turn {
            Some(turn) => Some(turn.clone()),
            None => None,
        }
    }

    /// Tells whether the active turn is under way.
    pub fn is_running(&self) -> (running: bool)
        ensures
            running == self@.is_running(),
    {
        match &self.current_turn {
            Some(turn) => turn.status == TurnStatus::InProgress,
            None => false,
        }
    }

    /// All turns, the active one last.
    pub fn finish(self) -> (turns: Vec<Turn>)
        ensures
            turns_view(turns@) == self@.all_turns(),
    {
        let ghost before = self@;
        let mut turns = self.turns;
        if let Some(turn) = self.current_turn {
            turns.push(turn);
        }
        assert(turns_view(turns@) =~= before.all_turns());
        turns
    }

    fn handle_turn_started(&mut self, event: &TurnStartedEvent)
        ensures
            final(self)@ == old(self)@.after_turn_started(*event),
    {
        let ghost before = self@;
        match self.current_turn.take() {
            Some(turn) => {
                if turn.id == event.turn_id {
                    self.current_turn = Some(
                        Turn {
                            id: turn.id,
                            items: turn.items,
                            status: TurnStatus::InProgress,
                            error: None,
                            started_at: event.started_at,
                            completed_at: None,
                            duration_ms: None,
                        },
                    );
                } else {
                    self.turns.push(turn);
                    self.current_turn = Some(started_turn(event));
                }
            },
            None => {
                self.current_turn = Some(started_turn(event));
            },
        }
        assert(self@.turns =~= before.after_turn_started(*event).turns);
    }

    fn handle_agent_message(&mut self, event: &AgentMessageEvent)
        requires
            old(self)@.last_item_index < u64::MAX,
        ensures
            final(self)@ == old(self)@.after_agent_message(*event),
    {
        let ghost before = self@;
        self.last_item_index = self.last_item_index + 1;
        let id = item_id_text(self.last_item_index);
        let item = ThreadItem::AgentMessage {
            id: id.clone(),
            text: event.message.clone(),
            phase: event.phase.clone(),
            memory_citation: event.memory_citation.clone(),
            delivery: event.delivery.clone(),
            questions: event.questions.clone(),
        };
        let ghost added = item@;
        assert(added == message_item(before.last_item_index + 1, *event));
        let mut turn = match self.current_turn.take() {
            Some(turn) => turn,
            None => Turn {
                id,
                items: Vec::new(),
                status: TurnStatus::Completed,
                error: None,
                started_at: None,
                completed_at: None,
                duration_ms: None,
            },
        };
        let ghost held = items_view(turn.items@);
        turn.items.push(item);
        assert(items_view(turn.items@) =~= held.push(added));
        self.current_turn = Some(turn);
        proof {
            if before.current_turn is None {
                assert(held.push(added) =~= seq![added]);
            }
        }
    }

    fn handle_turn_aborted(&mut self, event: &TurnAbortedEvent)
        ensures
            final(self)@ == old(self)@.after_turn_aborted(*event),
    {
        let ghost before = self@;
        if let Some(turn_id) = &event.turn_id {
            if let Some(at) = self.earlier_turn(turn_id) {
                let turn = self.turns.remove(at);
                self.turns.insert(at, interrupt(turn, event));
                assert(self@.turns =~= before.after_turn_aborted(*event).turns);
                return;
            }
        }
        if let Some(turn) = self.current_turn.take() {
            self.current_turn = Some(interrupt(turn, event));
        }
    }

    fn handle_turn_completed(&mut self, event: &TurnCompletedEvent)
        ensures
            final(self)@ == old(self)@.after_turn_completed(*event),
    {
        let ghost before = self@;
        if let Some(at) = self.earlier_turn(&event.turn_id) {
            let turn = self.turns.remove(at);
            self.turns.insert(at, complete(turn, event));
            assert(self@.turns =~= before.after_turn_completed(*event).turns);
            return;
        }
        if let Some(turn) = self.current_turn.take() {
            self.current_turn = Some(complete(turn, event));
        }
    }

    fn earlier_turn(&self, turn_id: &String) -> (position: Option<usize>)
        ensures
            match position {
                Some(at) => self@.earlier_turn(Some(turn_id@)) == Some(at as int) && at
                    < self.turns@.len(),
                None => self@.earlier_turn(Some(turn_id@)) is None,
            },
    {
        if let Some(turn) = &self.current_turn {
            if turn.id == *turn_id {
                return None;
            }
        }
        position_of(&self.turns, turn_id)
    }
}

fn started_turn(event: &TurnStartedEvent) -> (turn: Turn)
    ensures
        turn@ == new_turn(event.turn_id@, event.started_at),
{
    let turn = Turn {
        id: event.turn_id.clone(),
        items: Vec::new(),
        status: TurnStatus::InProgress,
        error: None,
        started_at: event.started_at,
        completed_at: None,
        duration_ms: None,
    };
    assert(turn@.items =~= Seq::<ThreadItemView>::empty());
    turn
}

fn interrupt(turn: Turn, event: &TurnAbortedEvent) -> (stopped: Turn)
    ensures
        stopped@ == interrupted(turn@, *event),
{
    let mut stopped = turn;
    stopped.status = TurnStatus::Interrupted;
    stopped.completed_at = event.completed_at;
    stopped.duration_ms = event.duration_ms;
    stopped
}

fn complete(turn: Turn, event: &TurnCompletedEvent) -> (over: Turn)
    ensures
        over@ == completed(turn@, *event),
{
    let mut over = turn;
    over.status = match &event.error {
        Some(_) => TurnStatus::Failed,
        None => TurnStatus::Completed,
    };
    over.error = event.error.clone();
    over.completed_at = event.completed_at;
    over.duration_ms = event.duration_ms;
    over
}

fn position_of(turns: &Vec<Turn>, id: &String) -> (position: Option<usize>)
    ensures
        match position {
            Some(at) => first_with_id(turns_view(turns@), id@) == Some(at as int) && at
                < turns@.len(),
            None => first_with_id(turns_view(turns@), id@) is None,
        },
{
    let ghost all = turns_view(turns@);
    assert(all.take(0) =~= Seq::<TurnView>::empty());
    for i in 0..turns.len()
        invariant
            all == turns_view(turns@),
            first_with_id(all.take(i as int), id@) is None,
    {
        assert(all.take(i + 1).drop_last() =~= all.take(i as int));
        assert(all.take(i + 1).last() == turns@[i as int]@);
        if turns[i].id == *id {
            proof {
                assert(first_with_id(all.take(i + 1), id@) == Some(i as int));
                lemma_first_with_id_stays(all, id@, i + 1);
            }
            return Some(i);
        }
    }
    assert(all.take(turns.len() as int) =~= all);
    None
}

/// What is found among the first turns is found among all of them.
proof fn lemma_first_with_id_stays(turns: Seq<TurnView>, id: Seq<char>, end: int)
    requires
        0 <= end <= turns.len(),
        first_with_id(turns.take(end), id) is Some,
    ensures
        first_with_id(turns, id) == first_with_id(turns.take(end), id),
    decreases turns.len(),
{
    if end == turns.len() {
        assert(turns.take(end) =~= turns);
    } else {
        assert(turns.drop_last().take(end) =~= turns.take(end));
        lemma_first_with_id_stays(turns.drop_last(), id, end);
    }
}

/// No item of the turn has a number above `bound`.
pub open spec fn numbers_within(turn: TurnView, bound: nat) -> bool {
    forall|i: int|
        0 <= i < turn.items.len() ==> match #[trigger] item_index(turn.items[i].id()) {
            Some(index) => index <= bound,
            None => true,
        }
}

impl HistoryView {
    /// The counter is at least at every number that an item has.
    pub open spec fn counter_covers_items(self) -> bool {
        forall|k: int|
            0 <= k < self.all_turns().len() ==> numbers_within(
                #[trigger] self.all_turns()[k],
                self.last_item_index,
            )
    }
}

/// A recovered turn that begins again keeps all its items in order, and loses
/// its status, its error and the times of its end. It stays one turn.
pub proof fn law_recovery_reuses_items_and_clears_terminal_state(
    turn: TurnView,
    event: TurnStartedEvent,
)
    requires
        event.turn_id@ == turn.id,
    ensures
        ({
            let history = HistoryView::of_turn(turn).after(EventMsg::TurnStarted(event));
            let active = history.current_turn->0;
            &&& history.current_turn is Some
            &&& history.all_turns() == seq![active]
            &&& active.id == turn.id
            &&& active.items == turn.items
            &&& active.status == TurnStatus::InProgress
            &&& active.error is None
            &&& active.started_at == event.started_at
            &&& active.completed_at is None
            &&& active.duration_ms is None
            &&& history.last_item_index == highest_index(turn.items)
        }),
{
    let history = HistoryView::of_turn(turn).after(EventMsg::TurnStarted(event));
    assert(history.all_turns() =~= seq![history.current_turn->0]);
}

/// A message of the new attempt follows the recovered items.
pub proof fn law_resumed_progress_follows_recovered_items(
    turn: TurnView,
    started: TurnStartedEvent,
    message: AgentMessageEvent,
)
    requires
        started.turn_id@ == turn.id,
    ensures
        HistoryView::of_turn(turn).after(EventMsg::TurnStarted(started)).after(
            EventMsg::AgentMessage(message),
        ).all_turns() == seq![
            TurnView {
                items: turn.items.push(message_item(highest_index(turn.items) + 1, message)),
                ..turn.reopened(started.started_at)
            },
        ],
{
    let history = HistoryView::of_turn(turn).after(EventMsg::TurnStarted(started)).after(
        EventMsg::AgentMessage(message),
    );
    assert(history.all_turns() =~= seq![history.current_turn->0]);
}

/// Begun again, a turn is the same whether or not it ended before, and however
/// it ended: the restart takes back all that the end did.
pub proof fn law_restart_takes_back_end(
    history: HistoryView,
    ended: EventMsg,
    started: TurnStartedEvent,
)
    requires
        history.is_active(started.turn_id@),
        match ended {
            EventMsg::TurnAborted(event) => event.turn_id is Some ==> event.turn_id->0@
                == started.turn_id@,
            EventMsg::TurnCompleted(event) => event.turn_id@ == started.turn_id@,
            _ => false,
        },
    ensures
        history.after(ended).after(EventMsg::TurnStarted(started)) == history.after(
            EventMsg::TurnStarted(started),
        ),
{
}

/// Another attempt at the active turn adds no turn.
pub proof fn law_attempts_share_one_turn(history: HistoryView, started: TurnStartedEvent)
    requires
        history.is_active(started.turn_id@),
    ensures
        history.after(EventMsg::TurnStarted(started)).turns == history.turns,
        history.after(EventMsg::TurnStarted(started)).all_turns().len()
            == history.all_turns().len(),
        history.after(EventMsg::TurnStarted(started)).current_turn->0.items
            == history.current_turn->0.items,
{
}

/// No event takes an item away or changes one, and no event takes a turn away.
pub proof fn law_events_keep_items(history: HistoryView, event: EventMsg, k: int)
    requires
        0 <= k < history.all_turns().len(),
    ensures
        k < history.after(event).all_turns().len(),
        history.after(event).all_turns()[k].id == history.all_turns()[k].id,
        history.all_turns()[k].items.is_prefix_of(history.after(event).all_turns()[k].items),
{
    match event {
        EventMsg::TurnAborted(aborted) => {
            if aborted.turn_id is Some {
                lemma_first_with_id_names(history.turns, aborted.turn_id->0@);
            }
        },
        EventMsg::TurnCompleted(completed) => {
            lemma_first_with_id_names(history.turns, completed.turn_id@);
        },
        _ => {},
    }
}

/// The first turn with an id is one of the turns and has that id.
proof fn lemma_first_with_id_names(turns: Seq<TurnView>, id: Seq<char>)
    ensures
        first_with_id(turns, id) matches Some(at) ==> 0 <= at < turns.len() && turns[at].id == id,
    decreases turns.len(),
{
    if turns.len() > 0 {
        lemma_first_with_id_names(turns.drop_last(), id);
    }
}

/// The highest number among the items is at least each of their numbers.
proof fn lemma_highest_index_bounds(items: Seq<ThreadItemView>, i: int)
    requires
        0 <= i < items.len(),
    ensures
        item_index(items[i].id()) matches Some(index) ==> index <= highest_index(items),
    decreases items.len(),
{
    if i < items.len() - 1 {
        lemma_highest_index_bounds(items.drop_last(), i);
    }
}

/// The counter covers the items of a fresh builder and of a builder that goes
/// on from a turn.
pub proof fn law_counter_covers_items_from_the_start(turn: TurnView)
    ensures
        HistoryView::empty().counter_covers_items(),
        HistoryView::of_turn(turn).counter_covers_items(),
{
    assert forall|i: int| 0 <= i < turn.items.len() implies match #[trigger] item_index(
        turn.items[i].id(),
    ) {
        Some(index) => index <= highest_index(turn.items),
        None => true,
    } by {
        lemma_highest_index_bounds(turn.items, i);
    }
}

/// Every event leaves the counter at or above the number of every item.
pub proof fn law_events_keep_counter_above_items(history: HistoryView, event: EventMsg)
    requires
        history.counter_covers_items(),
        history.has_room_for(event),
    ensures
        history.after(event).counter_covers_items(),
{
    let next = history.after(event);
    let bound = next.last_item_index;
    match event {
        EventMsg::TurnAborted(aborted) => {
            if aborted.turn_id is Some {
                lemma_first_with_id_names(history.turns, aborted.turn_id->0@);
            }
        },
        EventMsg::TurnCompleted(completed) => {
            lemma_first_with_id_names(history.turns, completed.turn_id@);
        },
        _ => {},
    }
    if event is AgentMessage {
        law_item_index_of_item_id(history.last_item_index + 1);
    }
    assert forall|k: int| 0 <= k < next.all_turns().len() implies numbers_within(
        #[trigger] next.all_turns()[k],
        bound,
    ) by {
        let turn = next.all_turns()[k];
        if k < history.all_turns().len() {
            let earlier = history.all_turns()[k];
            law_events_keep_items(history, event, k);
            assert(numbers_within(earlier, history.last_item_index));
            assert forall|i: int| 0 <= i < turn.items.len() implies match #[trigger] item_index(
                turn.items[i].id(),
            ) {
                Some(index) => index <= bound,
                None => true,
            } by {
                if i < earlier.items.len() {
                    assert(turn.items[i] == earlier.items[i]);
                    assert(item_index(earlier.items[i].id()) matches Some(index) ==> index
                        <= history.last_item_index);
                }
            }
        }
    }
}

/// The id of the item that a message becomes is not yet taken, neither by an
/// item that the builder has added nor by one that was there before.
pub proof fn law_message_ids_are_fresh(
    history: HistoryView,
    message: AgentMessageEvent,
    k: int,
    i: int,
)
    requires
        history.counter_covers_items(),
        history.has_room_for(EventMsg::AgentMessage(message)),
        0 <= k < history.all_turns().len(),
        0 <= i < history.all_turns()[k].items.len(),
    ensures
        history.all_turns()[k].items[i].id() != message_item(
            history.last_item_index + 1,
            message,
        ).id(),
{
    law_item_index_of_item_id(history.last_item_index + 1);
    let turn = history.all_turns()[k];
    assert(numbers_within(turn, history.last_item_index));
    assert(item_index(turn.items[i].id()) matches Some(index) ==> index <= history.last_item_index);
}

/// A message adds one item to the active turn, behind all that are there: the
/// message itself, under the next number. Nothing else of the turn changes, and
/// no other turn does. Where no turn is active the message opens one.
pub proof fn law_message_becomes_the_last_item(history: HistoryView, event: AgentMessageEvent)
    ensures
        ({
            let next = history.after(EventMsg::AgentMessage(event));
            let turn = next.current_turn->0;
            let item = turn.items.last();
            &&& next.current_turn is Some
            &&& next.turns == history.turns
            &&& next.last_item_index == history.last_item_index + 1
            &&& item is AgentMessage
            &&& item.id() == "item-"@ + decimal(history.last_item_index + 1)
            &&& item->text == event.message@
            &&& item->phase == opt_text(event.phase)
            &&& item->memory_citation == opt_text(event.memory_citation)
            &&& item->delivery == opt_text(event.delivery)
            &&& item->questions == opt_text(event.questions)
            &&& history.current_turn matches Some(before) ==> {
                &&& turn.items.len() == before.items.len() + 1
                &&& forall|i: int|
                    0 <= i < before.items.len() ==> #[trigger] turn.items[i] == before.items[i]
                &&& turn.id == before.id
                &&& turn.status == before.status
                &&& turn.error == before.error
                &&& turn.started_at == before.started_at
                &&& turn.completed_at == before.completed_at
                &&& turn.duration_ms == before.duration_ms
            }
            &&& history.current_turn is None ==> {
                &&& turn.items.len() == 1
                &&& turn.id == item.id()
                &&& turn.status is Completed
                &&& turn.error is None
                &&& turn.started_at is None
                &&& turn.completed_at is None
                &&& turn.duration_ms is None
            }
        }),
{
    law_item_id_is_prefixed_numeral(history.last_item_index + 1);
}

/// A turn that begins while another one, or none, is active begins without
/// items and in progress; the other one is put behind the turns before it, as
/// it is.
pub proof fn law_another_turn_begins_empty(history: HistoryView, event: TurnStartedEvent)
    requires
        history.current_turn is None || history.current_turn->0.id != event.turn_id@,
    ensures
        ({
            let next = history.after(EventMsg::TurnStarted(event));
            let turn = next.current_turn->0;
            &&& next.current_turn is Some
            &&& turn.id == event.turn_id@
            &&& turn.items.len() == 0
            &&& turn.status is InProgress
            &&& turn.error is None
            &&& turn.started_at == event.started_at
            &&& turn.completed_at is None
            &&& turn.duration_ms is None
            &&& next.last_item_index == history.last_item_index
            &&& next.turns == match history.current_turn {
                Some(before) => history.turns.push(before),
                None => history.turns,
            }
        }),
{
}

/// The active turn that begins again keeps its id and its items, and loses its
/// end; the turns before it, and the counter, stay.
pub proof fn law_active_turn_begins_again(history: HistoryView, event: TurnStartedEvent)
    requires
        history.current_turn is Some,
        history.current_turn->0.id == event.turn_id@,
    ensures
        ({
            let next = history.after(EventMsg::TurnStarted(event));
            let turn = next.current_turn->0;
            &&& next.current_turn is Some
            &&& turn.id == event.turn_id@
            &&& turn.items == history.current_turn->0.items
            &&& turn.status is InProgress
            &&& turn.error is None
            &&& turn.started_at == event.started_at
            &&& turn.completed_at is None
            &&& turn.duration_ms is None
            &&& next.turns == history.turns
            &&& next.last_item_index == history.last_item_index
        }),
{
}

/// A completion of the active turn makes it failed exactly if the event has an
/// error, of whatever kind, and completed exactly if it has none. The error of
/// the turn is that of the event. The items stay.
pub proof fn law_completion_fails_exactly_with_an_error(
    history: HistoryView,
    event: TurnCompletedEvent,
)
    requires
        history.current_turn is Some,
        history.current_turn->0.id == event.turn_id@,
    ensures
        ({
            let next = history.after(EventMsg::TurnCompleted(event));
            let before = history.current_turn->0;
            let turn = next.current_turn->0;
            &&& next.current_turn is Some
            &&& turn.status is Failed <==> event.error is Some
            &&& turn.status is Completed <==> event.error is None
            &&& turn.error == event.error
            &&& turn.completed_at == event.completed_at
            &&& turn.duration_ms == event.duration_ms
            &&& turn.id == before.id
            &&& turn.items == before.items
            &&& turn.started_at == before.started_at
            &&& next.turns == history.turns
            &&& next.last_item_index == history.last_item_index
        }),
{
}

/// A stop of the active turn makes it interrupted, from the time of the event.
/// The items, and an error, stay.
pub proof fn law_stop_interrupts_the_active_turn(history: HistoryView, event: TurnAbortedEvent)
    requires
        history.current_turn is Some,
        event.turn_id is None || event.turn_id->0@ == history.current_turn->0.id,
    ensures
        ({
            let next = history.after(EventMsg::TurnAborted(event));
            let before = history.current_turn->0;
            let turn = next.current_turn->0;
            &&& next.current_turn is Some
            &&& turn.status is Interrupted
            &&& turn.completed_at == event.completed_at
            &&& turn.duration_ms == event.duration_ms
            &&& turn.id == before.id
            &&& turn.items == before.items
            &&& turn.error == before.error
            &&& turn.started_at == before.started_at
            &&& next.turns == history.turns
            &&& next.last_item_index == history.last_item_index
        }),
{
}

/// The turn that is found under an id has it, and none before it does; none is
/// found exactly if none has it.
pub proof fn law_first_with_id_is_the_first(turns: Seq<TurnView>, id: Seq<char>)
    ensures
        first_with_id(turns, id) is None <==> forall|k: int|
            0 <= k < turns.len() ==> (#[trigger] turns[k]).id != id,
        first_with_id(turns, id) matches Some(at) ==> {
            &&& 0 <= at < turns.len()
            &&& turns[at].id == id
            &&& forall|k: int| 0 <= k < at ==> (#[trigger] turns[k]).id != id
        },
    decreases turns.len(),
{
    if turns.len() > 0 {
        let fewer = turns.drop_last();
        law_first_with_id_is_the_first(fewer, id);
        assert forall|k: int| 0 <= k < fewer.len() implies #[trigger] turns[k] == fewer[k] by {}
        if first_with_id(turns, id) is None {
            assert forall|k: int| 0 <= k < turns.len() implies (#[trigger] turns[k]).id != id by {
                if k < fewer.len() {
                    assert(fewer[k].id != id);
                }
            }
        }
        if first_with_id(fewer, id) is None {
            assert forall|k: int| 0 <= k < fewer.len() implies (#[trigger] turns[k]).id != id by {
                assert(fewer[k].id != id);
            }
        } else {
            let at = first_with_id(fewer, id)->0;
            assert(turns[at].id == id);
        }
    }
}

/// A stop or a completion that names a turn before the active one changes the
/// end of that turn alone.
pub proof fn law_end_reaches_an_earlier_turn(
    history: HistoryView,
    aborted: TurnAbortedEvent,
    completed: TurnCompletedEvent,
    at: int,
)
    requires
        0 <= at < history.turns.len(),
        forall|k: int|
            0 <= k < at ==> (#[trigger] history.turns[k]).id != history.turns[at].id,
        history.current_turn is None || history.current_turn->0.id != history.turns[at].id,
        aborted.turn_id is Some,
        aborted.turn_id->0@ == history.turns[at].id,
        completed.turn_id@ == history.turns[at].id,
    ensures
        ({
            let before = history.turns[at];
            let stopped = history.after(EventMsg::TurnAborted(aborted));
            let over = history.after(EventMsg::TurnCompleted(completed));
            &&& stopped.turns.len() == history.turns.len()
            &&& over.turns.len() == history.turns.len()
            &&& forall|k: int|
                0 <= k < history.turns.len() && k != at ==> #[trigger] stopped.turns[k]
                    == history.turns[k]
            &&& forall|k: int|
                0 <= k < history.turns.len() && k != at ==> #[trigger] over.turns[k]
                    == history.turns[k]
            &&& stopped.current_turn == history.current_turn
            &&& over.current_turn == history.current_turn
            &&& stopped.last_item_index == history.last_item_index
            &&& over.last_item_index == history.last_item_index
            &&& stopped.turns[at].status is Interrupted
            &&& stopped.turns[at].completed_at == aborted.completed_at
            &&& stopped.turns[at].duration_ms == aborted.duration_ms
            &&& stopped.turns[at].error == before.error
            &&& over.turns[at].status is Failed <==> completed.error is Some
            &&& over.turns[at].status is Completed <==> completed.error is None
            &&& over.turns[at].error == completed.error
            &&& over.turns[at].completed_at == completed.completed_at
            &&& over.turns[at].duration_ms == completed.duration_ms
            &&& stopped.turns[at].id == before.id
            &&& stopped.turns[at].items == before.items
            &&& stopped.turns[at].started_at == before.started_at
            &&& over.turns[at].id == before.id
            &&& over.turns[at].items == before.items
            &&& over.turns[at].started_at == before.started_at
        }),
{
    law_first_with_id_is_the_first(history.turns, history.turns[at].id);
}

/// A stop or a completion that names none of the turns is taken for one of the
/// active turn; without an active turn it changes nothing.
pub proof fn law_end_of_an_unknown_turn(
    history: HistoryView,
    aborted: TurnAbortedEvent,
    completed: TurnCompletedEvent,
)
    requires
        forall|k: int|
            0 <= k < history.turns.len() ==> (#[trigger] history.turns[k]).id
                != completed.turn_id@,
        aborted.turn_id is Some ==> aborted.turn_id->0@ == completed.turn_id@,
    ensures
        ({
            let stopped = history.after(EventMsg::TurnAborted(aborted));
            let over = history.after(EventMsg::TurnCompleted(completed));
            &&& stopped.turns == history.turns
            &&& over.turns == history.turns
            &&& stopped.last_item_index == history.last_item_index
            &&& over.last_item_index == history.last_item_index
            &&& history.current_turn is None ==> stopped.current_turn is None
                && over.current_turn is None
            &&& history.current_turn matches Some(before) ==> {
                &&& stopped.current_turn is Some
                &&& over.current_turn is Some
                &&& stopped.current_turn->0.status is Interrupted
                &&& stopped.current_turn->0.error == before.error
                &&& stopped.current_turn->0.completed_at == aborted.completed_at
                &&& stopped.current_turn->0.duration_ms == aborted.duration_ms
                &&& over.current_turn->0.status is Failed <==> completed.error is Some
                &&& over.current_turn->0.status is Completed <==> completed.error is None
                &&& over.current_turn->0.error == completed.error
                &&& over.current_turn->0.completed_at == completed.completed_at
                &&& over.current_turn->0.duration_ms == completed.duration_ms
                &&& stopped.current_turn->0.id == before.id
                &&& stopped.current_turn->0.items == before.items
                &&& stopped.current_turn->0.started_at == before.started_at
                &&& over.current_turn->0.id == before.id
                &&& over.current_turn->0.items == before.items
                &&& over.current_turn->0.started_at == before.started_at
            }
        }),
{
    law_first_with_id_is_the_first(history.turns, completed.turn_id@);
}

/// The counter of a builder that goes on from a turn is at the highest number of
/// the items, and at 0 where no item has one.
pub proof fn law_counter_starts_at_the_highest_number(turn: TurnView)
    ensures
        ({
            let counter = HistoryView::of_turn(turn).last_item_index;
            &&& forall|i: int|
                #![trigger turn.items[i]]
                0 <= i < turn.items.len() && item_index(turn.items[i].id()) is Some
                    ==> item_index(turn.items[i].id())->0 <= counter
            &&& counter > 0 ==> exists|i: int|
                #![trigger turn.items[i]]
                0 <= i < turn.items.len() && item_index(turn.items[i].id()) == Some(counter)
        }),
{
    assert forall|i: int|
        #![trigger turn.items[i]]
        0 <= i < turn.items.len() && item_index(turn.items[i].id())
            is Some implies item_index(turn.items[i].id())->0 <= highest_index(turn.items) by {
        lemma_highest_index_bounds(turn.items, i);
    }
    lemma_highest_index_is_there(turn.items);
}

/// The highest number is that of an item, unless it is 0.
proof fn lemma_highest_index_is_there(items: Seq<ThreadItemView>)
    ensures
        highest_index(items) > 0 ==> exists|i: int|
            #![trigger items[i]]
            0 <= i < items.len() && item_index(items[i].id()) == Some(highest_index(items)),
    decreases items.len(),
{
    if items.len() > 0 && highest_index(items) > 0 {
        let fewer = items.drop_last();
        lemma_highest_index_is_there(fewer);
        if highest_index(items) == highest_index(fewer) {
            let i = choose|i: int|
                #![trigger fewer[i]]
                0 <= i < fewer.len() && item_index(fewer[i].id()) == Some(highest_index(fewer));
            assert(items[i] == fewer[i]);
        } else {
            assert(item_index(items[items.len() - 1].id()) == Some(highest_index(items)));
        }
    }
}

/// A builder begins with nothing, or with the turn that it goes on from and
/// nothing else.
pub proof fn law_builders_begin_bare(turn: TurnView)
    ensures
        HistoryView::empty().turns.len() == 0,
        HistoryView::empty().current_turn is None,
        HistoryView::empty().last_item_index == 0,
        HistoryView::of_turn(turn).turns.len() == 0,
        HistoryView::of_turn(turn).current_turn == Some(turn),
{
}

/// All turns of a history are those before the active one, in order, and then
/// the active one where there is one.
pub proof fn law_active_turn_is_the_last(history: HistoryView)
    ensures
        history.all_turns().len() == history.turns.len() + if history.current_turn is Some {
            1int
        } else {
            0
        },
        forall|k: int|
            0 <= k < history.turns.len() ==> #[trigger] history.all_turns()[k] == history.turns[k],
        history.current_turn is Some ==> history.all_turns().last() == history.current_turn->0,
{
}

/// Only a message needs a number, and only a full counter has none left.
pub proof fn law_only_a_full_counter_has_no_room(history: HistoryView, event: EventMsg)
    ensures
        history.has_room_for(event) <==> !(event is AgentMessage) || history.last_item_index
            < 0xffff_ffff_ffff_ffff,
{
}

/// A history runs exactly if its active turn is in progress, and a turn runs no
/// more exactly from a stop or a completion on.
pub proof fn law_running_and_ending(history: HistoryView, event: EventMsg)
    ensures
        history.is_running() <==> history.current_turn is Some && history.current_turn->0.status
            is InProgress,
        is_terminal(event) <==> event is TurnAborted || event is TurnCompleted,
{
}

/// Turns are seen one for one, and in their order.
pub proof fn law_turns_are_seen_one_for_one(turns: Seq<Turn>)
    ensures
        turns_view(turns).len() == turns.len(),
        forall|i: int| 0 <= i < turns.len() ==> #[trigger] turns_view(turns)[i] == turns[i]@,
{
}

/// All of a builder is seen.
proof fn law_builder_is_seen_whole(builder: ThreadHistoryBuilder)
    ensures
        builder@.turns.len() == builder.turns@.len(),
        forall|i: int|
            0 <= i < builder.turns@.len() ==> #[trigger] builder@.turns[i] == builder.turns@[i]@,
        builder.current_turn is Some <==> builder@.current_turn is Some,
        builder.current_turn is Some ==> builder@.current_turn->0 == builder.current_turn->0@,
        builder@.last_item_index == builder.last_item_index,
{
}

} // verus!
