//! The live history of a thread, and the recovered history that waits to take
//! its place.
use vstd::prelude::*;

use crate::history::{
    is_terminal, law_active_turn_begins_again, law_completion_fails_exactly_with_an_error,
    law_first_with_id_is_the_first, law_message_becomes_the_last_item,
    law_stop_interrupts_the_active_turn, AgentMessageEvent, EventMsg, HistoryView,
    ThreadHistoryBuilder, TurnStartedEvent,
};
use crate::text::decimal;
use crate::turn::TurnView;

verus! {

/// What a thread remembers of the turn that runs. A recovered history waits
/// until the turn begins again: events that are still queued from the attempt
/// before belong to the live history, and cannot touch the recovered one.
#[derive(Debug)]
pub struct ThreadState {
    pending_recovery_history: Option<ThreadHistoryBuilder>,
    current_turn_history: ThreadHistoryBuilder,
}

/// A thread state as its two histories.
pub struct ThreadStateView {
    pub pending_recovery_history: Option<HistoryView>,
    pub current_turn_history: HistoryView,
}

impl ThreadStateView {
    /// The history that an event goes to: the waiting one where the event
    /// begins a turn, else the live one.
    pub open spec fn receiver(self, event: EventMsg) -> HistoryView {
        if event is TurnStarted && self.pending_recovery_history is Some {
            self.pending_recovery_history->0
        } else {
            self.current_turn_history
        }
    }

    /// The receiver takes the event in and is the live history from now on. A
    /// stop or an end that leaves no turn running empties it.
    pub open spec fn after(self, event: EventMsg) -> ThreadStateView {
        let history = self.receiver(event).after(event);
        ThreadStateView {
            pending_recovery_history: if event is TurnStarted {
                None
            } else {
                self.pending_recovery_history
            },
            current_turn_history: if is_terminal(event) && !history.is_running() {
                HistoryView::empty()
            } else {
                history
            },
        }
    }

    /// The state after the events, in their order.
    pub open spec fn after_all(self, events: Seq<EventMsg>) -> ThreadStateView
        decreases events.len(),
    {
        if events.len() == 0 {
            self
        } else {
            self.after_all(events.drop_last()).after(events.last())
        }
    }
}

impl View for ThreadState {
    type V = ThreadStateView;

    closed spec fn view(&self) -> ThreadStateView {
        ThreadStateView {
            pending_recovery_history: match self.pending_recovery_history {
                Some(history) => Some(history@),
                None => None,
            },
            current_turn_history: self.current_turn_history@,
        }
    }
}

impl ThreadState {
    /// Nothing runs and nothing waits.
    pub fn new() -> (state: ThreadState)
        ensures
            state@.pending_recovery_history is None,
            state@.current_turn_history == HistoryView::empty(),
    {
        ThreadState {
            pending_recovery_history: None,
            current_turn_history: ThreadHistoryBuilder::new(),
        }
    }

    /// Lets a recovered history wait; `None` drops the one that waits.
    pub fn set_pending_recovery_history(&mut self, history: Option<ThreadHistoryBuilder>)
        ensures
            final(self)@ == (ThreadStateView {
                pending_recovery_history: match history {
                    Some(history) => Some(history@),
                    None => None,
                },
                ..old(self)@
            }),
    {
        self.pending_recovery_history = history;
    }

    /// Tells whether the history that receives the event can number what the
    /// event adds.
    pub fn has_room_for(&self, event: &EventMsg) -> (room: bool)
        ensures
            room == self@.receiver(*event).has_room_for(*event),
    {
        self.current_turn_history.has_room_for(event)
    }

    /// Takes an event of the thread in.
    pub fn track_current_turn_event(&mut self, event: &EventMsg)
        requires
            old(self)@.receiver(*event).has_room_for(*event),
        ensures
            final(self)@ == old(self)@.after(*event),
    {
        if let EventMsg::TurnStarted(_) = event {
            if let Some(history) = self.pending_recovery_history.take() {
                self.current_turn_history = history;
            }
        }
        self.current_turn_history.handle_event(event);
        let terminal = match event {
            EventMsg::TurnAborted(_) | EventMsg::TurnCompleted(_) => true,
            EventMsg::TurnStarted(_) | EventMsg::AgentMessage(_) => false,
        };
        if terminal && !self.current_turn_history.is_running() {
            self.current_turn_history = ThreadHistoryBuilder::new();
        }
    }

    /// The live history.
    pub fn current_turn_history(&self) -> (history: &ThreadHistoryBuilder)
        ensures
            history@ == self@.current_turn_history,
    {
        &self.current_turn_history
    }
}

/// Events that begin no turn, a queued stop, failure or completion among them,
/// leave the waiting history as it is.
pub proof fn law_queued_events_keep_pending_recovery(
    state: ThreadStateView,
    events: Seq<EventMsg>,
)
    requires
        forall|i: int| 0 <= i < events.len() ==> !(#[trigger] events[i] is TurnStarted),
    ensures
        state.after_all(events).pending_recovery_history == state.pending_recovery_history,
    decreases events.len(),
{
    if events.len() > 0 {
        assert forall|i: int| 0 <= i < events.drop_last().len() implies !(
        #[trigger] events.drop_last()[i] is TurnStarted) by {
            assert(events.drop_last()[i] == events[i]);
        }
        law_queued_events_keep_pending_recovery(state, events.drop_last());
    }
}

/// Whatever is queued before the new attempt begins, the attempt begins with
/// all the recovered items, and with no trace of how the one before ended.
pub proof fn law_new_attempt_begins_with_recovered_items(
    state: ThreadStateView,
    turn: TurnView,
    queued: Seq<EventMsg>,
    started: TurnStartedEvent,
)
    requires
        state.pending_recovery_history == Some(HistoryView::of_turn(turn)),
        forall|i: int| 0 <= i < queued.len() ==> !(#[trigger] queued[i] is TurnStarted),
        started.turn_id@ == turn.id,
    ensures
        ({
            let next = state.after_all(queued).after(EventMsg::TurnStarted(started));
            &&& next.pending_recovery_history is None
            &&& next.current_turn_history.current_turn == Some(turn.reopened(started.started_at))
            &&& next.current_turn_history.all_turns() == seq![turn.reopened(started.started_at)]
        }),
{
    law_queued_events_keep_pending_recovery(state, queued);
    let next = state.after_all(queued).after(EventMsg::TurnStarted(started));
    assert(next.current_turn_history.all_turns() =~= seq![turn.reopened(started.started_at)]);
}

/// A message goes to the live history, and becomes the last item of its turn:
/// all that was there stays before it. What waits is not touched.
pub proof fn law_live_turn_takes_messages_in(state: ThreadStateView, message: AgentMessageEvent)
    requires
        state.current_turn_history.current_turn is Some,
    ensures
        ({
            let next = state.after(EventMsg::AgentMessage(message));
            let before = state.current_turn_history.current_turn->0;
            let turn = next.current_turn_history.current_turn->0;
            &&& next.pending_recovery_history == state.pending_recovery_history
            &&& next.current_turn_history.current_turn is Some
            &&& next.current_turn_history.turns == state.current_turn_history.turns
            &&& next.current_turn_history.last_item_index
                == state.current_turn_history.last_item_index + 1
            &&& turn.items.len() == before.items.len() + 1
            &&& forall|i: int|
                0 <= i < before.items.len() ==> #[trigger] turn.items[i] == before.items[i]
            &&& turn.items.last() is AgentMessage
            &&& turn.items.last()->text == message.message@
            &&& turn.items.last().id() == "item-"@ + decimal(
                state.current_turn_history.last_item_index + 1,
            )
            &&& turn.id == before.id
            &&& turn.status == before.status
            &&& turn.error == before.error
            &&& turn.started_at == before.started_at
            &&& turn.completed_at == before.completed_at
            &&& turn.duration_ms == before.duration_ms
        }),
{
    law_message_becomes_the_last_item(state.current_turn_history, message);
}

/// Messages in a row become as many items of the live turn, in their order,
/// behind all that was there.
pub proof fn law_messages_follow_in_order(
    state: ThreadStateView,
    messages: Seq<AgentMessageEvent>,
)
    requires
        state.current_turn_history.current_turn is Some,
    ensures
        ({
            let next = state.after_all(
                messages.map_values(|message: AgentMessageEvent| EventMsg::AgentMessage(message)),
            );
            let before = state.current_turn_history.current_turn->0;
            let turn = next.current_turn_history.current_turn->0;
            let had = before.items.len() as int;
            &&& next.pending_recovery_history == state.pending_recovery_history
            &&& next.current_turn_history.current_turn is Some
            &&& next.current_turn_history.last_item_index
                == state.current_turn_history.last_item_index + messages.len()
            &&& turn.id == before.id
            &&& turn.status == before.status
            &&& turn.items.len() == had + messages.len()
            &&& forall|i: int| 0 <= i < had ==> #[trigger] turn.items[i] == before.items[i]
            &&& forall|k: int|
                #![trigger messages[k]]
                0 <= k < messages.len() ==> {
                    &&& turn.items[had + k] is AgentMessage
                    &&& turn.items[had + k]->text == messages[k].message@
                    &&& turn.items[had + k].id() == "item-"@ + decimal(
                        (state.current_turn_history.last_item_index + 1 + k) as nat,
                    )
                }
        }),
    decreases messages.len(),
{
    let to_event = |message: AgentMessageEvent| EventMsg::AgentMessage(message);
    let events = messages.map_values(to_event);
    if messages.len() > 0 {
        let earlier = messages.drop_last();
        law_messages_follow_in_order(state, earlier);
        assert(events.drop_last() =~= earlier.map_values(to_event));
        let between = state.after_all(events.drop_last());
        law_live_turn_takes_messages_in(between, messages.last());
        assert(state.after_all(events) == between.after(EventMsg::AgentMessage(messages.last())));
        let had = state.current_turn_history.current_turn->0.items.len() as int;
        let turn = state.after_all(events).current_turn_history.current_turn->0;
        assert forall|k: int|
            #![trigger messages[k]]
            0 <= k < messages.len() implies {
            &&& turn.items[had + k] is AgentMessage
            &&& turn.items[had + k]->text == messages[k].message@
            &&& turn.items[had + k].id() == "item-"@ + decimal(
                (state.current_turn_history.last_item_index + 1 + k) as nat,
            )
        } by {
            if k < earlier.len() {
                assert(earlier[k] == messages[k]);
            }
        }
    }
}

/// After a recovered turn has begun again its items are the recovered ones, and
/// then the messages of the new attempt, in their order.
pub proof fn law_resumed_turn_grows_behind_recovered_items(
    state: ThreadStateView,
    turn: TurnView,
    started: TurnStartedEvent,
    messages: Seq<AgentMessageEvent>,
)
    requires
        state.pending_recovery_history == Some(HistoryView::of_turn(turn)),
        started.turn_id@ == turn.id,
    ensures
        ({
            let resumed = state.after(EventMsg::TurnStarted(started)).after_all(
                messages.map_values(|message: AgentMessageEvent| EventMsg::AgentMessage(message)),
            ).current_turn_history.current_turn;
            &&& resumed is Some
            &&& resumed->0.id == turn.id
            &&& resumed->0.status is InProgress
            &&& resumed->0.items.len() == turn.items.len() + messages.len()
            &&& forall|i: int|
                0 <= i < turn.items.len() ==> #[trigger] resumed->0.items[i] == turn.items[i]
            &&& forall|k: int|
                #![trigger messages[k]]
                0 <= k < messages.len() ==> {
                    &&& resumed->0.items[turn.items.len() + k] is AgentMessage
                    &&& resumed->0.items[turn.items.len() + k]->text == messages[k].message@
                }
        }),
{
    law_active_turn_begins_again(HistoryView::of_turn(turn), started);
    law_messages_follow_in_order(state.after(EventMsg::TurnStarted(started)), messages);
}

/// A turn that begins is taken in by the history that waits, where one waits,
/// and else by the live one; after it nothing waits.
pub proof fn law_beginning_turn_takes_what_waits(state: ThreadStateView, started: TurnStartedEvent)
    ensures
        ({
            let next = state.after(EventMsg::TurnStarted(started));
            &&& next.pending_recovery_history is None
            &&& state.pending_recovery_history is Some ==> next.current_turn_history
                == state.pending_recovery_history->0.after(EventMsg::TurnStarted(started))
            &&& state.pending_recovery_history is None ==> next.current_turn_history
                == state.current_turn_history.after(EventMsg::TurnStarted(started))
        }),
{
}

/// However it ends, the live turn that ends leaves an empty live history, and
/// what waits.
pub proof fn law_end_of_the_live_turn_empties_the_live_history(
    state: ThreadStateView,
    ended: EventMsg,
)
    requires
        match ended {
            EventMsg::TurnAborted(event) => state.current_turn_history.current_turn is None
                || event.turn_id is None || event.turn_id->0@
                == state.current_turn_history.current_turn->0.id,
            EventMsg::TurnCompleted(event) => state.current_turn_history.current_turn is None
                || event.turn_id@ == state.current_turn_history.current_turn->0.id,
            _ => false,
        },
    ensures
        state.after(ended).pending_recovery_history == state.pending_recovery_history,
        state.after(ended).current_turn_history.turns.len() == 0,
        state.after(ended).current_turn_history.current_turn is None,
        state.after(ended).current_turn_history.last_item_index == 0,
{
    let before = state.current_turn_history;
    match ended {
        EventMsg::TurnAborted(event) => {
            if before.current_turn is Some {
                law_stop_interrupts_the_active_turn(before, event);
            }
        },
        EventMsg::TurnCompleted(event) => {
            if before.current_turn is Some {
                law_completion_fails_exactly_with_an_error(before, event);
            }
        },
        _ => {},
    }
}

/// The end of a turn before the one that runs leaves that one running, with all
/// it has.
pub proof fn law_end_of_an_earlier_turn_leaves_the_live_one(
    state: ThreadStateView,
    ended: EventMsg,
    at: int,
)
    requires
        state.current_turn_history.current_turn is Some,
        state.current_turn_history.current_turn->0.status is InProgress,
        0 <= at < state.current_turn_history.turns.len(),
        state.current_turn_history.turns[at].id != state.current_turn_history.current_turn->0.id,
        match ended {
            EventMsg::TurnAborted(event) => event.turn_id is Some && event.turn_id->0@
                == state.current_turn_history.turns[at].id,
            EventMsg::TurnCompleted(event) => event.turn_id@
                == state.current_turn_history.turns[at].id,
            _ => false,
        },
    ensures
        state.after(ended).pending_recovery_history == state.pending_recovery_history,
        state.after(ended).current_turn_history.current_turn
            == state.current_turn_history.current_turn,
        state.after(ended).current_turn_history.last_item_index
            == state.current_turn_history.last_item_index,
        state.after(ended).current_turn_history.turns.len()
            == state.current_turn_history.turns.len(),
{
    law_first_with_id_is_the_first(
        state.current_turn_history.turns,
        state.current_turn_history.turns[at].id,
    );
}

/// Events are taken in one after the other.
pub proof fn law_events_are_taken_in_order(
    state: ThreadStateView,
    events: Seq<EventMsg>,
    event: EventMsg,
)
    ensures
        state.after_all(Seq::empty()) == state,
        state.after_all(events.push(event)) == state.after_all(events).after(event),
{
    assert(events.push(event).drop_last() =~= events);
}

/// Both histories of a state are seen.
proof fn law_state_is_seen_whole(state: ThreadState)
    ensures
        state@.current_turn_history == state.current_turn_history@,
        state.pending_recovery_history is Some <==> state@.pending_recovery_history is Some,
        state.pending_recovery_history is Some ==> state@.pending_recovery_history->0
            == state.pending_recovery_history->0@,
{
}

} // verus!
