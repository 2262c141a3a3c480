//! What holds of every course that a `turn/continue` request can take.
use vstd::prelude::*;

use crate::continue_turn::{
    lacks_model_contexts, ActionView, AgentStatus, ContinueView, EventView, RecoverTurnView,
    StageView, StoreErrorView, SubmissionView, ThreadSettingsOverrides,
};
use crate::history::{EventMsg, HistoryView, TurnStartedEvent};
use crate::paginated_turn_items::{
    is_whole_turn, items_of_pages, law_first_bad_item_fails_the_page, law_whole_turn_is_collected,
    PageView, PagerStepView, PagerView,
};
use crate::recovery_plan::{
    access_program_of, is_paginated, law_one_session_line_makes_it_paginated, LoadedView, PlanView,
};
use crate::rpc::{internal_server_error, invalid_request_error, ErrorView};
use crate::thread_state::{law_new_attempt_begins_with_recovered_items, ThreadStateView};
use crate::turn::{ThreadItemView, TurnStatus, TurnView};

verus! {

/// Where the events lead, and the action that is under way there.
pub open spec fn course(
    thread_id: Seq<char>,
    items_page_size: usize,
    events: Seq<EventView>,
) -> (ContinueView, ActionView)
    decreases events.len(),
{
    if events.len() == 0 {
        ContinueView::start(thread_id, items_page_size)
    } else {
        course(thread_id, items_page_size, events.drop_last()).0.after(events.last())
    }
}

/// Each of the events answers the action that is under way when it comes.
pub open spec fn is_course(
    thread_id: Seq<char>,
    items_page_size: usize,
    events: Seq<EventView>,
) -> bool
    decreases events.len(),
{
    events.len() > 0 ==> {
        &&& is_course(thread_id, items_page_size, events.drop_last())
        &&& course(thread_id, items_page_size, events.drop_last()).0.expects(events.last())
    }
}

/// The thread was found, takes direct input, is not running, and has a
/// conversation.
pub open spec fn is_cleared(events: Seq<EventView>) -> bool {
    &&& events.len() >= 4
    &&& events[0] is ThreadLoaded
    &&& events[0]->ThreadLoaded_0 is Ok
    &&& events[1] is DirectInputChecked
    &&& events[1]->DirectInputChecked_0 is Ok
    &&& events[2] == EventView::AgentStatusRead(AgentStatus::NotRunning)
    &&& events[3] == (EventView::ConversationRead { has_items: true })
}

/// The thread that was found.
pub open spec fn found_thread(events: Seq<EventView>) -> Seq<char> {
    events[0]->ThreadLoaded_0->Ok_0
}

/// The store could not load a model context, so the whole history was loaded.
pub open spec fn fell_back(events: Seq<EventView>) -> bool {
    events[5]->ModelContextLoaded_0 is Err
}

/// The history that was loaded: the model context, or the whole history where
/// the store does not know of model contexts.
pub open spec fn loaded(events: Seq<EventView>) -> LoadedView {
    if fell_back(events) {
        events[6]->HistoryLoaded_0->Ok_0
    } else {
        events[5]->ModelContextLoaded_0->Ok_0
    }
}

/// The position of the event that follows on the history.
pub open spec fn after_loading(events: Seq<EventView>) -> int {
    if fell_back(events) {
        7
    } else {
        6
    }
}

/// The rollout was flushed, a history was loaded, and its last turn can be
/// continued.
pub open spec fn has_plan(events: Seq<EventView>) -> bool {
    &&& is_cleared(events)
    &&& events.len() >= 6
    &&& events[4] is RolloutFlushed
    &&& events[4]->RolloutFlushed_0 is Ok
    &&& events[5] is ModelContextLoaded
    &&& events.len() >= after_loading(events)
    &&& fell_back(events) ==> {
        &&& lacks_model_contexts(events[5]->ModelContextLoaded_0->Err_0)
        &&& events[6] is HistoryLoaded
        &&& events[6]->HistoryLoaded_0 is Ok
    }
    &&& loaded(events).decision() is Ok
}

/// The plan for the turn to continue.
pub open spec fn plan(events: Seq<EventView>) -> PlanView {
    loaded(events).plan()
}

/// The pages that have come, in order.
pub open spec fn pages(events: Seq<EventView>) -> Seq<Result<PageView, ErrorView>>
    decreases events.len(),
{
    if events.len() == 0 {
        Seq::empty()
    } else if events.last() is ItemsListed {
        pages(events.drop_last()).push(events.last()->ItemsListed_0)
    } else {
        pages(events.drop_last())
    }
}

/// The turn to continue, with all its items: the last turn of the loaded
/// history, where pages were fetched with their items in place of its own.
pub open spec fn recovered_turn(events: Seq<EventView>) -> TurnView {
    if plan(events).paginated {
        TurnView { items: items_of_pages(pages(events)), ..plan(events).turn }
    } else {
        plan(events).turn
    }
}

/// All items of the turn to continue are there: where pages are to be fetched,
/// the pages of the whole turn have come.
pub open spec fn has_recovered_turn(events: Seq<EventView>) -> bool {
    &&& has_plan(events)
    &&& plan(events).paginated ==> is_whole_turn(None, pages(events))
}

/// What waits for the new attempt after the events, where `before` waited
/// before the request.
pub open spec fn pending(
    thread_id: Seq<char>,
    items_page_size: usize,
    events: Seq<EventView>,
    before: Option<HistoryView>,
) -> Option<HistoryView>
    decreases events.len(),
{
    if events.len() == 0 {
        before
    } else {
        match course(thread_id, items_page_size, events.drop_last()).1 {
            ActionView::SetPendingRecoveryHistory(history) => history,
            _ => pending(thread_id, items_page_size, events.drop_last(), before),
        }
    }
}

/// Some action of the course before the one under way has asked the thread to
/// take the turn up again.
pub open spec fn has_asked(
    thread_id: Seq<char>,
    items_page_size: usize,
    events: Seq<EventView>,
) -> bool {
    exists|i: int|
        0 <= i < events.len() && course(
            thread_id,
            items_page_size,
            #[trigger] events.take(i),
        ).1 is RecoverTurnIfIdle
}

/// Why the thread has not taken the turn up again, as the client is told: the
/// text of the failure, or the reason for which nothing was submitted.
pub open spec fn submission_error(result: Result<SubmissionView, Seq<char>>) -> ErrorView {
    match result {
        Err(text) => internal_server_error("failed to continue turn: "@ + text),
        Ok(submission) => invalid_request_error(
            "Cannot continue turn: "@ + submission->NotSubmitted_reason,
        ),
    }
}

/// The thread has not taken the turn up again.
pub open spec fn is_in_vain(result: Result<SubmissionView, Seq<char>>) -> bool {
    !(result matches Ok(SubmissionView::Started { .. }))
}

/// What the events have to be for the request to stand where it stands.
spec fn stage_facts(
    thread_id: Seq<char>,
    items_page_size: usize,
    events: Seq<EventView>,
    before: Option<HistoryView>,
) -> bool {
    let (request, action) = course(thread_id, items_page_size, events);
    let waiting = pending(thread_id, items_page_size, events, before);
    &&& request.items_page_size == items_page_size
    &&& has_asked(thread_id, items_page_size, events) <==> match request.stage {
        StageView::DroppingRecovery { .. } => true,
        StageView::RecordingTurnId { .. } => true,
        StageView::Answered => events.last() is PendingRecoveryHistorySet || events.last()
            is RequestTurnIdRecorded,
        _ => false,
    }
    &&& match request.stage {
        StageView::LoadingThread => {
            &&& pages(events).len() == 0
            &&& events.len() == 0
            &&& action == (ActionView::LoadThread { thread_id })
            &&& waiting == before
        },
        StageView::CheckingDirectInput { thread_id } => {
            &&& pages(events).len() == 0
            &&& events.len() == 1
            &&& events[0] == EventView::ThreadLoaded(Ok(thread_id))
            &&& action is EnsureDirectInputAllowed
            &&& waiting == before
        },
        StageView::ReadingAgentStatus { thread_id } => {
            &&& pages(events).len() == 0
            &&& events.len() == 2
            &&& events[0] == EventView::ThreadLoaded(Ok(thread_id))
            &&& events[1] is DirectInputChecked
            &&& events[1]->DirectInputChecked_0 is Ok
            &&& action is ReadAgentStatus
            &&& waiting == before
        },
        StageView::ReadingConversation { thread_id } => {
            &&& pages(events).len() == 0
            &&& events.len() == 3
            &&& events[0] == EventView::ThreadLoaded(Ok(thread_id))
            &&& events[1] is DirectInputChecked
            &&& events[1]->DirectInputChecked_0 is Ok
            &&& events[2] == EventView::AgentStatusRead(AgentStatus::NotRunning)
            &&& action is ReadConversation
            &&& waiting == before
        },
        StageView::FlushingRollout { thread_id } => {
            &&& pages(events).len() == 0
            &&& events.len() == 4
            &&& is_cleared(events)
            &&& thread_id == found_thread(events)
            &&& action is FlushRollout
            &&& waiting == before
        },
        StageView::LoadingModelContext { thread_id } => {
            &&& pages(events).len() == 0
            &&& events.len() == 5
            &&& is_cleared(events)
            &&& thread_id == found_thread(events)
            &&& events[4] is RolloutFlushed
            &&& events[4]->RolloutFlushed_0 is Ok
            &&& action == (ActionView::LoadLatestModelContext {
                thread_id,
                include_archived: false,
            })
            &&& waiting == before
        },
        StageView::LoadingHistory { thread_id } => {
            &&& pages(events).len() == 0
            &&& events.len() == 6
            &&& is_cleared(events)
            &&& thread_id == found_thread(events)
            &&& events[4] is RolloutFlushed
            &&& events[4]->RolloutFlushed_0 is Ok
            &&& events[5] is ModelContextLoaded
            &&& fell_back(events)
            &&& lacks_model_contexts(events[5]->ModelContextLoaded_0->Err_0)
            &&& action == (ActionView::LoadHistory { include_archived: false })
            &&& waiting == before
        },
        StageView::OpeningThreadState { thread_id, plan } => {
            &&& pages(events).len() == 0
            &&& has_plan(events)
            &&& events.len() == after_loading(events)
            &&& thread_id == found_thread(events)
            &&& plan == self::plan(events)
            &&& action == (ActionView::OpenThreadState { thread_id })
            &&& waiting == before
        },
        StageView::ListingItems { turn, cyber_access_program, pager } => {
            &&& has_plan(events)
            &&& plan(events).paginated
            &&& turn == plan(events).turn
            &&& cyber_access_program == plan(events).cyber_access_program
            &&& PagerView::start(found_thread(events), turn.id, items_page_size).after_pages(
                pages(events),
            ) == PagerStepView::More(pager)
            &&& action == ActionView::ListItems(pager.request())
            &&& waiting == before
        },
        StageView::InstallingRecovery { turn_id, cyber_access_program } => {
            &&& has_recovered_turn(events)
            &&& turn_id == plan(events).turn.id
            &&& cyber_access_program == plan(events).cyber_access_program
            &&& action == ActionView::SetPendingRecoveryHistory(
                Some(HistoryView::of_turn(recovered_turn(events))),
            )
            &&& waiting == before
        },
        StageView::ReadingTraceContext { turn_id, cyber_access_program } => {
            &&& has_recovered_turn(events)
            &&& turn_id == plan(events).turn.id
            &&& cyber_access_program == plan(events).cyber_access_program
            &&& action is ReadTraceContext
            &&& waiting == Some(HistoryView::of_turn(recovered_turn(events)))
        },
        StageView::RecoveringTurn => {
            &&& has_recovered_turn(events)
            &&& events.last() is TraceContextRead
            &&& action == ActionView::RecoverTurnIfIdle(
                RecoverTurnView {
                    turn_id: plan(events).turn.id,
                    thread_settings: ThreadSettingsOverrides::Unchanged,
                    trace: events.last()->TraceContextRead_0,
                    cyber_access_program: plan(events).cyber_access_program,
                },
            )
            &&& waiting == Some(HistoryView::of_turn(recovered_turn(events)))
        },
        StageView::DroppingRecovery { error } => {
            &&& has_recovered_turn(events)
            &&& events.last() is TurnRecovered
            &&& is_in_vain(events.last()->TurnRecovered_0)
            &&& error == submission_error(events.last()->TurnRecovered_0)
            &&& action == ActionView::SetPendingRecoveryHistory(None)
        },
        StageView::RecordingTurnId { turn_id } => {
            &&& has_recovered_turn(events)
            &&& events.last() == EventView::TurnRecovered(Ok(SubmissionView::Started { turn_id }))
            &&& action == (ActionView::RecordRequestTurnId { turn_id })
            &&& waiting == Some(HistoryView::of_turn(recovered_turn(events)))
        },
        StageView::Answered => {
            &&& action is Respond
            &&& match action->Respond_0 {
                Ok(turn_id) => {
                    &&& has_recovered_turn(events)
                    &&& events[events.len() - 2] == EventView::TurnRecovered(
                        Ok(SubmissionView::Started { turn_id }),
                    )
                    &&& events.last() is RequestTurnIdRecorded
                    &&& waiting == Some(HistoryView::of_turn(recovered_turn(events)))
                },
                Err(error) => {
                    &&& !(events.last() is RequestTurnIdRecorded)
                    &&& if events.last() is PendingRecoveryHistorySet {
                        &&& events[events.len() - 2] is TurnRecovered
                        &&& is_in_vain(events[events.len() - 2]->TurnRecovered_0)
                        &&& error == submission_error(events[events.len() - 2]->TurnRecovered_0)
                        &&& waiting is None
                    } else {
                        waiting == before
                    }
                },
            }
        },
    }
}

/// A plan that is there stays as it is whatever else happens.
proof fn lemma_plan_stays(events: Seq<EventView>, event: EventView)
    requires
        has_plan(events),
    ensures
        has_plan(events.push(event)),
        plan(events.push(event)) == plan(events),
        loaded(events.push(event)) == loaded(events),
        found_thread(events.push(event)) == found_thread(events),
        after_loading(events.push(event)) == after_loading(events),
{
    let more = events.push(event);
    assert forall|i: int| 0 <= i < events.len() implies #[trigger] more[i] == events[i] by {}
    assert(more[5] == events[5]);
    if fell_back(events) {
        assert(more[6] == events[6]);
    }
}

/// The thread has been asked if it had been asked an event ago, or was being
/// asked then.
proof fn lemma_asked_before(
    thread_id: Seq<char>,
    items_page_size: usize,
    events: Seq<EventView>,
)
    requires
        events.len() > 0,
    ensures
        has_asked(thread_id, items_page_size, events) <==> (has_asked(
            thread_id,
            items_page_size,
            events.drop_last(),
        ) || course(thread_id, items_page_size, events.drop_last()).1 is RecoverTurnIfIdle),
{
    let earlier = events.drop_last();
    assert(events.take(earlier.len() as int) =~= earlier);
    assert forall|i: int| 0 <= i < earlier.len() implies #[trigger] earlier.take(i)
        == events.take(i) by {
        assert(earlier.take(i) =~= events.take(i));
    }
    if has_asked(thread_id, items_page_size, events) {
        let i = choose|i: int|
            0 <= i < events.len() && course(
                thread_id,
                items_page_size,
                #[trigger] events.take(i),
            ).1 is RecoverTurnIfIdle;
        if i < earlier.len() {
            assert(earlier.take(i) == events.take(i));
        }
    }
    if has_asked(thread_id, items_page_size, earlier) {
        let i = choose|i: int|
            0 <= i < earlier.len() && course(
                thread_id,
                items_page_size,
                #[trigger] earlier.take(i),
            ).1 is RecoverTurnIfIdle;
        assert(earlier.take(i) == events.take(i));
    }
}

/// One page more at the end of the pages is taken in after the others.
proof fn lemma_one_more_page(
    pager: PagerView,
    pages: Seq<Result<PageView, ErrorView>>,
    page: Result<PageView, ErrorView>,
)
    requires
        pager.after_pages(pages) is More,
    ensures
        pager.after_pages(pages.push(page)) == pager.after_pages(pages)->More_0.after_page(page),
    decreases pages.len(),
{
    reveal_with_fuel(PagerView::after_pages, 2);
    let more = pages.push(page);
    if pages.len() == 0 {
        assert(more.drop_first() =~= Seq::<Result<PageView, ErrorView>>::empty());
    } else {
        let next = pager.after_page(pages[0])->More_0;
        assert(more[0] == pages[0]);
        assert(more.drop_first() =~= pages.drop_first().push(page));
        lemma_one_more_page(next, pages.drop_first(), page);
    }
}

/// The page that finishes the work completes the pages of a whole turn.
proof fn lemma_last_page(
    pager: PagerView,
    pages: Seq<Result<PageView, ErrorView>>,
    page: Result<PageView, ErrorView>,
)
    requires
        pager.after_pages(pages) is More,
        pager.after_pages(pages)->More_0.after_page(page) is Finished,
    ensures
        is_whole_turn(pager.cursor, pages.push(page)),
        pager.after_pages(pages)->More_0.after_page(page) == PagerStepView::Finished(
            pager.items + items_of_pages(pages.push(page)),
        ),
    decreases pages.len(),
{
    let more = pages.push(page);
    if pages.len() > 0 {
        let next = pager.after_page(pages[0])->More_0;
        assert(more[0] == pages[0]);
        assert(more.drop_first() =~= pages.drop_first().push(page));
        lemma_last_page(next, pages.drop_first(), page);
    }
    lemma_one_more_page(pager, pages, page);
    law_whole_turn_is_collected(pager, more);
}

/// Where a course stands tells what its events were.
proof fn lemma_stage_facts(
    thread_id: Seq<char>,
    items_page_size: usize,
    events: Seq<EventView>,
    before: Option<HistoryView>,
)
    requires
        is_course(thread_id, items_page_size, events),
    ensures
        stage_facts(thread_id, items_page_size, events, before),
    decreases events.len(),
{
    if events.len() > 0 {
        let earlier = events.drop_last();
        let event = events.last();
        lemma_stage_facts(thread_id, items_page_size, earlier, before);
        lemma_asked_before(thread_id, items_page_size, events);
        assert(events =~= earlier.push(event));
        assert forall|i: int| 0 <= i < earlier.len() implies #[trigger] earlier[i]
            == events[i] by {}
        let (request, action) = course(thread_id, items_page_size, earlier);
        if has_plan(earlier) {
            lemma_plan_stays(earlier, event);
        }
        assert(pages(events) == if event is ItemsListed {
            pages(earlier).push(event->ItemsListed_0)
        } else {
            pages(earlier)
        });
        match request.stage {
            StageView::OpeningThreadState { thread_id: found, plan } => {
                assert(pages(events) =~= Seq::<Result<PageView, ErrorView>>::empty());
            },
            StageView::ListingItems { turn, cyber_access_program, pager } => {
                let first = PagerView::start(found_thread(events), turn.id, items_page_size);
                let page = event->ItemsListed_0;
                lemma_one_more_page(first, pages(earlier), page);
                if pager.after_page(page) is Finished {
                    lemma_last_page(first, pages(earlier), page);
                    assert(first.items + items_of_pages(pages(events)) =~= items_of_pages(
                        pages(events),
                    ));
                }
            },
            _ => {},
        }
    }
}

/// Nothing durable is touched, and the thread is not asked for anything, before
/// it is known that the thread takes direct input, does not run, and has a
/// conversation.
pub proof fn law_idle_thread_comes_first(
    thread_id: Seq<char>,
    items_page_size: usize,
    events: Seq<EventView>,
)
    requires
        is_course(thread_id, items_page_size, events),
    ensures
        match course(thread_id, items_page_size, events).1 {
            ActionView::FlushRollout
            | ActionView::LoadLatestModelContext { .. }
            | ActionView::LoadHistory { .. }
            | ActionView::OpenThreadState { .. }
            | ActionView::ListItems(_)
            | ActionView::SetPendingRecoveryHistory(_)
            | ActionView::ReadTraceContext
            | ActionView::RecoverTurnIfIdle(_)
            | ActionView::RecordRequestTurnId { .. } => is_cleared(events),
            _ => true,
        },
{
    lemma_stage_facts(thread_id, items_page_size, events, None);
}

/// The events of a course up to some point are a course.
proof fn lemma_earlier_course(
    thread_id: Seq<char>,
    items_page_size: usize,
    events: Seq<EventView>,
    end: int,
)
    requires
        is_course(thread_id, items_page_size, events),
        0 <= end <= events.len(),
    ensures
        is_course(thread_id, items_page_size, events.take(end)),
        end < events.len() ==> course(thread_id, items_page_size, events.take(end)).0.expects(
            events[end],
        ),
        end < events.len() ==> course(thread_id, items_page_size, events.take(end + 1)) == course(
            thread_id,
            items_page_size,
            events.take(end),
        ).0.after(events[end]),
    decreases events.len(),
{
    if end < events.len() {
        assert(events.take(end + 1).drop_last() =~= events.take(end));
        assert(events.take(end + 1).last() == events[end]);
    }
    if end == events.len() {
        assert(events.take(end) =~= events);
    } else if end == events.len() - 1 {
        assert(events.take(end) =~= events.drop_last());
    } else {
        lemma_earlier_course(thread_id, items_page_size, events.drop_last(), end);
        assert(events.drop_last().take(end) =~= events.take(end));
        assert(events.drop_last()[end] == events[end]);
    }
}

/// A thread that runs is answered at once, and nothing else is done.
pub proof fn law_running_turn_is_refused(
    thread_id: Seq<char>,
    items_page_size: usize,
    events: Seq<EventView>,
)
    requires
        is_course(thread_id, items_page_size, events),
        events.len() >= 3,
        events[2] == EventView::AgentStatusRead(AgentStatus::Running),
    ensures
        events.len() == 3,
        course(thread_id, items_page_size, events).1 == ActionView::Respond(
            Err(invalid_request_error("Cannot continue a running turn."@)),
        ),
{
    lemma_earlier_course(thread_id, items_page_size, events, 2);
    lemma_stage_facts(thread_id, items_page_size, events.take(2), None);
    if events.len() > 3 {
        lemma_earlier_course(thread_id, items_page_size, events, 3);
    } else {
        assert(events.take(3) =~= events);
    }
}

/// A thread without a conversation is answered at once: the store is not asked
/// for a history that is not there.
pub proof fn law_new_thread_is_refused(
    thread_id: Seq<char>,
    items_page_size: usize,
    events: Seq<EventView>,
)
    requires
        is_course(thread_id, items_page_size, events),
        events.len() >= 4,
        events[3] == (EventView::ConversationRead { has_items: false }),
    ensures
        events.len() == 4,
        course(thread_id, items_page_size, events).1 == ActionView::Respond(
            Err(invalid_request_error("There is no unfinished turn to continue."@)),
        ),
{
    lemma_earlier_course(thread_id, items_page_size, events, 3);
    lemma_stage_facts(thread_id, items_page_size, events.take(3), None);
    if events.len() > 4 {
        lemma_earlier_course(thread_id, items_page_size, events, 4);
    } else {
        assert(events.take(4) =~= events);
    }
}

/// A turn is taken up again only if it is the last one of the loaded history
/// and can be continued; it is taken up under its own id, with the access
/// program of its latest attempt, and with the settings of its thread.
pub proof fn law_last_unfinished_turn_is_taken_up(
    thread_id: Seq<char>,
    items_page_size: usize,
    events: Seq<EventView>,
)
    requires
        is_course(thread_id, items_page_size, events),
        course(thread_id, items_page_size, events).1 is RecoverTurnIfIdle,
    ensures
        has_recovered_turn(events),
        ({
            let request = course(thread_id, items_page_size, events).1->RecoverTurnIfIdle_0;
            let turns = loaded(events).turns;
            &&& turns.len() > 0
            &&& request.turn_id == turns.last().id
            &&& turns.last().status != TurnStatus::Completed
            &&& !turns.last().stopped_as_precaution()
            &&& request.cyber_access_program == access_program_of(
                loaded(events).items,
                turns.last().id,
            )
            &&& request.thread_settings == ThreadSettingsOverrides::Unchanged
        }),
{
    lemma_stage_facts(thread_id, items_page_size, events, None);
}

/// The history that is left waiting goes on from the last turn of the loaded
/// history. Its items are the stored ones and no others, so nothing is made up
/// on the way; where they are kept in pages, all pages of the turn are in it.
pub proof fn law_waiting_history_holds_stored_items(
    thread_id: Seq<char>,
    items_page_size: usize,
    events: Seq<EventView>,
)
    requires
        is_course(thread_id, items_page_size, events),
    ensures
        course(thread_id, items_page_size, events).1 matches ActionView::SetPendingRecoveryHistory(
            Some(history),
        ) ==> {
            &&& has_recovered_turn(events)
            &&& history == HistoryView::of_turn(recovered_turn(events))
            &&& recovered_turn(events).id == loaded(events).turns.last().id
            &&& recovered_turn(events).items == if is_paginated(loaded(events).items) {
                items_of_pages(pages(events))
            } else {
                loaded(events).turns.last().items
            }
        },
{
    lemma_stage_facts(thread_id, items_page_size, events, None);
}

/// A turn is taken up again only while its recovered history waits.
pub proof fn law_turn_is_taken_up_with_history_waiting(
    thread_id: Seq<char>,
    items_page_size: usize,
    events: Seq<EventView>,
    before: Option<HistoryView>,
)
    requires
        is_course(thread_id, items_page_size, events),
        course(thread_id, items_page_size, events).1 is RecoverTurnIfIdle,
    ensures
        pending(thread_id, items_page_size, events, before) == Some(
            HistoryView::of_turn(recovered_turn(events)),
        ),
{
    lemma_stage_facts(thread_id, items_page_size, events, before);
}

/// A client that is told of an error leaves no recovered history behind. Where
/// the thread was asked to take the turn up again, nothing waits, and the error
/// is made of the thread's reply; where it was not asked, what waited before
/// waits still.
pub proof fn law_refused_request_leaves_no_recovery(
    thread_id: Seq<char>,
    items_page_size: usize,
    events: Seq<EventView>,
    before: Option<HistoryView>,
)
    requires
        is_course(thread_id, items_page_size, events),
        course(thread_id, items_page_size, events).1 is Respond,
        course(thread_id, items_page_size, events).1->Respond_0 is Err,
    ensures
        pending(thread_id, items_page_size, events, before) == if has_asked(
            thread_id,
            items_page_size,
            events,
        ) {
            None
        } else {
            before
        },
        has_asked(thread_id, items_page_size, events) ==> {
            let reply = events[events.len() - 2];
            &&& events.len() >= 2
            &&& reply is TurnRecovered
            &&& is_in_vain(reply->TurnRecovered_0)
            &&& course(thread_id, items_page_size, events).1 == ActionView::Respond(
                Err(submission_error(reply->TurnRecovered_0)),
            )
        },
{
    lemma_stage_facts(thread_id, items_page_size, events, before);
}

/// A client that is told of a turn is told of the turn that was started, after
/// its request was noted down for that turn, and with the recovered history
/// waiting for it.
pub proof fn law_answer_names_the_started_turn(
    thread_id: Seq<char>,
    items_page_size: usize,
    events: Seq<EventView>,
    before: Option<HistoryView>,
    turn_id: Seq<char>,
)
    requires
        is_course(thread_id, items_page_size, events),
        course(thread_id, items_page_size, events).1 == ActionView::Respond(Ok(turn_id)),
    ensures
        has_recovered_turn(events),
        events.len() >= 2,
        events[events.len() - 2] == EventView::TurnRecovered(
            Ok(SubmissionView::Started { turn_id }),
        ),
        course(thread_id, items_page_size, events.drop_last()).1
            == (ActionView::RecordRequestTurnId { turn_id }),
        pending(thread_id, items_page_size, events, before) == Some(
            HistoryView::of_turn(recovered_turn(events)),
        ),
{
    lemma_stage_facts(thread_id, items_page_size, events, before);
    lemma_stage_facts(thread_id, items_page_size, events.drop_last(), before);
}

/// How many steps a request has still to go, pages apart.
pub open spec fn steps_left(stage: StageView) -> nat {
    match stage {
        StageView::LoadingThread => 13,
        StageView::CheckingDirectInput { .. } => 12,
        StageView::ReadingAgentStatus { .. } => 11,
        StageView::ReadingConversation { .. } => 10,
        StageView::FlushingRollout { .. } => 9,
        StageView::LoadingModelContext { .. } => 8,
        StageView::LoadingHistory { .. } => 7,
        StageView::OpeningThreadState { .. } => 6,
        StageView::ListingItems { .. } => 5,
        StageView::InstallingRecovery { .. } => 4,
        StageView::ReadingTraceContext { .. } => 3,
        StageView::RecoveringTurn => 2,
        StageView::DroppingRecovery { .. } => 1,
        StageView::RecordingTurnId { .. } => 1,
        StageView::Answered => 0,
    }
}

/// A course has at most thirteen events beside its pages: with each of them the
/// answer comes closer. The action that ends it is the answer.
pub proof fn law_course_moves_on(
    thread_id: Seq<char>,
    items_page_size: usize,
    events: Seq<EventView>,
)
    requires
        is_course(thread_id, items_page_size, events),
    ensures
        events.len() + steps_left(course(thread_id, items_page_size, events).0.stage) <= 13 + pages(
            events,
        ).len(),
        course(thread_id, items_page_size, events).1 is Respond <==> course(
            thread_id,
            items_page_size,
            events,
        ).0.stage is Answered,
    decreases events.len(),
{
    lemma_stage_facts(thread_id, items_page_size, events, None);
    if events.len() > 0 {
        law_course_moves_on(thread_id, items_page_size, events.drop_last());
    }
}

/// A stage other than that of the pages does not come again.
proof fn lemma_stages_pass(
    thread_id: Seq<char>,
    items_page_size: usize,
    events: Seq<EventView>,
    end: int,
)
    requires
        is_course(thread_id, items_page_size, events),
        0 <= end < events.len(),
    ensures
        ({
            let earlier = course(thread_id, items_page_size, events.take(end)).0.stage;
            let later = course(thread_id, items_page_size, events).0.stage;
            steps_left(later) < steps_left(earlier) || (later is ListingItems && earlier
                is ListingItems)
        }),
    decreases events.len(),
{
    if end < events.len() - 1 {
        lemma_stages_pass(thread_id, items_page_size, events.drop_last(), end);
        assert(events.drop_last().take(end) =~= events.take(end));
    } else {
        assert(events.take(end) =~= events.drop_last());
    }
}

/// One request asks for the new attempt at most once.
pub proof fn law_one_attempt_per_request(
    thread_id: Seq<char>,
    items_page_size: usize,
    events: Seq<EventView>,
    end: int,
)
    requires
        is_course(thread_id, items_page_size, events),
        0 <= end < events.len(),
        course(thread_id, items_page_size, events.take(end)).1 is RecoverTurnIfIdle,
    ensures
        !(course(thread_id, items_page_size, events).1 is RecoverTurnIfIdle),
{
    lemma_earlier_course(thread_id, items_page_size, events, end);
    lemma_stage_facts(thread_id, items_page_size, events.take(end), None);
    lemma_stage_facts(thread_id, items_page_size, events, None);
    lemma_stages_pass(thread_id, items_page_size, events, end);
}

/// Once a client has been told of a turn, whatever is still queued from the
/// attempt before, the new attempt begins with all items of the turn, in
/// progress, and with no trace of how the turn ended before.
pub proof fn law_continued_turn_begins_with_its_items(
    thread_id: Seq<char>,
    items_page_size: usize,
    events: Seq<EventView>,
    before: Option<HistoryView>,
    state: ThreadStateView,
    queued: Seq<EventMsg>,
    started: TurnStartedEvent,
)
    requires
        is_course(thread_id, items_page_size, events),
        course(thread_id, items_page_size, events).1 is Respond,
        course(thread_id, items_page_size, events).1->Respond_0 is Ok,
        state.pending_recovery_history == pending(thread_id, items_page_size, events, before),
        forall|i: int| 0 <= i < queued.len() ==> !(#[trigger] queued[i] is TurnStarted),
        started.turn_id@ == recovered_turn(events).id,
    ensures
        ({
            let history = state.after_all(queued).after(
                EventMsg::TurnStarted(started),
            ).current_turn_history;
            &&& history.current_turn == Some(recovered_turn(events).reopened(started.started_at))
            &&& history.all_turns() == seq![recovered_turn(events).reopened(started.started_at)]
        }),
{
    let turn_id = course(thread_id, items_page_size, events).1->Respond_0->Ok_0;
    law_answer_names_the_started_turn(thread_id, items_page_size, events, before, turn_id);
    law_new_attempt_begins_with_recovered_items(state, recovered_turn(events), queued, started);
}

/// One event more takes a course one step further.
proof fn lemma_next_event(
    thread_id: Seq<char>,
    items_page_size: usize,
    events: Seq<EventView>,
    event: EventView,
)
    ensures
        course(thread_id, items_page_size, events.push(event)) == course(
            thread_id,
            items_page_size,
            events,
        ).0.after(event),
        is_course(thread_id, items_page_size, events.push(event)) == (is_course(
            thread_id,
            items_page_size,
            events,
        ) && course(thread_id, items_page_size, events).0.expects(event)),
{
    assert(events.push(event).drop_last() =~= events);
}

/// The events that bring pages.
pub open spec fn page_events(pages: Seq<Result<PageView, ErrorView>>) -> Seq<EventView> {
    pages.map_values(|page: Result<PageView, ErrorView>| EventView::ItemsListed(page))
}

/// The pages of a whole turn lead from the first request for a page to the
/// recovered history.
proof fn lemma_pages_lead_on(
    thread_id: Seq<char>,
    items_page_size: usize,
    events: Seq<EventView>,
    pages: Seq<Result<PageView, ErrorView>>,
)
    requires
        is_course(thread_id, items_page_size, events),
        course(thread_id, items_page_size, events).0.stage is ListingItems,
        is_whole_turn(
            course(thread_id, items_page_size, events).0.stage->ListingItems_pager.cursor,
            pages,
        ),
    ensures
        is_course(thread_id, items_page_size, events + page_events(pages)),
        ({
            let listing = course(thread_id, items_page_size, events).0;
            let turn = listing.stage->ListingItems_turn;
            let pager = listing.stage->ListingItems_pager;
            course(thread_id, items_page_size, events + page_events(pages)) == listing.install(
                TurnView { items: pager.items + items_of_pages(pages), ..turn },
                listing.stage->ListingItems_cyber_access_program,
            )
        }),
    decreases pages.len(),
{
    let listing = course(thread_id, items_page_size, events).0;
    let pager = listing.stage->ListingItems_pager;
    let event = EventView::ItemsListed(pages[0]);
    let next = events.push(event);
    lemma_next_event(thread_id, items_page_size, events, event);
    law_whole_turn_is_collected(pager, pages);
    if pages.len() == 1 {
        assert(events + page_events(pages) =~= next);
    } else {
        assert(next + page_events(pages.drop_first()) =~= events + page_events(pages));
        lemma_pages_lead_on(thread_id, items_page_size, next, pages.drop_first());
        let further = course(thread_id, items_page_size, next).0.stage->ListingItems_pager;
        assert(further.items + items_of_pages(pages.drop_first()) =~= pager.items + items_of_pages(
            pages,
        ));
    }
}

/// The events that load a history: the model context, or, from a store that
/// knows of none, the whole history.
pub open spec fn loads(loading: Seq<EventView>, history: LoadedView) -> bool {
    ||| loading == seq![EventView::ModelContextLoaded(Ok(history))]
    ||| {
        &&& loading.len() == 2
        &&& loading[0] is ModelContextLoaded
        &&& loading[0]->ModelContextLoaded_0 is Err
        &&& lacks_model_contexts(loading[0]->ModelContextLoaded_0->Err_0)
        &&& loading[1] == EventView::HistoryLoaded(Ok(history))
    }
}

/// The events of a request for an idle thread, up to its flushed rollout.
pub open spec fn clearing_events(found: Seq<char>) -> Seq<EventView> {
    seq![
        EventView::ThreadLoaded(Ok(found)),
        EventView::DirectInputChecked(Ok(())),
        EventView::AgentStatusRead(AgentStatus::NotRunning),
        EventView::ConversationRead { has_items: true },
        EventView::RolloutFlushed(Ok(())),
    ]
}

/// The events of a request from the recovered history on, where the turn is
/// started.
pub open spec fn starting_events(trace: Option<Seq<char>>, turn_id: Seq<char>) -> Seq<EventView> {
    seq![
        EventView::PendingRecoveryHistorySet,
        EventView::TraceContextRead(trace),
        EventView::TurnRecovered(Ok(SubmissionView::Started { turn_id })),
        EventView::RequestTurnIdRecorded,
    ]
}

proof fn lemma_clearing_leads_on(thread_id: Seq<char>, items_page_size: usize, found: Seq<char>)
    ensures
        is_course(thread_id, items_page_size, clearing_events(found)),
        course(thread_id, items_page_size, clearing_events(found)).0 == (ContinueView {
            items_page_size,
            stage: StageView::LoadingModelContext { thread_id: found },
        }),
{
    let all = clearing_events(found);
    let e0 = Seq::<EventView>::empty();
    let e1 = e0.push(all[0]);
    let e2 = e1.push(all[1]);
    let e3 = e2.push(all[2]);
    let e4 = e3.push(all[3]);
    lemma_next_event(thread_id, items_page_size, e0, all[0]);
    lemma_next_event(thread_id, items_page_size, e1, all[1]);
    lemma_next_event(thread_id, items_page_size, e2, all[2]);
    lemma_next_event(thread_id, items_page_size, e3, all[3]);
    lemma_next_event(thread_id, items_page_size, e4, all[4]);
    assert(e4.push(all[4]) =~= all);
}

proof fn lemma_loading_leads_on(
    thread_id: Seq<char>,
    items_page_size: usize,
    found: Seq<char>,
    events: Seq<EventView>,
    loading: Seq<EventView>,
    history: LoadedView,
)
    requires
        is_course(thread_id, items_page_size, events),
        course(thread_id, items_page_size, events).0 == (ContinueView {
            items_page_size,
            stage: StageView::LoadingModelContext { thread_id: found },
        }),
        loads(loading, history),
        history.decision() is Ok,
    ensures
        is_course(thread_id, items_page_size, events + loading),
        course(thread_id, items_page_size, events + loading).0 == (ContinueView {
            items_page_size,
            stage: StageView::OpeningThreadState { thread_id: found, plan: history.plan() },
        }),
{
    let next = events.push(loading[0]);
    lemma_next_event(thread_id, items_page_size, events, loading[0]);
    if loading.len() == 1 {
        assert(events + loading =~= next);
    } else {
        assert(events + loading =~= next.push(loading[1]));
        lemma_next_event(thread_id, items_page_size, next, loading[1]);
    }
}

proof fn lemma_starting_leads_on(
    thread_id: Seq<char>,
    items_page_size: usize,
    events: Seq<EventView>,
    trace: Option<Seq<char>>,
    turn_id: Seq<char>,
)
    requires
        is_course(thread_id, items_page_size, events),
        course(thread_id, items_page_size, events).0.stage is InstallingRecovery,
    ensures
        is_course(thread_id, items_page_size, events + starting_events(trace, turn_id)),
        course(thread_id, items_page_size, events + starting_events(trace, turn_id)).1
            == ActionView::Respond(Ok(turn_id)),
{
    let all = starting_events(trace, turn_id);
    let e1 = events.push(all[0]);
    let e2 = e1.push(all[1]);
    let e3 = e2.push(all[2]);
    lemma_next_event(thread_id, items_page_size, events, all[0]);
    lemma_next_event(thread_id, items_page_size, e1, all[1]);
    lemma_next_event(thread_id, items_page_size, e2, all[2]);
    lemma_next_event(thread_id, items_page_size, e3, all[3]);
    assert(e3.push(all[3]) =~= events + all);
}

/// The events of a request that nothing stands in the way of.
pub open spec fn smooth_events(
    found: Seq<char>,
    loading: Seq<EventView>,
    pages: Seq<Result<PageView, ErrorView>>,
    trace: Option<Seq<char>>,
    turn_id: Seq<char>,
) -> Seq<EventView> {
    (clearing_events(found) + loading).push(EventView::ThreadStateOpened) + page_events(pages)
        + starting_events(trace, turn_id)
}

/// Where an idle thread with a conversation has an unfinished last turn that was
/// not stopped as a precaution, its items can be had, and the thread starts the
/// turn, the client is told of the turn.
pub proof fn law_unfinished_turn_is_continued(
    thread_id: Seq<char>,
    items_page_size: usize,
    found: Seq<char>,
    loading: Seq<EventView>,
    history: LoadedView,
    pages: Seq<Result<PageView, ErrorView>>,
    trace: Option<Seq<char>>,
    turn_id: Seq<char>,
)
    requires
        loads(loading, history),
        history.turns.len() > 0,
        history.turns.last().status != TurnStatus::Completed,
        !history.turns.last().stopped_as_precaution(),
        if is_paginated(history.items) {
            is_whole_turn(None, pages)
        } else {
            pages.len() == 0
        },
    ensures
        is_course(
            thread_id,
            items_page_size,
            smooth_events(found, loading, pages, trace, turn_id),
        ),
        course(
            thread_id,
            items_page_size,
            smooth_events(found, loading, pages, trace, turn_id),
        ).1 == ActionView::Respond(Ok(turn_id)),
{
    let cleared = clearing_events(found);
    lemma_clearing_leads_on(thread_id, items_page_size, found);
    lemma_loading_leads_on(thread_id, items_page_size, found, cleared, loading, history);
    let opened = (cleared + loading).push(EventView::ThreadStateOpened);
    lemma_next_event(
        thread_id,
        items_page_size,
        cleared + loading,
        EventView::ThreadStateOpened,
    );
    let complete = opened + page_events(pages);
    if is_paginated(history.items) {
        lemma_pages_lead_on(thread_id, items_page_size, opened, pages);
    } else {
        assert(complete =~= opened);
    }
    lemma_starting_leads_on(thread_id, items_page_size, complete, trace, turn_id);
}

/// A course begins with the lookup of the thread that the client names, and goes
/// on event by event; an event goes on with it exactly if it is expected.
pub proof fn law_course_goes_by_events(
    thread_id: Seq<char>,
    items_page_size: usize,
    events: Seq<EventView>,
    event: EventView,
)
    ensures
        is_course(thread_id, items_page_size, Seq::empty()),
        course(thread_id, items_page_size, Seq::empty()).1 is LoadThread,
        course(thread_id, items_page_size, Seq::empty()).1->LoadThread_thread_id == thread_id,
        is_course(thread_id, items_page_size, events.push(event)) <==> is_course(
            thread_id,
            items_page_size,
            events,
        ) && course(thread_id, items_page_size, events).0.expects(event),
        course(thread_id, items_page_size, events.push(event)) == course(
            thread_id,
            items_page_size,
            events,
        ).0.after(event),
{
    lemma_next_event(thread_id, items_page_size, events, event);
}

/// Each action is answered by an event of its own kind, whatever is in it, and
/// by no other; the answer to the client is answered by none.
pub proof fn law_actions_are_answered_in_kind(
    thread_id: Seq<char>,
    items_page_size: usize,
    events: Seq<EventView>,
    event: EventView,
)
    requires
        is_course(thread_id, items_page_size, events),
    ensures
        course(thread_id, items_page_size, events).0.expects(event) <==> match course(
            thread_id,
            items_page_size,
            events,
        ).1 {
            ActionView::LoadThread { .. } => event is ThreadLoaded,
            ActionView::EnsureDirectInputAllowed => event is DirectInputChecked,
            ActionView::ReadAgentStatus => event is AgentStatusRead,
            ActionView::ReadConversation => event is ConversationRead,
            ActionView::FlushRollout => event is RolloutFlushed,
            ActionView::LoadLatestModelContext { .. } => event is ModelContextLoaded,
            ActionView::LoadHistory { .. } => event is HistoryLoaded,
            ActionView::OpenThreadState { .. } => event is ThreadStateOpened,
            ActionView::ListItems(_) => event is ItemsListed,
            ActionView::SetPendingRecoveryHistory(_) => event is PendingRecoveryHistorySet,
            ActionView::ReadTraceContext => event is TraceContextRead,
            ActionView::RecoverTurnIfIdle(_) => event is TurnRecovered,
            ActionView::RecordRequestTurnId { .. } => event is RequestTurnIdRecorded,
            ActionView::Respond(_) => false,
        },
{
    lemma_stage_facts(thread_id, items_page_size, events, None);
}

/// What follows on the lookup of the thread and on the checks, up to the flushed
/// rollout: the next check where one is passed, and else an answer that tells
/// why not.
pub proof fn law_checks_come_one_after_the_other(
    thread_id: Seq<char>,
    items_page_size: usize,
    events: Seq<EventView>,
)
    requires
        is_course(thread_id, items_page_size, events),
    ensures
        ({
            let action = course(thread_id, items_page_size, events).1;
            &&& events.len() == 1 ==> match events[0]->ThreadLoaded_0 {
                Ok(_) => action is EnsureDirectInputAllowed,
                Err(error) => action == ActionView::Respond(Err(error)),
            }
            &&& events.len() == 2 ==> match events[1]->DirectInputChecked_0 {
                Ok(_) => action is ReadAgentStatus,
                Err(error) => action == ActionView::Respond(Err(error)),
            }
            &&& events.len() == 3 ==> if events[2]->AgentStatusRead_0 is Running {
                &&& action is Respond
                &&& action->Respond_0 is Err
                &&& action->Respond_0->Err_0.code == -32600
                &&& action->Respond_0->Err_0.message == "Cannot continue a running turn."@
                &&& action->Respond_0->Err_0.data is None
            } else {
                action is ReadConversation
            }
            &&& events.len() == 4 ==> if events[3]->has_items {
                action is FlushRollout
            } else {
                &&& action is Respond
                &&& action->Respond_0 is Err
                &&& action->Respond_0->Err_0.code == -32600
                &&& action->Respond_0->Err_0.message == "There is no unfinished turn to continue."@
                &&& action->Respond_0->Err_0.data is None
            }
            &&& events.len() == 5 ==> match events[4]->RolloutFlushed_0 {
                Ok(_) => {
                    &&& action is LoadLatestModelContext
                    &&& action->LoadLatestModelContext_thread_id
                        == events[0]->ThreadLoaded_0->Ok_0
                    &&& !action->LoadLatestModelContext_include_archived
                },
                Err(text) => {
                    &&& action is Respond
                    &&& action->Respond_0 is Err
                    &&& action->Respond_0->Err_0.code == -32603
                    &&& action->Respond_0->Err_0.message == "failed to flush turn history: "@ + text
                    &&& action->Respond_0->Err_0.data is None
                },
            }
        }),
{
    if 0 < events.len() <= 5 {
        lemma_stage_facts(thread_id, items_page_size, events.drop_last(), None);
    }
}

/// What follows on the model context: the history is decided on, or, from a
/// store that knows of no model contexts, loaded as a whole, or the client is
/// told of the error.
pub proof fn law_model_context_is_decided_on(
    thread_id: Seq<char>,
    items_page_size: usize,
    events: Seq<EventView>,
)
    requires
        is_course(thread_id, items_page_size, events),
        events.len() == 6,
    ensures
        ({
            let action = course(thread_id, items_page_size, events).1;
            &&& events[5] is ModelContextLoaded
            &&& match events[5]->ModelContextLoaded_0 {
                Ok(history) => match history.decision() {
                    Ok(_) => action is OpenThreadState && action->OpenThreadState_thread_id
                        == events[0]->ThreadLoaded_0->Ok_0,
                    Err(error) => action == ActionView::Respond(Err(error)),
                },
                Err(error) => if error is Unsupported && error->operation
                    == "load_latest_model_context"@ {
                    action is LoadHistory && !action->LoadHistory_include_archived
                } else {
                    let text = match error {
                        StoreErrorView::Unsupported { text, .. } => text,
                        StoreErrorView::Other { text } => text,
                    };
                    &&& action is Respond
                    &&& action->Respond_0 is Err
                    &&& action->Respond_0->Err_0.code == -32603
                    &&& action->Respond_0->Err_0.message == "failed to load turn context: "@ + text
                    &&& action->Respond_0->Err_0.data is None
                },
            }
        }),
{
    lemma_stage_facts(thread_id, items_page_size, events.drop_last(), None);
}

/// What follows on the whole history: it is decided on, or the client is told of
/// the error.
pub proof fn law_whole_history_is_decided_on(
    thread_id: Seq<char>,
    items_page_size: usize,
    events: Seq<EventView>,
)
    requires
        is_course(thread_id, items_page_size, events),
        events.len() > 0,
        events.last() is HistoryLoaded,
    ensures
        ({
            let action = course(thread_id, items_page_size, events).1;
            match events.last()->HistoryLoaded_0 {
                Ok(history) => match history.decision() {
                    Ok(_) => action is OpenThreadState && action->OpenThreadState_thread_id
                        == events[0]->ThreadLoaded_0->Ok_0,
                    Err(error) => action == ActionView::Respond(Err(error)),
                },
                Err(text) => {
                    &&& action is Respond
                    &&& action->Respond_0 is Err
                    &&& action->Respond_0->Err_0.code == -32603
                    &&& action->Respond_0->Err_0.message == "failed to load turn history: "@ + text
                    &&& action->Respond_0->Err_0.data is None
                },
            }
        }),
{
    lemma_stage_facts(thread_id, items_page_size, events.drop_last(), None);
}

/// A history that has come in on a course is the one that the course goes by.
proof fn lemma_loaded_once(
    thread_id: Seq<char>,
    items_page_size: usize,
    events: Seq<EventView>,
    history: LoadedView,
    at: int,
)
    requires
        is_course(thread_id, items_page_size, events),
        0 <= at < events.len(),
        events[at] == EventView::ModelContextLoaded(Ok(history)) || events[at]
            == EventView::HistoryLoaded(Ok(history)),
    ensures
        at == 5 || at == 6,
        loaded(events) == history,
        after_loading(events) == at + 1,
        events.len() > at + 1 ==> history.decision() is Ok,
{
    lemma_earlier_course(thread_id, items_page_size, events, at);
    lemma_stage_facts(thread_id, items_page_size, events.take(at), None);
    if at == 6 {
        assert(events.take(at)[5] == events[5]);
    }
    if events.len() > at + 1 {
        lemma_earlier_course(thread_id, items_page_size, events, at + 1);
    }
}

/// Once the state of the thread is open, a history with a line that says that it
/// is kept in pages has its pages fetched from the first one on, whatever its
/// other lines are; the turn of a history without such a line is left waiting as
/// it is.
pub proof fn law_paginated_turn_is_fetched(
    thread_id: Seq<char>,
    items_page_size: usize,
    events: Seq<EventView>,
    history: LoadedView,
    at: int,
)
    requires
        is_course(thread_id, items_page_size, events),
        0 <= at < events.len(),
        events[at] == EventView::ModelContextLoaded(Ok(history)) || events[at]
            == EventView::HistoryLoaded(Ok(history)),
        events.last() is ThreadStateOpened,
    ensures
        ({
            let action = course(thread_id, items_page_size, events).1;
            let turn = history.turns.last();
            if exists|i: int|
                #![trigger history.items[i]]
                0 <= i < history.items.len() && history.items[i] is SessionMeta
                    && history.items[i]->history_mode is Paginated {
                &&& action is ListItems
                &&& action->ListItems_0.thread_id == events[0]->ThreadLoaded_0->Ok_0
                &&& action->ListItems_0.turn_id == Some(turn.id)
                &&& action->ListItems_0.include_archived
                &&& action->ListItems_0.cursor is None
                &&& action->ListItems_0.page_size == items_page_size
                &&& action->ListItems_0.sort_direction is Asc
                &&& action->ListItems_0.sort_key is CreatedAtOrdinal
                &&& action->ListItems_0.after_updated_at_ordinal is None
            } else {
                &&& action is SetPendingRecoveryHistory
                &&& action->SetPendingRecoveryHistory_0 is Some
                &&& action->SetPendingRecoveryHistory_0->0.current_turn == Some(turn)
                &&& action->SetPendingRecoveryHistory_0->0.turns.len() == 0
            }
        }),
{
    lemma_loaded_once(thread_id, items_page_size, events, history, at);
    let earlier = events.drop_last();
    lemma_stage_facts(thread_id, items_page_size, earlier, None);
    assert(earlier[at] == events[at]);
    lemma_loaded_once(thread_id, items_page_size, earlier, history, at);
    law_one_session_line_makes_it_paginated(history);
}

/// A recovered history of a thread that keeps pages is left waiting only behind
/// a last page, and never without its pages; and pages are asked for only where
/// a line of the history says that they are kept.
pub proof fn law_pages_come_before_the_recovery(
    thread_id: Seq<char>,
    items_page_size: usize,
    events: Seq<EventView>,
    history: LoadedView,
    at: int,
)
    requires
        is_course(thread_id, items_page_size, events),
        0 <= at < events.len(),
        events[at] == EventView::ModelContextLoaded(Ok(history)) || events[at]
            == EventView::HistoryLoaded(Ok(history)),
    ensures
        ({
            let action = course(thread_id, items_page_size, events).1;
            let paginated = exists|i: int|
                #![trigger history.items[i]]
                0 <= i < history.items.len() && history.items[i] is SessionMeta
                    && history.items[i]->history_mode is Paginated;
            &&& action is ListItems ==> paginated
            &&& action is SetPendingRecoveryHistory && action->SetPendingRecoveryHistory_0 is Some
                && paginated ==> {
                &&& events.last() is ItemsListed
                &&& course(thread_id, items_page_size, events.drop_last()).1 is ListItems
                &&& action->SetPendingRecoveryHistory_0->0.current_turn is Some
                &&& action->SetPendingRecoveryHistory_0->0.current_turn->0.items == items_of_pages(
                    pages(events),
                )
            }
        }),
{
    let action = course(thread_id, items_page_size, events).1;
    lemma_loaded_once(thread_id, items_page_size, events, history, at);
    lemma_stage_facts(thread_id, items_page_size, events, None);
    lemma_stage_facts(thread_id, items_page_size, events.drop_last(), None);
    law_one_session_line_makes_it_paginated(history);
    if at < events.len() - 1 {
        assert(events.drop_last()[at] == events[at]);
        lemma_loaded_once(thread_id, items_page_size, events.drop_last(), history, at);
    }
}

/// What follows on a page: the error of the page or of its first item that does
/// not decode, the recovered history behind the last page, an error where the
/// cursor comes again, and else the page at the cursor. The turn that is left
/// waiting has the items of the pages, and is for the rest the last turn of the
/// history.
pub proof fn law_pages_are_fetched_to_the_end(
    thread_id: Seq<char>,
    items_page_size: usize,
    events: Seq<EventView>,
    history: LoadedView,
    at: int,
)
    requires
        is_course(thread_id, items_page_size, events),
        0 <= at < events.len(),
        events[at] == EventView::ModelContextLoaded(Ok(history)) || events[at]
            == EventView::HistoryLoaded(Ok(history)),
        events.last() is ItemsListed,
    ensures
        ({
            let action = course(thread_id, items_page_size, events).1;
            let asked = course(thread_id, items_page_size, events.drop_last()).1->ListItems_0;
            let last = history.turns.last();
            match events.last()->ItemsListed_0 {
                Err(error) => action == ActionView::Respond(Err(error)),
                Ok(page) => if exists|i: int|
                    0 <= i < page.items.len() && #[trigger] page.items[i] is Err {
                    &&& action is Respond
                    &&& action->Respond_0 is Err
                    &&& exists|i: int|
                        0 <= i < page.items.len() && #[trigger] page.items[i] == Err::<
                            ThreadItemView,
                            ErrorView,
                        >(action->Respond_0->Err_0) && (forall|k: int|
                            0 <= k < i ==> #[trigger] page.items[k] is Ok)
                } else if page.next_cursor is None {
                    let turn = action->SetPendingRecoveryHistory_0->0.current_turn->0;
                    &&& action is SetPendingRecoveryHistory
                    &&& action->SetPendingRecoveryHistory_0 is Some
                    &&& action->SetPendingRecoveryHistory_0->0.turns.len() == 0
                    &&& action->SetPendingRecoveryHistory_0->0.current_turn is Some
                    &&& turn.id == last.id
                    &&& turn.items == items_of_pages(pages(events))
                    &&& turn.status == last.status
                    &&& turn.error == last.error
                    &&& turn.started_at == last.started_at
                    &&& turn.completed_at == last.completed_at
                    &&& turn.duration_ms == last.duration_ms
                } else if page.next_cursor == asked.cursor {
                    &&& action is Respond
                    &&& action->Respond_0 is Err
                    &&& action->Respond_0->Err_0.code == -32603
                    &&& action->Respond_0->Err_0.message == "failed to load full turn items for "@
                        + last.id + ": thread store returned a repeated cursor"@
                    &&& action->Respond_0->Err_0.data is None
                } else {
                    &&& action is ListItems
                    &&& action->ListItems_0.cursor == page.next_cursor
                    &&& action->ListItems_0.thread_id == asked.thread_id
                    &&& action->ListItems_0.turn_id == asked.turn_id
                    &&& action->ListItems_0.include_archived == asked.include_archived
                    &&& action->ListItems_0.page_size == asked.page_size
                    &&& action->ListItems_0.sort_direction == asked.sort_direction
                    &&& action->ListItems_0.sort_key == asked.sort_key
                    &&& action->ListItems_0.after_updated_at_ordinal
                        == asked.after_updated_at_ordinal
                },
            }
        }),
{
    let earlier = events.drop_last();
    let action = course(thread_id, items_page_size, events).1;
    lemma_loaded_once(thread_id, items_page_size, events, history, at);
    assert(earlier[at] == events[at]);
    lemma_loaded_once(thread_id, items_page_size, earlier, history, at);
    lemma_stage_facts(thread_id, items_page_size, earlier, None);
    lemma_stage_facts(thread_id, items_page_size, events, None);
    let pager = course(thread_id, items_page_size, earlier).0.stage->pager;
    lemma_pager_keeps_its_turn(
        PagerView::start(found_thread(earlier), history.turns.last().id, items_page_size),
        pages(earlier),
    );
    if let Ok(page) = events.last()->ItemsListed_0 {
        law_first_bad_item_fails_the_page(page.items);
        if exists|i: int| 0 <= i < page.items.len() && #[trigger] page.items[i] is Err {
            let i = lemma_first_bad_item(page.items);
            assert(page.items[i] == Err::<ThreadItemView, ErrorView>(action->Respond_0->Err_0));
        }
    }
}

/// The pages do not change what a pager asks for, but for the cursor.
proof fn lemma_pager_keeps_its_turn(pager: PagerView, pages: Seq<Result<PageView, ErrorView>>)
    ensures
        pager.after_pages(pages) matches PagerStepView::More(next) ==> {
            &&& next.turn_id == pager.turn_id
            &&& next.thread_id == pager.thread_id
            &&& next.page_size == pager.page_size
        },
    decreases pages.len(),
{
    if pages.len() > 0 {
        if let PagerStepView::More(next) = pager.after_page(pages[0]) {
            lemma_pager_keeps_its_turn(next, pages.drop_first());
        }
    }
}

/// Among items of which some do not decode there is a first such item.
proof fn lemma_first_bad_item(items: Seq<Result<ThreadItemView, ErrorView>>) -> (at: int)
    requires
        exists|i: int| 0 <= i < items.len() && #[trigger] items[i] is Err,
    ensures
        0 <= at < items.len(),
        items[at] is Err,
        forall|k: int| 0 <= k < at ==> #[trigger] items[k] is Ok,
    decreases items.len(),
{
    if items[0] is Err {
        0
    } else {
        let rest = items.drop_first();
        let i = choose|i: int| 0 <= i < items.len() && #[trigger] items[i] is Err;
        assert(rest[i - 1] is Err);
        let at = lemma_first_bad_item(rest);
        assert forall|k: int| 0 <= k < at + 1 implies #[trigger] items[k] is Ok by {
            if k > 0 {
                assert(rest[k - 1] is Ok);
            }
        }
        at + 1
    }
}

/// The pages of a course are its page events, all of them and in their order.
pub proof fn law_pages_are_the_page_events(events: Seq<EventView>, event: EventView)
    ensures
        pages(Seq::empty()).len() == 0,
        event is ItemsListed ==> pages(events.push(event)) == pages(events).push(
            event->ItemsListed_0,
        ),
        !(event is ItemsListed) ==> pages(events.push(event)) == pages(events),
{
    assert(events.push(event).drop_last() =~= events);
}

/// The new attempt is asked for under the id of the last turn of the history,
/// with the trace that was read, with the access program of the latest context
/// of that turn, and with no other settings.
pub proof fn law_attempt_is_asked_for_with_what_was_read(
    thread_id: Seq<char>,
    items_page_size: usize,
    events: Seq<EventView>,
    history: LoadedView,
    at: int,
)
    requires
        is_course(thread_id, items_page_size, events),
        0 <= at < events.len(),
        events[at] == EventView::ModelContextLoaded(Ok(history)) || events[at]
            == EventView::HistoryLoaded(Ok(history)),
        events.last() is TraceContextRead,
    ensures
        ({
            let action = course(thread_id, items_page_size, events).1;
            &&& action is RecoverTurnIfIdle
            &&& action->RecoverTurnIfIdle_0.turn_id == history.turns.last().id
            &&& action->RecoverTurnIfIdle_0.trace == events.last()->TraceContextRead_0
            &&& action->RecoverTurnIfIdle_0.cyber_access_program == access_program_of(
                history.items,
                history.turns.last().id,
            )
            &&& action->RecoverTurnIfIdle_0.thread_settings is Unchanged
        }),
{
    lemma_loaded_once(thread_id, items_page_size, events, history, at);
    lemma_stage_facts(thread_id, items_page_size, events.drop_last(), None);
    lemma_stage_facts(thread_id, items_page_size, events, None);
}

/// What follows on the reply of the thread: a started turn is noted down; on any
/// other reply the waiting history is dropped.
pub proof fn law_reply_of_the_thread_is_acted_on(
    thread_id: Seq<char>,
    items_page_size: usize,
    events: Seq<EventView>,
)
    requires
        is_course(thread_id, items_page_size, events),
        events.len() > 0,
        events.last() is TurnRecovered,
    ensures
        ({
            let action = course(thread_id, items_page_size, events).1;
            match events.last()->TurnRecovered_0 {
                Ok(SubmissionView::Started { turn_id }) => action is RecordRequestTurnId
                    && action->turn_id == turn_id,
                _ => action is SetPendingRecoveryHistory && action->SetPendingRecoveryHistory_0
                    is None,
            }
        }),
{
    lemma_stage_facts(thread_id, items_page_size, events.drop_last(), None);
}

/// What follows once the waiting history is set: behind an installed one the
/// trace is read; behind a dropped one the client is told why the thread has not
/// taken the turn up.
pub proof fn law_set_history_is_followed_up(
    thread_id: Seq<char>,
    items_page_size: usize,
    events: Seq<EventView>,
)
    requires
        is_course(thread_id, items_page_size, events),
        events.len() > 0,
        events.last() is PendingRecoveryHistorySet,
    ensures
        ({
            let action = course(thread_id, items_page_size, events).1;
            let set = course(thread_id, items_page_size, events.drop_last()).1;
            let reply = events[events.len() - 2]->TurnRecovered_0;
            &&& set is SetPendingRecoveryHistory
            &&& set->SetPendingRecoveryHistory_0 is Some ==> action is ReadTraceContext
            &&& set->SetPendingRecoveryHistory_0 is None ==> {
                &&& events[events.len() - 2] is TurnRecovered
                &&& action is Respond
                &&& action->Respond_0 is Err
                &&& action->Respond_0->Err_0.data is None
                &&& match reply {
                    Ok(submission) => {
                        &&& submission is NotSubmitted
                        &&& action->Respond_0->Err_0.code == -32600
                        &&& action->Respond_0->Err_0.message == "Cannot continue turn: "@
                            + submission->reason
                    },
                    Err(text) => {
                        &&& action->Respond_0->Err_0.code == -32603
                        &&& action->Respond_0->Err_0.message == "failed to continue turn: "@ + text
                    },
                }
            }
        }),
{
    lemma_stage_facts(thread_id, items_page_size, events.drop_last(), None);
}

/// A client whose request was noted down is told of the turn of that note.
pub proof fn law_noted_turn_is_told(
    thread_id: Seq<char>,
    items_page_size: usize,
    events: Seq<EventView>,
)
    requires
        is_course(thread_id, items_page_size, events),
        events.len() > 0,
        events.last() is RequestTurnIdRecorded,
    ensures
        course(thread_id, items_page_size, events.drop_last()).1 is RecordRequestTurnId,
        course(thread_id, items_page_size, events).1 == ActionView::Respond(
            Ok(course(thread_id, items_page_size, events.drop_last()).1->turn_id),
        ),
{
    lemma_stage_facts(thread_id, items_page_size, events.drop_last(), None);
}

/// What waits is what was set last, and before that what waited before the
/// request.
pub proof fn law_last_set_history_waits(
    thread_id: Seq<char>,
    items_page_size: usize,
    events: Seq<EventView>,
    event: EventView,
    before: Option<HistoryView>,
)
    ensures
        pending(thread_id, items_page_size, Seq::empty(), before) == before,
        pending(thread_id, items_page_size, events.push(event), before) == match course(
            thread_id,
            items_page_size,
            events,
        ).1 {
            ActionView::SetPendingRecoveryHistory(history) => history,
            _ => pending(thread_id, items_page_size, events, before),
        },
{
    assert(events.push(event).drop_last() =~= events);
}

/// A thread is cleared exactly if it was found, takes direct input, is not
/// running, and has a conversation.
pub proof fn law_cleared_thread_has_passed_every_check(events: Seq<EventView>)
    requires
        events.len() >= 4,
    ensures
        is_cleared(events) <==> {
            &&& events[0] is ThreadLoaded && events[0]->ThreadLoaded_0 is Ok
            &&& events[1] is DirectInputChecked && events[1]->DirectInputChecked_0 is Ok
            &&& events[2] is AgentStatusRead && events[2]->AgentStatusRead_0 is NotRunning
            &&& events[3] is ConversationRead && events[3]->has_items
        },
{
}

} // verus!
