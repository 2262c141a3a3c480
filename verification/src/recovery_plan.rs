//! Which turn of a loaded history is to be continued, and how.
use vstd::prelude::*;

use crate::history::turns_view;
use crate::rpc::{invalid_request, invalid_request_error, ErrorView, JSONRPCErrorError};
use crate::text::opt_text;
use crate::turn::{Turn, TurnStatus, TurnView};

verus! {

/// How a thread keeps its history.
#[derive(Debug, Clone, Copy, PartialEq, Eq, Structural)]
pub enum ThreadHistoryMode {
    Legacy,
    Paginated,
}

/// One line of a thread's durable record, as far as it bears on continuing a
/// turn.
#[derive(Debug, PartialEq, Eq)]
pub enum RolloutItem {
    SessionMeta { history_mode: ThreadHistoryMode },
    TurnContext { turn_id: Option<String>, cyber_access_program: Option<String> },
    Other,
}

/// A line of the record as its texts.
pub enum RolloutView {
    SessionMeta { history_mode: ThreadHistoryMode },
    TurnContext { turn_id: Option<Seq<char>>, cyber_access_program: Option<Seq<char>> },
    Other,
}

impl View for RolloutItem {
    type V = RolloutView;

    open spec fn view(&self) -> RolloutView {
        match *self {
            RolloutItem::SessionMeta { history_mode } => RolloutView::SessionMeta { history_mode },
            RolloutItem::TurnContext { turn_id, cyber_access_program } => RolloutView::TurnContext {
                turn_id: opt_text(turn_id),
                cyber_access_program: opt_text(cyber_access_program),
            },
            RolloutItem::Other => RolloutView::Other,
        }
    }
}

/// The lines of a record, each by its view.
pub open spec fn rollout_view(items: Seq<RolloutItem>) -> Seq<RolloutView> {
    items.map_values(|item: RolloutItem| item@)
}

/// A loaded record, and the turns that it tells of, the oldest first.
#[derive(Debug, PartialEq, Eq)]
pub struct LoadedHistory {
    pub items: Vec<RolloutItem>,
    pub turns: Vec<Turn>,
}

/// A loaded record as its parts.
pub struct LoadedView {
    pub items: Seq<RolloutView>,
    pub turns: Seq<TurnView>,
}

impl View for LoadedHistory {
    type V = LoadedView;

    open spec fn view(&self) -> LoadedView {
        LoadedView { items: rollout_view(self.items@), turns: turns_view(self.turns@) }
    }
}

/// The turn to continue, the access program that it ran under, and whether its
/// items have to be fetched in pages because the record may lack some.
#[derive(Debug, PartialEq, Eq)]
pub struct RecoveryPlan {
    pub turn: Turn,
    pub cyber_access_program: Option<String>,
    pub paginated: bool,
}

/// A plan as its parts.
pub struct PlanView {
    pub turn: TurnView,
    pub cyber_access_program: Option<Seq<char>>,
    pub paginated: bool,
}

impl View for RecoveryPlan {
    type V = PlanView;

    open spec fn view(&self) -> PlanView {
        PlanView {
            turn: self.turn@,
            cyber_access_program: opt_text(self.cyber_access_program),
            paginated: self.paginated,
        }
    }
}

/// The line is the context of an attempt at the turn.
pub open spec fn is_context_of(item: RolloutView, turn_id: Seq<char>) -> bool {
    match item {
        RolloutView::TurnContext { turn_id: named, .. } => named == Some(turn_id),
        _ => false,
    }
}

/// The access program of the latest attempt at the turn; none where that
/// attempt had none, or where no attempt left a context.
pub open spec fn access_program_of(items: Seq<RolloutView>, turn_id: Seq<char>) -> Option<Seq<char>>
    decreases items.len(),
{
    if items.len() == 0 {
        None
    } else if is_context_of(items.last(), turn_id) {
        items.last()->TurnContext_cyber_access_program
    } else {
        access_program_of(items.drop_last(), turn_id)
    }
}

/// The record says that its thread keeps its history in pages.
pub open spec fn is_paginated(items: Seq<RolloutView>) -> bool {
    exists|i: int|
        0 <= i < items.len() && #[trigger] items[i] == (RolloutView::SessionMeta {
            history_mode: ThreadHistoryMode::Paginated,
        })
}

/// Why the last turn cannot be continued: there is none, or it is through, or
/// it was stopped as a precaution.
pub open spec fn refusal(turns: Seq<TurnView>) -> Option<ErrorView> {
    if turns.len() == 0 {
        Some(invalid_request_error("There is no unfinished turn to continue."@))
    } else if turns.last().status == TurnStatus::Completed {
        Some(invalid_request_error("The last turn has already completed."@))
    } else if turns.last().stopped_as_precaution() {
        Some(
            invalid_request_error(
                "This turn was stopped as a precaution and cannot be continued."@,
            ),
        )
    } else {
        None
    }
}

impl LoadedView {
    /// The plan for the last turn.
    pub open spec fn plan(self) -> PlanView {
        PlanView {
            turn: self.turns.last(),
            cyber_access_program: access_program_of(self.items, self.turns.last().id),
            paginated: is_paginated(self.items),
        }
    }

    /// The plan for the last turn, or why it cannot be continued.
    pub open spec fn decision(self) -> Result<PlanView, ErrorView> {
        match refusal(self.turns) {
            Some(error) => Err(error),
            None => Ok(self.plan()),
        }
    }
}

/// A decision as views.
pub open spec fn decision_view(decision: Result<RecoveryPlan, JSONRPCErrorError>) -> Result<
    PlanView,
    ErrorView,
> {
    match decision {
        Ok(plan) => Ok(plan@),
        Err(error) => Err(error@),
    }
}

/// Decides whether the last turn of a history can be continued, and how.
pub fn plan_recovery(history: LoadedHistory) -> (decision: Result<RecoveryPlan, JSONRPCErrorError>)
    ensures
        decision_view(decision) == history@.decision(),
        decision is Ok <==> {
            let turn = history.turns@.last();
            &&& history.turns@.len() > 0
            &&& !(turn.status is Completed)
            &&& !(turn.error is Some && turn.error->0.codex_error_info is Some
                && turn.error->0.codex_error_info->0 is MisalignmentPolicyViolation)
        },
        decision matches Ok(plan) ==> {
            &&& plan.turn == history.turns@.last()
            &&& plan.paginated <==> exists|i: int|
                #![trigger history.items@[i]]
                0 <= i < history.items@.len() && history.items@[i] is SessionMeta
                    && history.items@[i]->history_mode is Paginated
            &&& forall|at: int|
                0 <= at < history.items@.len() && (
                #[trigger] history.items@[at] matches RolloutItem::TurnContext {
                    turn_id: Some(named),
                    ..
                } && named@ == plan.turn.id@) && (forall|k: int|
                    at < k < history.items@.len() ==> !(
                    #[trigger] history.items@[k] matches RolloutItem::TurnContext {
                        turn_id: Some(named),
                        ..
                    } && named@ == plan.turn.id@)) ==> plan.cyber_access_program
                    == history.items@[at]->cyber_access_program
            &&& plan.cyber_access_program is Some ==> exists|at: int|
                #![trigger history.items@[at]]
                0 <= at < history.items@.len() && (
                history.items@[at] matches RolloutItem::TurnContext { turn_id: Some(named), .. }
                    && named@ == plan.turn.id@) && plan.cyber_access_program
                    == history.items@[at]->cyber_access_program
        },
        decision matches Err(error) ==> {
            &&& error.code == -32600
            &&& error.data is None
            &&& error.message@ == if history.turns@.len() == 0 {
                "There is no unfinished turn to continue."@
            } else if history.turns@.last().status is Completed {
                "The last turn has already completed."@
            } else {
                "This turn was stopped as a precaution and cannot be continued."@
            }
        },
{
    let ghost loaded = history@;
    let mut turns = history.turns;
    let turn = match turns.pop() {
        Some(turn) => turn,
        None => {
            return Err(invalid_request("There is no unfinished turn to continue.".to_string()));
        },
    };
    assert(loaded.turns.last() == turn@);
    match turn.status {
        TurnStatus::Completed => {
            return Err(invalid_request("The last turn has already completed.".to_string()));
        },
        TurnStatus::Interrupted | TurnStatus::Failed | TurnStatus::InProgress => {},
    }
    if turn.stopped_as_precaution() {
        return Err(
            invalid_request(
                "This turn was stopped as a precaution and cannot be continued.".to_string(),
            ),
        );
    }
    let cyber_access_program = latest_access_program(&history.items, &turn.id);
    let paginated = keeps_pages(&history.items);
    Ok(RecoveryPlan { turn, cyber_access_program, paginated })
}

/// The access program of the latest attempt at a turn.
pub fn latest_access_program(items: &Vec<RolloutItem>, turn_id: &String) -> (program: Option<
    String,
>)
    ensures
        opt_text(program) == access_program_of(rollout_view(items@), turn_id@),
        forall|at: int|
            0 <= at < items@.len() && (#[trigger] items@[at] matches RolloutItem::TurnContext {
                turn_id: Some(named),
                ..
            } && named@ == turn_id@) && (forall|k: int|
                at < k < items@.len() ==> !(#[trigger] items@[k] matches RolloutItem::TurnContext {
                    turn_id: Some(named),
                    ..
                } && named@ == turn_id@)) ==> program == items@[at]->cyber_access_program,
        program is Some ==> exists|at: int|
            #![trigger items@[at]]
            0 <= at < items@.len() && (items@[at] matches RolloutItem::TurnContext {
                turn_id: Some(named),
                ..
            } && named@ == turn_id@) && program == items@[at]->cyber_access_program,
{
    let ghost all = rollout_view(items@);
    let mut i: usize = items.len();
    assert(all.take(i as int) =~= all);
    while i > 0
        invariant
            i <= items@.len(),
            all == rollout_view(items@),
            access_program_of(all.take(i as int), turn_id@) == access_program_of(all, turn_id@),
            forall|k: int|
                i <= k < items@.len() ==> !(#[trigger] items@[k] matches RolloutItem::TurnContext {
                    turn_id: Some(named),
                    ..
                } && named@ == turn_id@),
        decreases i,
    {
        i = i - 1;
        assert(all.take(i + 1).drop_last() =~= all.take(i as int));
        assert(all.take(i + 1).last() == items@[i as int]@);
        if let RolloutItem::TurnContext { turn_id: Some(named), cyber_access_program } = &items[i] {
            if *named == *turn_id {
                return cyber_access_program.clone();
            }
        }
    }
    None
}

/// Tells whether a record says that its thread keeps its history in pages.
pub fn keeps_pages(items: &Vec<RolloutItem>) -> (paginated: bool)
    ensures
        paginated == is_paginated(rollout_view(items@)),
        paginated <==> exists|i: int|
            #![trigger items@[i]]
            0 <= i < items@.len() && items@[i] is SessionMeta && items@[i]->history_mode
                is Paginated,
{
    let ghost all = rollout_view(items@);
    let ghost mark = RolloutView::SessionMeta { history_mode: ThreadHistoryMode::Paginated };
    for i in 0..items.len()
        invariant
            all == rollout_view(items@),
            mark == (RolloutView::SessionMeta { history_mode: ThreadHistoryMode::Paginated }),
            forall|k: int| 0 <= k < i ==> #[trigger] all[k] != mark,
            forall|k: int|
                #![trigger items@[k]]
                0 <= k < i ==> !(items@[k] is SessionMeta && items@[k]->history_mode is Paginated),
    {
        assert(all[i as int] == items@[i as int]@);
        if let RolloutItem::SessionMeta { history_mode: ThreadHistoryMode::Paginated } = &items[i] {
            assert(all[i as int] == mark);
            return true;
        }
    }
    false
}

/// Where an attempt at the turn left a context, the last such context alone
/// gives the access program.
pub proof fn law_latest_context_gives_access_program(
    items: Seq<RolloutView>,
    turn_id: Seq<char>,
    at: int,
)
    requires
        0 <= at < items.len(),
        items[at] is TurnContext,
        items[at]->turn_id == Some(turn_id),
        forall|k: int|
            #![trigger items[k]]
            at < k < items.len() && items[k] is TurnContext ==> items[k]->turn_id != Some(turn_id),
    ensures
        access_program_of(items, turn_id) == items[at]->cyber_access_program,
    decreases items.len(),
{
    if at < items.len() - 1 {
        law_latest_context_gives_access_program(items.drop_last(), turn_id, at);
    }
}

/// Where no attempt at the turn left a context there is no access program,
/// whatever the contexts of other turns say.
pub proof fn law_other_contexts_give_no_access_program(
    items: Seq<RolloutView>,
    turn_id: Seq<char>,
)
    requires
        forall|k: int|
            #![trigger items[k]]
            0 <= k < items.len() && items[k] is TurnContext ==> items[k]->turn_id != Some(turn_id),
    ensures
        access_program_of(items, turn_id) is None,
    decreases items.len(),
{
    if items.len() > 0 {
        law_other_contexts_give_no_access_program(items.drop_last(), turn_id);
    }
}

/// The last turn is continued exactly if it is there, is not completed and was
/// not stopped as a precaution; the turns before it make no difference.
pub proof fn law_only_an_unfinished_last_turn_is_continued(history: LoadedView)
    ensures
        history.decision() is Ok <==> {
            &&& history.turns.len() > 0
            &&& history.turns.last().status != TurnStatus::Completed
            &&& !history.turns.last().stopped_as_precaution()
        },
        history.decision() is Ok ==> history.decision()->Ok_0.turn == history.turns.last(),
        history.decision() is Err ==> history.decision()->Err_0.code
            == crate::rpc::INVALID_REQUEST_CODE,
{
}

/// One line that says that the thread keeps its history in pages is enough,
/// wherever it stands and whatever the other lines are; without such a line the
/// history is not kept in pages.
pub proof fn law_one_session_line_makes_it_paginated(history: LoadedView)
    ensures
        forall|i: int|
            #![trigger history.items[i]]
            0 <= i < history.items.len() && history.items[i] is SessionMeta
                && history.items[i]->history_mode is Paginated ==> history.plan().paginated,
        (forall|i: int|
            #![trigger history.items[i]]
            0 <= i < history.items.len() && history.items[i] is SessionMeta
                ==> !(history.items[i]->history_mode is Paginated)) ==> !history.plan().paginated,
{
}

/// A record made of two is kept in pages exactly if one of the two is.
pub proof fn law_joined_records_are_paginated_together(
    first: Seq<RolloutView>,
    second: Seq<RolloutView>,
)
    ensures
        is_paginated(first + second) <==> is_paginated(first) || is_paginated(second),
{
    let mark = RolloutView::SessionMeta { history_mode: ThreadHistoryMode::Paginated };
    let both = first + second;
    if is_paginated(first) {
        let i = choose|i: int| 0 <= i < first.len() && #[trigger] first[i] == mark;
        assert(both[i] == mark);
    }
    if is_paginated(second) {
        let i = choose|i: int| 0 <= i < second.len() && #[trigger] second[i] == mark;
        assert(both[first.len() + i] == mark);
    }
    if is_paginated(both) {
        let i = choose|i: int| 0 <= i < both.len() && #[trigger] both[i] == mark;
        if i < first.len() {
            assert(first[i] == mark);
        } else {
            assert(second[i - first.len()] == mark);
        }
    }
}

/// A last turn that is not completed is refused exactly if it has an error that
/// is a misalignment policy violation. Without an error, with an error of no
/// stated kind and with one of any other kind it is continued, as it is.
pub proof fn law_unfinished_turn_is_refused_only_for_a_violation(history: LoadedView)
    requires
        history.turns.len() > 0,
        !(history.turns.last().status is Completed),
    ensures
        ({
            let turn = history.turns.last();
            let violated = turn.error is Some && turn.error->0.codex_error_info is Some
                && turn.error->0.codex_error_info->0 is MisalignmentPolicyViolation;
            &&& history.decision() is Err <==> violated
            &&& !violated ==> history.decision()->Ok_0.turn == turn
            &&& violated ==> history.decision()->Err_0.code == -32600
                && history.decision()->Err_0.message
                == "This turn was stopped as a precaution and cannot be continued."@
                && history.decision()->Err_0.data is None
        }),
{
}

/// Without a turn, and with a completed last one, there is nothing to continue,
/// and the client is told which of the two it is.
pub proof fn law_nothing_unfinished_is_refused(history: LoadedView)
    ensures
        history.turns.len() == 0 ==> {
            &&& history.decision() is Err
            &&& history.decision()->Err_0.code == -32600
            &&& history.decision()->Err_0.message == "There is no unfinished turn to continue."@
            &&& history.decision()->Err_0.data is None
        },
        history.turns.len() > 0 && history.turns.last().status is Completed ==> {
            &&& history.decision() is Err
            &&& history.decision()->Err_0.code == -32600
            &&& history.decision()->Err_0.message == "The last turn has already completed."@
            &&& history.decision()->Err_0.data is None
        },
{
}

/// Earlier turns make no difference to what is decided of the last one.
pub proof fn law_earlier_turns_make_no_difference(history: LoadedView, earlier: Seq<TurnView>)
    requires
        history.turns.len() > 0,
    ensures
        (LoadedView { turns: earlier + history.turns, ..history }).decision() == history.decision(),
{
    assert((earlier + history.turns).last() == history.turns.last());
}

/// The plan names the access program of the latest context of its own turn.
pub proof fn law_plan_takes_program_of_its_turn(history: LoadedView)
    requires
        history.decision() is Ok,
    ensures
        history.decision()->Ok_0.cyber_access_program == access_program_of(
            history.items,
            history.turns.last().id,
        ),
        history.decision()->Ok_0.paginated == is_paginated(history.items),
{
}

/// All of a line of the record is seen.
pub proof fn law_rollout_item_is_seen_whole(item: RolloutItem)
    ensures
        match item {
            RolloutItem::SessionMeta { history_mode } => item@ is SessionMeta
                && item@->history_mode == history_mode,
            RolloutItem::TurnContext { turn_id, cyber_access_program } => {
                &&& item@ is TurnContext
                &&& item@->turn_id == opt_text(turn_id)
                &&& item@->cyber_access_program == opt_text(cyber_access_program)
            },
            RolloutItem::Other => item@ is Other,
        },
{
}

/// All of a loaded history is seen, each line and each turn in its place.
pub proof fn law_loaded_history_is_seen_whole(history: LoadedHistory)
    ensures
        history@.items.len() == history.items@.len(),
        forall|i: int|
            0 <= i < history.items@.len() ==> #[trigger] history@.items[i] == history.items@[i]@,
        history@.turns.len() == history.turns@.len(),
        forall|i: int|
            0 <= i < history.turns@.len() ==> #[trigger] history@.turns[i] == history.turns@[i]@,
{
}

/// All of a plan is seen.
pub proof fn law_plan_is_seen_whole(plan: RecoveryPlan)
    ensures
        plan@.turn == plan.turn@,
        plan@.cyber_access_program == opt_text(plan.cyber_access_program),
        plan@.paginated == plan.paginated,
{
}

} // verus!
