use turn_recovery::history::{
    AgentMessageEvent, EventMsg, ThreadHistoryBuilder, TurnAbortedEvent, TurnCompletedEvent,
    TurnStartedEvent,
};
use turn_recovery::thread_state::ThreadState;
use turn_recovery::turn::{ThreadItem, Turn, TurnError, TurnStatus};

fn build_turns(history: &[EventMsg]) -> Vec<Turn> {
    let mut builder = ThreadHistoryBuilder::new();
    for event in history {
        builder.handle_event(event);
    }
    builder.finish()
}

#[test]
fn recovery_reuses_turn_items_and_clears_terminal_state() {
    let started = TurnStartedEvent {
        turn_id: "original-turn".to_string(),
        started_at: Some(10),
    };
    let progress = AgentMessageEvent {
        message: "Saved progress".to_string(),
        phase: None,
        memory_citation: None,
        delivery: None,
        questions: None,
    };
    let history = vec![
        EventMsg::AgentMessage(AgentMessageEvent {
            message: "An earlier turn".to_string(),
            ..progress.clone()
        }),
        EventMsg::TurnStarted(started.clone()),
        EventMsg::AgentMessage(progress.clone()),
        EventMsg::TurnAborted(TurnAbortedEvent {
            turn_id: Some(started.turn_id.clone()),
            completed_at: Some(12),
            duration_ms: Some(2000),
        }),
    ];
    let mut expected = build_turns(&history).pop().expect("interrupted turn");
    assert_eq!(expected.status, TurnStatus::Interrupted);
    assert_eq!(expected.completed_at, Some(12));
    assert_eq!(expected.duration_ms, Some(2000));
    let mut builder = ThreadHistoryBuilder::from_turn(expected.clone());
    expected.status = TurnStatus::InProgress;
    expected.error = None;
    expected.started_at = Some(20);
    expected.completed_at = None;
    expected.duration_ms = None;

    builder.handle_event(&EventMsg::TurnStarted(TurnStartedEvent {
        started_at: Some(20),
        ..started
    }));

    assert_eq!(builder.active_turn_snapshot(), Some(expected.clone()));
    builder.handle_event(&EventMsg::AgentMessage(AgentMessageEvent {
        message: "Resumed progress".to_string(),
        ..progress
    }));
    expected.items.push(ThreadItem::AgentMessage {
        id: "item-3".to_string(),
        text: "Resumed progress".to_string(),
        phase: None,
        memory_citation: None,
        delivery: None,
        questions: None,
    });
    assert_eq!(builder.finish(), vec![expected]);
}

fn started(turn_id: &str, started_at: i64) -> EventMsg {
    EventMsg::TurnStarted(TurnStartedEvent {
        turn_id: turn_id.to_string(),
        started_at: Some(started_at),
    })
}

fn message(text: &str) -> EventMsg {
    EventMsg::AgentMessage(AgentMessageEvent {
        message: text.to_string(),
        phase: Some("final".to_string()),
        memory_citation: None,
        delivery: None,
        questions: None,
    })
}

fn aborted(turn_id: Option<&str>) -> EventMsg {
    EventMsg::TurnAborted(TurnAbortedEvent {
        turn_id: turn_id.map(str::to_string),
        completed_at: Some(50),
        duration_ms: Some(7),
    })
}

fn completed(turn_id: &str, error: Option<&str>) -> EventMsg {
    EventMsg::TurnCompleted(TurnCompletedEvent {
        turn_id: turn_id.to_string(),
        error: error.map(|message| TurnError {
            message: message.to_string(),
            codex_error_info: None,
        }),
        completed_at: Some(60),
        duration_ms: Some(8),
    })
}

fn ids(turns: &[Turn]) -> Vec<&str> {
    turns.iter().map(|turn| turn.id.as_str()).collect()
}

#[test]
fn attempts_at_one_turn_are_one_turn() {
    let turns = build_turns(&[
        started("a", 1),
        message("one"),
        aborted(Some("a")),
        started("a", 2),
        message("two"),
    ]);
    assert_eq!(ids(&turns), vec!["a"]);
    assert_eq!(turns[0].items.len(), 2);
    assert_eq!(turns[0].status, TurnStatus::InProgress);
    assert_eq!(turns[0].started_at, Some(2));
    assert_eq!(turns[0].completed_at, None);
}

#[test]
fn restart_takes_back_an_end() {
    let straight = build_turns(&[started("a", 1), message("one"), started("a", 2)]);
    for ended in [
        aborted(None),
        aborted(Some("a")),
        completed("a", None),
        completed("a", Some("stream disconnected")),
    ] {
        let again = build_turns(&[started("a", 1), message("one"), ended, started("a", 2)]);
        assert_eq!(again, straight);
    }
}

#[test]
fn completion_reaches_the_turn_that_it_names() {
    let turns = build_turns(&[started("a", 1), message("one"), completed("a", None)]);
    assert_eq!(turns[0].status, TurnStatus::Completed);
    assert_eq!(turns[0].error, None);
    assert_eq!(turns[0].completed_at, Some(60));
    assert_eq!(turns[0].duration_ms, Some(8));
    assert_eq!(turns[0].items.len(), 1);
    let turns = build_turns(&[started("a", 1), started("b", 2), completed("a", Some("cut off"))]);
    assert_eq!(turns[0].status, TurnStatus::Failed);
    assert_eq!(turns[0].error.as_ref().map(|error| error.message.as_str()), Some("cut off"));
    assert_eq!(turns[1].status, TurnStatus::InProgress);
    let turns = build_turns(&[started("a", 1), completed("unknown", None)]);
    assert_eq!(turns[0].status, TurnStatus::Completed);
}

#[test]
fn another_turn_begins_without_items() {
    let turns = build_turns(&[started("a", 1), message("one"), started("b", 2)]);
    assert_eq!(ids(&turns), vec!["a", "b"]);
    assert!(turns[1].items.is_empty());
    assert_eq!(turns[0].status, TurnStatus::InProgress);
}

#[test]
fn abort_reaches_the_turn_that_it_names() {
    let turns = build_turns(&[started("a", 1), started("b", 2), aborted(Some("a"))]);
    assert_eq!(turns[0].status, TurnStatus::Interrupted);
    assert_eq!(turns[0].completed_at, Some(50));
    assert_eq!(turns[1].status, TurnStatus::InProgress);
    for name in [None, Some("b"), Some("unknown")] {
        let turns = build_turns(&[started("a", 1), started("b", 2), aborted(name)]);
        assert_eq!(turns[0].status, TurnStatus::InProgress);
        assert_eq!(turns[1].status, TurnStatus::Interrupted);
        assert_eq!(turns[1].duration_ms, Some(7));
    }
    assert!(build_turns(&[aborted(None)]).is_empty());
}

#[test]
fn items_to_come_are_numbered_after_those_that_are_there() {
    let mut turn = build_turns(&[started("a", 1)]).pop().expect("turn");
    for id in ["item-41", "saved-progress", "item-7"] {
        turn.items.push(ThreadItem::Other { id: id.to_string(), body: String::new() });
    }
    let mut builder = ThreadHistoryBuilder::from_turn(turn);
    builder.handle_event(&message("next"));
    let active = builder.active_turn_snapshot().expect("active turn");
    assert_eq!(active.items[3].id(), "item-42");
    assert_eq!(active.items.len(), 4);
}

#[test]
fn full_counter_is_told() {
    let mut turn = build_turns(&[started("a", 1)]).pop().expect("turn");
    let id = "item-18446744073709551615".to_string();
    turn.items.push(ThreadItem::Other { id, body: String::new() });
    let builder = ThreadHistoryBuilder::from_turn(turn);
    assert!(!builder.has_room_for(&message("next")));
    assert!(builder.has_room_for(&aborted(None)));
}

#[test]
fn unannounced_turn_is_named_after_its_first_item() {
    let turns = build_turns(&[message("one"), message("two")]);
    assert_eq!(ids(&turns), vec!["item-1"]);
    assert_eq!(turns[0].items.len(), 2);
    assert_eq!(turns[0].status, TurnStatus::Completed);
}

#[test]
fn queued_end_does_not_reach_the_recovered_history() {
    let turn = build_turns(&[started("a", 1), message("one"), aborted(None)]).pop().expect("turn");
    for queued in [aborted(Some("a")), completed("a", None), completed("a", Some("cut off"))] {
        let mut state = ThreadState::new();
        state.track_current_turn_event(&started("a", 1));
        state.set_pending_recovery_history(Some(ThreadHistoryBuilder::from_turn(turn.clone())));
        state.track_current_turn_event(&queued);
        assert_eq!(state.current_turn_history().active_turn_snapshot(), None);
        assert!(state.has_room_for(&started("a", 2)));
        state.track_current_turn_event(&started("a", 2));
        let active = state.current_turn_history().active_turn_snapshot().expect("active turn");
        assert_eq!(active.items, turn.items);
        assert_eq!(active.status, TurnStatus::InProgress);
        assert_eq!(active.error, None);
        assert!(state.current_turn_history().is_running());
    }
}
