use walle_core::flow::{start_next, take_tasks, StartNext, TaskLists};
use walle_core::error::WalleError;
use walle_core::flow::{action_stage_handler, event_stage_handler, handler_order, next_stage, Handler, Stage};

#[test]
fn handlers_start_in_the_chosen_order() {
    assert_eq!(handler_order(true), (Handler::Action, Handler::Event));
    assert_eq!(handler_order(false), (Handler::Event, Handler::Action));
}

#[test]
fn handling_an_action_visits_event_action_event() {
    let mut s = Stage::BeforeCall;
    let mut seen = vec![];
    while let Some(h) = action_stage_handler(s) {
        seen.push(h);
        s = next_stage(s, true);
    }
    assert_eq!(seen, vec![Handler::Event, Handler::Action, Handler::Event]);
    assert_eq!(next_stage(Stage::Call, false), Stage::Done);
}

#[test]
fn handling_an_event_visits_action_event_action() {
    let mut s = Stage::BeforeCall;
    let mut seen = vec![];
    while let Some(h) = event_stage_handler(s) {
        seen.push(h);
        s = next_stage(s, true);
    }
    assert_eq!(seen, vec![Handler::Action, Handler::Event, Handler::Action]);
    assert_eq!(next_stage(Stage::BeforeCall, false), Stage::Done);
}

#[test]
fn starting_stops_at_the_first_failure() {
    let mut tasks: TaskLists<u8> = TaskLists { action: vec![], event: vec![] };
    let next = start_next(&mut tasks, Handler::Action, Some(Handler::Event), Ok(vec![1, 2]));
    assert!(matches!(next, StartNext::Start(Handler::Event)));
    let next = start_next(&mut tasks, Handler::Event, None, Err(WalleError::NotStarted));
    assert!(matches!(next, StartNext::Finish(Err(WalleError::NotStarted))));
    assert_eq!(tasks.action, vec![1, 2]);
    assert!(tasks.event.is_empty());
    let next = start_next(&mut tasks, Handler::Event, None, Ok(vec![3]));
    assert!(matches!(next, StartNext::Finish(Ok(()))));
    assert_eq!(take_tasks(&mut tasks), vec![1, 2, 3]);
    assert!(tasks.action.is_empty() && tasks.event.is_empty());
}
