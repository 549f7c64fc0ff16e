//! The order in which an instance drives its two handlers: at start and
//! shutdown, and through the stages of handling an action or an event.
//! The handlers' own work is done by the caller; these functions decide
//! what comes next.

use vstd::prelude::*;
use crate::error::WalleResult;

verus! {

/// One of the two handlers of an instance.
#[derive(Debug, Clone, Copy, PartialEq, Eq, Structural)]
pub enum Handler {
    Action,
    Event,
}

/// The order in which the handlers start, and stop: the action handler
/// first where `ah_first`, else the event handler first.
pub fn handler_order(ah_first: bool) -> (r: (Handler, Handler))
    ensures
        r == (if ah_first { (Handler::Action, Handler::Event) } else { (Handler::Event, Handler::Action) }),
{
    if ah_first {
        (Handler::Action, Handler::Event)
    } else {
        (Handler::Event, Handler::Action)
    }
}

/// The stages of handling a request: the hook before the call, the call,
/// the hook after it, and the end.
#[derive(Debug, Clone, Copy, PartialEq, Eq, Structural)]
pub enum Stage {
    BeforeCall,
    Call,
    AfterCall,
    Done,
}

/// The stage that follows `s` once its handler has answered; an error
/// ends the handling at once.
pub open spec fn spec_next_stage(s: Stage, ok: bool) -> Stage {
    if !ok {
        Stage::Done
    } else {
        match s {
            Stage::BeforeCall => Stage::Call,
            Stage::Call => Stage::AfterCall,
            Stage::AfterCall => Stage::Done,
            Stage::Done => Stage::Done,
        }
    }
}

/// The stage that follows `s`, given whether its handler succeeded.
pub fn next_stage(s: Stage, ok: bool) -> (r: Stage)
    ensures
        r == spec_next_stage(s, ok),
{
    if !ok {
        Stage::Done
    } else {
        match s {
            Stage::BeforeCall => Stage::Call,
            Stage::Call => Stage::AfterCall,
            Stage::AfterCall => Stage::Done,
            Stage::Done => Stage::Done,
        }
    }
}

/// The handler that works at stage `s` of handling an action: the event
/// handler before and after the call, the action handler for the call.
pub open spec fn spec_action_stage_handler(s: Stage) -> Option<Handler> {
    match s {
        Stage::BeforeCall => Some(Handler::Event),
        Stage::Call => Some(Handler::Action),
        Stage::AfterCall => Some(Handler::Event),
        Stage::Done => None,
    }
}

/// The handler that works at stage `s` of handling an action.
pub fn action_stage_handler(s: Stage) -> (r: Option<Handler>)
    ensures
        r == spec_action_stage_handler(s),
{
    match s {
        Stage::BeforeCall => Some(Handler::Event),
        Stage::Call => Some(Handler::Action),
        Stage::AfterCall => Some(Handler::Event),
        Stage::Done => None,
    }
}

/// The handler that works at stage `s` of handling an event: the action
/// handler before and after the call, the event handler for the call.
pub open spec fn spec_event_stage_handler(s: Stage) -> Option<Handler> {
    match s {
        Stage::BeforeCall => Some(Handler::Action),
        Stage::Call => Some(Handler::Event),
        Stage::AfterCall => Some(Handler::Action),
        Stage::Done => None,
    }
}

/// The handler that works at stage `s` of handling an event.
pub fn event_stage_handler(s: Stage) -> (r: Option<Handler>)
    ensures
        r == spec_event_stage_handler(s),
{
    match s {
        Stage::BeforeCall => Some(Handler::Action),
        Stage::Call => Some(Handler::Event),
        Stage::AfterCall => Some(Handler::Action),
        Stage::Done => None,
    }
}

/// Handling that meets no error passes through the three stages in order
/// and then ends; an error at any stage ends it there.
pub proof fn law_stages_in_order(s: Stage)
    ensures
        spec_next_stage(spec_next_stage(spec_next_stage(Stage::BeforeCall, true), true), true) == Stage::Done,
        spec_next_stage(s, false) == Stage::Done,
        spec_next_stage(Stage::Done, true) == Stage::Done,
{
}

/// The tasks each handler left running; `J` is a task handle.
pub struct TaskLists<J> {
    pub action: Vec<J>,
    pub event: Vec<J>,
}

/// What starting does next.
pub enum StartNext {
    /// Start this handler.
    Start(Handler),
    /// Starting is over, with this result.
    Finish(WalleResult<()>),
}

/// Records the start of handler `started`, which is followed by `then`
/// (if any): on success its tasks replace its list and the next handler
/// starts, or starting succeeds; on failure the lists stay as they were,
/// no further handler starts and the failure is the result.
pub fn start_next<J>(tasks: &mut TaskLists<J>, started: Handler, then: Option<Handler>, outcome: WalleResult<Vec<J>>) -> (r: StartNext)
    ensures
        match outcome {
            Ok(js) => {
                &&& final(tasks).action@ == (if started == Handler::Action { js@ } else { old(tasks).action@ })
                &&& final(tasks).event@ == (if started == Handler::Event { js@ } else { old(tasks).event@ })
                &&& match then {
                    Some(h) => r == StartNext::Start(h),
                    None => r == StartNext::Finish(Ok(())),
                }
            },
            Err(e) => {
                &&& final(tasks).action@ == old(tasks).action@
                &&& final(tasks).event@ == old(tasks).event@
                &&& r == StartNext::Finish(Err(e))
            },
        },
{
    match outcome {
        Ok(js) => {
            match started {
                Handler::Action => { tasks.action = js; },
                Handler::Event => { tasks.event = js; },
            }
            match then {
                Some(h) => StartNext::Start(h),
                None => StartNext::Finish(Ok(())),
            }
        },
        Err(e) => StartNext::Finish(Err(e)),
    }
}

/// Takes every task left running, the action handler's first, to be
/// awaited; both lists are left empty.
pub fn take_tasks<J>(tasks: &mut TaskLists<J>) -> (r: Vec<J>)
    ensures
        r@ == old(tasks).action@ + old(tasks).event@,
        final(tasks).action@ == Seq::<J>::empty(),
        final(tasks).event@ == Seq::<J>::empty(),
{
    let mut all: Vec<J> = Vec::new();
    std::mem::swap(&mut all, &mut tasks.action);
    let mut rest: Vec<J> = Vec::new();
    std::mem::swap(&mut rest, &mut tasks.event);
    all.append(&mut rest);
    all
}

} // verus!
