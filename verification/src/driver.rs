//! The time-budget driver: the states of a resumable unit, the decisions
//! taken between resumes and at each interrupt, and the loop that resumes
//! the unit until it ends or the budget is spent.

use crate::eval::LamError;
use crate::host::{
    elapsed, error_message, format_number, model_of, number_text, resume, status, whole_seconds,
    UnitStatus,
};
use crate::value::{host_of, to_host, HostView, ScriptValue, ScriptView, StateValue};
use std::time::Duration;
use std::time::Instant;
use vstd::prelude::*;
use vstd::string::*;

verus! {

/// The budget, in seconds, of an evaluation that names none.
pub const DEFAULT_BUDGET: u64 = 30;

/// The most resumes that one evaluation makes.
pub const RESUME_LIMIT: u64 = 0xFFFF_FFFF_FFFF_FFFF;

/// Where a resumable unit stands.
#[derive(Clone, Copy, Debug, PartialEq, Eq)]
pub enum DriverState {
    /// Not resumed yet.
    Created,
    /// Resumed, and to be resumed again.
    Running,
    /// Halted at a safe point because the budget was spent.
    Suspended,
    /// The script returned.
    Completed,
    /// The script raised a fault that nothing caught.
    Errored,
}

/// What one resume of the unit came to.
#[derive(Clone, Copy, Debug, PartialEq, Eq)]
pub enum ResumeEvent {
    /// The resume gave a value and left the unit in this status.
    Gave(UnitStatus),
    /// The resume ended in a fault.
    Faulted,
}

/// The budget in force: the one asked for, or the default.
pub open spec fn budget_of(timeout: Option<u64>) -> u64 {
    match timeout {
        Some(seconds) => seconds,
        None => DEFAULT_BUDGET,
    }
}

/// Whether the budget is spent after `elapsed_seconds` whole seconds.
pub open spec fn budget_spent(elapsed_seconds: u64, budget: u64) -> bool {
    elapsed_seconds >= budget
}

/// Whether a state is final: no resume follows it.
pub open spec fn is_terminal(state: DriverState) -> bool {
    state is Suspended || state is Completed || state is Errored
}

/// The state after a resume. A fault ends in `Errored`. A unit that can
/// no longer be resumed has `Completed`, however long it took. A unit
/// that can be resumed is `Suspended` once the budget is spent, and
/// `Running` before. A final state stays as it is.
pub open spec fn next_state(state: DriverState, event: ResumeEvent, spent: bool) -> DriverState {
    if is_terminal(state) {
        state
    } else {
        match event {
            ResumeEvent::Faulted => DriverState::Errored,
            ResumeEvent::Gave(UnitStatus::Resumable) => if spent {
                DriverState::Suspended
            } else {
                DriverState::Running
            },
            ResumeEvent::Gave(_) => DriverState::Completed,
        }
    }
}

/// The text of a host value: empty for an absent value, `true` or
/// `false` for a boolean, the machine's own spelling for a number, and
/// a text as it is.
pub open spec fn text_of(v: HostView) -> Seq<char> {
    match v {
        HostView::Absent => Seq::empty(),
        HostView::Boolean(b) => if b {
            "true"@
        } else {
            "false"@
        },
        HostView::Number(bits) => number_text(bits),
        HostView::Text(chars) => chars,
    }
}

/// Whether `outcome` is what an evaluation comes to whose unit came to
/// rest in `state` after `duration`, with `last` as the last value it
/// gave and `fault` as the text of the fault it raised. A unit that
/// ended in a fault comes to that fault. Any other comes to the text of
/// its last value and the time taken, or, where that value is a number,
/// to a fault of the machine that could not write it.
pub open spec fn is_outcome(
    outcome: Result<EvalResult, LamError>,
    state: DriverState,
    last: ScriptView,
    fault: Seq<char>,
    duration: Duration,
) -> bool {
    if state is Errored {
        outcome matches Err(LamError::Runtime(message)) && message@ == fault
    } else {
        match outcome {
            Ok(res) => res.duration == duration && res.result@ == text_of(host_of(last)),
            Err(error) => error is Runtime && host_of(last) is Number,
        }
    }
}

/// A unit that returns gives the text of the value it returned: it is
/// `Completed`, and the outcome is a result with that text and the time
/// taken. Only for a number, whose text the machine writes, can a fault
/// come in its place, and then it is a runtime fault.
pub proof fn lemma_returned_value_is_result(
    outcome: Result<EvalResult, LamError>,
    state: DriverState,
    status: UnitStatus,
    spent: bool,
    last: ScriptView,
    fault: Seq<char>,
    duration: Duration,
)
    requires
        !is_terminal(state),
        status != UnitStatus::Resumable,
        is_outcome(
            outcome,
            next_state(state, ResumeEvent::Gave(status), spent),
            last,
            fault,
            duration,
        ),
    ensures
        next_state(state, ResumeEvent::Gave(status), spent) == DriverState::Completed,
        !(host_of(last) is Number) ==> outcome is Ok,
        outcome matches Ok(res) ==> res.result@ == text_of(host_of(last)) && res.duration
            == duration,
        outcome matches Err(error) ==> error is Runtime,
{
}

/// A unit that the budget halted before it gave a value has the empty
/// text as its result.
pub proof fn lemma_halted_unit_gives_empty_text(
    outcome: Result<EvalResult, LamError>,
    fault: Seq<char>,
    duration: Duration,
)
    requires
        is_outcome(outcome, DriverState::Suspended, ScriptView::Nil, fault, duration),
    ensures
        outcome matches Ok(res) && res.result@ == Seq::<char>::empty() && res.duration
            == duration,
{
}

/// A unit that ended in a fault gives no result, whatever it gave
/// before.
pub proof fn lemma_fault_gives_no_result(
    outcome: Result<EvalResult, LamError>,
    last: ScriptView,
    fault: Seq<char>,
    duration: Duration,
)
    requires
        is_outcome(outcome, DriverState::Errored, last, fault, duration),
    ensures
        outcome matches Err(LamError::Runtime(message)) && message@ == fault,
{
}

/// A unit that has returned is `Completed`, whether or not the budget
/// was spent meanwhile.
pub proof fn lemma_return_completes(state: DriverState, status: UnitStatus, spent: bool)
    requires
        !is_terminal(state),
        status != UnitStatus::Resumable,
    ensures
        next_state(state, ResumeEvent::Gave(status), spent) == DriverState::Completed,
{
}

/// A unit that has not ended when the budget is spent is `Suspended`,
/// and is resumed again while the budget lasts.
pub proof fn lemma_budget_decides(state: DriverState, elapsed_seconds: u64, budget: u64)
    requires
        !is_terminal(state),
    ensures
        elapsed_seconds >= budget ==> next_state(
            state,
            ResumeEvent::Gave(UnitStatus::Resumable),
            budget_spent(elapsed_seconds, budget),
        ) == DriverState::Suspended,
        elapsed_seconds < budget ==> next_state(
            state,
            ResumeEvent::Gave(UnitStatus::Resumable),
            budget_spent(elapsed_seconds, budget),
        ) == DriverState::Running,
{
}

/// No resume leads back to `Created`, and a final state is left by
/// none.
pub proof fn lemma_no_way_back(state: DriverState, event: ResumeEvent, spent: bool)
    ensures
        next_state(state, event, spent) != DriverState::Created,
        is_terminal(state) ==> next_state(state, event, spent) == state,
        event is Faulted && !is_terminal(state) ==> next_state(state, event, spent)
            == DriverState::Errored,
{
}

/// A unit that gave no value, as one halted by the budget does, has the
/// empty text as its result.
pub proof fn lemma_no_value_no_text()
    ensures
        text_of(host_of(ScriptView::Nil)) == Seq::<char>::empty(),
{
}

/// The outcome of an evaluation.
#[derive(Debug)]
pub struct EvalResult {
    /// How long the evaluation took.
    pub duration: Duration,
    /// The text of the last value that the script returned or yielded.
    pub result: String,
}

/// The budget in force for an evaluation.
pub fn effective_budget(timeout: Option<u64>) -> (budget: u64)
    ensures
        budget == budget_of(timeout),
{
    match timeout {
        Some(seconds) => seconds,
        None => DEFAULT_BUDGET,
    }
}

/// Whether the unit has to yield at this interrupt: exactly when the
/// budget is spent.
pub fn must_yield(elapsed_seconds: u64, budget: u64) -> (halt: bool)
    ensures
        halt == budget_spent(elapsed_seconds, budget),
{
    elapsed_seconds >= budget
}

/// The state that follows `state` after a resume that came to `event`,
/// with `elapsed_seconds` gone of a budget of `budget` seconds.
pub fn advance(state: DriverState, event: ResumeEvent, elapsed_seconds: u64, budget: u64) -> (next:
    DriverState)
    ensures
        next == next_state(state, event, budget_spent(elapsed_seconds, budget)),
{
    match state {
        DriverState::Created | DriverState::Running => match event {
            ResumeEvent::Faulted => DriverState::Errored,
            ResumeEvent::Gave(UnitStatus::Resumable) => {
                if must_yield(elapsed_seconds, budget) {
                    DriverState::Suspended
                } else {
                    DriverState::Running
                }
            },
            ResumeEvent::Gave(_) => DriverState::Completed,
        },
        _ => state,
    }
}

/// Whether no resume follows `state`.
pub fn is_final(state: DriverState) -> (done: bool)
    ensures
        done == is_terminal(state),
{
    match state {
        DriverState::Created | DriverState::Running => false,
        _ => true,
    }
}

/// The text of a host value that is no number; nothing for a number,
/// whose text only the machine can write.
pub fn plain_text(value: &StateValue) -> (text: Option<String>)
    ensures
        value@ is Number <==> text is None,
        text matches Some(t) ==> t@ == text_of(value@),
{
    match value {
        StateValue::Absent => Some(String::new()),
        StateValue::Boolean(b) => Some(
            if *b {
                String::from_str("true")
            } else {
                String::from_str("false")
            },
        ),
        StateValue::Number(_) => None,
        StateValue::Text(s) => Some(s.clone()),
    }
}

/// The one outcome of an evaluation whose unit ended in `state` after
/// `duration`. A unit that ended in a fault gives that fault. Any
/// other gives the text of its last value, or the fault that kept the
/// text from being written.
pub fn settle(
    state: DriverState,
    fault: String,
    text: Result<String, String>,
    duration: Duration,
) -> (outcome: Result<EvalResult, LamError>)
    ensures
        state is Errored ==> outcome == Err::<EvalResult, LamError>(LamError::Runtime(fault)),
        !(state is Errored) ==> (text matches Ok(t) ==> (outcome matches Ok(res) && res.duration
            == duration && res.result == t)),
        !(state is Errored) ==> (text matches Err(message) ==> outcome == Err::<
            EvalResult,
            LamError,
        >(LamError::Runtime(message))),
{
    match state {
        DriverState::Errored => Err(LamError::Runtime(fault)),
        _ => match text {
            Ok(text) => Ok(EvalResult { duration, result: text }),
            Err(message) => Err(LamError::Runtime(message)),
        },
    }
}

/// What the machine does at an interrupt: it goes on while the budget
/// lasts, and yields at the next safe point once it is spent. How many
/// seconds have gone is for the clock to say; the action is what the
/// budget asks for after that many. A budget of nothing is spent at
/// once.
pub(crate) fn on_interrupt(start: &Instant, budget: u64) -> (action: Result<
    mlua::VmState,
    mlua::Error,
>)
    ensures
        action is Ok,
        exists|seconds: u64|
            (action matches Ok(mlua::VmState::Yield)) == #[trigger] budget_spent(seconds, budget),
        budget == 0 ==> action matches Ok(mlua::VmState::Yield),
{
    if must_yield(whole_seconds(&elapsed(start)), budget) {
        Ok(mlua::VmState::Yield)
    } else {
        Ok(mlua::VmState::Continue)
    }
}

/// `Lua::set_interrupt`: has the machine call [`on_interrupt`] from time
/// to time while a script runs.
#[verifier::external_body]
pub(crate) fn install_interrupt(vm: &mlua::Lua, start: Instant, budget: u64) {
    vm.set_interrupt(move |_| on_interrupt(&start, budget))
}

/// The text of the last value that a unit gave. Only the text of a
/// number is for the machine to write, and only that can fail.
fn result_text(vm: &mlua::Lua, last: &ScriptValue) -> (text: Result<String, mlua::Error>)
    ensures
        !(host_of(last@) is Number) ==> text is Ok,
        text matches Ok(t) ==> t@ == text_of(host_of(last@)),
{
    let value = to_host(last);
    match plain_text(&value) {
        Some(text) => Ok(text),
        None => match value {
            StateValue::Number(bits) => format_number(vm, bits),
            _ => Ok(String::new()),
        },
    }
}

/// The outcome of an evaluation whose unit came to rest in `state`
/// after `duration`, with `last` as the last value it gave and `fault`
/// as the fault it raised, if it raised one. A unit that ended in a
/// fault gives that fault. Any other gives the text of its last value
/// and the time taken; only where that value is a number, whose text
/// the machine writes, can a fault come in its place.
pub(crate) fn finish(
    vm: &mlua::Lua,
    state: DriverState,
    last: &ScriptValue,
    fault: String,
    duration: Duration,
) -> (outcome: Result<EvalResult, LamError>)
    ensures
        is_outcome(outcome, state, last@, fault@, duration),
{
    let text = match state {
        DriverState::Errored => Ok(String::new()),
        _ => match result_text(vm, last) {
            Ok(text) => Ok(text),
            Err(raised) => Err(error_message(&raised)),
        },
    };
    settle(state, fault, text, duration)
}

/// Resumes the unit until it reaches a final state, and reports how
/// that went: the text of the last value on completion or suspension,
/// the fault otherwise. The time taken is read once the unit has come
/// to rest. Where the unit comes to rest and what it gave last is for
/// the script to say; the outcome is what [`finish`] makes of that, so
/// that a unit that fails is a runtime fault in every case.
pub(crate) fn drive<'lua>(
    vm: &'lua mlua::Lua,
    unit: &mlua::Thread<'lua>,
    start: &Instant,
    budget: u64,
) -> (outcome: Result<EvalResult, LamError>)
    ensures
        exists|state: DriverState, last: ScriptView, fault: Seq<char>, duration: Duration|
            #[trigger] is_outcome(outcome, state, last, fault, duration),
        outcome matches Err(fault) ==> fault is Runtime,
{
    let mut state = DriverState::Created;
    let mut last = ScriptValue::Nil;
    let mut fault = String::new();
    let mut resumes: u64 = 0;
    while !is_final(state) && resumes < RESUME_LIMIT
        decreases RESUME_LIMIT - resumes,
    {
        resumes = resumes + 1;
        let event = match resume(unit) {
            Ok(value) => {
                last = model_of(&value);
                ResumeEvent::Gave(status(unit))
            },
            Err(raised) => {
                fault = error_message(&raised);
                ResumeEvent::Faulted
            },
        };
        state = advance(state, event, whole_seconds(&elapsed(start)), budget);
    }
    finish(vm, state, &last, fault, elapsed(start))
}

} // verus!
