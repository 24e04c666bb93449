//! Evaluations: what one is made of, how one is built, and how one runs.

use crate::bridge::{install_namespace, SharedStream};
use crate::driver::{drive, effective_budget, install_interrupt, EvalResult};
use crate::host::{
    compile, compiles, create_thread, enable_sandbox, error_message, new_vm, now, Compiled,
};
use crate::state::{SharedState, StateMap};
use crate::stream::InputStream;
use crate::value::HostView;
use std::time::Instant;
use vstd::prelude::*;
use vstd::string::*;

verus! {

/// Why an evaluation gave no result.
#[derive(Clone, Debug, PartialEq, Eq)]
pub enum LamError {
    /// The script text is not a valid script. The message carries the
    /// position of the fault.
    Compile(String),
    /// The script raised a fault that nothing caught, or the machine
    /// could not be set up.
    Runtime(String),
}

impl LamError {
    /// What starts the description of every error.
    pub open spec fn prefix() -> Seq<char> {
        "lua error: "@
    }

    /// The message of the error.
    pub open spec fn message(&self) -> Seq<char> {
        match self {
            LamError::Compile(m) => m@,
            LamError::Runtime(m) => m@,
        }
    }

    /// The error as one line of text.
    pub fn describe(&self) -> (text: String)
        ensures
            text@ == Self::prefix() + self.message(),
    {
        let prefix = String::from_str("lua error: ");
        match self {
            LamError::Compile(m) => prefix.concat(m.as_str()),
            LamError::Runtime(m) => prefix.concat(m.as_str()),
        }
    }
}

/// One request to run a script.
pub struct Evaluation {
    /// The input that the script reads.
    pub input: InputStream,
    /// The script text.
    pub script: String,
    /// The state that the script gets and sets.
    pub state: SharedState,
    /// The budget in seconds, where one is asked for.
    pub timeout: Option<u64>,
}

/// The parts of an evaluation, gathered one by one.
pub struct EvaluationBuilder {
    /// The bytes that the script will read.
    pub input: Vec<u8>,
    /// The script text.
    pub script: String,
    /// The initial state, where one is asked for.
    pub state: Option<StateMap>,
    /// The budget in seconds, where one is asked for.
    pub timeout: Option<u64>,
}

/// The map that an evaluation starts with: the one asked for, or an
/// empty one.
pub open spec fn initial_state(state: Option<StateMap>) -> Map<Seq<char>, HostView> {
    match state {
        Some(map) => map@,
        None => Map::empty(),
    }
}

impl EvaluationBuilder {
    /// A builder for a run of `script` on `input`, with no budget and no
    /// state asked for yet.
    pub fn new(input: Vec<u8>, script: &str) -> (builder: EvaluationBuilder)
        ensures
            builder.input@ == input@,
            builder.script@ == script@,
            builder.state is None,
            builder.timeout is None,
    {
        EvaluationBuilder { input, script: script.to_owned(), state: None, timeout: None }
    }

    /// Asks for a budget of `timeout` seconds.
    pub fn set_timeout(self, timeout: u64) -> (builder: EvaluationBuilder)
        ensures
            builder.timeout == Some(timeout),
            builder.input == self.input,
            builder.script == self.script,
            builder.state == self.state,
    {
        EvaluationBuilder {
            input: self.input,
            script: self.script,
            state: self.state,
            timeout: Some(timeout),
        }
    }

    /// Asks for `state` as the initial state.
    pub fn set_state(self, state: StateMap) -> (builder: EvaluationBuilder)
        ensures
            builder.state == Some(state),
            builder.input == self.input,
            builder.script == self.script,
            builder.timeout == self.timeout,
    {
        EvaluationBuilder {
            input: self.input,
            script: self.script,
            state: Some(state),
            timeout: self.timeout,
        }
    }

    /// The evaluation. Its stream holds the input with nothing consumed;
    /// its state starts as the state asked for, or empty.
    pub fn build(self) -> (evaluation: Evaluation)
        ensures
            evaluation.input.bytes() == self.input@,
            evaluation.input.cursor() == 0,
            evaluation.script == self.script,
            evaluation.timeout == self.timeout,
            evaluation.state.initial() == initial_state(self.state),
    {
        let map = match self.state {
            Some(map) => map,
            None => StateMap::new(),
        };
        Evaluation {
            input: InputStream::new(self.input),
            script: self.script,
            state: SharedState::new(map),
            timeout: self.timeout,
        }
    }
}

/// How a run went.
struct Ran {
    /// What the run came to.
    outcome: Result<EvalResult, LamError>,
    /// Whether the script was started. Before that, no host function
    /// is called.
    started: bool,
}

/// A run that ended in `error` before the script was started.
fn not_started(error: LamError) -> (ran: Ran)
    ensures
        ran.outcome == Err::<EvalResult, LamError>(error),
        !ran.started,
{
    Ran { outcome: Err(error), started: false }
}

/// Sets the machine up, compiles the script and drives it. A text that
/// is no script is never started: it gives no result, and the compile
/// error comes for such a text alone. A result comes from a started
/// script only.
fn run(
    shared: &SharedStream,
    state: &SharedState,
    script: &str,
    start: Instant,
    budget: u64,
) -> (ran: Ran)
    ensures
        ran.started ==> compiles(script@),
        ran.outcome is Ok ==> ran.started,
        ran.outcome matches Err(LamError::Compile(_)) ==> !compiles(script@),
{
    let vm = new_vm();
    match enable_sandbox(&vm) {
        Ok(()) => {},
        Err(fault) => {
            return not_started(LamError::Runtime(error_message(&fault)));
        },
    }
    install_interrupt(&vm, start, budget);
    match install_namespace(&vm, shared, state) {
        Ok(()) => {},
        Err(fault) => {
            return not_started(LamError::Runtime(error_message(&fault)));
        },
    }
    let unit = match compile(&vm, script) {
        Compiled::Unit(unit) => unit,
        Compiled::Invalid(fault) => {
            return not_started(LamError::Compile(error_message(&fault)));
        },
        Compiled::Failed(fault) => {
            return not_started(LamError::Runtime(error_message(&fault)));
        },
    };
    let thread = match create_thread(&vm, unit) {
        Ok(thread) => thread,
        Err(fault) => {
            return not_started(LamError::Runtime(error_message(&fault)));
        },
    };
    Ran { outcome: drive(&vm, &thread, &start, budget), started: true }
}

/// Runs the script of `e` in a fresh sandbox, under its budget. The
/// script may read the input stream and get and set the shared state.
/// Whatever the script does, the bytes of the stream stay as they are
/// and its cursor does not move back. A text that is no script never
/// runs: it gives no result, and leaves the cursor where it was. The
/// compile error comes for such a text alone.
pub fn evaluate(e: &mut Evaluation) -> (outcome: Result<EvalResult, LamError>)
    ensures
        final(e).input.bytes() == old(e).input.bytes(),
        old(e).input.cursor() <= final(e).input.cursor() <= old(e).input.bytes().len(),
        !compiles(old(e).script@) ==> outcome is Err && final(e).input.cursor() == old(
            e,
        ).input.cursor(),
        outcome matches Err(LamError::Compile(_)) ==> !compiles(old(e).script@),
        final(e).script == old(e).script,
        final(e).state == old(e).state,
        final(e).timeout == old(e).timeout,
{
    let start = now();
    let budget = effective_budget(e.timeout);
    let shared = SharedStream::open(&e.input);
    let ran = run(&shared, &e.state, e.script.as_str(), start, budget);
    let end = if ran.started {
        shared.position()
    } else {
        e.input.position()
    };
    e.input.advance_to(end);
    ran.outcome
}

} // verus!
