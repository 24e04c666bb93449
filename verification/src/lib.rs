//! A sandboxed script evaluator: untrusted script text runs in an isolated
//! virtual machine under a wall-clock budget, reads a finite input stream
//! through host functions, and shares a small key-value state with later
//! or concurrent evaluations.
//!
//! The parts, leaves first:
//!
//! - [`text`] and [`value`]: the values that cross between host and
//!   script, and their conversions;
//! - [`stream`], [`units`] and [`io`]: the input stream and the reads;
//! - [`state`]: the shared key-value state;
//! - [`host`] and [`bridge`]: the virtual machine and the one namespace
//!   that a script can import;
//! - [`driver`] and [`eval`]: the states of a running script, and the
//!   evaluation itself;
//! - [`harness`]: what a service or a batch run makes of the outcome.

pub mod bridge;
pub mod driver;
pub mod eval;
pub mod harness;
pub mod host;
pub mod io;
pub mod state;
pub mod stream;
pub mod text;
pub mod units;
pub mod value;

pub use driver::EvalResult;
pub use eval::{evaluate, Evaluation, EvaluationBuilder, LamError};
pub use state::{SharedState, StateMap};
pub use stream::InputStream;
pub use value::{ScriptValue, StateValue};
