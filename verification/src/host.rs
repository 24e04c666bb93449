//! The script virtual machine as the library sees it: the types that are
//! carried through, and one function for each call into it.

use crate::value::ScriptValue;
use std::time::Duration;
use std::time::Instant;
use vstd::prelude::*;

verus! {

/// `mlua::Lua`: a virtual machine. Carried through, never looked into.
#[verifier::external_type_specification]
#[verifier::external_body]
pub struct ExLua(mlua::Lua);

/// `mlua::Value`: a value of the machine. Read and built by
/// [`model_of`] and [`value_of`] only.
#[verifier::external_type_specification]
#[verifier::external_body]
pub struct ExValue<'lua>(mlua::Value<'lua>);

/// `mlua::Table`: a handle on a table of the machine.
#[verifier::external_type_specification]
#[verifier::external_body]
pub struct ExTable<'lua>(mlua::Table<'lua>);

/// `mlua::Function`: a handle on a function of the machine.
#[verifier::external_type_specification]
#[verifier::external_body]
pub struct ExFunction<'lua>(mlua::Function<'lua>);

/// `mlua::Thread`: a handle on a resumable unit of the machine.
#[verifier::external_type_specification]
#[verifier::external_body]
pub struct ExThread<'lua>(mlua::Thread<'lua>);

/// `mlua::Error`: what a failed call into the machine gives. Its text
/// is had through [`error_message`].
#[verifier::external_type_specification]
#[verifier::external_body]
pub struct ExError(mlua::Error);

/// `mlua::VmState`: what the machine is to do after an interrupt, go on
/// or yield.
#[verifier::external_type_specification]
pub struct ExVmState(mlua::VmState);

/// `std::time::Instant`: a reading of the monotonic clock.
#[verifier::external_type_specification]
#[verifier::external_body]
pub struct ExInstant(Instant);

/// What a resumable unit can do next, as seen after a resume.
#[derive(Clone, Copy, Debug, PartialEq, Eq)]
pub enum UnitStatus {
    /// Suspended at a safe point; it can be resumed.
    Resumable,
    /// It has returned, and cannot be resumed.
    Finished,
    /// It has raised a fault, and cannot be resumed.
    Failed,
}

/// The text that the virtual machine writes for a number, given as the
/// bits of its double.
pub uninterp spec fn number_text(bits: u64) -> Seq<char>;

/// `Lua::new`: a fresh virtual machine with the safe standard libraries.
#[verifier::external_body]
pub(crate) fn new_vm() -> mlua::Lua {
    mlua::Lua::new()
}

/// `Lua::sandbox`: switches the machine to sandbox mode, in which the
/// libraries and globals are read-only and the script gets a global
/// table of its own.
#[verifier::external_body]
pub(crate) fn enable_sandbox(vm: &mlua::Lua) -> Result<(), mlua::Error> {
    vm.sandbox(true)
}

/// `Lua::create_table`: a new empty table.
#[verifier::external_body]
pub(crate) fn new_table<'lua>(vm: &'lua mlua::Lua) -> Result<mlua::Table<'lua>, mlua::Error> {
    vm.create_table()
}

/// `Table::set`: puts `value` under the string key `name`.
#[verifier::external_body]
pub(crate) fn set_entry<'lua>(
    table: &mlua::Table<'lua>,
    name: &str,
    value: mlua::Value<'lua>,
) -> Result<(), mlua::Error> {
    table.set(name, value)
}

/// A table as a value (`Value::Table`).
#[verifier::external_body]
pub(crate) fn table_value<'lua>(table: mlua::Table<'lua>) -> mlua::Value<'lua> {
    mlua::Value::Table(table)
}

/// `Lua::named_registry_value`: the table kept in the machine's registry
/// under `name`; an error where no table is kept there.
#[verifier::external_body]
pub(crate) fn registry_table<'lua>(vm: &'lua mlua::Lua, name: &str) -> Result<
    mlua::Table<'lua>,
    mlua::Error,
> {
    vm.named_registry_value::<mlua::Table>(name)
}

/// Whether a text is a script: whether the machine's compiler takes it.
pub uninterp spec fn compiles(script: Seq<char>) -> bool;

/// What became of a script text handed to the compiler.
pub(crate) enum Compiled<'lua> {
    /// The text is a script: the unit that runs it.
    Unit(mlua::Function<'lua>),
    /// The text is no script: the syntax error, which carries the
    /// position of the fault.
    Invalid(mlua::Error),
    /// The machine failed before it could tell.
    Failed(mlua::Error),
}

/// `Lua::load`, `Chunk::set_mode` and `Chunk::into_function`: compiles
/// script text without running it. The text is taken as source text in
/// every case, never as compiled code, whatever its first byte: compiled
/// code is run unchecked by the machine, and a text that looks like it
/// is turned away as a syntax error. So whether a text compiles rests
/// with the text alone: the same text gives a unit every time or a
/// syntax error (`SyntaxError`) every time, unless the machine fails in
/// another way, of which nothing is said.
#[verifier::external_body]
pub(crate) fn compile<'lua>(vm: &'lua mlua::Lua, script: &str) -> (outcome: Compiled<'lua>)
    ensures
        outcome is Unit ==> compiles(script@),
        outcome is Invalid ==> !compiles(script@),
{
    match vm.load(script).set_mode(mlua::ChunkMode::Text).into_function() {
        Ok(unit) => Compiled::Unit(unit),
        Err(fault @ mlua::Error::SyntaxError { .. }) => Compiled::Invalid(fault),
        Err(fault) => Compiled::Failed(fault),
    }
}

/// `Lua::create_thread`: wraps a function as a resumable unit.
#[verifier::external_body]
pub(crate) fn create_thread<'lua>(vm: &'lua mlua::Lua, unit: mlua::Function<'lua>) -> Result<
    mlua::Thread<'lua>,
    mlua::Error,
> {
    vm.create_thread(unit)
}

/// `Thread::resume` without arguments: runs the unit until it returns,
/// yields or faults, and hands out the first value it returned or
/// yielded, nil where it gave none. A unit that cannot be resumed gives
/// an error.
#[verifier::external_body]
pub(crate) fn resume<'lua>(thread: &mlua::Thread<'lua>) -> Result<mlua::Value<'lua>, mlua::Error> {
    thread.resume::<_, mlua::Value>(())
}

/// `Thread::status`.
#[verifier::external_body]
pub(crate) fn status(thread: &mlua::Thread<'_>) -> UnitStatus {
    match thread.status() {
        mlua::ThreadStatus::Resumable => UnitStatus::Resumable,
        mlua::ThreadStatus::Unresumable => UnitStatus::Finished,
        mlua::ThreadStatus::Error => UnitStatus::Failed,
    }
}

/// Reads a value of the machine, variant by variant.
#[verifier::external_body]
pub(crate) fn model_of(value: &mlua::Value<'_>) -> ScriptValue {
    match value {
        mlua::Value::Nil => ScriptValue::Nil,
        mlua::Value::Boolean(b) => ScriptValue::Boolean(*b),
        mlua::Value::Integer(i) => ScriptValue::Integer(*i),
        mlua::Value::Number(n) => ScriptValue::Number(n.to_bits()),
        mlua::Value::String(s) => ScriptValue::Text(s.as_bytes().to_vec()),
        _ => ScriptValue::Other,
    }
}

/// Builds a value of the machine, variant by variant; text goes through
/// `Lua::create_string`. The kind that stands for what the host cannot
/// read becomes nil.
#[verifier::external_body]
pub(crate) fn value_of<'lua>(vm: &'lua mlua::Lua, model: &ScriptValue) -> Result<
    mlua::Value<'lua>,
    mlua::Error,
> {
    Ok(
        match model {
            ScriptValue::Boolean(b) => mlua::Value::Boolean(*b),
            ScriptValue::Integer(i) => mlua::Value::Integer(*i),
            ScriptValue::Number(n) => mlua::Value::Number(mlua::Number::from_bits(*n)),
            ScriptValue::Text(bytes) => mlua::Value::String(vm.create_string(bytes)?),
            _ => mlua::Value::Nil,
        },
    )
}

/// The `Debug` form of a value of the machine.
#[verifier::external_body]
pub(crate) fn describe(value: &mlua::Value<'_>) -> String {
    format!("{value:?}")
}

/// `Lua::coerce_string` on a number: the text that the machine writes
/// for it.
#[verifier::external_body]
pub(crate) fn format_number(vm: &mlua::Lua, bits: u64) -> (text: Result<String, mlua::Error>)
    ensures
        text matches Ok(t) ==> t@ == number_text(bits),
{
    let text = vm.coerce_string(mlua::Value::Number(mlua::Number::from_bits(bits)))?;
    Ok(text.map(|s| s.to_string_lossy().into_owned()).unwrap_or_default())
}

/// A runtime fault of the machine with the given message
/// (`Error::RuntimeError`).
#[verifier::external_body]
pub(crate) fn runtime_error(message: String) -> mlua::Error {
    mlua::Error::RuntimeError(message)
}

/// The `Display` form of an error of the machine.
#[verifier::external_body]
pub(crate) fn error_message(error: &mlua::Error) -> String {
    error.to_string()
}

/// `Instant::now`.
#[verifier::external_body]
pub(crate) fn now() -> Instant {
    Instant::now()
}

/// `Instant::elapsed`: the time that has passed since `start`.
#[verifier::external_body]
pub(crate) fn elapsed(start: &Instant) -> Duration {
    start.elapsed()
}

/// `Duration::as_secs`: the whole seconds in a duration.
#[verifier::external_body]
pub(crate) fn whole_seconds(duration: &Duration) -> u64 {
    duration.as_secs()
}

} // verus!
