//! The sandbox host: the one namespace that a script can import, and the
//! host functions behind its entries.

use crate::host::{
    describe, model_of, new_table, registry_table, runtime_error, set_entry, table_value, value_of,
};
use crate::io::{format_error, format_of, parse_format, read_value, ReadFormat};
use crate::state::SharedState;
use crate::stream::{units_text, InputStream};
use crate::value::{to_script, ScriptValue, StateValue};
use std::rc::Rc;
use vstd::cell::invcell::InvCell;
use vstd::predicate::Predicate;
use vstd::prelude::*;
use vstd::string::*;

verus! {

/// The positions that the cursor of a running evaluation may take: from
/// where the evaluation found it to the end of the bytes.
pub(crate) struct CursorRange {
    pub low: nat,
    pub high: nat,
}

impl Predicate<usize> for CursorRange {
    closed spec fn predicate(&self, v: usize) -> bool {
        self.low <= v <= self.high
    }
}

/// The input stream as the host functions of one evaluation share it:
/// the bytes, and one cursor that all of them move.
pub(crate) struct SharedStream {
    source: InputStream,
    cursor: Rc<InvCell<usize, CursorRange>>,
}

impl SharedStream {
    #[verifier::type_invariant]
    spec fn well_formed(&self) -> bool {
        &&& self.source.valid()
        &&& self.cursor.predicate() == (CursorRange {
            low: self.source.cursor(),
            high: self.source.bytes().len(),
        })
    }

    /// The bytes of the stream.
    pub(crate) closed spec fn bytes(&self) -> Seq<u8> {
        self.source.bytes()
    }

    /// Where the cursor stood when the stream was shared.
    pub(crate) closed spec fn origin(&self) -> nat {
        self.source.cursor()
    }

    /// Shares `stream`, with the cursor where the stream has it.
    pub(crate) fn open(stream: &InputStream) -> (shared: SharedStream)
        ensures
            shared.bytes() == stream.bytes(),
            shared.origin() == stream.cursor(),
    {
        let pos = stream.position();
        let source = stream.share_at(pos);
        let ghost range = CursorRange { low: pos as nat, high: stream.bytes().len() };
        SharedStream { source, cursor: Rc::new(InvCell::new(pos, Ghost(range))) }
    }

    /// Another handle on the same shared stream.
    pub(crate) fn share(&self) -> (shared: SharedStream)
        ensures
            shared.bytes() == self.bytes(),
            shared.origin() == self.origin(),
    {
        proof {
            use_type_invariant(self);
        }
        let pos = self.source.position();
        SharedStream { source: self.source.share_at(pos), cursor: Rc::clone(&self.cursor) }
    }

    /// Where the cursor stands now: never before the origin, never
    /// beyond the bytes.
    pub(crate) fn position(&self) -> (pos: usize)
        ensures
            self.origin() <= pos <= self.bytes().len(),
    {
        proof {
            use_type_invariant(self);
        }
        self.cursor.get()
    }

    /// What is left of the stream from `pos` on.
    pub(crate) open spec fn rest_from(&self, pos: int) -> Seq<u8> {
        self.bytes().subrange(pos, self.bytes().len() as int)
    }

    /// Reads from the stream in the given format and moves the shared
    /// cursor past what was read. Where the cursor stood is for the
    /// other holders of the stream to say; the value is what the format
    /// yields from there.
    pub(crate) fn read(&self, format: ReadFormat) -> (value: StateValue)
        ensures
            exists|pos: int|
                self.origin() <= pos <= self.bytes().len() && value@ == read_value(
                    #[trigger] self.rest_from(pos),
                    format,
                ),
    {
        let pos = self.position();
        let mut stream = self.source.share_at(pos);
        let value = stream.read(format);
        self.settle(stream.position());
        assert(stream.bytes() == self.bytes());
        assert(value@ == read_value(self.rest_from(pos as int), format));
        value
    }

    /// The script's `read`: reads in the format that `arg` names, and
    /// reads nothing where it names none.
    pub(crate) fn read_by(&self, arg: &ScriptValue) -> (value: Option<StateValue>)
        ensures
            value is Some <==> format_of(arg@) is Some,
            value matches Some(v) ==> exists|pos: int|
                self.origin() <= pos <= self.bytes().len() && v@ == read_value(
                    #[trigger] self.rest_from(pos),
                    format_of(arg@).unwrap(),
                ),
    {
        match parse_format(arg) {
            Some(format) => Some(self.read(format)),
            None => None,
        }
    }

    /// Reads `n` units of text from the stream and moves the shared
    /// cursor past the bytes taken. The text is what a unit read yields
    /// from where the cursor stood.
    pub(crate) fn read_codepoint_unit(&self, n: usize) -> (text: String)
        ensures
            exists|pos: int|
                self.origin() <= pos <= self.bytes().len() && text@ == units_text(
                    #[trigger] self.rest_from(pos),
                    n as nat,
                ),
    {
        let pos = self.position();
        let mut stream = self.source.share_at(pos);
        let text = stream.read_codepoint_unit(n);
        self.settle(stream.position());
        assert(stream.bytes() == self.bytes());
        assert(text@ == units_text(self.rest_from(pos as int), n as nat));
        text
    }

    /// Moves the shared cursor to `pos`.
    fn settle(&self, pos: usize)
        requires
            self.origin() <= pos <= self.bytes().len(),
    {
        proof {
            use_type_invariant(self);
        }
        self.cursor.set(pos);
    }
}

/// The name under which a script imports the namespace.
pub open spec fn import_name() -> Seq<char> {
    "@lam"@
}

/// The import name, as text.
pub fn namespace_name() -> (name: &'static str)
    ensures
        name@ == import_name(),
{
    "@lam"
}

/// The text of the version entry.
pub fn version() -> (text: &'static str)
    ensures
        text@ == "0.1.0"@,
{
    "0.1.0"
}

/// What the host lets a script do. The namespace has one entry for each
/// capability and nothing besides.
#[derive(Clone, Copy, Debug, PartialEq, Eq)]
pub enum Capability {
    /// Tell the version of the host.
    Version,
    /// Read from the input stream in a format.
    Read,
    /// Read units of text from the input stream.
    ReadUnits,
    /// Get a value of the shared state.
    Fetch,
    /// Set a value of the shared state.
    Store,
}

impl Capability {
    /// The name of the entry.
    pub open spec fn name_of(self) -> Seq<char> {
        match self {
            Capability::Version => "_VERSION"@,
            Capability::Read => "read"@,
            Capability::ReadUnits => "read_codepoint_unit"@,
            Capability::Fetch => "get"@,
            Capability::Store => "set"@,
        }
    }

    /// The second name under which the entry is found as well, where it
    /// has one.
    pub open spec fn other_name_of(self) -> Option<Seq<char>> {
        match self {
            Capability::ReadUnits => Some("read_unicode"@),
            _ => None,
        }
    }

    /// The name of the entry, as text.
    pub fn name(self) -> (name: &'static str)
        ensures
            name@ == self.name_of(),
    {
        match self {
            Capability::Version => "_VERSION",
            Capability::Read => "read",
            Capability::ReadUnits => "read_codepoint_unit",
            Capability::Fetch => "get",
            Capability::Store => "set",
        }
    }

    /// The second name of the entry, as text.
    pub fn other_name(self) -> (name: Option<&'static str>)
        ensures
            name is Some <==> self.other_name_of() is Some,
            name matches Some(text) ==> Some(text@) == self.other_name_of(),
    {
        match self {
            Capability::ReadUnits => Some("read_unicode"),
            _ => None,
        }
    }
}

/// All capabilities, in the order in which their entries are made.
pub open spec fn all_capabilities() -> Seq<Capability> {
    seq![
        Capability::Version,
        Capability::Read,
        Capability::ReadUnits,
        Capability::Fetch,
        Capability::Store,
    ]
}

/// All capabilities.
pub fn capabilities() -> (all: [Capability; 5])
    ensures
        all@ == all_capabilities(),
{
    let all = [
        Capability::Version,
        Capability::Read,
        Capability::ReadUnits,
        Capability::Fetch,
        Capability::Store,
    ];
    assert(all@ =~= all_capabilities());
    all
}

/// No capability is missing from the list of all.
pub proof fn lemma_capabilities_complete(capability: Capability)
    ensures
        all_capabilities().contains(capability),
{
    let all = all_capabilities();
    match capability {
        Capability::Version => assert(all[0] == capability),
        Capability::Read => assert(all[1] == capability),
        Capability::ReadUnits => assert(all[2] == capability),
        Capability::Fetch => assert(all[3] == capability),
        Capability::Store => assert(all[4] == capability),
    }
}

/// The host function behind `read`: reads in the format that `arg`
/// names, and raises a format fault that shows `arg` where it names none.
pub(crate) fn read_entry<'lua>(
    vm: &'lua mlua::Lua,
    shared: &SharedStream,
    arg: mlua::Value<'lua>,
) -> Result<mlua::Value<'lua>, mlua::Error> {
    match shared.read_by(&model_of(&arg)) {
        Some(value) => value_of(vm, &to_script(&value)),
        None => Err(runtime_error(format_error(describe(&arg).as_str()).message)),
    }
}

/// The host function behind the unit read. It never fails: its text
/// is what a read of `n` units yields from where the cursor stood.
pub(crate) fn read_units_entry(shared: &SharedStream, n: usize) -> (outcome: Result<
    String,
    mlua::Error,
>)
    ensures
        outcome matches Ok(text) && exists|pos: int|
            shared.origin() <= pos <= shared.bytes().len() && text@ == units_text(
                #[trigger] shared.rest_from(pos),
                n as nat,
            ),
{
    Ok(shared.read_codepoint_unit(n))
}

/// The host function behind `get`.
pub(crate) fn get_entry<'lua>(
    vm: &'lua mlua::Lua,
    state: &SharedState,
    key: mlua::Value<'lua>,
) -> Result<mlua::Value<'lua>, mlua::Error> {
    value_of(vm, &state.get(&model_of(&key)))
}

/// The host function behind `set`. It takes every value, keeping what
/// the bridge can carry of it, and never fails.
pub(crate) fn set_entry_value<'lua>(
    state: &SharedState,
    key: String,
    value: mlua::Value<'lua>,
) -> (outcome: Result<(), mlua::Error>)
    ensures
        outcome is Ok,
{
    state.set(key, &model_of(&value));
    Ok(())
}

/// `Lua::create_function`: a function of the machine that calls
/// [`read_entry`] on the given stream.
#[verifier::external_body]
fn make_read<'lua>(vm: &'lua mlua::Lua, shared: SharedStream) -> Result<
    mlua::Value<'lua>,
    mlua::Error,
> {
    vm.create_function(move |vm, arg: mlua::Value| read_entry(vm, &shared, arg)).map(
        mlua::Value::Function,
    )
}

/// `Lua::create_function`: a function of the machine that calls
/// [`read_units_entry`] on the given stream.
#[verifier::external_body]
fn make_read_units<'lua>(vm: &'lua mlua::Lua, shared: SharedStream) -> Result<
    mlua::Value<'lua>,
    mlua::Error,
> {
    vm.create_function(move |_, n: usize| read_units_entry(&shared, n)).map(
        mlua::Value::Function,
    )
}

/// `Lua::create_function`: a function of the machine that calls
/// [`get_entry`] on the given state.
#[verifier::external_body]
fn make_get<'lua>(vm: &'lua mlua::Lua, state: SharedState) -> Result<
    mlua::Value<'lua>,
    mlua::Error,
> {
    vm.create_function(move |vm, key: mlua::Value| get_entry(vm, &state, key)).map(
        mlua::Value::Function,
    )
}

/// `Lua::create_function`: a function of the machine that calls
/// [`set_entry_value`] on the given state.
#[verifier::external_body]
fn make_set<'lua>(vm: &'lua mlua::Lua, state: SharedState) -> Result<
    mlua::Value<'lua>,
    mlua::Error,
> {
    vm.create_function(
        move |_, (key, value): (String, mlua::Value)| set_entry_value(&state, key, value),
    ).map(mlua::Value::Function)
}

/// What stands behind the entry for `capability`, as a value of the
/// machine.
fn entry_value<'lua>(
    vm: &'lua mlua::Lua,
    capability: Capability,
    shared: &SharedStream,
    state: &SharedState,
) -> Result<mlua::Value<'lua>, mlua::Error> {
    match capability {
        Capability::Version => value_of(
            vm,
            &to_script(&StateValue::Text(String::from_str(version()))),
        ),
        Capability::Read => make_read(vm, shared.share()),
        Capability::ReadUnits => make_read_units(vm, shared.share()),
        Capability::Fetch => make_get(vm, state.share()),
        Capability::Store => make_set(vm, state.share()),
    }
}

/// Builds the namespace and registers it under the import name. Its
/// entries are those of the capabilities, each under its name and its
/// other name where it has one; nothing else of the host is within a
/// script's reach.
pub(crate) fn install_namespace(
    vm: &mlua::Lua,
    shared: &SharedStream,
    state: &SharedState,
) -> Result<(), mlua::Error> {
    let module = new_table(vm)?;
    let capabilities = capabilities();
    let mut i: usize = 0;
    while i < capabilities.len()
        invariant
            i <= capabilities.len(),
        decreases capabilities.len() - i,
    {
        let capability = capabilities[i];
        set_entry(&module, capability.name(), entry_value(vm, capability, shared, state)?)?;
        match capability.other_name() {
            Some(name) => set_entry(&module, name, entry_value(vm, capability, shared, state)?)?,
            None => {},
        }
        i = i + 1;
    }
    let loaded = registry_table(vm, "_LOADED")?;
    set_entry(&loaded, namespace_name(), table_value(module))
}

} // verus!
