//! The state bridge: a map from string keys to values that outlives one
//! evaluation and may be shared by many.

use crate::value::{
    host_of, script_of, to_host, to_script, HostView, ScriptValue, ScriptView, StateValue,
};
use std::sync::Arc;
use std::sync::Mutex;
use std::sync::MutexGuard;
use std::sync::PoisonError;
use vstd::hash_map::StringHashMap;
use vstd::prelude::*;
use vstd::utf8::{decode_utf8, encode_utf8, valid_utf8};

verus! {

/// The value under `key` in `map`; absent where the key is missing.
pub open spec fn lookup(map: Map<Seq<char>, HostView>, key: Seq<char>) -> HostView {
    if map.dom().contains(key) {
        map[key]
    } else {
        HostView::Absent
    }
}

/// What a script gets for `key`: the script form of the value under the
/// key where the key is well-formed text, nil for any other key.
pub open spec fn get_result(map: Map<Seq<char>, HostView>, key: ScriptView) -> ScriptView {
    match key {
        ScriptView::Text(bytes) => if valid_utf8(bytes) {
            script_of(lookup(map, decode_utf8(bytes)))
        } else {
            ScriptView::Nil
        },
        _ => ScriptView::Nil,
    }
}

/// A map from string keys to host values. Keys are unique; the order in
/// which they were inserted plays no part.
pub struct StateMap {
    entries: StringHashMap<StateValue>,
}

impl View for StateMap {
    type V = Map<Seq<char>, HostView>;

    closed spec fn view(&self) -> Map<Seq<char>, HostView> {
        self.entries@.map_values(|v: StateValue| v@)
    }
}

impl StateMap {
    /// An empty map.
    pub fn new() -> (map: StateMap)
        ensures
            map@ == Map::<Seq<char>, HostView>::empty(),
    {
        let map = StateMap { entries: StringHashMap::new() };
        assert(map@ =~= Map::<Seq<char>, HostView>::empty());
        map
    }

    /// Puts `value` under `key`, in place of what was there.
    pub fn insert(&mut self, key: String, value: StateValue)
        ensures
            final(self)@ == old(self)@.insert(key@, value@),
    {
        self.entries.insert(key, value);
        assert(self@ =~= old(self)@.insert(key@, value@));
    }

    /// A copy of the value under `key`; absent where the key is missing.
    pub fn get(&self, key: &str) -> (value: StateValue)
        ensures
            value@ == lookup(self@, key@),
    {
        match self.entries.get(key) {
            Some(v) => v.duplicate(),
            None => StateValue::Absent,
        }
    }

    /// The script's `get`: looks `key` up and hands the value to the
    /// script. A key that is not well-formed text finds nothing.
    pub fn script_get(&self, key: &ScriptValue) -> (value: ScriptValue)
        ensures
            value@ == get_result(self@, key@),
    {
        match to_host(key) {
            StateValue::Text(name) => to_script(&self.get(name.as_str())),
            _ => ScriptValue::Nil,
        }
    }

    /// The script's `set`: puts the host form of `value` under `key`.
    pub fn script_set(&mut self, key: String, value: &ScriptValue)
        ensures
            final(self)@ == old(self)@.insert(key@, host_of(value@)),
    {
        self.insert(key, to_host(value));
    }
}

/// What is set under a key is what a later get of that key finds, and
/// the values under all other keys stay as they were.
pub proof fn lemma_get_after_set(
    map: Map<Seq<char>, HostView>,
    key: Seq<char>,
    value: HostView,
    other: Seq<char>,
)
    ensures
        lookup(map.insert(key, value), key) == value,
        other != key ==> lookup(map.insert(key, value), other) == lookup(map, other),
{
}

/// Of two sets under one key the later one wins.
pub proof fn lemma_last_write_wins(
    map: Map<Seq<char>, HostView>,
    key: Seq<char>,
    first: HostView,
    second: HostView,
)
    ensures
        map.insert(key, first).insert(key, second) == map.insert(key, second),
{
    assert(map.insert(key, first).insert(key, second) =~= map.insert(key, second));
}

/// What a script sets under a key is what a script gets for that key,
/// as far as the bridge can carry it.
pub proof fn lemma_script_get_after_set(
    map: Map<Seq<char>, HostView>,
    key: Seq<char>,
    value: ScriptView,
)
    ensures
        get_result(map.insert(key, host_of(value)), ScriptView::Text(encode_utf8(key)))
            == script_of(host_of(value)),
{
    broadcast use vstd::utf8::encode_utf8_valid_utf8, vstd::utf8::encode_utf8_decode_utf8;
    assert(valid_utf8(encode_utf8(key)));
    assert(decode_utf8(encode_utf8(key)) == key);
}

/// `std::sync::Mutex`: a lock around a value.
#[verifier::external_type_specification]
#[verifier::external_body]
#[verifier::reject_recursive_types(T)]
pub struct ExMutex<T: ?Sized>(Mutex<T>);

/// `std::sync::MutexGuard`: a held lock, let go when dropped.
#[verifier::external_type_specification]
#[verifier::external_body]
#[verifier::reject_recursive_types(T)]
pub struct ExMutexGuard<'a, T: ?Sized + 'a>(MutexGuard<'a, T>);

/// The map that a lock was made around. It is what the lock held when
/// it was new, not what it holds now.
pub uninterp spec fn made_with(lock: Mutex<StateMap>) -> Map<Seq<char>, HostView>;

/// `Mutex::new`: a lock around `map`.
#[verifier::external_body]
fn guard_map(map: StateMap) -> (lock: Mutex<StateMap>)
    ensures
        made_with(lock) == map@,
{
    Mutex::new(map)
}

/// `std::sync::PoisonError`: what a lock gives whose holder panicked.
#[verifier::external_type_specification]
#[verifier::external_body]
#[verifier::reject_recursive_types(T)]
pub struct ExPoisonError<T>(PoisonError<T>);

/// `Mutex::lock`: waits for the lock. The map behind it is whatever the
/// last holder left, so nothing is said of it. The caller must not
/// hold the lock already: every function here lets it go before it
/// returns, and calls none that takes it while it holds it.
#[verifier::external_body]
fn lock_map<'a>(lock: &'a Mutex<StateMap>) -> Result<
    MutexGuard<'a, StateMap>,
    PoisonError<MutexGuard<'a, StateMap>>,
> {
    lock.lock()
}

/// `PoisonError::into_inner`: the held lock all the same.
#[verifier::external_body]
fn recovered<'a>(poisoned: PoisonError<MutexGuard<'a, StateMap>>) -> MutexGuard<'a, StateMap> {
    poisoned.into_inner()
}

/// Takes the lock, whether or not an earlier holder panicked: every
/// step on the map is whole, so that the map is sound.
fn hold<'a>(lock: &'a Mutex<StateMap>) -> MutexGuard<'a, StateMap> {
    match lock_map(lock) {
        Ok(guard) => guard,
        Err(poisoned) => recovered(poisoned),
    }
}

/// `Deref` of a `MutexGuard`: the map that the held lock protects.
#[verifier::external_body]
fn held_map<'a, 'b>(guard: &'a MutexGuard<'b, StateMap>) -> &'a StateMap {
    &**guard
}

/// `DerefMut` of a `MutexGuard`: the map that the held lock protects,
/// for writing.
#[verifier::external_body]
fn held_map_mut<'a, 'b>(guard: &'a mut MutexGuard<'b, StateMap>) -> &'a mut StateMap {
    &mut **guard
}

/// A handle on a state map that evaluations share. Every operation takes
/// the lock, does one lookup or one insert, and lets the lock go: a get
/// followed by a set is not one step, and of two concurrent sets the
/// later one wins.
pub struct SharedState {
    inner: Arc<Mutex<StateMap>>,
}

impl SharedState {
    /// The map that the state started as: the one that its lock was
    /// made around.
    pub closed spec fn initial(&self) -> Map<Seq<char>, HostView> {
        made_with(*self.inner)
    }

    /// Whether two handles are on one lock, and so on one state.
    pub closed spec fn same_lock(&self, other: &SharedState) -> bool {
        self.inner == other.inner
    }

    /// Handles on one lock are on a state that started as one map.
    pub proof fn lemma_same_lock_same_start(&self, other: &SharedState)
        requires
            self.same_lock(other),
        ensures
            other.same_lock(self),
            self.initial() == other.initial(),
    {
    }

    /// A new shared state: a new lock, made around `map`.
    pub fn new(map: StateMap) -> (state: SharedState)
        ensures
            state.initial() == map@,
    {
        SharedState { inner: Arc::new(guard_map(map)) }
    }

    /// Another handle on the same state: on the same lock.
    pub fn share(&self) -> (state: SharedState)
        ensures
            state.same_lock(self),
            state.initial() == self.initial(),
    {
        SharedState { inner: Arc::clone(&self.inner) }
    }

    /// The value under `key` at this moment.
    pub fn lookup(&self, key: &str) -> StateValue {
        let guard = hold(&self.inner);
        held_map(&guard).get(key)
    }

    /// The script's `get`, under the lock. What the map holds at that
    /// moment is for the other holders of the state to say; the value
    /// is what a get of `key` yields from it. So a key that is not
    /// well-formed text finds nothing, whatever the map holds.
    pub(crate) fn get(&self, key: &ScriptValue) -> (value: ScriptValue)
        ensures
            exists|map: Map<Seq<char>, HostView>| value@ == #[trigger] get_result(map, key@),
    {
        let guard = hold(&self.inner);
        held_map(&guard).script_get(key)
    }

    /// The script's `set`, under the lock.
    pub(crate) fn set(&self, key: String, value: &ScriptValue) {
        let mut guard = hold(&self.inner);
        held_map_mut(&mut guard).script_set(key, value);
    }
}

} // verus!
