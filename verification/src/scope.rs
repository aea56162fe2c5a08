//! The guard itself: acquiring it records the prior binding of one
//! variable and installs a new value; releasing it plays the recorded
//! binding back. A guard is immutable after creation and is consumed by
//! release, so its side effect can happen only once.

use vstd::prelude::*;

use crate::model::{env_apply, env_restore, prior_in};
use crate::table::EnvTable;

verus! {

/// The state a variable was in when a guard captured it: absent, or
/// present with some value.
#[derive(Debug, Clone)]
pub enum Prior {
    Absent,
    Present(String),
}

impl View for Prior {
    type V = Option<Seq<char>>;

    open spec fn view(&self) -> Option<Seq<char>> {
        match self {
            Prior::Absent => None,
            Prior::Present(value) => Some(value@),
        }
    }
}

/// What a read accessor signals when it cannot hand back a value: the
/// variable is currently absent.
#[derive(Debug, PartialEq, Eq, Structural)]
pub enum EnvError {
    NotSet,
}

/// A scoped override of one environment variable: it owns the variable's
/// name and the binding that was in force immediately before the override
/// was applied.
pub struct ScopedEnv {
    name: String,
    prior: Prior,
}

impl ScopedEnv {
    /// The name of the variable this guard overrides.
    pub closed spec fn spec_name(&self) -> Seq<char> {
        self.name@
    }

    /// The binding the guard captured: `None` when the variable was
    /// absent, `Some(value)` when it held `value`.
    pub closed spec fn spec_prior(&self) -> Option<Seq<char>> {
        self.prior@
    }

    /// Records the current binding of `name`, then binds `name` to
    /// `value`. After this call the table reads back exactly `value`
    /// under `name`, and the returned guard holds the binding that was in
    /// force before the call.
    pub fn set(env: &mut EnvTable, name: String, value: String) -> (guard: ScopedEnv)
        requires
            name@.len() > 0,
        ensures
            final(env)@ == env_apply(old(env)@, name@, value@),
            final(env)@.dom().contains(name@),
            final(env)@[name@] == value@,
            guard.spec_name() == name@,
            guard.spec_prior() == prior_in(old(env)@, name@),
    {
        let prior = match env.get(&name) {
            Some(value) => Prior::Present(value),
            None => Prior::Absent,
        };
        env.set(&name, &value);
        ScopedEnv { name, prior }
    }

    /// Plays the captured binding back: a value that was present is
    /// written back, an absent binding is removed outright. The guard is
    /// consumed, so no second release can be written.
    pub fn release(self, env: &mut EnvTable)
        ensures
            final(env)@ == env_restore(old(env)@, self.spec_name(), self.spec_prior()),
            self.spec_prior() is None ==> !final(env)@.dom().contains(self.spec_name()),
            self.spec_prior() is Some ==> final(env)@.dom().contains(self.spec_name())
                && final(env)@[self.spec_name()] == self.spec_prior()->0,
    {
        match self.prior {
            Prior::Present(value) => env.set(&self.name, &value),
            Prior::Absent => env.unset(&self.name),
        }
    }

    /// The current value of the guard's variable, or `NotSet` when it is
    /// absent.
    pub fn get(&self, env: &EnvTable) -> (result: Result<String, EnvError>)
        ensures
            match result {
                Ok(value) => env@.dom().contains(self.spec_name())
                    && value@ == env@[self.spec_name()],
                Err(error) => error == EnvError::NotSet
                    && !env@.dom().contains(self.spec_name()),
            },
    {
        match env.get(&self.name) {
            Some(value) => Ok(value),
            None => Err(EnvError::NotSet),
        }
    }

    /// The name the guard owns.
    pub fn name(&self) -> (name: &String)
        ensures
            name@ == self.spec_name(),
    {
        &self.name
    }
}

/// Runs `body` with `name` bound to `value`, then restores the binding
/// that was in force before the call — without any release action by the
/// caller. Whatever table `body` hands back, the result is that table
/// with `name` put back to its prior state.
pub fn with_override<Body: FnOnce(EnvTable) -> EnvTable>(
    env: EnvTable,
    name: String,
    value: String,
    body: Body,
) -> (result: EnvTable)
    requires
        name@.len() > 0,
        forall|overridden: EnvTable| overridden@ == env_apply(env@, name@, value@)
            ==> call_requires(body, (overridden,)),
    ensures
        exists|overridden: EnvTable, inner: EnvTable|
            overridden@ == env_apply(env@, name@, value@)
                && #[trigger] call_ensures(body, (overridden,), inner)
                && result@ == env_restore(inner@, name@, prior_in(env@, name@)),
{
    let mut table = env;
    let guard = ScopedEnv::set(&mut table, name, value);
    let ghost overridden_snap = table;
    let mut result = body(table);
    let ghost inner_snap = result;
    guard.release(&mut result);
    proof {
        assert(call_ensures(body, (overridden_snap,), inner_snap));
        assert(result@ == env_restore(inner_snap@, name@, prior_in(env@, name@)));
    }
    result
}

} // verus!
