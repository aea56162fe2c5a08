//! The mathematical model of an environment table and of a guard's
//! lifecycle: the table is a map from variable names to values, acquiring
//! a guard inserts the new value after recording the prior binding, and
//! releasing it plays the recorded binding back.

use vstd::prelude::*;

verus! {

/// The table after a value is installed under a name.
pub open spec fn env_apply(
    env: Map<Seq<char>, Seq<char>>,
    name: Seq<char>,
    value: Seq<char>,
) -> Map<Seq<char>, Seq<char>> {
    env.insert(name, value)
}

/// The prior binding of a name: the value it holds, or `None` when absent.
pub open spec fn prior_in(env: Map<Seq<char>, Seq<char>>, name: Seq<char>) -> Option<Seq<char>> {
    if env.dom().contains(name) {
        Some(env[name])
    } else {
        None
    }
}

/// The table after a recorded prior binding is played back: a value that
/// was present is written back, an absent binding is removed outright.
pub open spec fn env_restore(
    env: Map<Seq<char>, Seq<char>>,
    name: Seq<char>,
    prior: Option<Seq<char>>,
) -> Map<Seq<char>, Seq<char>> {
    match prior {
        Some(value) => env.insert(name, value),
        None => env.remove(name),
    }
}

/// Restore-absent: when a name is absent, installing a value under it and
/// then restoring the recorded prior state leaves the name absent again —
/// indeed it leaves the whole table exactly as it was.
pub proof fn lemma_restore_absent(
    env: Map<Seq<char>, Seq<char>>,
    name: Seq<char>,
    value: Seq<char>,
)
    requires
        !env.dom().contains(name),
    ensures
        !env_restore(env_apply(env, name, value), name, prior_in(env, name)).dom().contains(name),
        env_restore(env_apply(env, name, value), name, prior_in(env, name)) == env,
{
    assert(env_restore(env_apply(env, name, value), name, prior_in(env, name)) =~= env);
}

/// Restore-present: when a name holds some value, installing a different
/// value under it and then restoring the recorded prior state brings the
/// original value back — indeed it leaves the whole table exactly as it
/// was.
pub proof fn lemma_restore_present(
    env: Map<Seq<char>, Seq<char>>,
    name: Seq<char>,
    value: Seq<char>,
)
    requires
        env.dom().contains(name),
        env[name] != value,
    ensures
        env_restore(env_apply(env, name, value), name, prior_in(env, name)).dom().contains(name),
        env_restore(env_apply(env, name, value), name, prior_in(env, name))[name] == env[name],
        env_restore(env_apply(env, name, value), name, prior_in(env, name)) == env,
{
    assert(env_restore(env_apply(env, name, value), name, prior_in(env, name)) =~= env);
}

/// Nesting: two guards taken in sequence on the same name, each recording
/// the state immediately before it, restore the original table when they
/// are released in reverse order of acquisition.
pub proof fn lemma_nesting(
    env: Map<Seq<char>, Seq<char>>,
    name: Seq<char>,
    first: Seq<char>,
    second: Seq<char>,
)
    ensures
        ({
            let after_first = env_apply(env, name, first);
            let after_second = env_apply(after_first, name, second);
            let inner_released = env_restore(after_second, name, prior_in(after_first, name));
            env_restore(inner_released, name, prior_in(env, name)) == env
        }),
{
    let after_first = env_apply(env, name, first);
    let after_second = env_apply(after_first, name, second);
    let inner_released = env_restore(after_second, name, prior_in(after_first, name));
    assert(inner_released =~= after_first);
    assert(env_restore(after_first, name, prior_in(env, name)) =~= env);
}

} // verus!
