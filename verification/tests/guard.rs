use scoped_env::scope::{EnvError, ScopedEnv};
use scoped_env::scope::with_override;
use scoped_env::table::EnvTable;

#[test]
fn does_set() {
    let mut env = EnvTable::new();
    let c = ScopedEnv::set(&mut env, String::from("FOOBAR"), String::from("hello"));
    assert_eq!(c.get(&env).unwrap(), String::from("hello"));
}

#[test]
fn does_unset_at_end_of_block() {
    let mut env = EnvTable::new();
    env.unset(&String::from("FOOBAR1"));
    {
        let c = ScopedEnv::set(&mut env, String::from("FOOBAR1"), String::from("hello"));
        assert_eq!(c.get(&env).unwrap(), String::from("hello"));
        c.release(&mut env);
    }

    assert_eq!(env.get(&String::from("FOOBAR1")), None);
}

#[test]
fn does_reset_at_end_of_block() {
    let mut env = EnvTable::new();
    env.set(&String::from("FOOBAR1"), &String::from("OLD_VALUE"));
    {
        let c = ScopedEnv::set(&mut env, String::from("FOOBAR1"), String::from("hello"));
        assert_eq!(c.get(&env).unwrap(), String::from("hello"));
        c.release(&mut env);
    }

    assert_eq!(env.get(&String::from("FOOBAR1")), Some(String::from("OLD_VALUE")));
}

#[test]
fn nested_guards_restore_in_reverse_order() {
    let mut env = EnvTable::new();
    let outer = ScopedEnv::set(&mut env, String::from("FOOBAR2"), String::from("x"));
    let inner = ScopedEnv::set(&mut env, String::from("FOOBAR2"), String::from("y"));
    assert_eq!(inner.get(&env).unwrap(), String::from("y"));
    inner.release(&mut env);
    assert_eq!(outer.get(&env).unwrap(), String::from("x"));
    outer.release(&mut env);
    assert_eq!(env.get(&String::from("FOOBAR2")), None);
}

#[test]
fn get_signals_not_set_when_absent() {
    let mut env = EnvTable::new();
    let c = ScopedEnv::set(&mut env, String::from("GONE"), String::from("v"));
    env.unset(&String::from("GONE"));
    assert_eq!(c.get(&env), Err(EnvError::NotSet));
}

#[test]
fn guard_owns_its_name() {
    let mut env = EnvTable::new();
    let c = ScopedEnv::set(&mut env, String::from("FOOBAR"), String::from("hello"));
    assert_eq!(c.name(), &String::from("FOOBAR"));
}

#[test]
fn guards_on_different_names_are_independent() {
    let mut env = EnvTable::new();
    env.set(&String::from("ALPHA"), &String::from("1"));
    let a = ScopedEnv::set(&mut env, String::from("ALPHA"), String::from("2"));
    let b = ScopedEnv::set(&mut env, String::from("BETA"), String::from("3"));
    b.release(&mut env);
    assert_eq!(env.get(&String::from("ALPHA")), Some(String::from("2")));
    assert_eq!(env.get(&String::from("BETA")), None);
    a.release(&mut env);
    assert_eq!(env.get(&String::from("ALPHA")), Some(String::from("1")));
}

#[test]
fn table_set_overwrites_existing_value() {
    let mut env = EnvTable::new();
    env.set(&String::from("KEY"), &String::from("one"));
    env.set(&String::from("KEY"), &String::from("two"));
    assert_eq!(env.get(&String::from("KEY")), Some(String::from("two")));
}

#[test]
fn table_unset_of_absent_name_is_a_no_op() {
    let mut env = EnvTable::new();
    env.set(&String::from("KEPT"), &String::from("v"));
    env.unset(&String::from("MISSING"));
    assert_eq!(env.get(&String::from("KEPT")), Some(String::from("v")));
    assert_eq!(env.get(&String::from("MISSING")), None);
}

#[test]
fn with_override_restores_without_caller_action() {
    let mut env = EnvTable::new();
    env.set(&String::from("HOME_DIR"), &String::from("/old"));
    let env = with_override(
        env,
        String::from("HOME_DIR"),
        String::from("/tmp_override"),
        |mut inner: EnvTable| {
            assert_eq!(inner.get(&String::from("HOME_DIR")), Some(String::from("/tmp_override")));
            inner.set(&String::from("OTHER"), &String::from("kept"));
            inner
        },
    );
    assert_eq!(env.get(&String::from("HOME_DIR")), Some(String::from("/old")));
    assert_eq!(env.get(&String::from("OTHER")), Some(String::from("kept")));
}

#[test]
fn with_override_removes_a_name_that_was_absent() {
    let env = EnvTable::new();
    let env = with_override(
        env,
        String::from("FRESH"),
        String::from("short_lived"),
        |inner: EnvTable| inner,
    );
    assert_eq!(env.get(&String::from("FRESH")), None);
}
