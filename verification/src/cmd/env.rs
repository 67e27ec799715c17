//! Environment given to the commands.

use vstd::prelude::*;

use super::state::StringMap;
use crate::value::Value;

verus! {

/// The known variables of `entries` as `(prefix + name, value)`, in the order of the entries;
/// entries whose value is null or unknown are left out
pub open spec fn known_entries(e: Seq<(String, Value<String>)>, prefix: Seq<char>) -> Seq<
    (Seq<char>, Seq<char>),
>
    decreases e.len(),
{
    if e.len() == 0 {
        Seq::empty()
    } else {
        known_entries(e.drop_last(), prefix) + match e.last().1 {
            Value::Value(v) => seq![(prefix + e.last().0@, v@)],
            _ => Seq::empty(),
        }
    }
}

/// The known variables of an optional map (none when it is null or unknown)
pub open spec fn known_variables(m: Value<StringMap>, prefix: Seq<char>) -> Seq<(Seq<char>, Seq<char>)> {
    match m {
        Value::Value(x) => known_entries(x.entries@, prefix),
        _ => Seq::empty(),
    }
}

/// The known variables of several maps, each with its prefix, one map after the other
pub open spec fn known_variables_all(envs: Seq<(Value<StringMap>, Seq<char>)>) -> Seq<
    (Seq<char>, Seq<char>),
>
    decreases envs.len(),
{
    if envs.len() == 0 {
        Seq::empty()
    } else {
        known_variables_all(envs.drop_last()) + known_variables(envs.last().0, envs.last().1)
    }
}

/// The characters of a list of variables
pub open spec fn env_view(v: Seq<(String, String)>) -> Seq<(Seq<char>, Seq<char>)> {
    v.map_values(|p: (String, String)| (p.0@, p.1@))
}

/// Append the known variables of `env`, each name prefixed with `prefix`
fn push_known(out: &mut Vec<(String, String)>, env: &Value<StringMap>, prefix: &str)
    ensures
        env_view(final(out)@) == env_view(old(out)@) + known_variables(*env, prefix@),
{
    match env {
        Value::Value(m) => {
            let n = m.entries.len();
            let ghost start = env_view(out@);
            for i in 0..n
                invariant
                    n == m.entries@.len(),
                    env_view(out@) == start + known_entries(m.entries@.take(i as int), prefix@),
            {
                let (k, v) = &m.entries[i];
                let ghost before = out@;
                proof {
                    let t = m.entries@.take(i as int + 1);
                    assert(t.drop_last() =~= m.entries@.take(i as int));
                    assert(t.last() == m.entries@[i as int]);
                }
                if let Value::Value(s) = v {
                    out.push((prefix.to_owned().concat(k.as_str()), s.clone()));
                    assert(env_view(out@) =~= env_view(before) + seq![(prefix@ + k@, s@)]);
                } else {
                    assert(env_view(out@) =~= env_view(before));
                }
                assert(env_view(out@) =~= start + known_entries(
                    m.entries@.take(i as int + 1),
                    prefix@,
                ));
            }
            assert(m.entries@.take(n as int) =~= m.entries@);
        },
        _ => {
            assert(env_view(out@) =~= env_view(old(out)@) + known_variables(*env, prefix@));
        },
    }
}

/// Gather the known variables of several maps, each name prefixed with the prefix of its map
/// (e.g. `INPUT_` for the inputs), one map after the other
pub fn prepare_envs(envs: &[(&Value<StringMap>, &str)]) -> (r: Vec<(String, String)>)
    ensures
        env_view(r@) == known_variables_all(
            envs@.map_values(|p: (&Value<StringMap>, &str)| (*p.0, p.1@)),
        ),
{
    let ghost all = envs@.map_values(|p: (&Value<StringMap>, &str)| (*p.0, p.1@));
    let mut out: Vec<(String, String)> = Vec::new();
    let n = envs.len();
    assert(env_view(out@) =~= Seq::empty());
    for i in 0..n
        invariant
            n == envs@.len(),
            all == envs@.map_values(|p: (&Value<StringMap>, &str)| (*p.0, p.1@)),
            env_view(out@) == known_variables_all(all.take(i as int)),
    {
        let (env, prefix) = envs[i];
        proof {
            let t = all.take(i as int + 1);
            assert(t.drop_last() =~= all.take(i as int));
        }
        push_known(&mut out, env, prefix);
    }
    assert(all.take(n as int) =~= all);
    out
}

/// The variables of a command: the base variables, then the known variables of the command's
/// own environment (with their names as they are)
pub fn with_env(base_env: &Vec<(String, String)>, extra_env: &Value<StringMap>) -> (r: Vec<
    (String, String),
>)
    ensures
        env_view(r@) == env_view(base_env@) + known_variables(*extra_env, Seq::empty()),
{
    let mut out: Vec<(String, String)> = Vec::new();
    let n = base_env.len();
    for i in 0..n
        invariant
            n == base_env@.len(),
            env_view(out@) == env_view(base_env@.take(i as int)),
    {
        let (k, v) = &base_env[i];
        let ghost before = out@;
        out.push((k.clone(), v.clone()));
        assert(base_env@.take(i as int + 1) =~= base_env@.take(i as int).push(base_env@[i as int]));
        assert(env_view(out@) =~= env_view(before).push((k@, v@)));
        assert(env_view(out@) =~= env_view(base_env@.take(i as int + 1)));
    }
    assert(base_env@.take(n as int) =~= base_env@);
    proof {
        reveal_strlit("");
        assert(""@ =~= Seq::<char>::empty());
    }
    push_known(&mut out, extra_env, "");
    out
}

} // verus!
