//! `${VAR}` placeholder expansion against a snapshot of the environment.

use vstd::prelude::*;

use crate::error::Error;
use crate::text::{chars_of, push_char};

verus! {

/// Why an expansion fails.
pub enum EnvFault {
    /// A `${` is unterminated, or `${}` names nothing.
    Syntax,
    /// The named variable is not in the environment.
    Missing(Seq<char>),
}

/// The value of `name` in `env`: the first pair whose name matches.
pub open spec fn env_lookup(env: Seq<(String, String)>, name: Seq<char>) -> Option<Seq<char>>
    decreases env.len(),
{
    if env.len() == 0 {
        None
    } else if env[0].0@ == name {
        Some(env[0].1@)
    } else {
        env_lookup(env.drop_first(), name)
    }
}

/// Index of the first `}` in `s`.
pub open spec fn first_close(s: Seq<char>) -> Option<int>
    decreases s.len(),
{
    if s.len() == 0 {
        None
    } else if s[0] == '}' {
        Some(0)
    } else {
        match first_close(s.drop_first()) {
            Some(k) => Some(k + 1),
            None => None,
        }
    }
}

/// The first `}` found lies within the sequence.
pub proof fn lemma_first_close_bounds(s: Seq<char>)
    ensures
        first_close(s) matches Some(k) ==> 0 <= k < s.len() && s[k] == '}',
    decreases s.len(),
{
    if s.len() > 0 && s[0] != '}' {
        lemma_first_close_bounds(s.drop_first());
    }
}

/// `s` with each `${NAME}` replaced by the value of `NAME` in `env`, read
/// from left to right; the first faulty placeholder decides the error.
pub open spec fn expand_spec(s: Seq<char>, env: Seq<(String, String)>) -> Result<
    Seq<char>,
    EnvFault,
>
    decreases s.len(),
{
    if s.len() == 0 {
        Ok(Seq::empty())
    } else if s[0] == '$' && s.len() >= 2 && s[1] == '{' {
        let rest = s.skip(2);
        match first_close(rest) {
            None => Err(EnvFault::Syntax),
            Some(k) => {
                proof {
                    lemma_first_close_bounds(rest);
                }
                if k == 0 {
                    Err(EnvFault::Syntax)
                } else {
                    let name = rest.take(k);
                    match env_lookup(env, name) {
                        None => Err(EnvFault::Missing(name)),
                        Some(v) => match expand_spec(rest.skip(k + 1), env) {
                            Ok(t) => Ok(v + t),
                            Err(e) => Err(e),
                        },
                    }
                }
            },
        }
    } else {
        match expand_spec(s.drop_first(), env) {
            Ok(t) => Ok(seq![s[0]] + t),
            Err(e) => Err(e),
        }
    }
}

/// `r` is the result that the expansion outcome `o` calls for.
pub open spec fn expansion_holds(r: Result<String, Error>, o: Result<Seq<char>, EnvFault>) -> bool {
    match o {
        Ok(t) => r matches Ok(out) && out@ == t,
        Err(EnvFault::Syntax) => r matches Err(Error::ConfigEnvSyntax),
        Err(EnvFault::Missing(n)) => r matches Err(Error::ConfigEnvMissing(m)) && m@ == n,
    }
}

proof fn lemma_first_close_at(t: Seq<char>, m: int)
    requires
        0 <= m <= t.len(),
        forall|k: int| 0 <= k < m ==> t[k] != '}',
    ensures
        m < t.len() && t[m] == '}' ==> first_close(t) == Some(m),
        m == t.len() ==> first_close(t) is None,
    decreases m,
{
    if m > 0 {
        lemma_first_close_at(t.drop_first(), m - 1);
    }
}

/// Looks `name` up in `env`.
fn lookup(env: &[(String, String)], name: &String) -> (r: Option<usize>)
    ensures
        match env_lookup(env@, name@) {
            None => r is None,
            Some(v) => r matches Some(i) && i < env@.len() && env@[i as int].1@ == v,
        },
{
    let mut i: usize = 0;
    assert(env@.skip(0) =~= env@);
    while i < env.len()
        invariant
            i <= env@.len(),
            env_lookup(env@, name@) == env_lookup(env@.skip(i as int), name@),
        decreases env@.len() - i,
    {
        assert(env@.skip(i as int).drop_first() =~= env@.skip(i + 1));
        if env[i].0 == *name {
            return Some(i);
        }
        i = i + 1;
    }
    None
}

/// Replaces each `${VAR}` in `input` by the value of `VAR` in `env`.
/// Errors with [`Error::ConfigEnvMissing`] if a variable is not there and
/// with [`Error::ConfigEnvSyntax`] if a `${` is unterminated or empty.
pub fn expand_env_in(input: &str, env: &[(String, String)]) -> (r: Result<String, Error>)
    ensures
        expansion_holds(r, expand_spec(input@, env@)),
{
    let s = chars_of(input);
    let n = s.len();
    let mut out = String::new();
    let mut i: usize = 0;
    assert(s@.skip(0) =~= s@);
    proof {
        match expand_spec(s@, env@) {
            Ok(t) => assert(out@ + t =~= t),
            Err(_) => {},
        }
    }
    while i < n
        invariant
            n == s@.len(),
            s@ == input@,
            i <= n,
            expand_spec(s@, env@) == match expand_spec(s@.skip(i as int), env@) {
                Ok(t) => Ok(out@ + t),
                Err(e) => Err(e),
            },
        decreases n - i,
    {
        let ghost tail = s@.skip(i as int);
        if s[i] == '$' && i + 1 < n && s[i + 1] == '{' {
            let ghost rest = tail.skip(2);
            assert(rest =~= s@.skip(i + 2));
            let mut j: usize = i + 2;
            let mut name = String::new();
            while j < n && s[j] != '}'
                invariant
                    n == s@.len(),
                    i + 2 <= j <= n,
                    name@ == s@.subrange(i + 2, j as int),
                    forall|k: int| i + 2 <= k < j ==> s@[k] != '}',
                decreases n - j,
            {
                push_char(&mut name, s[j]);
                j = j + 1;
            }
            proof {
                let m = j - (i + 2);
                assert forall|k: int| 0 <= k < m implies rest[k] != '}' by {
                    assert(rest[k] == s@[i + 2 + k]);
                }
                lemma_first_close_at(rest, m);
                if j < n {
                    assert(rest[m] == s@[j as int]);
                }
            }
            if j == n || j == i + 2 {
                return Err(Error::ConfigEnvSyntax);
            }
            assert(rest.take(j - (i + 2)) =~= name@);
            match lookup(env, &name) {
                None => {
                    return Err(Error::ConfigEnvMissing(name));
                },
                Some(k) => {
                    let ghost before = out@;
                    out.append(env[k].1.as_str());
                    assert(rest.skip(j - (i + 2) + 1) =~= s@.skip(j + 1));
                    i = j + 1;
                    proof {
                        let v = env@[k as int].1@;
                        match expand_spec(s@.skip(i as int), env@) {
                            Ok(t) => {
                                assert(before + (v + t) =~= out@ + t);
                            },
                            Err(e) => {},
                        }
                    }
                },
            }
        } else {
            let ghost before = out@;
            push_char(&mut out, s[i]);
            assert(tail.drop_first() =~= s@.skip(i + 1));
            assert(tail[0] == s@[i as int]);
            i = i + 1;
            proof {
                match expand_spec(s@.skip(i as int), env@) {
                    Ok(t) => {
                        assert(before + (seq![tail[0]] + t) =~= out@ + t);
                    },
                    Err(e) => {},
                }
            }
        }
    }
    assert(s@.skip(n as int) =~= Seq::<char>::empty());
    assert(out@ + Seq::<char>::empty() =~= out@);
    Ok(out)
}


/// `s` holds no `${`.
pub open spec fn no_placeholder(s: Seq<char>) -> bool {
    forall|i: int| 0 <= i < s.len() - 1 ==> !(#[trigger] s[i] == '$' && s[i + 1] == '{')
}

/// Text without a `${` comes back unchanged, whatever the environment.
pub proof fn lemma_no_placeholder_passthrough(s: Seq<char>, env: Seq<(String, String)>)
    requires
        no_placeholder(s),
    ensures
        expand_spec(s, env) == Ok::<Seq<char>, EnvFault>(s),
    decreases s.len(),
{
    if s.len() > 0 {
        let t = s.drop_first();
        assert forall|i: int| 0 <= i < t.len() - 1 implies !(#[trigger] t[i] == '$' && t[i + 1] == '{') by {
            assert(t[i] == s[i + 1] && t[i + 1] == s[i + 2]);
        }
        lemma_no_placeholder_passthrough(t, env);
        if s.len() >= 2 {
            assert(!(s[0] == '$' && s[1] == '{'));
        }
        assert(seq![s[0]] + t =~= s);
    } else {
        assert(s =~= Seq::<char>::empty());
    }
}

/// A placeholder `${NAME}` is replaced by the value of `NAME` and the rest
/// is expanded after it; an unset `NAME` is reported by its name.
pub proof fn lemma_placeholder_expands(name: Seq<char>, rest: Seq<char>, env: Seq<(String, String)>)
    requires
        name.len() > 0,
        !name.contains('}'),
    ensures
        expand_spec(seq!['$', '{'] + name + seq!['}'] + rest, env) == match env_lookup(env, name) {
            None => Err(EnvFault::Missing(name)),
            Some(v) => match expand_spec(rest, env) {
                Ok(t) => Ok(v + t),
                Err(e) => Err(e),
            },
        },
{
    let s = seq!['$', '{'] + name + seq!['}'] + rest;
    assert(s.skip(2) =~= name + seq!['}'] + rest);
    assert forall|k: int| 0 <= k < name.len() implies (name + seq!['}'] + rest)[k] != '}' by {
        assert((name + seq!['}'] + rest)[k] == name[k]);
    }
    assert((name + seq!['}'] + rest)[name.len() as int] == '}');
    lemma_first_close_at(name + seq!['}'] + rest, name.len() as int);
    assert(s.skip(2).take(name.len() as int) =~= name);
    assert(s.skip(2).skip(name.len() as int + 1) =~= rest);
}

} // verus!
