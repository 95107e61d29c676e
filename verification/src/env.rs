//! A snapshot of named environment values.
//!
//! The engine never reads the process environment itself: the caller hands it
//! an `EnvVariables` value holding every name it may consult.  Later `set`
//! calls shadow earlier ones, so filling a snapshot behaves like assignment.

use vstd::prelude::*;

use crate::strutil::str_eq;

verus! {

/// Value bound to `name`, the latest `set` winning.
pub open spec fn spec_env_get(env: Seq<(Seq<char>, Seq<char>)>, name: Seq<char>) -> Option<
    Seq<char>,
>
    decreases env.len(),
{
    if env.len() == 0 {
        None
    } else if env.last().0 == name {
        Some(env.last().1)
    } else {
        spec_env_get(env.drop_last(), name)
    }
}

/// Whether `name` is bound at all.
pub open spec fn spec_env_has(env: Seq<(Seq<char>, Seq<char>)>, name: Seq<char>) -> bool {
    spec_env_get(env, name) is Some
}

/// The environment as the engine sees it: an immutable snapshot of named
/// values, injectable so that resolution is a pure function of its inputs.
pub struct EnvVariables {
    vars: Vec<(String, String)>,
}

impl View for EnvVariables {
    type V = Seq<(Seq<char>, Seq<char>)>;

    closed spec fn view(&self) -> Seq<(Seq<char>, Seq<char>)> {
        self.vars@.map_values(|p: (String, String)| (p.0@, p.1@))
    }
}

impl EnvVariables {
    /// An empty snapshot.
    pub fn new() -> (r: EnvVariables)
        ensures
            r@ == Seq::<(Seq<char>, Seq<char>)>::empty(),
    {
        let r = EnvVariables { vars: Vec::new() };
        proof {
            assert(r@ =~= Seq::<(Seq<char>, Seq<char>)>::empty());
        }
        r
    }

    /// Bind `name` to `value`, shadowing any earlier binding.
    pub fn set(&mut self, name: &str, value: &str)
        ensures
            final(self)@ == old(self)@.push((name@, value@)),
    {
        self.vars.push((name.to_owned(), value.to_owned()));
        proof {
            assert(self@ =~= old(self)@.push((name@, value@)));
        }
    }

    /// The value bound to `name`, if any.
    pub fn get(&self, name: &str) -> (r: Option<String>)
        ensures
            match r {
                Some(v) => spec_env_get(self@, name@) == Some(v@),
                None => spec_env_get(self@, name@) is None,
            },
    {
        let mut found: Option<String> = None;
        let mut i: usize = 0;
        proof {
            assert(self@.take(0) =~= Seq::<(Seq<char>, Seq<char>)>::empty());
        }
        while i < self.vars.len()
            invariant
                i <= self.vars.len(),
                match found {
                    Some(v) => spec_env_get(self@.take(i as int), name@) == Some(v@),
                    None => spec_env_get(self@.take(i as int), name@) is None,
                },
            decreases self.vars.len() - i,
        {
            proof {
                assert(self@.take(i as int + 1).drop_last() =~= self@.take(i as int));
                assert(self@.take(i as int + 1).last() == self@[i as int]);
            }
            if str_eq(self.vars[i].0.as_str(), name) {
                found = Some(self.vars[i].1.clone());
            }
            i += 1;
        }
        proof {
            assert(self@.take(self.vars@.len() as int) =~= self@);
        }
        found
    }

    /// Whether `name` is set at all.
    pub fn contains(&self, var: &str) -> (r: bool)
        ensures
            r == spec_env_has(self@, var@),
    {
        self.get(var).is_some()
    }
}

} // verus!
