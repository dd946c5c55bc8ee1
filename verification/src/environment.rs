//! A snapshot of environment variables, handed to substitution as a
//! plain value so that substitution itself is a pure function of its
//! arguments.

use vstd::prelude::*;
use crate::text::str_eq;

verus! {

/// The value bound to `name` in the snapshot, taking the first pair
/// with that name; `None` when no pair has it.
pub open spec fn env_lookup_spec(
    pairs: Seq<(Seq<char>, Seq<char>)>,
    name: Seq<char>,
) -> Option<Seq<char>>
    decreases pairs.len(),
{
    if pairs.len() == 0 {
        None
    } else if pairs[0].0 == name {
        Some(pairs[0].1)
    } else {
        env_lookup_spec(pairs.drop_first(), name)
    }
}

/// An ordered snapshot of name/value bindings. A process environment
/// has each name at most once; when a name repeats here, the first
/// binding wins.
pub struct EnvVars {
    pub vars: Vec<(String, String)>,
}

impl View for EnvVars {
    type V = Seq<(Seq<char>, Seq<char>)>;

    open spec fn view(&self) -> Seq<(Seq<char>, Seq<char>)> {
        Seq::new(self.vars@.len(), |i: int| (self.vars@[i].0@, self.vars@[i].1@))
    }
}

impl EnvVars {
    /// An empty snapshot.
    pub fn new() -> (r: Self)
        ensures
            r@ == Seq::<(Seq<char>, Seq<char>)>::empty(),
    {
        let r = EnvVars { vars: Vec::new() };
        proof {
            assert(r@ =~= Seq::<(Seq<char>, Seq<char>)>::empty());
        }
        r
    }

    /// Appends one binding to the snapshot.
    pub fn push(&mut self, name: String, value: String)
        ensures
            final(self)@ == old(self)@ + seq![(name@, value@)],
    {
        let ghost before = self@;
        self.vars.push((name, value));
        proof {
            assert(self@ =~= before + seq![(name@, value@)]);
        }
    }

    /// The value bound to `name`, or `None` when the snapshot has no
    /// binding for it.
    pub fn lookup(&self, name: &str) -> (r: Option<&String>)
        ensures
            match r {
                Some(v) => env_lookup_spec(self@, name@) == Some(v@),
                None => env_lookup_spec(self@, name@) is None,
            },
    {
        let ghost pairs = self@;
        proof {
            assert(pairs.skip(0) =~= pairs);
        }
        let mut i: usize = 0;
        while i < self.vars.len()
            invariant
                0 <= i <= pairs.len(),
                pairs == self@,
                pairs.len() == self.vars@.len(),
                env_lookup_spec(pairs, name@) == env_lookup_spec(pairs.skip(i as int), name@),
            decreases pairs.len() - i,
        {
            proof {
                assert(pairs.skip(i as int)[0] == pairs[i as int]);
            }
            if str_eq(self.vars[i].0.as_str(), name) {
                return Some(&self.vars[i].1);
            }
            proof {
                assert(pairs.skip(i as int).drop_first() =~= pairs.skip(i as int + 1));
            }
            i = i + 1;
        }
        proof {
            assert(pairs.skip(i as int) =~= Seq::<(Seq<char>, Seq<char>)>::empty());
        }
        None
    }
}

} // verus!
