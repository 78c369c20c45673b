//! A deterministic snapshot of the ambient state the path resolver reads:
//! the environment variables and the home directory.  The front end fills
//! one from the process environment; tests build one by hand.

use vstd::prelude::*;

verus! {

/// Environment variables as (name, value) pairs plus the home directory,
/// all as plain byte strings.
pub struct Env {
    /// The variables; where a name repeats, the first pair wins.
    pub vars: Vec<(Vec<u8>, Vec<u8>)>,
    /// The home directory, if one is known.
    pub home: Option<Vec<u8>>,
}

/// The value bound to `name`: the first matching pair.
pub open spec fn spec_lookup(vars: Seq<(Vec<u8>, Vec<u8>)>, name: Seq<u8>) -> Option<Seq<u8>>
    decreases vars.len(),
{
    if vars.len() == 0 {
        None
    } else if vars[0].0@ == name {
        Some(vars[0].1@)
    } else {
        spec_lookup(vars.skip(1), name)
    }
}

/// Whether two byte strings hold the same bytes.
pub fn bytes_eq(a: &Vec<u8>, b: &Vec<u8>) -> (r: bool)
    ensures
        r == (a@ == b@),
{
    if a.len() != b.len() {
        return false;
    }
    let mut i: usize = 0;
    while i < a.len()
        invariant
            i <= a@.len() == b@.len(),
            forall|j: int| 0 <= j < i ==> a@[j] == b@[j],
        decreases a@.len() - i,
    {
        if a[i] != b[i] {
            return false;
        }
        i = i + 1;
    }
    proof {
        assert(a@ =~= b@);
    }
    true
}

/// The value bound to `name` among `vars`, if any.
pub fn lookup_var<'a>(vars: &'a Vec<(Vec<u8>, Vec<u8>)>, name: &Vec<u8>) -> (r: Option<
    &'a Vec<u8>,
>)
    ensures
        match r {
            Some(v) => spec_lookup(vars@, name@) == Some(v@),
            None => spec_lookup(vars@, name@) is None,
        },
{
    let mut i: usize = 0;
    proof {
        assert(vars@.skip(0) =~= vars@);
    }
    while i < vars.len()
        invariant
            i <= vars@.len(),
            spec_lookup(vars@, name@) == spec_lookup(vars@.skip(i as int), name@),
        decreases vars@.len() - i,
    {
        proof {
            assert(vars@.skip(i as int)[0] == vars@[i as int]);
            assert(vars@.skip(i as int).skip(1) =~= vars@.skip(i + 1));
        }
        if bytes_eq(&vars[i].0, name) {
            return Some(&vars[i].1);
        }
        i = i + 1;
    }
    proof {
        assert(vars@.skip(i as int) =~= Seq::<(Vec<u8>, Vec<u8>)>::empty());
    }
    None
}

} // verus!
