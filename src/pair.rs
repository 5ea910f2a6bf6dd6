use vstd::prelude::*;
use vstd::string::*;

use crate::text::{after_last_slash, after_last_slash_of, chars_of, slice_of, string_of};

verus! {

/// The name of the pair whose bucket prefix is `prefix`: its last `/`-separated segment, a
/// single trailing `/` set aside.
pub open spec fn pair_name(prefix: Seq<char>) -> Seq<char> {
    let t = if prefix.len() > 0 && prefix.last() == '/' {
        prefix.drop_last()
    } else {
        prefix
    };
    after_last_slash(t)
}

/// `path` ending with a `/`: as it is when it does, else with one appended.
pub open spec fn terminated(path: Seq<char>) -> Seq<char> {
    if path.len() > 0 && path.last() == '/' {
        path
    } else {
        path.push('/')
    }
}

/// `path` ending with a `/`, as listings under it ask for.
pub fn terminated_path(path: &str) -> (r: String)
    ensures
        r@ == terminated(path@),
{
    let c = chars_of(path);
    if c.len() > 0 && c[c.len() - 1] == '/' {
        String::from_str(path)
    } else {
        let r = String::from_str(path).concat("/");
        proof {
            reveal_strlit("/");
        }
        assert(r@ =~= path@.push('/'));
        r
    }
}

/// A trading pair: the bucket prefix its archives are listed under, and its short name.
#[derive(Debug, Clone)]
pub struct Pair {
    pub prefix: String,
    pub name: String,
}

impl PartialEq for Pair {
    fn eq(&self, other: &Pair) -> (r: bool)
        ensures
            r == (self.prefix@ == other.prefix@ && self.name@ == other.name@),
    {
        self.prefix == other.prefix && self.name == other.name
    }
}

impl vstd::std_specs::cmp::PartialEqSpecImpl for Pair {
    open spec fn obeys_eq_spec() -> bool {
        true
    }

    open spec fn eq_spec(&self, other: &Pair) -> bool {
        self.prefix@ == other.prefix@ && self.name@ == other.name@
    }
}

impl Eq for Pair {
}

impl Pair {
    pub fn new(prefix: &str, name: &str) -> (r: Pair)
        ensures
            r.prefix@ == prefix@,
            r.name@ == name@,
    {
        Pair { prefix: String::from_str(prefix), name: String::from_str(name) }
    }

    /// The pair listed under `prefix`, named after its last segment.
    pub fn from_prefix(prefix: &str) -> (r: Pair)
        ensures
            r.prefix@ == prefix@,
            r.name@ == pair_name(prefix@),
    {
        let c = chars_of(prefix);
        let t = if c.len() > 0 && c[c.len() - 1] == '/' {
            slice_of(&c, 0, c.len() - 1)
        } else {
            c
        };
        proof {
            if prefix@.len() > 0 && prefix@.last() == '/' {
                assert(t@ =~= prefix@.drop_last());
            }
        }
        let name = string_of(&after_last_slash_of(&t));
        Pair { prefix: String::from_str(prefix), name }
    }
}

} // verus!
