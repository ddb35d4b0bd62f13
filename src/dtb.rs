//! Property values that device-tree nodes pass down to their children.

use vstd::prelude::*;
use vstd::string::StringExecFns;

verus! {

/// The first value recorded under `name` in `s`.
pub open spec fn find_in(s: Seq<(Seq<char>, u64)>, name: Seq<char>) -> Option<u64>
    decreases s.len(),
{
    if s.len() == 0 {
        None
    } else if s[0].0 == name {
        Some(s[0].1)
    } else {
        find_in(s.drop_first(), name)
    }
}

/// Named values in the order they were recorded.
#[derive(Clone)]
pub struct InheritedValues(Vec<(String, u64)>);

impl View for InheritedValues {
    type V = Seq<(Seq<char>, u64)>;

    closed spec fn view(&self) -> Seq<(Seq<char>, u64)> {
        self.0@.map_values(|p: (String, u64)| (p.0@, p.1))
    }
}

impl InheritedValues {
    pub fn new() -> (r: InheritedValues)
        ensures
            r@ == Seq::<(Seq<char>, u64)>::empty(),
    {
        let r = InheritedValues(Vec::new());
        proof {
            assert(r@ =~= Seq::<(Seq<char>, u64)>::empty());
        }
        r
    }

    /// The first value recorded under `name`.
    pub fn find(&self, name: &str) -> (r: Option<u64>)
        ensures
            r == find_in(self@, name@),
    {
        let key = String::from_str(name);
        let n = self.0.len();
        let mut i: usize = 0;
        proof {
            assert(self@.subrange(0, n as int) =~= self@);
        }
        while i < n
            invariant
                i <= n,
                n == self.0@.len(),
                key@ == name@,
                find_in(self@, name@) == find_in(self@.subrange(i as int, n as int), name@),
            decreases n - i,
        {
            proof {
                assert(self@.subrange(i as int, n as int).drop_first() =~= self@.subrange(i + 1, n as int));
            }
            if self.0[i].0 == key {
                return Some(self.0[i].1);
            }
            i = i + 1;
        }
        None
    }

    /// Records `value` under `name` after every earlier entry.
    pub fn insert(&mut self, name: String, value: u64)
        ensures
            final(self)@ == old(self)@.push((name@, value)),
    {
        self.0.push((name, value));
        proof {
            assert(self@ =~= old(self)@.push((name@, value)));
        }
    }
}

} // verus!
