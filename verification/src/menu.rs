//! Menu state context: named boolean states for menu item conditions.
//!
//! Both `when` conditions (enabled state) and checkbox states look values up
//! here. The editor computes the values each frame and hands the context to
//! the rendering layer, so native menus reflect the same state as the
//! in-editor menu bar.

use vstd::prelude::*;
use crate::text::str_eq;

verus! {

/// Named boolean states for menu item conditions. A name not present reads
/// as `false`.
pub struct MenuContext {
    states: Vec<(String, bool)>,
}

/// The value stored for a name, at specification level.
pub open spec fn spec_state_of(states: Seq<(String, bool)>, name: Seq<char>) -> Option<bool>
    decreases states.len(),
{
    if states.len() == 0 {
        None
    } else if states[0].0@ == name {
        Some(states[0].1)
    } else {
        spec_state_of(states.subrange(1, states.len() as int), name)
    }
}

impl View for MenuContext {
    type V = Seq<(String, bool)>;

    closed spec fn view(&self) -> Seq<(String, bool)> {
        self.states@
    }
}

impl MenuContext {
    /// The value a name reads as: its stored value, or `false` when unset.
    pub open spec fn spec_get(&self, name: Seq<char>) -> bool {
        match spec_state_of(self@, name) {
            Some(v) => v,
            None => false,
        }
    }

    /// A context with no states set: every name reads as `false`.
    pub fn new() -> (r: MenuContext)
        ensures
            r@.len() == 0,
            forall|n: Seq<char>| r.spec_get(n) == false,
    {
        MenuContext { states: Vec::new() }
    }

    /// Sets a named boolean state; a later set of the same name wins.
    pub fn set(&mut self, name: &str, value: bool)
        ensures
            final(self).spec_get(name@) == value,
            forall|n: Seq<char>| n != name@ ==> final(self).spec_get(n) == old(self).spec_get(n),
    {
        let ghost before = self@;
        self.states.insert(0, (name.to_owned(), value));
        proof {
            assert(self@.subrange(1, self@.len() as int) =~= before);
        }
    }

    /// Reads a named boolean state; an unset name reads as `false`.
    pub fn get(&self, name: &str) -> (r: bool)
        ensures
            r == self.spec_get(name@),
    {
        let n = self.states.len();
        let mut i: usize = 0;
        proof {
            assert(self@.subrange(0, n as int) =~= self@);
        }
        while i < n
            invariant
                0 <= i <= n,
                n == self@.len(),
                spec_state_of(self@, name@) == spec_state_of(
                    self@.subrange(i as int, n as int),
                    name@,
                ),
            decreases n - i,
        {
            let ghost rem = self@.subrange(i as int, n as int);
            proof {
                assert(rem[0] == self@[i as int]);
                assert(rem.subrange(1, rem.len() as int) =~= self@.subrange(
                    i as int + 1,
                    n as int,
                ));
            }
            if str_eq(self.states[i].0.as_str(), name) {
                return self.states[i].1;
            }
            i += 1;
        }
        proof {
            assert(self@.subrange(n as int, n as int) =~= Seq::<(String, bool)>::empty());
        }
        false
    }

    /// Builder-style setter.
    pub fn with(self, name: &str, value: bool) -> (r: MenuContext)
        ensures
            r.spec_get(name@) == value,
            forall|n: Seq<char>| n != name@ ==> r.spec_get(n) == self.spec_get(n),
    {
        let mut this = self;
        this.set(name, value);
        this
    }
}

} // verus!
