//! Event and action registries.
//!
//! Events map a name to an ordered list of handler identifiers: registration
//! order is kept, duplicate registrations are kept and all fire, and removal
//! drops every occurrence of the given identifier. Actions map a name to
//! exactly one handler identifier: the last registration wins.

use vstd::prelude::*;
use crate::text::str_eq;

verus! {

/// An ordered registry from event names to handler identifier lists.
pub struct EventRegistry {
    entries: Vec<(String, Vec<String>)>,
}

/// The handler list registered for a name, at specification level.
pub open spec fn spec_handlers_of(
    entries: Seq<(String, Vec<String>)>,
    name: Seq<char>,
) -> Seq<Seq<char>>
    decreases entries.len(),
{
    if entries.len() == 0 {
        Seq::empty()
    } else if entries[0].0@ == name {
        entries[0].1@.map_values(|h: String| h@)
    } else {
        spec_handlers_of(entries.subrange(1, entries.len() as int), name)
    }
}

/// Whether a name has an entry.
pub open spec fn spec_has_entry(entries: Seq<(String, Vec<String>)>, name: Seq<char>) -> bool
    decreases entries.len(),
{
    if entries.len() == 0 {
        false
    } else if entries[0].0@ == name {
        true
    } else {
        spec_has_entry(entries.subrange(1, entries.len() as int), name)
    }
}

impl View for EventRegistry {
    type V = Seq<(String, Vec<String>)>;

    closed spec fn view(&self) -> Seq<(String, Vec<String>)> {
        self.entries@
    }
}

impl EventRegistry {
    /// The handlers registered for `name`, in registration order.
    pub open spec fn spec_handlers(&self, name: Seq<char>) -> Seq<Seq<char>> {
        spec_handlers_of(self@, name)
    }

    /// An empty registry.
    pub fn new() -> (r: EventRegistry)
        ensures
            r@.len() == 0,
            forall|n: Seq<char>| r.spec_handlers(n) == Seq::<Seq<char>>::empty(),
    {
        let r = EventRegistry { entries: Vec::new() };
        proof {
            assert forall|n: Seq<char>|
                r.spec_handlers(n) == Seq::<Seq<char>>::empty() by {
                assert(r@.len() == 0);
            }
        }
        r
    }

    /// The index of the entry for `name`, if any.
    fn find_entry(&self, name: &str) -> (r: Option<usize>)
        ensures
            match r {
                Some(i) => i < self@.len() && self@[i as int].0@ == name@ && forall|j: int|
                    0 <= j < i ==> self@[j].0@ != name@,
                None => forall|j: int| 0 <= j < self@.len() ==> self@[j].0@ != name@,
            },
    {
        let n = self.entries.len();
        let mut i: usize = 0;
        while i < n
            invariant
                0 <= i <= n,
                n == self@.len(),
                forall|j: int| 0 <= j < i ==> self@[j].0@ != name@,
            decreases n - i,
        {
            if str_eq(self.entries[i].0.as_str(), name) {
                return Some(i);
            }
            i += 1;
        }
        None
    }

    /// The first entry for a name decides the handler list.
    proof fn lemma_handlers_at_index(
        entries: Seq<(String, Vec<String>)>,
        name: Seq<char>,
        i: int,
    )
        requires
            0 <= i < entries.len(),
            entries[i].0@ == name,
            forall|j: int| 0 <= j < i ==> entries[j].0@ != name,
        ensures
            spec_handlers_of(entries, name) == entries[i].1@.map_values(|h: String| h@),
            spec_has_entry(entries, name),
        decreases i,
    {
        if i > 0 {
            let rest = entries.subrange(1, entries.len() as int);
            Self::lemma_handlers_at_index(rest, name, i - 1);
        }
    }

    /// No entry for a name means no handlers.
    proof fn lemma_handlers_absent(entries: Seq<(String, Vec<String>)>, name: Seq<char>)
        requires
            forall|j: int| 0 <= j < entries.len() ==> entries[j].0@ != name,
        ensures
            spec_handlers_of(entries, name) == Seq::<Seq<char>>::empty(),
            !spec_has_entry(entries, name),
        decreases entries.len(),
    {
        if entries.len() > 0 {
            let rest = entries.subrange(1, entries.len() as int);
            Self::lemma_handlers_absent(rest, name);
        }
    }

    /// An entry changed at one index changes only that name's handlers.
    proof fn lemma_handlers_update(
        before: Seq<(String, Vec<String>)>,
        after: Seq<(String, Vec<String>)>,
        i: int,
    )
        requires
            0 <= i < before.len(),
            after.len() == before.len(),
            forall|j: int| 0 <= j < before.len() && j != i ==> after[j] == before[j],
            after[i].0@ == before[i].0@,
        ensures
            forall|n: Seq<char>|
                n != before[i].0@ ==> spec_handlers_of(after, n) == spec_handlers_of(before, n),
        decreases before.len(),
    {
        let restb = before.subrange(1, before.len() as int);
        let resta = after.subrange(1, after.len() as int);
        if i == 0 {
            assert(resta =~= restb);
        } else {
            assert(after[0] == before[0]);
            Self::lemma_handlers_update(restb, resta, i - 1);
            assert forall|n: Seq<char>|
                n != before[i].0@ implies spec_handlers_of(after, n) == spec_handlers_of(
                before,
                n,
            ) by {
                if before[0].0@ == n {
                } else {
                    assert(spec_handlers_of(restb, n) == spec_handlers_of(resta, n));
                }
            }
        }
    }

    /// Registers `handler` for `event`: it is appended to the event's handler
    /// list, also when already present — duplicates are kept and all fire.
    /// Other events are untouched.
    pub fn on(&mut self, event: &str, handler: &str)
        ensures
            final(self).spec_handlers(event@) == old(self).spec_handlers(event@).push(handler@),
            forall|n: Seq<char>|
                n != event@ ==> final(self).spec_handlers(n) == old(self).spec_handlers(n),
    {
        let ghost before = self@;
        match self.find_entry(event) {
            Some(i) => {
                proof {
                    Self::lemma_handlers_at_index(before, event@, i as int);
                }
                let entry = &mut self.entries[i];
                entry.1.push(handler.to_owned());
                proof {
                    assert(self@[i as int].1@.map_values(|h: String| h@) =~= before[i as int].1@
                        .map_values(|h: String| h@).push(handler@));
                    Self::lemma_handlers_at_index(self@, event@, i as int);
                    Self::lemma_handlers_update(before, self@, i as int);
                }
            },
            None => {
                proof {
                    Self::lemma_handlers_absent(before, event@);
                }
                let mut handlers: Vec<String> = Vec::new();
                handlers.push(handler.to_owned());
                self.entries.insert(0, (event.to_owned(), handlers));
                proof {
                    assert(self@.subrange(1, self@.len() as int) =~= before);
                    assert(self@[0].1@.map_values(|h: String| h@) =~= Seq::<
                        Seq<char>,
                    >::empty().push(handler@));
                }
            },
        }
    }

    /// Unregisters `handler` from `event`: every occurrence of the identifier
    /// is removed from that event's list. Other events are untouched.
    pub fn off(&mut self, event: &str, handler: &str)
        ensures
            final(self).spec_handlers(event@) == old(self).spec_handlers(event@).filter(
                |h: Seq<char>| h != handler@,
            ),
            forall|n: Seq<char>|
                n != event@ ==> final(self).spec_handlers(n) == old(self).spec_handlers(n),
    {
        let ghost before = self@;
        match self.find_entry(event) {
            Some(i) => {
                proof {
                    Self::lemma_handlers_at_index(before, event@, i as int);
                }
                let entry = &mut self.entries[i];
                let ghost src = entry.1@.map_values(|h: String| h@);
                let m = entry.1.len();
                let mut new_list: Vec<String> = Vec::new();
                let mut k: usize = 0;
                proof {
                    assert(src.subrange(0, 0) =~= Seq::<Seq<char>>::empty());
                    assert(Seq::<Seq<char>>::empty().filter(|h: Seq<char>| h != handler@)
                        =~= Seq::<Seq<char>>::empty());
                    assert(new_list@.map_values(|h: String| h@) =~= Seq::<Seq<char>>::empty());
                }
                while k < m
                    invariant
                        0 <= k <= m,
                        m == entry.1@.len(),
                        src == entry.1@.map_values(|h: String| h@),
                        new_list@.map_values(|h: String| h@) == src.subrange(0, k as int).filter(
                            |h: Seq<char>| h != handler@,
                        ),
                    decreases m - k,
                {
                    let ghost kept = new_list@.map_values(|h: String| h@);
                    proof {
                        assert(src.subrange(0, k as int + 1).drop_last() =~= src.subrange(
                            0,
                            k as int,
                        ));
                        assert(src.subrange(0, k as int + 1).last() == src[k as int]);
                        reveal(Seq::filter);
                    }
                    if !str_eq(entry.1[k].as_str(), handler) {
                        new_list.push(entry.1[k].clone());
                        proof {
                            assert(new_list@.map_values(|h: String| h@) =~= kept.push(
                                src[k as int],
                            ));
                        }
                    }
                    k += 1;
                }
                entry.1 = new_list;
                proof {
                    assert(src.subrange(0, m as int) =~= src);
                    Self::lemma_handlers_at_index(self@, event@, i as int);
                    Self::lemma_handlers_update(before, self@, i as int);
                }
            },
            None => {
                proof {
                    Self::lemma_handlers_absent(before, event@);
                    assert(Seq::<Seq<char>>::empty().filter(|h: Seq<char>| h != handler@)
                        =~= Seq::<Seq<char>>::empty());
                }
            },
        }
    }

    /// The handlers registered for `event`, in registration order.
    pub fn handlers_for(&self, event: &str) -> (r: Vec<String>)
        ensures
            r@.map_values(|h: String| h@) == self.spec_handlers(event@),
    {
        match self.find_entry(event) {
            Some(i) => {
                proof {
                    Self::lemma_handlers_at_index(self@, event@, i as int);
                }
                self.entries[i].1.clone()
            },
            None => {
                proof {
                    Self::lemma_handlers_absent(self@, event@);
                    assert(Seq::<String>::empty().map_values(|h: String| h@) =~= Seq::<
                        Seq<char>,
                    >::empty());
                }
                Vec::new()
            },
        }
    }

    /// Whether any handler is registered for `event`.
    pub fn has_handlers(&self, event: &str) -> (r: bool)
        ensures
            r == (self.spec_handlers(event@).len() > 0),
    {
        let hs = self.handlers_for(event);
        hs.len() > 0
    }
}

/// A registry from action names to exactly one handler identifier each.
pub struct ActionRegistry {
    entries: Vec<(String, String)>,
}

/// The handler registered for an action name, at specification level.
pub open spec fn spec_action_of(entries: Seq<(String, String)>, name: Seq<char>) -> Option<
    Seq<char>,
>
    decreases entries.len(),
{
    if entries.len() == 0 {
        None
    } else if entries[0].0@ == name {
        Some(entries[0].1@)
    } else {
        spec_action_of(entries.subrange(1, entries.len() as int), name)
    }
}

impl View for ActionRegistry {
    type V = Seq<(String, String)>;

    closed spec fn view(&self) -> Seq<(String, String)> {
        self.entries@
    }
}

impl ActionRegistry {
    /// The handler registered for an action name.
    pub open spec fn spec_action(&self, name: Seq<char>) -> Option<Seq<char>> {
        spec_action_of(self@, name)
    }

    /// An empty registry.
    pub fn new() -> (r: ActionRegistry)
        ensures
            r@.len() == 0,
            forall|n: Seq<char>| r.spec_action(n) is None,
    {
        ActionRegistry { entries: Vec::new() }
    }

    /// Registers `handler` for the action `name`; an earlier registration of
    /// the same name is overwritten — the last writer wins. Other actions are
    /// untouched.
    pub fn register(&mut self, name: &str, handler: &str)
        ensures
            final(self).spec_action(name@) == Some(handler@),
            forall|n: Seq<char>|
                n != name@ ==> final(self).spec_action(n) == old(self).spec_action(n),
    {
        let ghost before = self@;
        self.entries.insert(0, (name.to_owned(), handler.to_owned()));
        proof {
            assert(self@.subrange(1, self@.len() as int) =~= before);
        }
    }

    /// The handler registered for the action `name`, if any.
    pub fn lookup(&self, name: &str) -> (r: Option<String>)
        ensures
            match r {
                Some(h) => self.spec_action(name@) == Some(h@),
                None => self.spec_action(name@) is None,
            },
    {
        let n = self.entries.len();
        let mut i: usize = 0;
        proof {
            assert(self@.subrange(0, n as int) =~= self@);
        }
        while i < n
            invariant
                0 <= i <= n,
                n == self@.len(),
                spec_action_of(self@, name@) == spec_action_of(
                    self@.subrange(i as int, n as int),
                    name@,
                ),
            decreases n - i,
        {
            let ghost rem = self@.subrange(i as int, n as int);
            proof {
                assert(rem[0] == self@[i as int]);
                assert(rem.subrange(1, rem.len() as int) =~= self@.subrange(
                    i as int + 1,
                    n as int,
                ));
            }
            if str_eq(self.entries[i].0.as_str(), name) {
                return Some(self.entries[i].1.clone());
            }
            i += 1;
        }
        proof {
            assert(self@.subrange(n as int, n as int) =~= Seq::<(String, String)>::empty());
        }
        None
    }
}

} // verus!
