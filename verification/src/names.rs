//! What a caller names as unwanted: finite sets of names (process names,
//! window titles, object names) and lists of exports per module.

use vstd::prelude::*;

verus! {

/// A finite set of names. The names are kept in the order in which they
/// were first inserted, and no name is kept twice.
pub struct NameSet {
    items: Vec<String>,
}

impl View for NameSet {
    type V = Set<Seq<char>>;

    /// The set of names.
    open spec fn view(&self) -> Set<Seq<char>> {
        self.order().to_set()
    }
}

impl NameSet {
    /// The names in insertion order.
    pub closed spec fn order(&self) -> Seq<Seq<char>> {
        self.items.deep_view()
    }

    /// No name occurs twice.
    #[verifier::type_invariant]
    pub closed spec fn wf(&self) -> bool {
        self.order().no_duplicates()
    }

    /// A set has as many names as its order is long.
    pub proof fn lemma_len(&self)
        requires
            self.wf(),
        ensures
            self@.len() == self.order().len(),
            self@.finite(),
    {
        self.order().unique_seq_to_set();
    }

    /// The empty set.
    pub fn new() -> (s: NameSet)
        ensures
            s.wf(),
            s.order() == Seq::<Seq<char>>::empty(),
            s@ == Set::<Seq<char>>::empty(),
    {
        let s = NameSet { items: Vec::new() };
        assert(s.order() =~= Seq::<Seq<char>>::empty());
        assert(s@ =~= Set::<Seq<char>>::empty());
        s
    }

    /// The number of names in the set.
    pub fn len(&self) -> (n: usize)
        ensures
            self.wf(),
            n == self.order().len(),
            n == self@.len(),
    {
        proof {
            use_type_invariant(self);
            self.order().unique_seq_to_set();
        }
        self.items.len()
    }

    /// Whether the set holds no name.
    pub fn is_empty(&self) -> (empty: bool)
        ensures
            empty == (self.order().len() == 0),
            empty == (self@ == Set::<Seq<char>>::empty()),
    {
        proof {
            if self.order().len() == 0 {
                assert(self@ =~= Set::<Seq<char>>::empty());
            } else {
                assert(self@.contains(self.order()[0]));
            }
        }
        self.items.len() == 0
    }

    /// The names in insertion order.
    pub fn names(&self) -> (all: &Vec<String>)
        ensures
            self.wf(),
            all.deep_view() == self.order(),
    {
        proof {
            use_type_invariant(self);
        }
        &self.items
    }

    /// Whether `name` is in the set.
    pub fn contains(&self, name: &String) -> (found: bool)
        ensures
            found == self@.contains(name@),
    {
        let mut i: usize = 0;
        while i < self.items.len()
            invariant
                i <= self.items.len(),
                forall|j: int| 0 <= j < i ==> self.order()[j] != name@,
            decreases self.items.len() - i,
        {
            if self.items[i] == *name {
                assert(self.order()[i as int] == name@);
                return true;
            }
            i += 1;
        }
        false
    }

    /// Adds `name` to the set. Returns whether the name was new; a name
    /// that the set holds already keeps its place.
    pub fn insert(&mut self, name: String) -> (fresh: bool)
        ensures
            final(self).wf(),
            fresh == !old(self)@.contains(name@),
            final(self)@ == old(self)@.insert(name@),
            final(self).order() == if fresh {
                old(self).order().push(name@)
            } else {
                old(self).order()
            },
    {
        proof {
            use_type_invariant(&*self);
        }
        if self.contains(&name) {
            assert(self@ =~= self@.insert(name@));
            false
        } else {
            let ghost before = self.order();
            let mut items: Vec<String> = Vec::new();
            proof {
                assert(items.deep_view() =~= Seq::<Seq<char>>::empty());
            }
            core::mem::swap(&mut self.items, &mut items);
            items.push(name);
            proof {
                assert(items.deep_view() =~= before.push(name@));
            }
            core::mem::swap(&mut self.items, &mut items);
            proof {
                assert(self.order() =~= before.push(name@));
                assert(self@ =~= before.to_set().insert(name@)) by {
                    assert forall|x: Seq<char>| self@.contains(x) <==> before.to_set().insert(
                        name@,
                    ).contains(x) by {
                        if self@.contains(x) {
                            let j = choose|j: int| 0 <= j < self.order().len() && self.order()[j] == x;
                            if j < before.len() {
                                assert(before[j] == x);
                            }
                        }
                        if before.to_set().contains(x) {
                            let j = choose|j: int| 0 <= j < before.len() && before[j] == x;
                            assert(self.order()[j] == x);
                        }
                        if x == name@ {
                            assert(self.order()[before.len() as int] == x);
                        }
                    }
                }
            }
            true
        }
    }

    /// Whether the two sets have no name in common.
    pub fn is_disjoint(&self, other: &NameSet) -> (apart: bool)
        ensures
            apart == self@.disjoint(other@),
    {
        let mut i: usize = 0;
        while i < self.items.len()
            invariant
                i <= self.items.len(),
                forall|j: int| 0 <= j < i ==> !other@.contains(self.order()[j]),
            decreases self.items.len() - i,
        {
            if other.contains(&self.items[i]) {
                assert(self@.contains(self.order()[i as int]));
                return false;
            }
            i += 1;
        }
        true
    }
}

/// A module and the exports of it that are to be examined, in order.
pub struct ModuleEntry {
    pub module: String,
    pub exports: Vec<String>,
}

impl DeepView for ModuleEntry {
    type V = (Seq<char>, Seq<Seq<char>>);

    open spec fn deep_view(&self) -> (Seq<char>, Seq<Seq<char>>) {
        (self.module@, self.exports.deep_view())
    }
}

/// Exports to examine, module by module. The modules are kept in the order
/// in which they were first inserted, and no module is kept twice.
pub struct ModuleExports {
    entries: Vec<ModuleEntry>,
}

impl View for ModuleExports {
    type V = Seq<(Seq<char>, Seq<Seq<char>>)>;

    /// The modules in insertion order, each with its exports.
    closed spec fn view(&self) -> Seq<(Seq<char>, Seq<Seq<char>>)> {
        self.entries.deep_view()
    }
}

/// The place of `module` among `entries`, if it has one.
pub open spec fn module_at(entries: Seq<(Seq<char>, Seq<Seq<char>>)>, module: Seq<char>, i: int) -> bool {
    0 <= i < entries.len() && entries[i].0 == module
}

/// No module occurs twice among `entries`.
pub open spec fn modules_distinct(entries: Seq<(Seq<char>, Seq<Seq<char>>)>) -> bool {
    forall|i: int, j: int|
        0 <= i < entries.len() && 0 <= j < entries.len() && i != j ==> entries[i].0
            != entries[j].0
}

impl ModuleExports {
    /// No module occurs twice.
    #[verifier::type_invariant]
    pub closed spec fn wf(&self) -> bool {
        modules_distinct(self@)
    }

    /// No module at all.
    pub fn new() -> (m: ModuleExports)
        ensures
            m.wf(),
            m@ == Seq::<(Seq<char>, Seq<Seq<char>>)>::empty(),
    {
        let m = ModuleExports { entries: Vec::new() };
        assert(m@ =~= Seq::<(Seq<char>, Seq<Seq<char>>)>::empty());
        m
    }

    /// The number of modules.
    pub fn len(&self) -> (n: usize)
        ensures
            n == self@.len(),
    {
        self.entries.len()
    }

    /// Whether there is no module.
    pub fn is_empty(&self) -> (empty: bool)
        ensures
            empty == (self@.len() == 0),
    {
        self.entries.len() == 0
    }

    /// The modules in insertion order.
    pub fn entries(&self) -> (all: &Vec<ModuleEntry>)
        ensures
            self.wf(),
            all.deep_view() == self@,
    {
        proof {
            use_type_invariant(self);
        }
        &self.entries
    }

    /// Sets the exports to examine of `module`. Returns whether the module
    /// was new; a module that is there already keeps its place and gets the
    /// new list of exports.
    pub fn insert(&mut self, module: String, exports: Vec<String>) -> (fresh: bool)
        ensures
            final(self).wf(),
            fresh == !exists|i: int| module_at(old(self)@, module@, i),
            fresh ==> final(self)@ == old(self)@.push((module@, exports.deep_view())),
            forall|i: int| #[trigger]
                module_at(old(self)@, module@, i) ==> final(self)@ == old(self)@.update(
                    i,
                    (module@, exports.deep_view()),
                ),
    {
        proof {
            use_type_invariant(&*self);
        }
        let ghost before = self@;
        let ghost pair = (module@, exports.deep_view());
        let mut at: usize = 0;
        while at < self.entries.len()
            invariant
                at <= self.entries.len(),
                before == self@,
                forall|j: int| 0 <= j < at ==> before[j].0 != module@,
            ensures
                at <= self.entries.len(),
                at < self.entries.len() ==> before[at as int].0 == module@,
                forall|j: int| 0 <= j < at ==> before[j].0 != module@,
            decreases self.entries.len() - at,
        {
            if self.entries[at].module == module {
                break ;
            }
            at += 1;
        }
        let fresh = at == self.entries.len();
        proof {
            if !fresh {
                assert(module_at(before, module@, at as int));
            }
        }
        let mut entries: Vec<ModuleEntry> = Vec::new();
        proof {
            assert(entries.deep_view() =~= Seq::<(Seq<char>, Seq<Seq<char>>)>::empty());
        }
        core::mem::swap(&mut self.entries, &mut entries);
        if fresh {
            entries.push(ModuleEntry { module, exports });
            proof {
                assert(entries.deep_view() =~= before.push(pair));
            }
        } else {
            entries.set(at, ModuleEntry { module, exports });
            proof {
                assert(entries.deep_view() =~= before.update(at as int, pair));
                assert forall|i: int| #[trigger] module_at(before, pair.0, i) implies i == at by {}
            }
        }
        core::mem::swap(&mut self.entries, &mut entries);
        fresh
    }
}

} // verus!
