//! The constant environment: the names bound by `const` declarations and the
//! literals they folded to.

use vstd::prelude::*;

verus! {

/// One binding of the environment.
pub struct ConstEntry {
    pub name: String,
    pub value: i32,
}

/// The map that a list of bindings stands for. A later binding of a name
/// replaces an earlier one.
pub open spec fn bindings_map(entries: Seq<ConstEntry>) -> Map<Seq<char>, i32>
    decreases entries.len(),
{
    if entries.len() == 0 {
        Map::empty()
    } else {
        bindings_map(entries.drop_last()).insert(entries.last().name@, entries.last().value)
    }
}

/// What a map holds under a key, if anything.
pub open spec fn lookup(m: Map<Seq<char>, i32>, name: Seq<char>) -> Option<i32> {
    if m.contains_key(name) {
        Some(m[name])
    } else {
        None
    }
}

/// A mapping from constant names to their folded values, kept as the list of
/// the bindings made, oldest first.
pub struct ConstEnv {
    entries: Vec<ConstEntry>,
}

impl View for ConstEnv {
    type V = Map<Seq<char>, i32>;

    closed spec fn view(&self) -> Map<Seq<char>, i32> {
        bindings_map(self.entries@)
    }
}

impl ConstEnv {
    /// The bindings made, oldest first.
    pub closed spec fn bindings(&self) -> Seq<ConstEntry> {
        self.entries@
    }

    /// Whether this environment was reached from `earlier` by new bindings
    /// alone.
    pub closed spec fn grew_from(&self, earlier: ConstEnv) -> bool {
        earlier.entries@.is_prefix_of(self.entries@)
    }

    /// An environment grew from itself.
    pub proof fn lemma_grew_reflexive(&self)
        ensures
            self.grew_from(*self),
    {
        assert(self.entries@.subrange(0, self.entries@.len() as int) =~= self.entries@);
    }

    /// Growth composes.
    pub proof fn lemma_grew_transitive(&self, middle: ConstEnv, earlier: ConstEnv)
        requires
            self.grew_from(middle),
            middle.grew_from(earlier),
        ensures
            self.grew_from(earlier),
    {
        assert(earlier.entries@ =~= self.entries@.subrange(0, earlier.entries@.len() as int));
    }

    /// An environment has at least as many bindings as one it grew from.
    pub proof fn lemma_grew_is_longer(&self, earlier: ConstEnv)
        requires
            self.grew_from(earlier),
        ensures
            earlier.bindings().len() <= self.bindings().len(),
    {
    }

    /// Cutting an environment back to the length of one it grew from gives
    /// that one again.
    pub proof fn lemma_truncated_is_earlier(&self, current: ConstEnv, earlier: ConstEnv)
        requires
            current.grew_from(earlier),
            self.bindings() == current.bindings().subrange(0, earlier.bindings().len() as int),
        ensures
            self.bindings() == earlier.bindings(),
            self@ == earlier@,
            self.grew_from(earlier),
    {
        assert(self.entries@ =~= earlier.entries@);
        assert(earlier.entries@.subrange(0, earlier.entries@.len() as int) =~= earlier.entries@);
    }

    /// An environment without bindings.
    pub fn new() -> (r: ConstEnv)
        ensures
            r.bindings() == Seq::<ConstEntry>::empty(),
            r@ == Map::<Seq<char>, i32>::empty(),
    {
        ConstEnv { entries: Vec::new() }
    }

    /// The number of bindings made.
    pub fn len(&self) -> (n: usize)
        ensures
            n == self.bindings().len(),
    {
        self.entries.len()
    }

    /// Binds `name` to `value`, replacing what the name was bound to.
    pub fn insert(&mut self, name: String, value: i32)
        ensures
            final(self).bindings() == old(self).bindings().push(ConstEntry { name, value }),
            final(self)@ == old(self)@.insert(name@, value),
            final(self).grew_from(*old(self)),
    {
        let ghost before = self.entries@;
        self.entries.push(ConstEntry { name, value });
        proof {
            assert(self.entries@.drop_last() =~= before);
            assert(before =~= self.entries@.subrange(0, before.len() as int));
        }
    }

    /// Undoes the bindings made after the first `n`.
    pub fn truncate(&mut self, n: usize)
        requires
            n <= old(self).bindings().len(),
        ensures
            final(self).bindings() == old(self).bindings().subrange(0, n as int),
    {
        self.entries.truncate(n);
    }

    /// The value bound to `name`, or `None` where the name is unbound.
    pub fn get(&self, name: &String) -> (r: Option<i32>)
        ensures
            r == lookup(self@, name@),
    {
        let mut i: usize = self.entries.len();
        proof {
            assert(self.entries@.subrange(0, i as int) =~= self.entries@);
        }
        while i > 0
            invariant
                i <= self.entries.len(),
                lookup(self@, name@) == lookup(
                    bindings_map(self.entries@.subrange(0, i as int)),
                    name@,
                ),
            decreases i,
        {
            proof {
                let prefix = self.entries@.subrange(0, i as int);
                assert(prefix.drop_last() =~= self.entries@.subrange(0, i - 1));
                assert(prefix.last() == self.entries@[i - 1]);
            }
            i = i - 1;
            if self.entries[i].name == *name {
                return Some(self.entries[i].value);
            }
        }
        proof {
            assert(self.entries@.subrange(0, 0).len() == 0);
        }
        None
    }

    /// Whether `name` is bound.
    pub fn contains(&self, name: &String) -> (r: bool)
        ensures
            r == self@.contains_key(name@),
    {
        self.get(name).is_some()
    }
}

} // verus!
