//! Shared registry of active display names.
//!
//! The registry is the single source of truth for name uniqueness and for the
//! user listing. Its mathematical value is the set of registered names; every
//! operation states exactly how it changes that set. Callers that share one
//! registry across connections guard it for exclusive writes and shared
//! reads; each operation here is one such guarded step.

use vstd::prelude::*;

verus! {

/// Some entry of `names` reads as `n`.
pub open spec fn seq_has(names: Seq<String>, n: Seq<char>) -> bool {
    exists|i: int| 0 <= i < names.len() && #[trigger] names[i]@ == n
}

/// No two entries of `names` read alike.
pub open spec fn names_unique(names: Seq<String>) -> bool {
    forall|i: int, j: int| 0 <= i < j < names.len() ==> #[trigger] names[i]@ != #[trigger] names[j]@
}

/// Appending an entry extends what the list holds by exactly that entry.
proof fn lemma_push_has(names: Seq<String>, x: String, m: Seq<char>)
    ensures
        seq_has(names.push(x), m) <==> (seq_has(names, m) || m == x@),
{
    if seq_has(names.push(x), m) {
        let w = choose|w: int| 0 <= w < names.push(x).len() && #[trigger] names.push(x)[w]@ == m;
        if w < names.len() {
            assert(names[w]@ == m);
        }
    }
    if seq_has(names, m) {
        let w = choose|w: int| 0 <= w < names.len() && #[trigger] names[w]@ == m;
        assert(names.push(x)[w]@ == m);
    }
    if m == x@ {
        assert(names.push(x)[names.len() as int]@ == m);
    }
}

/// Removing the one entry that reads as its name takes exactly that name out
/// of what a duplicate-free list holds.
proof fn lemma_remove_has(names: Seq<String>, i: int, m: Seq<char>)
    requires
        names_unique(names),
        0 <= i < names.len(),
    ensures
        seq_has(names.remove(i), m) <==> (seq_has(names, m) && m != names[i]@),
{
    if seq_has(names.remove(i), m) {
        let w = choose|w: int|
            0 <= w < names.remove(i).len() && #[trigger] names.remove(i)[w]@ == m;
        if w < i {
            assert(names[w]@ == m);
            assert(names[w]@ != names[i]@);
        } else {
            assert(names[w + 1]@ == m);
            assert(names[i]@ != names[w + 1]@);
        }
    }
    if seq_has(names, m) && m != names[i]@ {
        let w = choose|w: int| 0 <= w < names.len() && #[trigger] names[w]@ == m;
        if w < i {
            assert(names.remove(i)[w]@ == m);
        } else {
            assert(w != i);
            assert(names.remove(i)[w - 1]@ == m);
        }
    }
}

/// The set of display names currently registered.
pub struct UserRegistry {
    names: Vec<String>,
}

impl View for UserRegistry {
    type V = Set<Seq<char>>;

    closed spec fn view(&self) -> Set<Seq<char>> {
        Set::new(|n: Seq<char>| seq_has(self.names@, n))
    }
}

impl UserRegistry {
    /// No name is held twice.
    pub closed spec fn wf(self) -> bool {
        names_unique(self.names@)
    }

    /// An empty registry.
    pub fn new() -> (r: Self)
        ensures
            r@ == Set::<Seq<char>>::empty(),
            r.wf(),
    {
        let r = UserRegistry { names: Vec::new() };
        proof {
            assert(r@ =~= Set::<Seq<char>>::empty());
        }
        r
    }

    /// Whether `name` is registered.
    pub fn contains(&self, name: &String) -> (r: bool)
        ensures
            r == self@.contains(name@),
    {
        let n = self.names.len();
        let mut i: usize = 0;
        while i < n
            invariant
                n == self.names@.len(),
                i <= n,
                forall|k: int| 0 <= k < i ==> #[trigger] self.names@[k]@ != name@,
            decreases n - i,
        {
            if self.names[i] == *name {
                return true;
            }
            i += 1;
        }
        false
    }

    /// Registers `name` unless it is already taken; says whether it did.
    /// On success the registered set grows by exactly `name`; on a conflict
    /// nothing changes.
    pub fn join(&mut self, name: String) -> (r: bool)
        requires
            old(self).wf(),
        ensures
            final(self).wf(),
            r == !old(self)@.contains(name@),
            r ==> final(self)@ == old(self)@.insert(name@),
            !r ==> *final(self) == *old(self),
    {
        if self.contains(&name) {
            return false;
        }
        let ghost before = self.names@;
        self.names.push(name);
        proof {
            assert forall|m: Seq<char>| seq_has(self.names@, m) <==> old(self)@.insert(
                name@,
            ).contains(m) by {
                lemma_push_has(before, name, m);
            }
            assert(self@ =~= old(self)@.insert(name@));
            assert forall|i: int, j: int| 0 <= i < j < self.names@.len() implies #[trigger] self
                .names@[i]@ != #[trigger] self.names@[j]@ by {
                if j < before.len() {
                    assert(before[i]@ != before[j]@);
                } else {
                    assert(before[i]@ != name@);
                }
            }
        }
        true
    }

    /// Unregisters `name`; says whether it was present. The registered set
    /// shrinks by exactly `name`, whether or not it held it.
    pub fn leave(&mut self, name: &String) -> (r: bool)
        requires
            old(self).wf(),
        ensures
            final(self).wf(),
            r == old(self)@.contains(name@),
            final(self)@ == old(self)@.remove(name@),
    {
        let n = self.names.len();
        let mut i: usize = 0;
        while i < n
            invariant
                n == self.names@.len(),
                i <= n,
                *self == *old(self),
                old(self).wf(),
                forall|k: int| 0 <= k < i ==> #[trigger] self.names@[k]@ != name@,
            decreases n - i,
        {
            if self.names[i] == *name {
                let ghost before = self.names@;
                self.names.remove(i);
                proof {
                    assert forall|m: Seq<char>| seq_has(self.names@, m) <==> old(self)@.remove(
                        name@,
                    ).contains(m) by {
                        lemma_remove_has(before, i as int, m);
                    }
                    assert(self@ =~= old(self)@.remove(name@));
                    assert forall|a: int, b: int| 0 <= a < b < self.names@.len() implies #[trigger] self
                        .names@[a]@ != #[trigger] self.names@[b]@ by {
                        let a0 = if a < i { a } else { a + 1 };
                        let b0 = if b < i { b } else { b + 1 };
                        assert(before[a0]@ != before[b0]@);
                    }
                }
                return true;
            }
            i += 1;
        }
        proof {
            assert(!old(self)@.contains(name@));
            assert(self@ =~= old(self)@.remove(name@));
        }
        false
    }

    /// Renames `old_name` to `new_name` in one step: it succeeds exactly when
    /// `old_name` is registered and `new_name` is free, and then swaps the
    /// two atomically, so no state ever holds both or neither of a renamed
    /// pair. On failure nothing changes.
    pub fn rename(&mut self, old_name: &String, new_name: String) -> (r: bool)
        requires
            old(self).wf(),
        ensures
            final(self).wf(),
            r == (old(self)@.contains(old_name@) && !old(self)@.contains(new_name@)),
            r ==> final(self)@ == old(self)@.remove(old_name@).insert(new_name@),
            !r ==> *final(self) == *old(self),
    {
        if !self.contains(old_name) {
            return false;
        }
        if self.contains(&new_name) {
            return false;
        }
        let removed = self.leave(old_name);
        let added = self.join(new_name);
        true
    }

    /// A snapshot of the registered names: each registered name exactly once,
    /// in no promised order.
    pub fn list_users(&self) -> (r: Vec<String>)
        requires
            self.wf(),
        ensures
            forall|i: int| 0 <= i < r@.len() ==> self@.contains(#[trigger] r@[i]@),
            forall|n: Seq<char>|
                self@.contains(n) ==> exists|i: int| 0 <= i < r@.len() && #[trigger] r@[i]@ == n,
            forall|i: int, j: int| 0 <= i < j < r@.len() ==> #[trigger] r@[i]@ != #[trigger] r@[j]@,
            r@.len() == self@.len(),
    {
        let n = self.names.len();
        let mut r: Vec<String> = Vec::new();
        let mut i: usize = 0;
        while i < n
            invariant
                n == self.names@.len(),
                i <= n,
                r@.len() == i,
                forall|k: int| 0 <= k < i ==> #[trigger] r@[k]@ == self.names@[k]@,
            decreases n - i,
        {
            r.push(self.names[i].clone());
            i += 1;
        }
        proof {
            self.lemma_cardinality();
            assert forall|m: int| 0 <= m < r@.len() implies self@.contains(#[trigger] r@[m]@) by {
                assert(self.names@[m]@ == r@[m]@);
            }
            assert forall|nm: Seq<char>| self@.contains(nm) implies exists|i: int|
                0 <= i < r@.len() && #[trigger] r@[i]@ == nm by {
                let w = choose|w: int|
                    0 <= w < self.names@.len() && #[trigger] self.names@[w]@ == nm;
                assert(r@[w]@ == nm);
            }
        }
        r
    }

    /// How many names are registered: the cardinality of the registered set.
    pub fn len(&self) -> (n: usize)
        requires
            self.wf(),
        ensures
            n == self@.len(),
            self@.finite(),
    {
        proof {
            self.lemma_cardinality();
        }
        self.names.len()
    }

    /// The registered set is finite and as large as the backing list, which
    /// holds each name once.
    proof fn lemma_cardinality(&self)
        requires
            self.wf(),
        ensures
            self@.finite(),
            self@.len() == self.names@.len(),
    {
        broadcast use vstd::seq_lib::seq_to_set_is_finite;

        let mapped = self.names@.map_values(|s: String| s@);
        assert forall|m: Seq<char>| self@.contains(m) <==> mapped.to_set().contains(m) by {
            if seq_has(self.names@, m) {
                let w = choose|w: int|
                    0 <= w < self.names@.len() && #[trigger] self.names@[w]@ == m;
                assert(mapped[w] == m);
            }
            if mapped.contains(m) {
                let w = choose|w: int| 0 <= w < mapped.len() && #[trigger] mapped[w] == m;
                assert(self.names@[w]@ == m);
            }
        }
        assert(self@ =~= mapped.to_set());
        assert(mapped.no_duplicates()) by {
            assert forall|i: int, j: int|
                0 <= i < mapped.len() && 0 <= j < mapped.len() && i != j implies #[trigger] mapped[i]
                != #[trigger] mapped[j] by {
                if i < j {
                    assert(self.names@[i]@ != self.names@[j]@);
                } else {
                    assert(self.names@[j]@ != self.names@[i]@);
                }
            }
        }
        mapped.unique_seq_to_set();
    }
}

} // verus!
