//! The registry of online identities: which identity is reached through which
//! outbound handle.
use crate::identity::ArcString;
use crate::text::text_eq;
use vstd::prelude::*;

verus! {

/// The identities of a registry's entries, in order.
pub open spec fn ids_of<C>(v: Seq<(Seq<char>, C)>) -> Seq<Seq<char>> {
    v.map_values(|e: (Seq<char>, C)| e.0)
}

/// No identity has two entries.
pub open spec fn keys_unique<C>(v: Seq<(Seq<char>, C)>) -> bool {
    forall|i: int, j: int| 0 <= i < j < v.len() ==> v[i].0 != v[j].0
}

/// Where the entry for `k` stands, if there is one.
pub open spec fn position_of<C>(v: Seq<(Seq<char>, C)>, k: Seq<char>) -> Option<int> {
    if exists|i: int| 0 <= i < v.len() && v[i].0 == k {
        Some(choose|i: int| 0 <= i < v.len() && v[i].0 == k)
    } else {
        None
    }
}

/// The handle registered for `k`, if any.
pub open spec fn handle_of<C>(v: Seq<(Seq<char>, C)>, k: Seq<char>) -> Option<C> {
    match position_of(v, k) {
        Some(i) => Some(v[i].1),
        None => None,
    }
}

/// The entries after an upsert of `k` with handle `c`: an entry for `k` is
/// replaced in place, otherwise a new one goes at the end.
pub open spec fn inserted<C>(v: Seq<(Seq<char>, C)>, k: Seq<char>, c: C) -> Seq<(Seq<char>, C)> {
    match position_of(v, k) {
        Some(i) => v.update(i, (k, c)),
        None => v.push((k, c)),
    }
}

/// The entries after removing any entry for `k`.
pub open spec fn removed<C>(v: Seq<(Seq<char>, C)>, k: Seq<char>) -> Seq<(Seq<char>, C)> {
    match position_of(v, k) {
        Some(i) => v.remove(i),
        None => v,
    }
}

/// In a registry without duplicate identities, the entry for `k` is the one at `i`.
pub proof fn lemma_position_unique<C>(v: Seq<(Seq<char>, C)>, k: Seq<char>, i: int)
    requires
        keys_unique(v),
        0 <= i < v.len(),
        v[i].0 == k,
    ensures
        position_of(v, k) == Some(i),
{
    let j = choose|j: int| 0 <= j < v.len() && v[j].0 == k;
    assert(0 <= j < v.len() && v[j].0 == k);
    if j < i {
        assert(v[j].0 != v[i].0);
    } else if i < j {
        assert(v[i].0 != v[j].0);
    }
}

/// An upsert keeps identities unique.
pub proof fn lemma_inserted_unique<C>(v: Seq<(Seq<char>, C)>, k: Seq<char>, c: C)
    requires
        keys_unique(v),
    ensures
        keys_unique(inserted(v, k, c)),
{
    match position_of(v, k) {
        Some(i) => {
            let j = choose|j: int| 0 <= j < v.len() && v[j].0 == k;
            assert(0 <= j < v.len() && v[j].0 == k);
        },
        None => {},
    }
}

/// A removal keeps identities unique.
pub proof fn lemma_removed_unique<C>(v: Seq<(Seq<char>, C)>, k: Seq<char>)
    requires
        keys_unique(v),
    ensures
        keys_unique(removed(v, k)),
{
    match position_of(v, k) {
        Some(i) => {
            let j = choose|j: int| 0 <= j < v.len() && v[j].0 == k;
            assert(0 <= j < v.len() && v[j].0 == k);
            let w = v.remove(i);
            assert forall|a: int, b: int| 0 <= a < b < w.len() implies w[a].0 != w[b].0 by {
                let a2 = if a < i { a } else { a + 1 };
                let b2 = if b < i { b } else { b + 1 };
                assert(w[a] == v[a2] && w[b] == v[b2]);
            }
        },
        None => {},
    }
}

/// The online identities, each with the handle that reaches its connection.
/// An identity has at most one entry; a later registration replaces the handle.
pub struct Registry<C> {
    entries: Vec<(ArcString, C)>,
}

impl<C> View for Registry<C> {
    type V = Seq<(Seq<char>, C)>;

    closed spec fn view(&self) -> Seq<(Seq<char>, C)> {
        self.entries@.map_values(|e: (ArcString, C)| (e.0@, e.1))
    }
}

impl<C> Registry<C> {
    /// The registry's invariant: no identity has two entries.
    pub open spec fn wf(&self) -> bool {
        keys_unique(self@)
    }

    /// The registered identities, in order.
    pub open spec fn ids(&self) -> Seq<Seq<char>> {
        ids_of(self@)
    }

    /// An empty registry.
    pub fn new() -> (r: Registry<C>)
        ensures
            r.wf(),
            r@ == Seq::<(Seq<char>, C)>::empty(),
    {
        let r = Registry { entries: Vec::new() };
        assert(r@ =~= Seq::<(Seq<char>, C)>::empty());
        r
    }

    /// The number of online identities.
    pub fn len(&self) -> (r: usize)
        ensures
            r == self@.len(),
    {
        self.entries.len()
    }

    fn find(&self, id: &str) -> (r: Option<usize>)
        requires
            self.wf(),
        ensures
            match r {
                Some(i) => position_of(self@, id@) == Some(i as int) && i < self@.len(),
                None => position_of(self@, id@) is None,
            },
    {
        let mut i: usize = 0;
        while i < self.entries.len()
            invariant
                i <= self.entries.len(),
                self.wf(),
                forall|j: int| 0 <= j < i ==> self@[j].0 != id@,
            decreases self.entries.len() - i,
        {
            let found = text_eq(self.entries[i].0.as_str(), id);
            assert(self@[i as int] == (self.entries@[i as int].0@, self.entries@[i as int].1));
            if found {
                proof {
                    lemma_position_unique(self@, id@, i as int);
                }
                return Some(i);
            }
            i = i + 1;
        }
        None
    }

    /// Registers `handle` for `id`, replacing any handle it had.
    pub fn insert(&mut self, id: ArcString, handle: C)
        requires
            old(self).wf(),
        ensures
            final(self).wf(),
            final(self)@ == inserted(old(self)@, id@, handle),
    {
        let ghost k = id@;
        proof {
            lemma_inserted_unique(self@, id@, handle);
        }
        match self.find(id.as_str()) {
            Some(i) => {
                self.entries.remove(i);
                self.entries.insert(i, (id, handle));
                assert(self@ =~= old(self)@.update(i as int, (k, handle)));
            },
            None => {
                self.entries.push((id, handle));
                assert(self@ =~= old(self)@.push((k, handle)));
            },
        }
    }

    /// The handle registered for `id`, if it is online.
    pub fn lookup(&self, id: &str) -> (r: Option<&C>)
        requires
            self.wf(),
        ensures
            match r {
                Some(c) => handle_of(self@, id@) == Some(*c),
                None => handle_of(self@, id@) is None,
            },
    {
        match self.find(id) {
            Some(i) => {
                assert(self@[i as int].1 == self.entries@[i as int].1);
                Some(&self.entries[i].1)
            },
            None => None,
        }
    }

    /// Takes `id` offline; nothing changes if it was not online.
    pub fn remove(&mut self, id: &str)
        requires
            old(self).wf(),
        ensures
            final(self).wf(),
            final(self)@ == removed(old(self)@, id@),
    {
        proof {
            lemma_removed_unique(self@, id@);
        }
        match self.find(id) {
            Some(i) => {
                self.entries.remove(i);
                assert(self@ =~= old(self)@.remove(i as int));
            },
            None => {},
        }
    }

    /// A snapshot of the online identities, in registry order.
    pub fn snapshot_identities(&self) -> (r: Vec<ArcString>)
        ensures
            r@.len() == self@.len(),
            forall|i: int| 0 <= i < r@.len() ==> #[trigger] r@[i]@ == self@[i].0,
    {
        let mut r: Vec<ArcString> = Vec::new();
        let mut i: usize = 0;
        while i < self.entries.len()
            invariant
                i <= self.entries.len(),
                r@.len() == i,
                forall|j: int| 0 <= j < i ==> #[trigger] r@[j]@ == self@[j].0,
            decreases self.entries.len() - i,
        {
            assert(self@[i as int].0 == self.entries@[i as int].0@);
            r.push(self.entries[i].0.share());
            i = i + 1;
        }
        r
    }

    /// Takes every identity offline.
    pub fn clear(&mut self)
        ensures
            final(self).wf(),
            final(self)@ == Seq::<(Seq<char>, C)>::empty(),
    {
        self.entries.clear();
        assert(self@ =~= Seq::<(Seq<char>, C)>::empty());
    }
}

/// After registering `c` under `k`, looking `k` up gives `c`; after removing
/// `k`, looking it up gives nothing.
pub proof fn law_insert_then_lookup<C>(v: Seq<(Seq<char>, C)>, k: Seq<char>, c: C)
    requires
        keys_unique(v),
    ensures
        handle_of(inserted(v, k, c), k) == Some(c),
        handle_of(removed(inserted(v, k, c), k), k) is None,
        handle_of(removed(v, k), k) is None,
{
    lemma_inserted_unique(v, k, c);
    let w = inserted(v, k, c);
    match position_of(v, k) {
        Some(i) => {
            let j = choose|j: int| 0 <= j < v.len() && v[j].0 == k;
            assert(0 <= j < v.len() && v[j].0 == k);
            lemma_position_unique(w, k, i);
        },
        None => {
            lemma_position_unique(w, k, v.len() as int);
        },
    }
    lemma_removed_gone(w, k);
    lemma_removed_gone(v, k);
}

proof fn lemma_removed_gone<C>(v: Seq<(Seq<char>, C)>, k: Seq<char>)
    requires
        keys_unique(v),
    ensures
        position_of(removed(v, k), k) is None,
{
    match position_of(v, k) {
        Some(i) => {
            let j = choose|j: int| 0 <= j < v.len() && v[j].0 == k;
            assert(0 <= j < v.len() && v[j].0 == k);
            lemma_position_unique(v, k, j);
            let w = v.remove(i);
            assert forall|a: int| 0 <= a < w.len() implies w[a].0 != k by {
                let a2 = if a < i { a } else { a + 1 };
                assert(w[a] == v[a2]);
                if a2 < i {
                    assert(v[a2].0 != v[i].0);
                } else {
                    assert(v[i].0 != v[a2].0);
                }
            }
        },
        None => {},
    }
}

/// Registering the same identity twice leaves exactly one entry for it (it is
/// there, and identities stay unique), bound to the handle registered last.
pub proof fn law_register_twice<C>(v: Seq<(Seq<char>, C)>, k: Seq<char>, c1: C, c2: C)
    requires
        keys_unique(v),
    ensures
        keys_unique(inserted(inserted(v, k, c1), k, c2)),
        handle_of(inserted(inserted(v, k, c1), k, c2), k) == Some(c2),
        exists|i: int|
            0 <= i < inserted(inserted(v, k, c1), k, c2).len() && (#[trigger] inserted(
                inserted(v, k, c1),
                k,
                c2,
            )[i]).0 == k,
{
    law_insert_then_lookup(v, k, c1);
    lemma_inserted_unique(v, k, c1);
    let w = inserted(v, k, c1);
    law_insert_then_lookup(w, k, c2);
    lemma_inserted_unique(w, k, c2);
    let u = inserted(w, k, c2);
    let i = choose|i: int| 0 <= i < u.len() && u[i].0 == k;
    assert(0 <= i < u.len() && u[i].0 == k);
}

} // verus!
