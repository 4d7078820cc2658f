//! The accumulating set of library paths.

use vstd::prelude::*;

verus! {

/// The paths of `items`, each as the sequence of its characters.
pub open spec fn path_views(items: Seq<String>) -> Seq<Seq<char>> {
    items.map_values(|s: String| s@)
}

/// `base` followed by `path`, unless `base` already holds `path`.
pub open spec fn with_path(base: Seq<Seq<char>>, path: Seq<char>) -> Seq<Seq<char>> {
    if base.contains(path) {
        base
    } else {
        base.push(path)
    }
}

/// `base` followed by those paths of `extra` that `base` lacks, each once, in
/// the order in which `extra` first names them.
pub open spec fn with_paths(base: Seq<Seq<char>>, extra: Seq<Seq<char>>) -> Seq<Seq<char>>
    decreases extra.len(),
{
    if extra.len() == 0 {
        base
    } else {
        with_path(with_paths(base, extra.drop_last()), extra.last())
    }
}

/// Adding a path keeps a list free of duplicates and adds exactly that path
/// to the set of its elements.
pub proof fn lemma_with_path(base: Seq<Seq<char>>, path: Seq<char>)
    requires
        base.no_duplicates(),
    ensures
        with_path(base, path).no_duplicates(),
        with_path(base, path).to_set() == base.to_set().insert(path),
{
    let next = with_path(base, path);
    if !base.contains(path) {
        assert forall|p: Seq<char>| next.to_set().contains(p) == base.to_set().insert(
            path,
        ).contains(p) by {
            if next.contains(p) {
                let i = choose|i: int| 0 <= i < next.len() && next[i] == p;
                if i < base.len() {
                    assert(base[i] == p);
                }
            }
            if base.contains(p) {
                let i = choose|i: int| 0 <= i < base.len() && base[i] == p;
                assert(next[i] == p);
            }
            if p == path {
                assert(next[base.len() as int] == p);
            }
        }
    }
    assert(next.to_set() =~= base.to_set().insert(path));
}

/// Adding a list of paths keeps a list free of duplicates and yields the
/// union of the two sets of elements.
pub proof fn lemma_with_paths(base: Seq<Seq<char>>, extra: Seq<Seq<char>>)
    requires
        base.no_duplicates(),
    ensures
        with_paths(base, extra).no_duplicates(),
        with_paths(base, extra).to_set() == base.to_set().union(extra.to_set()),
    decreases extra.len(),
{
    if extra.len() == 0 {
        assert(extra.to_set() =~= Set::empty());
        assert(base.to_set().union(extra.to_set()) =~= base.to_set());
    } else {
        let front = extra.drop_last();
        lemma_with_paths(base, front);
        lemma_with_path(with_paths(base, front), extra.last());
        assert forall|p: Seq<char>| extra.to_set().contains(p) == front.to_set().insert(
            extra.last(),
        ).contains(p) by {
            if extra.contains(p) {
                let i = choose|i: int| 0 <= i < extra.len() && extra[i] == p;
                if i < front.len() {
                    assert(front[i] == p);
                }
            }
            if front.contains(p) {
                let i = choose|i: int| 0 <= i < front.len() && front[i] == p;
                assert(extra[i] == p);
            }
            if p == extra.last() {
                assert(extra[extra.len() - 1] == p);
            }
        }
        assert(extra.to_set() =~= front.to_set().insert(extra.last()));
        assert(with_paths(base, extra).to_set() =~= base.to_set().union(extra.to_set()));
    }
}

/// Added to the empty list, a list without duplicates comes out unchanged.
pub proof fn lemma_with_paths_from_empty(extra: Seq<Seq<char>>)
    requires
        extra.no_duplicates(),
    ensures
        with_paths(Seq::<Seq<char>>::empty(), extra) == extra,
    decreases extra.len(),
{
    if extra.len() == 0 {
        assert(extra =~= Seq::<Seq<char>>::empty());
    } else {
        let front = extra.drop_last();
        lemma_with_paths_from_empty(front);
        if front.contains(extra.last()) {
            let i = choose|i: int| 0 <= i < front.len() && front[i] == extra.last();
            assert(extra[i] == extra[extra.len() - 1]);
        }
        assert(front.push(extra.last()) =~= extra);
    }
}

/// A set of library paths that only grows: a path once observed stays.
///
/// The paths are kept in the order in which they were first observed, and no
/// path is kept twice.
#[derive(Debug)]
pub struct LibraryInventory {
    paths: Vec<String>,
}

impl LibraryInventory {
    /// The paths in the order of their first observation.
    pub closed spec fn paths(&self) -> Seq<Seq<char>> {
        path_views(self.paths@)
    }

    /// The inventory as a set of paths.
    pub open spec fn view(&self) -> Set<Seq<char>> {
        self.paths().to_set()
    }

    /// The invariant of every inventory: no path is kept twice.
    #[verifier::type_invariant]
    pub open spec fn no_path_twice(&self) -> bool {
        self.paths().no_duplicates()
    }

    /// The empty inventory.
    pub fn new() -> (inventory: LibraryInventory)
        ensures
            inventory.paths() == Seq::<Seq<char>>::empty(),
            inventory@ == Set::<Seq<char>>::empty(),
            inventory.paths().no_duplicates(),
    {
        let inventory = LibraryInventory { paths: Vec::new() };
        assert(inventory.paths() =~= Seq::<Seq<char>>::empty());
        assert(inventory@ =~= Set::<Seq<char>>::empty());
        inventory
    }

    /// The number of distinct paths.
    pub fn len(&self) -> (n: usize)
        ensures
            n == self@.len(),
            n == self.paths().len(),
            self.paths().no_duplicates(),
    {
        proof {
            use_type_invariant(self);
            self.paths().unique_seq_to_set();
        }
        self.paths.len()
    }

    /// Whether no path has been observed.
    pub fn is_empty(&self) -> (b: bool)
        ensures
            b == (self@ == Set::<Seq<char>>::empty()),
            b == (self.paths().len() == 0),
    {
        proof {
            if self.paths().len() == 0 {
                assert(self@ =~= Set::<Seq<char>>::empty());
            } else {
                assert(self.paths()[0] == self.paths()[0]);
                assert(self@.contains(self.paths()[0]));
            }
        }
        self.paths.len() == 0
    }

    /// Whether `path` has been observed.
    pub fn contains(&self, path: &String) -> (found: bool)
        ensures
            found == self@.contains(path@),
            found == self.paths().contains(path@),
    {
        let mut i: usize = 0;
        while i < self.paths.len()
            invariant
                i <= self.paths.len(),
                forall|j: int| 0 <= j < i ==> self.paths()[j] != path@,
            decreases self.paths.len() - i,
        {
            if self.paths[i] == *path {
                assert(self.paths()[i as int] == path@);
                return true;
            }
            i += 1;
        }
        false
    }

    /// The path at position `i` in the order of first observation.
    pub fn get(&self, i: usize) -> (path: &String)
        requires
            i < self.paths().len(),
        ensures
            path@ == self.paths()[i as int],
    {
        &self.paths[i]
    }

    /// Adds `path`; returns whether it was new.
    pub fn insert(&mut self, path: String) -> (added: bool)
        ensures
            added == !old(self)@.contains(path@),
            final(self)@ == old(self)@.insert(path@),
            final(self).paths() == with_path(old(self).paths(), path@),
            final(self).paths().no_duplicates(),
    {
        proof {
            use_type_invariant(&*self);
            lemma_with_path(self.paths(), path@);
        }
        if self.contains(&path) {
            false
        } else {
            let mut paths: Vec<String> = Vec::new();
            core::mem::swap(&mut self.paths, &mut paths);
            paths.push(path);
            assert(path_views(paths@) =~= old(self).paths().push(path@));
            core::mem::swap(&mut self.paths, &mut paths);
            true
        }
    }

    /// Adds every path of `other`: afterwards the inventory is the union of
    /// the two.
    pub fn merge(&mut self, other: &LibraryInventory)
        ensures
            final(self)@ == old(self)@.union(other@),
            final(self).paths() == with_paths(old(self).paths(), other.paths()),
            final(self).paths().no_duplicates(),
    {
        proof {
            use_type_invariant(&*self);
            lemma_with_paths(self.paths(), other.paths());
        }
        let mut i: usize = 0;
        while i < other.paths.len()
            invariant
                i <= other.paths.len(),
                self.paths() == with_paths(old(self).paths(), other.paths().take(i as int)),
            decreases other.paths.len() - i,
        {
            let path = other.paths[i].clone();
            assert(other.paths().take(i + 1).drop_last() =~= other.paths().take(i as int));
            self.insert(path);
            i += 1;
        }
        assert(other.paths().take(i as int) =~= other.paths());
    }

    /// The paths as a vector, in the order of their first observation.
    pub fn to_vec(&self) -> (paths: Vec<String>)
        ensures
            path_views(paths@) == self.paths(),
            path_views(paths@).no_duplicates(),
    {
        proof {
            use_type_invariant(self);
        }
        let mut paths: Vec<String> = Vec::new();
        let mut i: usize = 0;
        while i < self.paths.len()
            invariant
                i <= self.paths.len(),
                path_views(paths@) == self.paths().take(i as int),
            decreases self.paths.len() - i,
        {
            let ghost before = paths@;
            let path = self.paths[i].clone();
            paths.push(path);
            assert(path_views(paths@) =~= path_views(before).push(path@));
            assert(self.paths().take(i + 1) =~= self.paths().take(i as int).push(
                self.paths()[i as int],
            ));
            i += 1;
        }
        assert(self.paths().take(i as int) =~= self.paths());
        paths
    }
}

impl Clone for LibraryInventory {
    /// A copy with the same paths in the same order.
    fn clone(&self) -> (copy: LibraryInventory)
        ensures
            copy.paths() == self.paths(),
            copy@ == self@,
    {
        LibraryInventory { paths: self.to_vec() }
    }
}

/// Merging is monotonic: nothing that either side held is lost.
pub proof fn lemma_merge_monotonic(a: Set<Seq<char>>, b: Set<Seq<char>>)
    ensures
        a.subset_of(a.union(b)),
        b.subset_of(a.union(b)),
{
}

/// Merging is commutative, associative and idempotent, so the order in which
/// observations arrive, and how often one arrives, does not matter.
pub proof fn lemma_merge_order_free(a: Set<Seq<char>>, b: Set<Seq<char>>, c: Set<Seq<char>>)
    ensures
        a.union(b) == b.union(a),
        a.union(b).union(c) == a.union(b.union(c)),
        a.union(a) == a,
        a.union(Set::<Seq<char>>::empty()) == a,
{
    assert(a.union(b) =~= b.union(a));
    assert(a.union(b).union(c) =~= a.union(b.union(c)));
    assert(a.union(a) =~= a);
    assert(a.union(Set::<Seq<char>>::empty()) =~= a);
}

} // verus!
