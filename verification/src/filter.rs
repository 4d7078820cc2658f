//! From a snapshot of a memory map to the libraries it shows.

use crate::inventory::{lemma_with_path, with_path, LibraryInventory};
use crate::mapping::{library_extension, path_extension, MappingEntry};
use vstd::prelude::*;

verus! {

/// The libraries that a snapshot shows, as a set: the paths of the rows that
/// name a library.
pub open spec fn library_set(entries: Seq<MappingEntry>) -> Set<Seq<char>> {
    Set::new(
        |p: Seq<char>|
            exists|i: int| 0 <= i < entries.len() && #[trigger] entries[i].library_path() == Some(p),
    )
}

/// The libraries that a snapshot shows, each once, in the order in which the
/// snapshot first names them.
pub open spec fn library_paths(entries: Seq<MappingEntry>) -> Seq<Seq<char>>
    decreases entries.len(),
{
    if entries.len() == 0 {
        Seq::empty()
    } else {
        let front = library_paths(entries.drop_last());
        match entries.last().library_path() {
            Some(p) => with_path(front, p),
            None => front,
        }
    }
}

/// The list of a snapshot's libraries names no path twice, and names exactly
/// the paths of the snapshot's library set.
pub proof fn lemma_library_paths(entries: Seq<MappingEntry>)
    ensures
        library_paths(entries).no_duplicates(),
        library_paths(entries).to_set() == library_set(entries),
    decreases entries.len(),
{
    if entries.len() == 0 {
        assert(library_paths(entries).to_set() =~= library_set(entries));
    } else {
        let front = entries.drop_last();
        let last = entries.last();
        lemma_library_paths(front);
        let grown = match last.library_path() {
            Some(p) => library_set(front).insert(p),
            None => library_set(front),
        };
        match last.library_path() {
            Some(p) => {
                lemma_with_path(library_paths(front), p);
            },
            None => {},
        }
        assert forall|p: Seq<char>| library_set(entries).contains(p) == grown.contains(p) by {
            if library_set(entries).contains(p) {
                let i = choose|i: int|
                    0 <= i < entries.len() && #[trigger] entries[i].library_path() == Some(p);
                if i < front.len() {
                    assert(front[i].library_path() == Some(p));
                }
            }
            if library_set(front).contains(p) {
                let i = choose|i: int|
                    0 <= i < front.len() && #[trigger] front[i].library_path() == Some(p);
                assert(entries[i].library_path() == Some(p));
            }
            if last.library_path() == Some(p) {
                assert(entries[entries.len() - 1].library_path() == Some(p));
            }
        }
        assert(library_set(entries) =~= grown);
    }
}

/// Every path in a snapshot's library set belongs to a row that was seen to
/// be a regular file, and has the extension `so`.
pub proof fn lemma_library_set_sound(entries: Seq<MappingEntry>, p: Seq<char>)
    requires
        library_set(entries).contains(p),
    ensures
        path_extension(p) == Some(library_extension()),
        exists|i: int|
            0 <= i < entries.len() && (#[trigger] entries[i]).regular_file
                && entries[i].path_view() == Some(p),
{
    let i = choose|i: int|
        0 <= i < entries.len() && #[trigger] entries[i].library_path() == Some(p);
    assert(entries[i].regular_file);
}

/// Reduces a snapshot to the distinct libraries it shows.
///
/// A row is skipped if it has no backing file, if that file was not seen to
/// be a regular file, or if its extension is not exactly `so`. What remains
/// is kept once per path.
pub fn filter(entries: &Vec<MappingEntry>) -> (libraries: LibraryInventory)
    ensures
        libraries@ == library_set(entries@),
        libraries.paths() == library_paths(entries@),
        libraries.paths().no_duplicates(),
        forall|p: Seq<char>| #[trigger]
            libraries@.contains(p) ==> path_extension(p) == Some(library_extension()),
{
    let mut libraries = LibraryInventory::new();
    let mut i: usize = 0;
    while i < entries.len()
        invariant
            i <= entries.len(),
            libraries.paths() == library_paths(entries@.take(i as int)),
        decreases entries.len() - i,
    {
        assert(entries@.take(i + 1).drop_last() =~= entries@.take(i as int));
        match entries[i].library() {
            Some(p) => {
                libraries.insert(p);
            },
            None => {},
        }
        i += 1;
    }
    proof {
        assert(entries@.take(i as int) =~= entries@);
        lemma_library_paths(entries@);
        assert forall|p: Seq<char>| #[trigger] libraries@.contains(p) implies path_extension(p)
            == Some(library_extension()) by {
            lemma_library_set_sound(entries@, p);
        }
    }
    libraries
}

} // verus!
