//! One row of a process's memory map, as far as the inventory reads it.

use vstd::prelude::*;

verus! {

/// The file extension that marks a shared library: `so`, case-sensitive.
pub open spec fn library_extension() -> Seq<char> {
    seq!['s', 'o']
}

/// The extension that `std::path::Path::extension` finds in the path with
/// these characters, on the platform the crate is built for; `None` where it
/// finds none.
pub uninterp spec fn path_extension(path: Seq<char>) -> Option<Seq<char>>;

/// Calls `std::path::Path::extension` on `path`. The contract gives the
/// result the name `path_extension(path@)` and says nothing more of it: the
/// extension of a path is whatever the standard library says it is.
#[verifier::external_body]
fn extension_of(path: &String) -> (extension: Option<String>)
    ensures
        match extension {
            Some(e) => path_extension(path@) == Some(e@),
            None => path_extension(path@).is_none(),
        },
{
    match std::path::Path::new(path.as_str()).extension() {
        Some(e) => Some(e.to_string_lossy().into_owned()),
        None => None,
    }
}

/// Whether a backing file with these two properties is a shared library: it
/// was seen to be an existing regular file, and its extension is exactly
/// `so`.
pub open spec fn qualifies_spec(regular_file: bool, extension: Option<Seq<char>>) -> bool {
    regular_file && extension == Some(library_extension())
}

/// Decides `qualifies_spec` for a file of which the extension is known.
pub fn qualifies(regular_file: bool, extension: &Option<String>) -> (yes: bool)
    ensures
        yes == qualifies_spec(
            regular_file,
            match *extension {
                Some(e) => Some(e@),
                None => None,
            },
        ),
{
    if !regular_file {
        return false;
    }
    match extension {
        Some(e) => {
            let so = "so";
            proof {
                reveal_strlit("so");
                assert(so@ =~= library_extension());
            }
            let wanted = String::from_str(so);
            *e == wanted
        },
        None => false,
    }
}

/// One row of a memory map: the file that backs the region, if any, and
/// whether that path referred to an existing regular file when the row was
/// observed.
#[derive(Clone, Debug, PartialEq, Eq)]
pub struct MappingEntry {
    pub path: Option<String>,
    pub regular_file: bool,
}

impl MappingEntry {
    /// The characters of the backing file's path, if there is one.
    pub open spec fn path_view(&self) -> Option<Seq<char>> {
        match self.path {
            Some(p) => Some(p@),
            None => None,
        }
    }

    /// Whether the row names a shared library.
    pub open spec fn is_library(&self) -> bool {
        match self.path {
            Some(p) => qualifies_spec(self.regular_file, path_extension(p@)),
            None => false,
        }
    }

    /// The library that the row names, if it names one.
    pub open spec fn library_path(&self) -> Option<Seq<char>> {
        match self.path {
            Some(p) => if self.is_library() {
                Some(p@)
            } else {
                None
            },
            None => None,
        }
    }

    /// A row backed by the file at `path`.
    pub fn backed(path: String, regular_file: bool) -> (entry: MappingEntry)
        ensures
            entry.path == Some(path),
            entry.regular_file == regular_file,
    {
        MappingEntry { path: Some(path), regular_file }
    }

    /// A row of anonymous memory, with no backing file.
    pub fn anonymous() -> (entry: MappingEntry)
        ensures
            entry.path.is_none(),
            !entry.regular_file,
            !entry.is_library(),
    {
        MappingEntry { path: None, regular_file: false }
    }

    /// The path of the library that the row names, or `None` where it names
    /// none: no backing file, not a regular file, or another extension.
    pub fn library(&self) -> (library: Option<String>)
        ensures
            match library {
                Some(p) => self.library_path() == Some(p@),
                None => self.library_path().is_none(),
            },
    {
        match &self.path {
            Some(p) => {
                let extension = extension_of(p);
                if qualifies(self.regular_file, &extension) {
                    Some(p.clone())
                } else {
                    None
                }
            },
            None => None,
        }
    }
}

} // verus!
