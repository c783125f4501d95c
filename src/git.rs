//! Decisions taken on what a repository reports about a file.
use vstd::prelude::*;

verus! {

/// The kind of an entry of a git tree.
#[derive(Clone, Copy, Debug, PartialEq, Eq, Structural)]
pub enum EntryKind {
    /// A directory.
    Tree,
    /// A regular file.
    Blob,
    /// An executable file.
    BlobExecutable,
    /// A symbolic link.
    Link,
    /// A submodule.
    Commit,
}

/// Whether an entry of this kind holds the contents of a file.
pub open spec fn is_file_kind(kind: EntryKind) -> bool {
    kind is Blob || kind is BlobExecutable
}

/// The object that holds a file's contents, given the tree entry found at
/// its path: only a regular or executable file has one; a directory, a link
/// or a submodule means that the whole file is new and gets no diff base.
pub fn file_object<T>(kind: EntryKind, object: T) -> (r: Option<T>)
    ensures
        is_file_kind(kind) ==> r == Some(object),
        !is_file_kind(kind) ==> r is None,
{
    match kind {
        EntryKind::Tree | EntryKind::Commit | EntryKind::Link => None,
        EntryKind::Blob | EntryKind::BlobExecutable => Some(object),
    }
}

} // verus!
