//! Sources of the reference text that a document is compared against.
use std::path::PathBuf;

use vstd::prelude::*;

verus! {

#[verifier::external_type_specification]
#[verifier::external_body]
pub struct ExPathBuf(PathBuf);

/// A source of diff bases, such as a version-control system.
pub trait DiffProvider {
    /// The raw bytes that `file` should be compared against, if this source
    /// has them. What comes back depends on the state of the outside world
    /// (a repository on disk), so nothing is promised of it.
    fn get_diff_base(&self, file: &PathBuf) -> Option<Vec<u8>>;
}

/// Diff-base sources, tried in order of priority.
pub struct DiffProviderRegistry<P> {
    providers: Vec<P>,
}

impl<P: DiffProvider> DiffProviderRegistry<P> {
    /// The sources, highest priority first.
    pub closed spec fn spec_providers(&self) -> Seq<P> {
        self.providers@
    }

    /// A registry that tries `providers` in the given order.
    pub fn new(providers: Vec<P>) -> (r: Self)
        ensures
            r.spec_providers() == providers@,
    {
        DiffProviderRegistry { providers }
    }

    /// The diff base of the first source that has one for `file`, trying the
    /// sources in order and stopping at the first that answers; `None` when
    /// no source has one, and always `None` without sources.
    pub fn get_diff_base(&self, file: &PathBuf) -> (r: Option<Vec<u8>>)
        ensures
            self.spec_providers().len() == 0 ==> r is None,
    {
        let mut i: usize = 0;
        while i < self.providers.len()
            invariant
                i <= self.providers@.len(),
            decreases self.providers@.len() - i,
        {
            let found = self.providers[i].get_diff_base(file);
            if found.is_some() {
                return found;
            }
            i = i + 1;
        }
        None
    }
}

} // verus!
