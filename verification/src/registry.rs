//! The directory under which named environments live.

use std::path::PathBuf;
use vstd::prelude::*;

verus! {

/// `std::path::PathBuf`, which is carried through and never looked into.
#[verifier::external_type_specification]
#[verifier::external_body]
pub struct ExPathBuf(PathBuf);

/// The place where environments are kept, each in a directory named after it.
pub struct Registry {
    root: PathBuf,
}

impl Registry {
    /// The root directory the registry was made with.
    pub closed spec fn root_dir(&self) -> PathBuf {
        self.root
    }

    /// Constructs a registry rooted at the given path.
    pub fn new(root: PathBuf) -> (r: Registry)
        ensures
            r.root_dir() == root,
    {
        Registry { root }
    }

    /// Returns the root directory of the registry.
    pub fn root(&self) -> (r: &PathBuf)
        ensures
            *r == self.root_dir(),
    {
        &self.root
    }
}

} // verus!
