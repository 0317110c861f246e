//! Where a node keeps its chain on disk.
use vstd::prelude::*;
use vstd::string::StringExecFns;

verus! {

/// The location of the chain file. Reading and writing it is the caller's
/// business.
pub struct Storage {
    path: String,
}

impl Storage {
    /// The file path, as text.
    pub closed spec fn spec_path(&self) -> Seq<char> {
        self.path@
    }

    pub fn new(path: &str) -> (s: Storage)
        ensures
            s.spec_path() == path@,
    {
        Storage { path: String::from_str(path) }
    }

    /// The file path.
    pub fn path(&self) -> (p: &str)
        ensures
            p@ == self.spec_path(),
    {
        self.path.as_str()
    }
}

} // verus!
