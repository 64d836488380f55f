//! A model of the process's ambient working directory. The coordinator
//! threads a value of this type through every extraction: it switches it
//! to the sandbox directory for the duration of the verifier call and
//! restores it on every exit path. The embedding program mirrors each
//! change onto the real process state.

use vstd::prelude::*;

verus! {

/// The process's current working directory, as a plain path string.
pub struct ProcessDir {
    current: String,
}

impl View for ProcessDir {
    type V = Seq<char>;

    closed spec fn view(&self) -> Seq<char> {
        self.current@
    }
}

impl ProcessDir {
    /// Starts tracking at the given directory.
    pub fn new(initial: String) -> (r: ProcessDir)
        ensures
            r@ == initial@,
    {
        ProcessDir { current: initial }
    }

    /// The directory the process currently stands in.
    pub fn current(&self) -> (r: &String)
        ensures
            r@ == self@,
    {
        &self.current
    }

    /// Moves the process to `path`.
    pub(crate) fn set(&mut self, path: String)
        ensures
            final(self)@ == path@,
    {
        self.current = path;
    }
}

} // verus!
