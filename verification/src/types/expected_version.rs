use vstd::prelude::*;

verus! {

/// What a writer expects of a stream at the moment it appends.
#[derive(Copy, Debug)]
pub enum ExpectedVersion<Version> {
    /// No expectation: the append goes through whatever the stream holds.
    Any,
    /// The stream holds no event yet.
    NoStream,
    /// The first event of this append gets exactly this version.
    Exact(Version),
}

impl<Version: Copy> Clone for ExpectedVersion<Version> {
    fn clone(&self) -> (copy: Self)
        ensures
            copy == *self,
    {
        *self
    }
}

} // verus!
