//! What the library is told when the filesystem refused something.

use vstd::prelude::*;
use vstd::string::*;

verus! {

/// A failure of the filesystem, as the caller reports it: the text that
/// describes it. The library passes it on and never looks inside.
#[derive(Debug, PartialEq, Eq)]
pub struct IoFailure {
    pub message: String,
}

impl View for IoFailure {
    type V = Seq<char>;

    open spec fn view(&self) -> Seq<char> {
        self.message@
    }
}

impl Clone for IoFailure {
    fn clone(&self) -> (r: Self)
        ensures
            r == *self,
    {
        IoFailure { message: self.message.clone() }
    }
}

impl IoFailure {
    /// A failure with the given description.
    pub fn new(message: &str) -> (r: Self)
        ensures
            r@ == message@,
    {
        IoFailure { message: String::from_str(message) }
    }
}

} // verus!
