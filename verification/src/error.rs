use vstd::prelude::*;

verus! {

/// A source-positioned syntax, semantic, or unsupported-feature diagnostic.
#[derive(Clone, Debug)]
pub struct Error {
    pub message: String,
    pub offset: usize,
}

impl Error {
    /// Builds a diagnostic at a byte offset.
    pub fn new(offset: usize, message: &str) -> (error: Self)
        ensures
            error.offset == offset,
            error.message@ == message@,
    {
        Error { message: message.to_string(), offset }
    }

    /// The same diagnostic.
    pub fn duplicate(&self) -> (r: Self)
        ensures
            r == *self,
    {
        Error { message: self.message.clone(), offset: self.offset }
    }
}

} // verus!
