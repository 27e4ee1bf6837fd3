use vstd::prelude::*;

verus! {

/// Error carried back from the engine boundary, the dispatcher and the
/// registries: a single non-empty message, as the engine reports its
/// failures as plain text.
#[derive(Debug, Clone)]
pub struct SkipError {
    pub msg: String,
}

impl SkipError {
    /// The error text, exactly as it was recorded.
    pub fn message(&self) -> (r: &str)
        ensures
            r@ == self.msg@,
    {
        self.msg.as_str()
    }
}

} // verus!
