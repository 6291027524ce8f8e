//! Failures that a block reports to whoever drives it.

use vstd::prelude::*;

verus! {

/// What went wrong.
#[derive(Clone, Copy, Debug, PartialEq, Eq, Structural)]
pub enum ErrorKind {
    /// The block could not be built from its configuration.
    Construction,
    /// What was read from outside is not well-formed.
    Parse,
    /// The display template names a placeholder that has no value.
    Render,
}

/// A failure of the block named `block`.
#[derive(Debug)]
pub struct BlockError {
    pub kind: ErrorKind,
    pub block: String,
    pub message: String,
}

impl BlockError {
    /// The error says `kind`, `block` and `message`.
    pub open spec fn says(&self, kind: ErrorKind, block: Seq<char>, message: Seq<char>) -> bool {
        self.kind == kind && self.block@ == block && self.message@ == message
    }

    /// An error of the given kind.
    pub fn new(kind: ErrorKind, block: &str, message: &str) -> (e: BlockError)
        ensures
            e.says(kind, block@, message@),
    {
        BlockError { kind, block: String::from_str(block), message: String::from_str(message) }
    }

    /// The error as one line of text.
    pub fn describe(&self) -> (r: String)
        ensures
            r@ == self.block@ + ": "@ + self.message@,
    {
        let mut r = self.block.clone();
        r.append(": ");
        r.append(self.message.as_str());
        r
    }
}

} // verus!
