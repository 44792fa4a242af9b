//! The error type shared by the parser, the assembler, and the execution
//! engine. Each pipeline stage aborts on its first error and propagates it
//! unchanged; no error is retried or swallowed.

use vstd::prelude::*;

verus! {

/// An error raised while parsing, assembling, or executing a program,
/// carrying a human-readable description.
#[derive(Debug)]
pub struct EmulatorErr {
    msg: String,
}

impl EmulatorErr {
    /// The description this error was raised with.
    pub closed spec fn spec_msg(self) -> Seq<char> {
        self.msg@
    }

    pub fn new(msg: &str) -> (r: Self)
        ensures
            r.spec_msg() == msg@,
    {
        Self { msg: msg.to_owned() }
    }

    /// The description this error was raised with.
    pub fn message(&self) -> (r: &str)
        ensures
            r@ == self.spec_msg(),
    {
        self.msg.as_str()
    }
}

} // verus!
