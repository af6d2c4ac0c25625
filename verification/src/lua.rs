//! Validation of Lua source text.
//!
//! The tokenizer is `rslua`'s, and it aborts rather than returns on source
//! it refuses, so a verified function cannot make that call itself: the
//! shell that owns the process runs the tokenizer, contains the abort, and
//! hands the verdict in as a plain value.  What stands here is the
//! decision taken on that verdict.

use vstd::prelude::*;

verus! {

/// A piece of Lua source text.
#[derive(Debug)]
pub struct LVal {
    /// The held source text.
    pub src: String,
}

impl LVal {
    /// Wraps the source text.
    pub fn new(src: String) -> (l: Self)
        ensures
            l.src == src,
    {
        Self { src }
    }

    /// Maps the tokenizer's verdict on the held source to the result the
    /// caller reports: acceptance passes, refusal carries the fixed
    /// message.
    pub fn validate(&self, lexes: bool) -> (r: Result<(), String>)
        ensures
            (r is Ok) == lexes,
            (r matches Err(m) ==> m@ == "Couldn't validate provided Lua code"@),
    {
        if lexes {
            Ok(())
        } else {
            Err("Couldn't validate provided Lua code".to_owned())
        }
    }
}

} // verus!
