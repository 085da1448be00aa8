//! The operands of `cp`.
use vstd::prelude::*;

verus! {

/// The operands of one `cp` invocation: the sources, and the destination.
#[derive(Debug, Clone)]
pub struct Cp {
    pub options: Vec<String>,
    pub target: String,
}

impl Cp {
    /// No operands yet.
    pub fn new() -> (r: Self)
        ensures
            r.options@.len() == 0,
            r.target@.len() == 0,
    {
        Cp { options: Vec::new(), target: String::new() }
    }
}

} // verus!
