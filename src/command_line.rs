use vstd::prelude::*;

verus! {

/// The debugger's invocation: the target executable and the arguments passed
/// to it.
#[derive(Clone, Debug)]
pub struct Args {
    /// target file
    pub file: String,
    /// arguments passed to the target file
    pub args: Vec<String>,
}

} // verus!
