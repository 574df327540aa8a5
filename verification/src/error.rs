//! What a tool call can fail with.

use vstd::prelude::*;
use vstd::string::*;

verus! {

/// Everything a tool call can fail with, phrased for the model to read.
#[derive(Debug)]
pub struct ToolError(pub String);

/// A failure with a fixed message.
pub fn err<T>(message: &str) -> (r: Result<T, ToolError>)
    ensures
        r matches Err(e) && e.0@ == message@,
{
    Err(ToolError(message.to_string()))
}

/// A text, or the message of the error that came instead.
pub open spec fn outcome(r: Result<String, ToolError>) -> Result<Seq<char>, Seq<char>> {
    match r {
        Ok(s) => Ok(s@),
        Err(e) => Err(e.0@),
    }
}

} // verus!
