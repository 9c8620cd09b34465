//! What the command-line tool decides.

use vstd::prelude::*;
use crate::error::Error;
use crate::validator::Validation;

verus! {

/// The exit code of the command-line tool: 0 for a document that is valid,
/// 1 for one that is not and for one that could not be validated.
pub fn exit_code(outcome: &Result<Validation, Error>) -> (code: u8)
    ensures
        code == 0 <==> (outcome matches Ok(validation) && validation.is_valid),
        code == 0 || code == 1,
{
    match outcome {
        Ok(validation) => if validation.is_valid {
            0
        } else {
            1
        },
        Err(_) => 1,
    }
}

} // verus!
