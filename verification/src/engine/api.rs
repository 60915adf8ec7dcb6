//! The scripting interface's start-up.
use vstd::prelude::*;

verus! {

/// The error a script run reports.
#[verifier::external_type_specification]
#[verifier::external_body]
pub struct ExEvalAltResult(rhai::EvalAltResult);

/// Starts the scripting interface; nothing is run at start-up yet, so it
/// always succeeds.
pub fn init() -> (r: Result<(), Box<rhai::EvalAltResult>>)
    ensures
        r is Ok,
{
    Ok(())
}

} // verus!
