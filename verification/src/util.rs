//! Turning failures of any debug-printable kind into plain strings, so that
//! the rest of the library deals in one error type.

use vstd::prelude::*;

verus! {

/// Relies on the `format!` macro over the type's own `Debug`
/// implementation: renders the value as text. Nothing further is assumed of
/// the text.
#[verifier::external_body]
fn debug_string<E: core::fmt::Debug>(err: &E) -> String {
    format!("{:?}", err)
}

/// Maps the error of a result to its debug text, keeping the success value.
pub fn convert_err<T, E: core::fmt::Debug>(input: Result<T, E>) -> (r: Result<T, String>)
    ensures
        input is Ok <==> r is Ok,
        input matches Ok(v) ==> r matches Ok(w) && w == v,
{
    match input {
        Ok(x) => Ok(x),
        Err(err) => Err(debug_string(&err)),
    }
}

/// The warning to log for a failed result, if any; the caller hands it to
/// whatever records warnings.
pub fn log_err<T: core::fmt::Debug>(result: Result<(), T>) -> (r: Option<String>)
    ensures
        result is Err <==> r is Some,
{
    match result {
        Ok(_) => None,
        Err(err) => Some(debug_string(&err)),
    }
}

} // verus!
