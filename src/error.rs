//! Structured script errors.

use vstd::prelude::*;

verus! {

/// A script exception as the engine reports it.
#[derive(Clone, Debug, PartialEq, Eq)]
pub struct EsErrorInfo {
    pub message: String,
    pub filename: String,
    pub lineno: i32,
    pub column: i32,
}

/// The message used when evaluation failed but the engine left no exception.
pub open spec fn unknown_eval_message() -> Seq<char> {
    "unknown error while evalling"@
}

impl EsErrorInfo {
    /// The error reported for an evaluation of `file_name` that failed
    /// without a pending exception.
    pub fn unknown_eval_error(file_name: &str) -> (r: EsErrorInfo)
        ensures
            r.message@ == unknown_eval_message(),
            r.filename@ == file_name@,
            r.lineno == 0,
            r.column == 0,
    {
        EsErrorInfo {
            message: "unknown error while evalling".to_string(),
            filename: file_name.to_string(),
            lineno: 0,
            column: 0,
        }
    }
}

/// What an evaluation of `file_name` amounts to, given whether the engine
/// reported success and the exception it left pending, if any.
pub fn eval_outcome(evaluated: bool, pending: Option<EsErrorInfo>, file_name: &str) -> (r: Result<
    (),
    EsErrorInfo,
>)
    ensures
        evaluated ==> r is Ok,
        !evaluated ==> match pending {
            Some(ex) => r == Err::<(), EsErrorInfo>(ex),
            None => match r {
                Err(e) => e.message@ == unknown_eval_message() && e.filename@ == file_name@
                    && e.lineno == 0 && e.column == 0,
                Ok(_) => false,
            },
        },
{
    if evaluated {
        Ok(())
    } else {
        match pending {
            Some(ex) => Err(ex),
            None => Err(EsErrorInfo::unknown_eval_error(file_name)),
        }
    }
}

} // verus!
