//! The verdict on a compiled shader or a linked program.

use vstd::prelude::*;
use vstd::string::StringExecFns;

verus! {

/// Fallback message when a shader fails to compile without an info log.
pub const SHADER_COMPILE_FAILED: &'static str = "Unknown error compiling shader";

/// Fallback message when a program fails to link without an info log.
pub const PROGRAM_LINK_FAILED: &'static str = "Unknown error creating program object";

/// The verdict on a GL object after compiling or linking it. `status` is the
/// status parameter read as a boolean (`None` when it is not one); the
/// object is accepted only when it reads `true`. Otherwise the error is the
/// object's info log, or `fallback` when there is none.
pub fn gl_status_result<T>(object: T, status: Option<bool>, info_log: Option<String>, fallback: &str) -> (result:
    Result<T, String>)
    ensures
        status == Some(true) ==> result == Ok::<T, String>(object),
        status != Some(true) ==> (result matches Err(message) && message@ == match info_log {
            Some(log) => log@,
            None => fallback@,
        }),
{
    let accepted = match status {
        Some(flag) => flag,
        None => false,
    };
    if accepted {
        Ok(object)
    } else {
        match info_log {
            Some(log) => Err(log),
            None => Err(String::from_str(fallback)),
        }
    }
}

} // verus!
