//! Cancellation of long checks.

use vstd::prelude::*;
use std::sync::atomic::AtomicBool;

verus! {

/// The error of a cancelled check.
pub const INTERRUPTED: &'static str = "interrupted";

/// `Err("interrupted")` once the flag is set, else `Ok`. Another thread sets the flag, so which
/// of the two comes back is not fixed by anything here.
pub fn check_cancelled(cancel: &AtomicBool) -> (r: Result<(), String>)
    ensures
        r matches Err(e) ==> e@ == "interrupted"@,
{
    if cancel.load(std::sync::atomic::Ordering::SeqCst) {
        Err(crate::text::owned(INTERRUPTED))
    } else {
        Ok(())
    }
}

} // verus!
