//! `volt logout`.

use vstd::prelude::*;

use crate::errors::VoltError;

verus! {

/// The `logout` command.
#[derive(Clone, Copy, Debug)]
pub struct Logout {}

impl Logout {
    /// Logs out of the registry; there is no session to end, so it
    /// always succeeds.
    pub fn exec() -> (r: Result<(), VoltError>)
        ensures
            r is Ok,
    {
        Ok(())
    }
}

} // verus!
