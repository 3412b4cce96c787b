//! The pair of TCP ports that the two listeners are bound to.

use vstd::prelude::*;

verus! {

/// The plaintext port and the TLS port, fixed at startup.
#[derive(Copy, Clone, Debug)]
pub struct Ports {
    pub http: u16,
    pub https: u16,
}

impl Ports {
    /// Both ports are positive and they differ.
    pub open spec fn valid(&self) -> bool {
        self.http > 0 && self.https > 0 && self.http != self.https
    }

    /// Tells whether the pair can be served: two positive, distinct ports.
    pub fn is_valid(&self) -> (ok: bool)
        ensures
            ok == self.valid(),
    {
        self.http > 0 && self.https > 0 && self.http != self.https
    }
}

} // verus!
