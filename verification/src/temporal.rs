//! The payload of a temporal visual code: a secret nonce paired with a
//! time slot. The waveform that carries it over a simulated optical
//! channel lives with the embedding program.

use vstd::prelude::*;

verus! {

/// A temporal code payload.
#[derive(Debug, Clone, PartialEq, Eq, Structural)]
pub struct TemporalCode {
    pub s: u64,
    pub t: u64,
}

impl TemporalCode {
    pub fn new(s: u64, t: u64) -> (r: TemporalCode)
        ensures
            r.s == s,
            r.t == t,
    {
        TemporalCode { s, t }
    }
}

} // verus!
