//! Checking zkVM proofs.
use vstd::prelude::*;

verus! {

/// Verifies zkVM proofs and extracts the public inputs from their journal.
#[derive(Debug, Clone, Copy, PartialEq, Eq)]
pub struct Verifier;

impl Verifier {
    /// A verifier.
    pub fn new() -> (r: Verifier)
        ensures
            r == Verifier,
    {
        Verifier
    }
}

impl Default for Verifier {
    fn default() -> (r: Verifier)
        ensures
            r == Verifier,
    {
        Verifier::new()
    }
}

} // verus!
