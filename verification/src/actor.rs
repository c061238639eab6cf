use vstd::prelude::*;

verus! {

/// An opaque caller/wallet token: 32 bytes held as four 64-bit words.
/// The engine interprets nothing of it beyond equality.
#[derive(Clone, Copy, PartialEq, Eq, Structural, Hash, Debug)]
pub struct ActorId {
    pub w0: u64,
    pub w1: u64,
    pub w2: u64,
    pub w3: u64,
}

impl ActorId {
    /// Builds an identity from its four words.
    pub fn new(w0: u64, w1: u64, w2: u64, w3: u64) -> (a: ActorId)
        ensures
            a == (ActorId { w0, w1, w2, w3 }),
    {
        ActorId { w0, w1, w2, w3 }
    }
}

} // verus!
