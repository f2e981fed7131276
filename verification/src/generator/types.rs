//! What a message generator offers.

use vstd::prelude::*;

verus! {

/// A source of messages.
pub trait Generate {
    /// Produces the next message.
    fn generate(&self) -> Vec<u8>;
}

} // verus!
