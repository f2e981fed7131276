//! The producer that prints messages to the standard output.

use vstd::prelude::*;

use crate::settings::StdoutSettings;

verus! {

/// Prints every message it is given; the printing itself is done by the
/// program around the library.
#[derive(Clone)]
pub struct StdoutProducer {
    pub _settings: StdoutSettings,
}

impl Default for StdoutProducer {
    fn default() -> (p: Self)
        ensures
            p._settings == (StdoutSettings {}),
    {
        StdoutProducer { _settings: StdoutSettings {} }
    }
}

impl StdoutProducer {
    /// Prepares the producer. It keeps no setting: the producer is left as
    /// it was.
    pub fn instantiate(&mut self, _settings: StdoutSettings)
        ensures
            *final(self) == *old(self),
    {
    }
}

} // verus!
