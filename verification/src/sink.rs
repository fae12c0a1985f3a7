//! Where rendered audio goes.

use vstd::prelude::*;

verus! {

/// The engine's own sink, which plays through the output device. It can
/// be switched off.
pub struct DefaultSink {
    pub enabled: bool,
}

impl DefaultSink {
    /// The sink, switched on.
    pub fn new() -> (sink: DefaultSink)
        ensures
            sink.enabled,
    {
        DefaultSink { enabled: true }
    }
}

} // verus!
