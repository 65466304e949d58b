use vstd::prelude::*;

verus! {

/// The panel that shows the driving wave and the phases of the muscles; the
/// application draws it.
#[derive(Clone, Copy, Debug, PartialEq, Eq, Structural)]
pub struct WaveBox {}

impl WaveBox {
    pub fn init() -> (b: WaveBox)
        ensures
            b == (WaveBox {}),
    {
        WaveBox {}
    }
}

} // verus!
