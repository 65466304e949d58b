use vstd::prelude::*;

verus! {

/// The panel of sliders that shows gravity, friction and springiness; the
/// application draws it.
#[derive(Clone, Copy, Debug, PartialEq, Eq, Structural)]
pub struct SliderBox;

impl SliderBox {
    pub fn init() -> (b: SliderBox)
        ensures
            b == SliderBox,
    {
        SliderBox
    }
}

} // verus!
