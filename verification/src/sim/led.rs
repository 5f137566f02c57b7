//! A modeled indicator LED driven by one pin.

use vstd::prelude::*;

verus! {

/// The modeled LED: lit while its anode pin is high.
#[derive(Clone, Copy, PartialEq, Eq, Structural, Debug)]
pub struct Led {
    pub state: bool,
}

impl Led {
    /// A dark LED.
    pub fn new() -> (r: Led)
        ensures
            !r.state,
    {
        Led { state: false }
    }

    /// Records a level change of the anode pin.
    pub fn anode_changed(&mut self, high: bool)
        ensures
            final(self).state == high,
    {
        self.state = high;
    }

    /// Whether the LED is lit.
    pub fn is_on(&self) -> (r: bool)
        ensures
            r == self.state,
    {
        self.state
    }
}

} // verus!
