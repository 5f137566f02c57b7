//! A compile-time checklist for wiring the driver: `build` exists only
//! once every one of the five signal roles has been assigned a pin.

use crate::codec::PinEvent;
use crate::commands::InstructionSet;
use crate::lcd::Lcd10168;
use crate::pins::DigitalPin;
use vstd::prelude::*;

verus! {

/// A signal role that has not been wired yet.
#[derive(Clone, Copy, PartialEq, Eq, Structural, Debug)]
pub struct Unconnected;

/// A signal role wired to one digital pin.
#[derive(Clone, Copy, PartialEq, Eq, Structural, Debug)]
pub struct Connected(pub DigitalPin);

impl Connected {
    /// Wraps the pin assigned to a role.
    pub fn new(pin: DigitalPin) -> (r: Self)
        ensures
            r == Connected(pin),
    {
        Connected(pin)
    }

    /// The pin assigned to the role.
    pub fn into_inner(self) -> (r: DigitalPin)
        ensures
            r == self.0,
    {
        self.0
    }
}

/// Builder of a driver; each type parameter records whether the matching
/// signal role has been wired.
pub struct Lcd10168Builder<R, S, D, I, C> {
    pub rst: R,
    pub sce: S,
    pub dc: D,
    pub din: I,
    pub clk: C,
}

/// A builder with none of the five roles wired.
pub type UnconnectedLcd10168Builder = Lcd10168Builder<
    Unconnected,
    Unconnected,
    Unconnected,
    Unconnected,
    Unconnected,
>;

impl Lcd10168 {
    /// Starts wiring a driver.
    pub fn builder() -> (r: UnconnectedLcd10168Builder)
        ensures
            r.rst == Unconnected,
            r.sce == Unconnected,
            r.dc == Unconnected,
            r.din == Unconnected,
            r.clk == Unconnected,
    {
        UnconnectedLcd10168Builder::new()
    }
}

impl UnconnectedLcd10168Builder {
    /// A builder with every role still open.
    pub fn new() -> (r: Self)
        ensures
            r.rst == Unconnected,
            r.sce == Unconnected,
            r.dc == Unconnected,
            r.din == Unconnected,
            r.clk == Unconnected,
    {
        Lcd10168Builder {
            rst: Unconnected,
            sce: Unconnected,
            dc: Unconnected,
            din: Unconnected,
            clk: Unconnected,
        }
    }
}

impl<S, D, I, C> Lcd10168Builder<Unconnected, S, D, I, C> {
    /// Wires the reset line.
    pub fn reset(self, pin: DigitalPin) -> (r: Lcd10168Builder<Connected, S, D, I, C>)
        ensures
            r.rst == Connected(pin),
            r.sce == self.sce,
            r.dc == self.dc,
            r.din == self.din,
            r.clk == self.clk,
    {
        Lcd10168Builder {
            rst: Connected::new(pin),
            sce: self.sce,
            dc: self.dc,
            din: self.din,
            clk: self.clk,
        }
    }
}

impl<R, D, I, C> Lcd10168Builder<R, Unconnected, D, I, C> {
    /// Wires the chip-select line.
    pub fn chip_enable(self, pin: DigitalPin) -> (r: Lcd10168Builder<R, Connected, D, I, C>)
        ensures
            r.rst == self.rst,
            r.sce == Connected(pin),
            r.dc == self.dc,
            r.din == self.din,
            r.clk == self.clk,
    {
        Lcd10168Builder {
            rst: self.rst,
            sce: Connected::new(pin),
            dc: self.dc,
            din: self.din,
            clk: self.clk,
        }
    }
}

impl<R, S, I, C> Lcd10168Builder<R, S, Unconnected, I, C> {
    /// Wires the data/command line.
    pub fn data_command(self, pin: DigitalPin) -> (r: Lcd10168Builder<R, S, Connected, I, C>)
        ensures
            r.rst == self.rst,
            r.sce == self.sce,
            r.dc == Connected(pin),
            r.din == self.din,
            r.clk == self.clk,
    {
        Lcd10168Builder {
            rst: self.rst,
            sce: self.sce,
            dc: Connected::new(pin),
            din: self.din,
            clk: self.clk,
        }
    }
}

impl<R, S, D, C> Lcd10168Builder<R, S, D, Unconnected, C> {
    /// Wires the data-in line.
    pub fn data_in(self, pin: DigitalPin) -> (r: Lcd10168Builder<R, S, D, Connected, C>)
        ensures
            r.rst == self.rst,
            r.sce == self.sce,
            r.dc == self.dc,
            r.din == Connected(pin),
            r.clk == self.clk,
    {
        Lcd10168Builder {
            rst: self.rst,
            sce: self.sce,
            dc: self.dc,
            din: Connected::new(pin),
            clk: self.clk,
        }
    }
}

impl<R, S, D, I> Lcd10168Builder<R, S, D, I, Unconnected> {
    /// Wires the clock line.
    pub fn clock(self, pin: DigitalPin) -> (r: Lcd10168Builder<R, S, D, I, Connected>)
        ensures
            r.rst == self.rst,
            r.sce == self.sce,
            r.dc == self.dc,
            r.din == self.din,
            r.clk == Connected(pin),
    {
        Lcd10168Builder {
            rst: self.rst,
            sce: self.sce,
            dc: self.dc,
            din: self.din,
            clk: Connected::new(pin),
        }
    }
}

impl Lcd10168Builder<Connected, Connected, Connected, Connected, Connected> {
    /// Builds the driver once all five roles are wired. The chip powers up
    /// in the basic instruction set; no events have been produced yet.
    pub fn build(self) -> (r: Lcd10168)
        ensures
            r.rst == self.rst.0,
            r.sce == self.sce.0,
            r.dc == self.dc.0,
            r.din == self.din.0,
            r.clk == self.clk.0,
            r.instruction_set == InstructionSet::Basic,
            r.events@ == Seq::<PinEvent>::empty(),
    {
        Lcd10168 {
            rst: self.rst.into_inner(),
            sce: self.sce.into_inner(),
            dc: self.dc.into_inner(),
            din: self.din.into_inner(),
            clk: self.clk.into_inner(),
            instruction_set: InstructionSet::Basic,
            events: Vec::new(),
        }
    }
}

} // verus!
