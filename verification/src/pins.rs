//! Named digital pins of the modeled microcontroller: a port letter plus a
//! bit index, such as "C1".

use vstd::prelude::*;

verus! {

/// One digital pin, identified by its port letter and bit index.
#[derive(Clone, Copy, PartialEq, Eq, Structural, Debug)]
pub struct DigitalPin {
    pub port: char,
    pub pin: u8,
}

impl DigitalPin {
    /// Builds the pin handle for the given port letter and bit index.
    pub fn new(port: char, pin: u8) -> (r: Self)
        ensures
            r == (DigitalPin { port, pin }),
    {
        DigitalPin { port, pin }
    }
}

/// The set of pins the modeled microcontroller exposes.
#[derive(Clone, Copy, PartialEq, Eq, Structural, Debug)]
pub struct Pins;

impl Pins {
    /// The pin set.
    pub fn new() -> (r: Pins)
        ensures
            r == Pins,
    {
        Pins
    }

    /// Port B, bit 0.
    pub fn pb0(&self) -> (r: DigitalPin)
        ensures
            r == (DigitalPin { port: 'B', pin: 0 }),
    {
        DigitalPin::new('B', 0)
    }

    /// Port B, bit 1.
    pub fn pb1(&self) -> (r: DigitalPin)
        ensures
            r == (DigitalPin { port: 'B', pin: 1 }),
    {
        DigitalPin::new('B', 1)
    }

    /// Port B, bit 2.
    pub fn pb2(&self) -> (r: DigitalPin)
        ensures
            r == (DigitalPin { port: 'B', pin: 2 }),
    {
        DigitalPin::new('B', 2)
    }

    /// Port B, bit 3.
    pub fn pb3(&self) -> (r: DigitalPin)
        ensures
            r == (DigitalPin { port: 'B', pin: 3 }),
    {
        DigitalPin::new('B', 3)
    }

    /// Port B, bit 4.
    pub fn pb4(&self) -> (r: DigitalPin)
        ensures
            r == (DigitalPin { port: 'B', pin: 4 }),
    {
        DigitalPin::new('B', 4)
    }

    /// Port B, bit 5.
    pub fn pb5(&self) -> (r: DigitalPin)
        ensures
            r == (DigitalPin { port: 'B', pin: 5 }),
    {
        DigitalPin::new('B', 5)
    }

    /// Port B, bit 6.
    pub fn pb6(&self) -> (r: DigitalPin)
        ensures
            r == (DigitalPin { port: 'B', pin: 6 }),
    {
        DigitalPin::new('B', 6)
    }

    /// Port B, bit 7.
    pub fn pb7(&self) -> (r: DigitalPin)
        ensures
            r == (DigitalPin { port: 'B', pin: 7 }),
    {
        DigitalPin::new('B', 7)
    }

    /// Port C, bit 0.
    pub fn pc0(&self) -> (r: DigitalPin)
        ensures
            r == (DigitalPin { port: 'C', pin: 0 }),
    {
        DigitalPin::new('C', 0)
    }

    /// Port C, bit 1.
    pub fn pc1(&self) -> (r: DigitalPin)
        ensures
            r == (DigitalPin { port: 'C', pin: 1 }),
    {
        DigitalPin::new('C', 1)
    }

    /// Port C, bit 2.
    pub fn pc2(&self) -> (r: DigitalPin)
        ensures
            r == (DigitalPin { port: 'C', pin: 2 }),
    {
        DigitalPin::new('C', 2)
    }

    /// Port C, bit 3.
    pub fn pc3(&self) -> (r: DigitalPin)
        ensures
            r == (DigitalPin { port: 'C', pin: 3 }),
    {
        DigitalPin::new('C', 3)
    }

    /// Port C, bit 4.
    pub fn pc4(&self) -> (r: DigitalPin)
        ensures
            r == (DigitalPin { port: 'C', pin: 4 }),
    {
        DigitalPin::new('C', 4)
    }

    /// Port C, bit 5.
    pub fn pc5(&self) -> (r: DigitalPin)
        ensures
            r == (DigitalPin { port: 'C', pin: 5 }),
    {
        DigitalPin::new('C', 5)
    }

    /// Port C, bit 6.
    pub fn pc6(&self) -> (r: DigitalPin)
        ensures
            r == (DigitalPin { port: 'C', pin: 6 }),
    {
        DigitalPin::new('C', 6)
    }

    /// Port D, bit 0.
    pub fn pd0(&self) -> (r: DigitalPin)
        ensures
            r == (DigitalPin { port: 'D', pin: 0 }),
    {
        DigitalPin::new('D', 0)
    }

    /// Port D, bit 1.
    pub fn pd1(&self) -> (r: DigitalPin)
        ensures
            r == (DigitalPin { port: 'D', pin: 1 }),
    {
        DigitalPin::new('D', 1)
    }

    /// Port D, bit 2.
    pub fn pd2(&self) -> (r: DigitalPin)
        ensures
            r == (DigitalPin { port: 'D', pin: 2 }),
    {
        DigitalPin::new('D', 2)
    }

    /// Port D, bit 3.
    pub fn pd3(&self) -> (r: DigitalPin)
        ensures
            r == (DigitalPin { port: 'D', pin: 3 }),
    {
        DigitalPin::new('D', 3)
    }

    /// Port D, bit 4.
    pub fn pd4(&self) -> (r: DigitalPin)
        ensures
            r == (DigitalPin { port: 'D', pin: 4 }),
    {
        DigitalPin::new('D', 4)
    }

    /// Port D, bit 5.
    pub fn pd5(&self) -> (r: DigitalPin)
        ensures
            r == (DigitalPin { port: 'D', pin: 5 }),
    {
        DigitalPin::new('D', 5)
    }

    /// Port D, bit 6.
    pub fn pd6(&self) -> (r: DigitalPin)
        ensures
            r == (DigitalPin { port: 'D', pin: 6 }),
    {
        DigitalPin::new('D', 6)
    }

    /// Port D, bit 7.
    pub fn pd7(&self) -> (r: DigitalPin)
        ensures
            r == (DigitalPin { port: 'D', pin: 7 }),
    {
        DigitalPin::new('D', 7)
    }
}

} // verus!
