//! The register values a command can set, shared vocabulary of the chip
//! driver and of the protocol decoder.

use vstd::prelude::*;

verus! {

/// Whether the chip is running or powered down.
#[derive(Clone, Copy, PartialEq, Eq, Structural, Debug)]
pub enum ChipMode {
    Active,
    PowerDown,
}

/// Direction of the automatic cursor advance after each data byte.
#[derive(Clone, Copy, PartialEq, Eq, Structural, Debug)]
pub enum AddressingMode {
    Horizontal,
    Vertical,
}

/// Which command family the next command bytes belong to.
#[derive(Clone, Copy, PartialEq, Eq, Structural, Debug)]
pub enum InstructionSet {
    Basic,
    Extended,
}

/// How the chip maps video memory to lit pixels.
#[derive(Clone, Copy, PartialEq, Eq, Structural, Debug)]
pub enum DisplayMode {
    Blank,
    Normal,
    Filled,
    Inverse,
}

} // verus!
