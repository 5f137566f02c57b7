//! The I/O-control selectors of the virtual microcontroller host, encoded
//! as the four-character big-endian tags its interface expects.

use vstd::prelude::*;

verus! {

/// A request selector addressed to the virtual microcontroller: which
/// interrupt line or flag set of which port or UART is meant.
#[derive(Clone, Copy, PartialEq, Eq, Structural, Debug)]
pub enum IoCtl {
    AdcGetIrq,
    IoPortGetIrq { port: char },
    IoPortGetState { port: char },
    UartGetFlags { uart: char },
    UartGetIrq { uart: char },
    UartSetFlags { uart: char },
}

/// The numeric value of a four-byte tag read big-endian.
pub open spec fn tag_value(b0: u8, b1: u8, b2: u8, b3: u8) -> u32 {
    (b0 as u32 * 0x1000000 + b1 as u32 * 0x10000 + b2 as u32 * 0x100 + b3 as u32) as u32
}

/// The low byte of a character, as a `u32`.
pub open spec fn low_byte(c: char) -> u32 {
    (c as u32) % 256
}

impl IoCtl {
    /// The tag of this selector: three fixed letters naming the request and
    /// one byte naming the port or UART, packed big-endian.
    pub open spec fn spec_into_ffi(self) -> u32 {
        match self {
            IoCtl::AdcGetIrq => tag_value(97, 100, 99, 48),
            IoCtl::IoPortGetIrq { port } => (tag_value(105, 111, 103, 0) + low_byte(port)) as u32,
            IoCtl::IoPortGetState { port } => (tag_value(105, 111, 115, 0) + low_byte(port)) as u32,
            IoCtl::UartGetFlags { uart } => (tag_value(117, 97, 103, 0) + low_byte(uart)) as u32,
            IoCtl::UartGetIrq { uart } => (tag_value(117, 97, 114, 0) + low_byte(uart)) as u32,
            IoCtl::UartSetFlags { uart } => (tag_value(117, 97, 115, 0) + low_byte(uart)) as u32,
        }
    }

    /// Packs this selector into the numeric form the host interface takes.
    pub fn into_ffi(self) -> (r: u32)
        ensures
            r == self.spec_into_ffi(),
    {
        match self {
            IoCtl::AdcGetIrq => 97 * 0x1000000 + 100 * 0x10000 + 99 * 0x100 + 48,
            IoCtl::IoPortGetIrq { port } => {
                105 * 0x1000000 + 111 * 0x10000 + 103 * 0x100 + (port as u32) % 256
            },
            IoCtl::IoPortGetState { port } => {
                105 * 0x1000000 + 111 * 0x10000 + 115 * 0x100 + (port as u32) % 256
            },
            IoCtl::UartGetFlags { uart } => {
                117 * 0x1000000 + 97 * 0x10000 + 103 * 0x100 + (uart as u32) % 256
            },
            IoCtl::UartGetIrq { uart } => {
                117 * 0x1000000 + 97 * 0x10000 + 114 * 0x100 + (uart as u32) % 256
            },
            IoCtl::UartSetFlags { uart } => {
                117 * 0x1000000 + 97 * 0x10000 + 115 * 0x100 + (uart as u32) % 256
            },
        }
    }
}

} // verus!
