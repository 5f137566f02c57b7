//! The chip driver: turns high-level operations into the bit-serial pin
//! events of the wire protocol. Every operation appends the exact event
//! sequence of one command or data byte to the driver's outgoing event
//! stream; the surrounding application replays that stream onto the
//! physical output pins.

use crate::codec::{
    byte_events, encode_bias, encode_display_control, encode_function_set, encode_set_x,
    encode_set_y, encode_temperature, encode_voltage, reset_events, Line, PinEvent,
};
use crate::codec::{bits_events, bits_events_upto, lemma_bits_events_split};
use crate::commands::{AddressingMode, ChipMode, DisplayMode, InstructionSet};
use crate::pins::DigitalPin;
use vstd::prelude::*;

pub mod builder;

verus! {

/// Driver of the LCD-10168 chip. It owns the wiring of the five signal
/// roles, tracks which instruction set its commands have selected, and
/// collects the pin events its operations produce.
///
/// The basic-only and extended-only operations demand the right current
/// instruction set from the caller; the chip itself never reports an error,
/// so the obligation is checked statically here instead.
pub struct Lcd10168 {
    pub rst: DigitalPin,
    pub sce: DigitalPin,
    pub dc: DigitalPin,
    pub din: DigitalPin,
    pub clk: DigitalPin,
    pub instruction_set: InstructionSet,
    pub events: Vec<PinEvent>,
}

/// The two drivers are wired to the same pins.
pub open spec fn same_wiring(a: Lcd10168, b: Lcd10168) -> bool {
    &&& a.rst == b.rst
    &&& a.sce == b.sce
    &&& a.dc == b.dc
    &&& a.din == b.din
    &&& a.clk == b.clk
}

impl Lcd10168 {
    /// Appends the reset pin sequence: both holds are observed by the
    /// replaying side through the delay events. Only display memory is
    /// cleared by a chip reset, so the tracked instruction set is kept.
    pub fn reset(&mut self)
        ensures
            final(self).events@ == old(self).events@ + reset_events(),
            same_wiring(*final(self), *old(self)),
            final(self).instruction_set == old(self).instruction_set,
    {
        self.events.push(PinEvent::Level { line: Line::Reset, high: true });
        self.events.push(PinEvent::Level { line: Line::ChipSelect, high: true });
        self.events.push(PinEvent::DelayMs { ms: 10 });
        self.events.push(PinEvent::Level { line: Line::Reset, high: false });
        self.events.push(PinEvent::DelayMs { ms: 70 });
        self.events.push(PinEvent::Level { line: Line::Reset, high: true });
        self.events.push(PinEvent::Level { line: Line::ChipSelect, high: false });
        proof {
            assert(self.events@ =~= old(self).events@ + reset_events());
        }
    }

    /// Sends the function-set command, which selects the chip mode, the
    /// addressing mode and the instruction set at once.
    pub fn function_set(
        &mut self,
        chip_mode: ChipMode,
        addressing_mode: AddressingMode,
        instruction_set: InstructionSet,
    )
        ensures
            final(self).events@ == old(self).events@ + byte_events(
                encode_function_set(chip_mode, addressing_mode, instruction_set),
                false,
            ),
            same_wiring(*final(self), *old(self)),
            final(self).instruction_set == instruction_set,
    {
        let cm: u8 = match chip_mode {
            ChipMode::Active => 0,
            ChipMode::PowerDown => 4,
        };
        let am: u8 = match addressing_mode {
            AddressingMode::Horizontal => 0,
            AddressingMode::Vertical => 2,
        };
        let is: u8 = match instruction_set {
            InstructionSet::Basic => 0,
            InstructionSet::Extended => 1,
        };
        self.write_command(32 + cm + am + is);
        self.instruction_set = instruction_set;
    }

    /// Sends the command that sets the X address (the cursor column) of the
    /// display RAM. Demands the basic instruction set and a column inside
    /// the display.
    pub fn set_x_cursor(&mut self, x: u8)
        requires
            old(self).instruction_set == InstructionSet::Basic,
            x < 84,
        ensures
            final(self).events@ == old(self).events@ + byte_events(encode_set_x(x), false),
            same_wiring(*final(self), *old(self)),
            final(self).instruction_set == old(self).instruction_set,
    {
        self.write_command(128 + x);
    }

    /// Sends the command that sets the Y address (the cursor page) of the
    /// display RAM. Demands the basic instruction set and a page inside the
    /// display.
    pub fn set_y_cursor(&mut self, y: u8)
        requires
            old(self).instruction_set == InstructionSet::Basic,
            y < 6,
        ensures
            final(self).events@ == old(self).events@ + byte_events(encode_set_y(y), false),
            same_wiring(*final(self), *old(self)),
            final(self).instruction_set == old(self).instruction_set,
    {
        self.write_command(64 + y);
    }

    /// Sends the display-control command. Demands the basic instruction
    /// set.
    pub fn set_display_mode(&mut self, display_mode: DisplayMode)
        requires
            old(self).instruction_set == InstructionSet::Basic,
        ensures
            final(self).events@ == old(self).events@ + byte_events(
                encode_display_control(display_mode),
                false,
            ),
            same_wiring(*final(self), *old(self)),
            final(self).instruction_set == old(self).instruction_set,
    {
        let dm: u8 = match display_mode {
            DisplayMode::Blank => 0,
            DisplayMode::Normal => 4,
            DisplayMode::Filled => 1,
            DisplayMode::Inverse => 5,
        };
        self.write_command(8 + dm);
    }

    /// Sends the bias-system command. Demands the extended instruction set
    /// and a coefficient below 8.
    pub fn set_bias_voltage_coefficient(&mut self, coeff: u8)
        requires
            old(self).instruction_set == InstructionSet::Extended,
            coeff < 8,
        ensures
            final(self).events@ == old(self).events@ + byte_events(encode_bias(coeff), false),
            same_wiring(*final(self), *old(self)),
            final(self).instruction_set == old(self).instruction_set,
    {
        self.write_command(16 + coeff);
    }

    /// Sends the temperature-control command. Demands the extended
    /// instruction set and a coefficient below 4.
    pub fn set_temperature_coefficient(&mut self, coeff: u8)
        requires
            old(self).instruction_set == InstructionSet::Extended,
            coeff < 4,
        ensures
            final(self).events@ == old(self).events@ + byte_events(
                encode_temperature(coeff),
                false,
            ),
            same_wiring(*final(self), *old(self)),
            final(self).instruction_set == old(self).instruction_set,
    {
        self.write_command(4 + coeff);
    }

    /// Sends the operation-voltage command. Demands the extended
    /// instruction set and a voltage below 128.
    pub fn set_operation_voltage(&mut self, voltage: u8)
        requires
            old(self).instruction_set == InstructionSet::Extended,
            voltage < 128,
        ensures
            final(self).events@ == old(self).events@ + byte_events(encode_voltage(voltage), false),
            same_wiring(*final(self), *old(self)),
            final(self).instruction_set == old(self).instruction_set,
    {
        self.write_command(128 + voltage);
    }

    /// Writes one byte of display data at the chip's cursor.
    pub fn write_data(&mut self, data: u8)
        ensures
            final(self).events@ == old(self).events@ + byte_events(data, true),
            same_wiring(*final(self), *old(self)),
            final(self).instruction_set == old(self).instruction_set,
    {
        self.write(data, true);
    }

    /// Writes one command byte.
    fn write_command(&mut self, data: u8)
        ensures
            final(self).events@ == old(self).events@ + byte_events(data, false),
            same_wiring(*final(self), *old(self)),
            final(self).instruction_set == old(self).instruction_set,
    {
        self.write(data, false);
    }

    /// Serialises one byte transfer: chip select asserted for the whole
    /// byte, data/command chosen up front, then the eight bits most
    /// significant first, each with one clock pulse.
    #[verifier::loop_isolation(false)]
    fn write(&mut self, value: u8, is_data: bool)
        ensures
            final(self).events@ == old(self).events@ + byte_events(value, is_data),
            same_wiring(*final(self), *old(self)),
            final(self).instruction_set == old(self).instruction_set,
    {
        self.events.push(PinEvent::Level { line: Line::ChipSelect, high: false });
        self.events.push(PinEvent::Level { line: Line::DataCommand, high: is_data });
        let ghost head = self.events@;
        let mut i: u8 = 0;
        while i < 8
            invariant
                i <= 8,
                self.events@ == head + bits_events_upto(value, i as int),
                same_wiring(*self, *old(self)),
                self.instruction_set == old(self).instruction_set,
            decreases 8 - i,
        {
            let bit = value >> (7 - i) & 1 == 1;
            self.events.push(PinEvent::Level { line: Line::DataIn, high: bit });
            self.events.push(PinEvent::Level { line: Line::Clock, high: true });
            self.events.push(PinEvent::Level { line: Line::Clock, high: false });
            proof {
                assert(bit == crate::bits::nth_bit(value, (7 - i as int) as u8));
                assert(self.events@ =~= head + bits_events_upto(value, i as int + 1));
            }
            i = i + 1;
        }
        self.events.push(PinEvent::Level { line: Line::ChipSelect, high: true });
        proof {
            lemma_bits_events_split(value, 8);
            assert(bits_events_upto(value, 8) + bits_events(value, 8) =~= bits_events_upto(
                value,
                8,
            ));
            assert(self.events@ =~= old(self).events@ + byte_events(value, is_data));
        }
    }
}

} // verus!
