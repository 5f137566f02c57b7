//! The shared wire-format contract: the command byte grammar and the
//! electrical bit-serial encoding. The chip driver produces exactly these
//! bytes and pin events; the protocol decoder recognises exactly this
//! grammar. The round-trip lemmas at the end tie the two directions
//! together.

use crate::bits::nth_bit;
use crate::commands::{AddressingMode, ChipMode, DisplayMode, InstructionSet};
use vstd::prelude::*;

verus! {

/// The five signal lines of the bit-serial interface.
#[derive(Clone, Copy, PartialEq, Eq, Structural, Debug)]
pub enum Line {
    Reset,
    ChipSelect,
    DataCommand,
    DataIn,
    Clock,
}

/// One observable step on the wire: a line driven to a level, or a busy
/// delay of the given number of milliseconds.
#[derive(Clone, Copy, PartialEq, Eq, Structural, Debug)]
pub enum PinEvent {
    Level { line: Line, high: bool },
    DelayMs { ms: u16 },
}

/// A command byte decoded under the instruction set that was current while
/// it arrived. A byte matching no pattern is not a command and is ignored.
#[derive(Clone, Copy, PartialEq, Eq, Structural, Debug)]
pub enum Command {
    FunctionSet {
        chip_mode: ChipMode,
        addressing_mode: AddressingMode,
        instruction_set: InstructionSet,
    },
    DisplayControl(DisplayMode),
    SetYAddress(u8),
    SetXAddress(u8),
    TemperatureControl(u8),
    BiasSystem(u8),
    OperationVoltage(u8),
}

/// Parameter bit of the chip mode inside a function-set byte.
pub open spec fn chip_mode_bits(cm: ChipMode) -> u8 {
    match cm {
        ChipMode::Active => 0,
        ChipMode::PowerDown => 4,
    }
}

/// Parameter bit of the addressing mode inside a function-set byte.
pub open spec fn addressing_mode_bits(am: AddressingMode) -> u8 {
    match am {
        AddressingMode::Horizontal => 0,
        AddressingMode::Vertical => 2,
    }
}

/// Parameter bit of the instruction set inside a function-set byte.
pub open spec fn instruction_set_bits(is: InstructionSet) -> u8 {
    match is {
        InstructionSet::Basic => 0,
        InstructionSet::Extended => 1,
    }
}

/// The D and E bits of a display-control byte: D is bit 2, E is bit 0.
pub open spec fn display_mode_bits(dm: DisplayMode) -> u8 {
    match dm {
        DisplayMode::Blank => 0,
        DisplayMode::Normal => 4,
        DisplayMode::Filled => 1,
        DisplayMode::Inverse => 5,
    }
}

/// Function-set command byte: `0x20` plus the three mode bits.
pub open spec fn encode_function_set(
    cm: ChipMode,
    am: AddressingMode,
    is: InstructionSet,
) -> u8 {
    (32 + chip_mode_bits(cm) + addressing_mode_bits(am) + instruction_set_bits(is)) as u8
}

/// Display-control command byte: `0x08` plus the D and E bits.
pub open spec fn encode_display_control(dm: DisplayMode) -> u8 {
    (8 + display_mode_bits(dm)) as u8
}

/// Set-Y-address command byte: `0x40` plus the page.
pub open spec fn encode_set_y(page: u8) -> u8 {
    (64 + page) as u8
}

/// Set-X-address command byte: `0x80` plus the column.
pub open spec fn encode_set_x(column: u8) -> u8 {
    (128 + column) as u8
}

/// Temperature-control command byte: `0x04` plus the coefficient.
pub open spec fn encode_temperature(coeff: u8) -> u8 {
    (4 + coeff) as u8
}

/// Bias-system command byte: `0x10` plus the coefficient.
pub open spec fn encode_bias(coeff: u8) -> u8 {
    (16 + coeff) as u8
}

/// Operation-voltage command byte: `0x80` plus the voltage.
pub open spec fn encode_voltage(voltage: u8) -> u8 {
    (128 + voltage) as u8
}

/// The command a completed byte means under the given instruction set, or
/// nothing when it matches no pattern of the grammar. The command family is
/// selected by the highest set bit; the remaining bits carry the
/// parameters, read here by division and remainder.
pub open spec fn spec_decode(b: u8, iset: InstructionSet) -> Option<Command> {
    let extended = iset == InstructionSet::Extended;
    if 32 <= b && b < 40 {
        Some(Command::FunctionSet {
            chip_mode: if (b / 4) % 2 == 1 {
                ChipMode::PowerDown
            } else {
                ChipMode::Active
            },
            addressing_mode: if (b / 2) % 2 == 1 {
                AddressingMode::Vertical
            } else {
                AddressingMode::Horizontal
            },
            instruction_set: if b % 2 == 1 {
                InstructionSet::Extended
            } else {
                InstructionSet::Basic
            },
        })
    } else if !extended && 8 <= b && b < 16 && (b / 2) % 2 == 0 {
        Some(
            Command::DisplayControl(
                if (b / 4) % 2 == 1 {
                    if b % 2 == 1 {
                        DisplayMode::Inverse
                    } else {
                        DisplayMode::Normal
                    }
                } else {
                    if b % 2 == 1 {
                        DisplayMode::Filled
                    } else {
                        DisplayMode::Blank
                    }
                },
            ),
        )
    } else if !extended && 64 <= b && b < 72 {
        Some(Command::SetYAddress((b - 64) as u8))
    } else if !extended && b >= 128 {
        Some(Command::SetXAddress((b - 128) as u8))
    } else if extended && 4 <= b && b < 8 {
        Some(Command::TemperatureControl((b - 4) as u8))
    } else if extended && 16 <= b && b < 24 {
        Some(Command::BiasSystem((b - 16) as u8))
    } else if extended && b >= 128 {
        Some(Command::OperationVoltage((b - 128) as u8))
    } else {
        None
    }
}

/// Decodes a completed byte under the given instruction set.
pub fn decode_command(b: u8, iset: InstructionSet) -> (r: Option<Command>)
    ensures
        r == spec_decode(b, iset),
{
    let extended = matches!(iset, InstructionSet::Extended);
    if 32 <= b && b < 40 {
        Some(Command::FunctionSet {
            chip_mode: if (b / 4) % 2 == 1 {
                ChipMode::PowerDown
            } else {
                ChipMode::Active
            },
            addressing_mode: if (b / 2) % 2 == 1 {
                AddressingMode::Vertical
            } else {
                AddressingMode::Horizontal
            },
            instruction_set: if b % 2 == 1 {
                InstructionSet::Extended
            } else {
                InstructionSet::Basic
            },
        })
    } else if !extended && 8 <= b && b < 16 && (b / 2) % 2 == 0 {
        let d = (b / 4) % 2 == 1;
        let e = b % 2 == 1;
        Some(
            Command::DisplayControl(
                if d && e {
                    DisplayMode::Inverse
                } else if d {
                    DisplayMode::Normal
                } else if e {
                    DisplayMode::Filled
                } else {
                    DisplayMode::Blank
                },
            ),
        )
    } else if !extended && 64 <= b && b < 72 {
        Some(Command::SetYAddress(b - 64))
    } else if !extended && b >= 128 {
        Some(Command::SetXAddress(b - 128))
    } else if extended && 4 <= b && b < 8 {
        Some(Command::TemperatureControl(b - 4))
    } else if extended && 16 <= b && b < 24 {
        Some(Command::BiasSystem(b - 16))
    } else if extended && b >= 128 {
        Some(Command::OperationVoltage(b - 128))
    } else {
        None
    }
}

/// Decoding a function-set byte gives back the three modes that were
/// encoded, whatever instruction set is current.
pub proof fn lemma_function_set_round_trip(
    cm: ChipMode,
    am: AddressingMode,
    is: InstructionSet,
    cur: InstructionSet,
)
    ensures
        spec_decode(encode_function_set(cm, am, is), cur) == Some(
            Command::FunctionSet { chip_mode: cm, addressing_mode: am, instruction_set: is },
        ),
{
}

/// Decoding a display-control byte under the basic instruction set gives
/// back the encoded display mode.
pub proof fn lemma_display_control_round_trip(dm: DisplayMode)
    ensures
        spec_decode(encode_display_control(dm), InstructionSet::Basic) == Some(
            Command::DisplayControl(dm),
        ),
{
}

/// Decoding a set-Y-address byte under the basic instruction set gives back
/// the encoded page.
pub proof fn lemma_set_y_round_trip(page: u8)
    requires
        page < 6,
    ensures
        spec_decode(encode_set_y(page), InstructionSet::Basic) == Some(
            Command::SetYAddress(page),
        ),
{
}

/// Decoding a set-X-address byte under the basic instruction set gives back
/// the encoded column.
pub proof fn lemma_set_x_round_trip(column: u8)
    requires
        column < 84,
    ensures
        spec_decode(encode_set_x(column), InstructionSet::Basic) == Some(
            Command::SetXAddress(column),
        ),
{
}

/// Decoding a temperature-control byte under the extended instruction set
/// gives back the encoded coefficient.
pub proof fn lemma_temperature_round_trip(coeff: u8)
    requires
        coeff < 4,
    ensures
        spec_decode(encode_temperature(coeff), InstructionSet::Extended) == Some(
            Command::TemperatureControl(coeff),
        ),
{
}

/// Decoding a bias-system byte under the extended instruction set gives
/// back the encoded coefficient.
pub proof fn lemma_bias_round_trip(coeff: u8)
    requires
        coeff < 8,
    ensures
        spec_decode(encode_bias(coeff), InstructionSet::Extended) == Some(
            Command::BiasSystem(coeff),
        ),
{
}

/// Decoding an operation-voltage byte under the extended instruction set
/// gives back the encoded voltage.
pub proof fn lemma_voltage_round_trip(voltage: u8)
    requires
        voltage < 128,
    ensures
        spec_decode(encode_voltage(voltage), InstructionSet::Extended) == Some(
            Command::OperationVoltage(voltage),
        ),
{
}

/// The three pin events that transfer bit `k` of a byte, where bit 0 goes
/// first and carries the most significant bit: drive the data line to the
/// bit, pulse the clock high, then low.
pub open spec fn bit_events(b: u8, k: int) -> Seq<PinEvent> {
    seq![
        PinEvent::Level { line: Line::DataIn, high: nth_bit(b, (7 - k) as u8) },
        PinEvent::Level { line: Line::Clock, high: true },
        PinEvent::Level { line: Line::Clock, high: false },
    ]
}

/// Events transferring bits `k .. 8` of `b`, most significant first.
pub open spec fn bits_events(b: u8, k: int) -> Seq<PinEvent>
    decreases 8 - k,
{
    if k < 0 || k >= 8 {
        Seq::empty()
    } else {
        bit_events(b, k) + bits_events(b, k + 1)
    }
}

/// Events transferring bits `0 .. k` of `b`.
pub open spec fn bits_events_upto(b: u8, k: int) -> Seq<PinEvent>
    decreases k,
{
    if k <= 0 {
        Seq::empty()
    } else {
        bits_events_upto(b, k - 1) + bit_events(b, k - 1)
    }
}

/// The first `k` bit transfers followed by the remaining ones make up the
/// whole byte transfer.
pub proof fn lemma_bits_events_split(b: u8, k: int)
    requires
        0 <= k <= 8,
    ensures
        bits_events_upto(b, k) + bits_events(b, k) == bits_events(b, 0),
    decreases k,
{
    if k == 0 {
        assert(bits_events_upto(b, 0) + bits_events(b, 0) =~= bits_events(b, 0));
    } else {
        lemma_bits_events_split(b, k - 1);
        assert(bits_events_upto(b, k) + bits_events(b, k) =~= bits_events_upto(b, k - 1)
            + (bit_events(b, k - 1) + bits_events(b, k)));
        assert(bit_events(b, k - 1) + bits_events(b, k) == bits_events(b, k - 1));
    }
}

/// The full pin-event sequence of one byte transfer: assert chip select,
/// select data or command, shift the eight bits, release chip select. The
/// chip-select line stays asserted for the whole transfer.
pub open spec fn byte_events(b: u8, is_data: bool) -> Seq<PinEvent> {
    seq![
        PinEvent::Level { line: Line::ChipSelect, high: false },
        PinEvent::Level { line: Line::DataCommand, high: is_data },
    ] + bits_events(b, 0) + seq![PinEvent::Level { line: Line::ChipSelect, high: true }]
}

/// The reset sequence: raise reset and chip select, hold, drive reset low,
/// hold, then re-assert reset high and chip select low.
pub open spec fn reset_events() -> Seq<PinEvent> {
    seq![
        PinEvent::Level { line: Line::Reset, high: true },
        PinEvent::Level { line: Line::ChipSelect, high: true },
        PinEvent::DelayMs { ms: 10 },
        PinEvent::Level { line: Line::Reset, high: false },
        PinEvent::DelayMs { ms: 70 },
        PinEvent::Level { line: Line::Reset, high: true },
        PinEvent::Level { line: Line::ChipSelect, high: false },
    ]
}

} // verus!
