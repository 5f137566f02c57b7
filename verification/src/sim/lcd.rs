//! The protocol decoder: reconstructs the chip's register state and video
//! memory from the pin transitions it observes, the mirror image of the
//! chip driver. Every transition is specified by a pure function on
//! `DecoderView`, and every exec step is proved equal to it.

use crate::bits::nth_bit;
use crate::codec::{decode_command, spec_decode, Command, Line, PinEvent};
use crate::commands::{AddressingMode, ChipMode, DisplayMode, InstructionSet};
use crate::{COLUMNS, HEIGHT};
use vstd::prelude::*;

verus! {

/// Whether a completed byte commits as display data or as a command.
#[derive(Clone, Copy, PartialEq, Eq, Structural, Debug)]
pub enum Mode {
    Data,
    Command,
}

/// The decoder's shift register: an eight-bit accumulator and the count of
/// bits shifted into the current byte.
#[derive(Clone, Copy, PartialEq, Eq, Structural, Debug)]
pub struct Register {
    pub data: u8,
    pub counter: u8,
}

/// The mathematical state of the modeled chip: the gating pins, the shift
/// register, the replica register file and the video memory.
#[verifier::ext_equal]
pub struct DecoderView {
    pub is_chip_enabled: bool,
    pub mode: Mode,
    pub register: Register,
    pub data_in: bool,
    pub chip_mode: ChipMode,
    pub addressing_mode: AddressingMode,
    pub instruction_set: InstructionSet,
    pub display_mode: DisplayMode,
    pub x: u8,
    pub y: u8,
    pub temperature_coefficient: u8,
    pub bias_voltage_coefficient: u8,
    pub operation_voltage: u8,
    pub video: Seq<bool>,
}

impl DecoderView {
    /// The video memory has one cell per pixel and the bit counter never
    /// runs past a byte.
    pub open spec fn wf(self) -> bool {
        self.video.len() == 4032 && self.register.counter <= 8
    }

    /// The state right after power-on: everything cleared, chip select
    /// deasserted, horizontal addressing, basic instruction set.
    pub open spec fn initial() -> DecoderView {
        DecoderView {
            is_chip_enabled: false,
            mode: Mode::Command,
            register: Register { data: 0, counter: 0 },
            data_in: false,
            chip_mode: ChipMode::Active,
            addressing_mode: AddressingMode::Horizontal,
            instruction_set: InstructionSet::Basic,
            display_mode: DisplayMode::Blank,
            x: 0,
            y: 0,
            temperature_coefficient: 0,
            bias_voltage_coefficient: 0,
            operation_voltage: 0,
            video: Seq::new(4032, |i: int| false),
        }
    }
}

/// One shift of the register: a counter that had completed a byte restarts
/// at zero, then the new bit enters from the right.
pub open spec fn shift_spec(r: Register, bit: bool) -> Register {
    let c = if r.counter == 8 {
        0u8
    } else {
        r.counter
    };
    Register {
        data: ((r.data % 128) * 2 + (if bit {
            1u8
        } else {
            0u8
        })) as u8,
        counter: (c + 1) as u8,
    }
}

/// The completed byte, if eight bits have been shifted in.
pub open spec fn try_data_spec(r: Register) -> Option<u8> {
    if r.counter == 8 {
        Some(r.data)
    } else {
        None
    }
}

/// The command the completed byte means under the given instruction set.
pub open spec fn try_command_spec(r: Register, iset: InstructionSet) -> Option<Command> {
    if r.counter == 8 {
        spec_decode(r.data, iset)
    } else {
        None
    }
}

/// Effect of a decoded command on the replica register file.
pub open spec fn apply_command_spec(d: DecoderView, c: Command) -> DecoderView {
    match c {
        Command::FunctionSet { chip_mode, addressing_mode, instruction_set } => DecoderView {
            chip_mode,
            addressing_mode,
            instruction_set,
            ..d
        },
        Command::DisplayControl(dm) => DecoderView { display_mode: dm, ..d },
        Command::SetYAddress(page) => DecoderView { y: page, ..d },
        Command::SetXAddress(column) => DecoderView { x: column, ..d },
        Command::TemperatureControl(tc) => DecoderView { temperature_coefficient: tc, ..d },
        Command::BiasSystem(bs) => DecoderView { bias_voltage_coefficient: bs, ..d },
        Command::OperationVoltage(v) => DecoderView { operation_voltage: v, ..d },
    }
}

/// The cursor after one data byte: horizontal addressing walks the
/// columns, wrapping to the next page at the last one; vertical addressing
/// walks the pages, wrapping to the next column. A cursor at or past the
/// last column or page wraps the same way.
pub open spec fn advance_cursor(am: AddressingMode, x: u8, y: u8) -> (u8, u8) {
    match am {
        AddressingMode::Horizontal => if x < 83 {
            ((x + 1) as u8, y)
        } else {
            (0u8, if y < 5 {
                (y + 1) as u8
            } else {
                0u8
            })
        },
        AddressingMode::Vertical => if y < 5 {
            (x, (y + 1) as u8)
        } else {
            (if x < 83 {
                (x + 1) as u8
            } else {
                0u8
            }, 0u8)
        },
    }
}

/// Effect of a data byte: its eight bits fill the eight rows of the page
/// under the cursor (bit 0 in the topmost row), then the cursor advances.
/// A cursor outside the display writes nothing and only advances.
pub open spec fn apply_data_spec(d: DecoderView, b: u8) -> DecoderView {
    let video2 = if d.x < 84 && d.y < 6 {
        Seq::new(
            d.video.len(),
            |i: int|
                if i % 84 == d.x as int && d.y as int * 8 <= i / 84 < d.y as int * 8 + 8 {
                    nth_bit(b, (i / 84 - d.y as int * 8) as u8)
                } else {
                    d.video[i]
                },
        )
    } else {
        d.video
    };
    let xy = advance_cursor(d.addressing_mode, d.x, d.y);
    DecoderView { video: video2, x: xy.0, y: xy.1, ..d }
}

/// Dispatch of a completed byte: data bytes go to video memory, command
/// bytes through the grammar; a byte that is no command changes nothing.
pub open spec fn dispatch_spec(d: DecoderView) -> DecoderView {
    match d.mode {
        Mode::Data => match try_data_spec(d.register) {
            Some(b) => apply_data_spec(d, b),
            None => d,
        },
        Mode::Command => match try_command_spec(d.register, d.instruction_set) {
            Some(c) => apply_command_spec(d, c),
            None => d,
        },
    }
}

/// One clock rising edge: shift the current data-in level into the
/// register, then dispatch if that completed a byte.
pub open spec fn update_spec(d: DecoderView) -> DecoderView {
    dispatch_spec(DecoderView { register: shift_spec(d.register, d.data_in), ..d })
}

/// A reset assertion (active low) clears the video memory and nothing
/// else; the register file keeps its values.
pub open spec fn reset_spec(d: DecoderView, high: bool) -> DecoderView {
    if high {
        d
    } else {
        DecoderView { video: Seq::new(d.video.len(), |i: int| false), ..d }
    }
}

/// Effect of one observed pin event on the decoder. Chip select and reset
/// are active low; clock edges count only while chip select is asserted;
/// delays change nothing.
pub open spec fn pin_spec(d: DecoderView, ev: PinEvent) -> DecoderView {
    match ev {
        PinEvent::Level { line, high } => match line {
            Line::Reset => reset_spec(d, high),
            Line::ChipSelect => DecoderView { is_chip_enabled: !high, ..d },
            Line::DataCommand => DecoderView {
                mode: if high {
                    Mode::Data
                } else {
                    Mode::Command
                },
                ..d
            },
            Line::DataIn => DecoderView { data_in: high, ..d },
            Line::Clock => if high && d.is_chip_enabled {
                update_spec(d)
            } else {
                d
            },
        },
        PinEvent::DelayMs { .. } => d,
    }
}

/// The decoder state after a whole sequence of pin events.
pub open spec fn run_spec(d: DecoderView, evs: Seq<PinEvent>) -> DecoderView
    decreases evs.len(),
{
    if evs.len() == 0 {
        d
    } else {
        run_spec(pin_spec(d, evs[0]), evs.drop_first())
    }
}

impl Register {
    /// Shifts one bit into the accumulator, restarting the counter when
    /// the previous byte had completed.
    pub fn shift_in(&mut self, bit: bool)
        requires
            old(self).counter <= 8,
        ensures
            *final(self) == shift_spec(*old(self), bit),
            final(self).counter <= 8,
    {
        if self.counter == 8 {
            self.counter = 0;
        }
        self.data = (self.data % 128) * 2 + if bit {
            1
        } else {
            0
        };
        self.counter = self.counter + 1;
    }

    /// The completed byte, if eight bits have been shifted in.
    pub fn try_data(&self) -> (r: Option<u8>)
        ensures
            r == try_data_spec(*self),
    {
        if self.counter == 8 {
            Some(self.data)
        } else {
            None
        }
    }

    /// The command the completed byte means under the given instruction
    /// set, if it matches the grammar.
    pub fn try_command(&self, iset: InstructionSet) -> (r: Option<Command>)
        ensures
            r == try_command_spec(*self, iset),
    {
        match self.try_data() {
            Some(b) => decode_command(b, iset),
            None => None,
        }
    }
}

/// The modeled chip: replica registers, shift register and video memory.
pub struct State {
    pub is_chip_enabled: bool,
    pub mode: Mode,
    pub register: Register,
    pub data_in: bool,
    pub chip_mode: ChipMode,
    pub addressing_mode: AddressingMode,
    pub instruction_set: InstructionSet,
    pub display_mode: DisplayMode,
    pub x: u8,
    pub y: u8,
    pub temperature_coefficient: u8,
    pub bias_voltage_coefficient: u8,
    pub operation_voltage: u8,
    pub video_memory: Vec<bool>,
}

impl View for State {
    type V = DecoderView;

    open spec fn view(&self) -> DecoderView {
        DecoderView {
            is_chip_enabled: self.is_chip_enabled,
            mode: self.mode,
            register: self.register,
            data_in: self.data_in,
            chip_mode: self.chip_mode,
            addressing_mode: self.addressing_mode,
            instruction_set: self.instruction_set,
            display_mode: self.display_mode,
            x: self.x,
            y: self.y,
            temperature_coefficient: self.temperature_coefficient,
            bias_voltage_coefficient: self.bias_voltage_coefficient,
            operation_voltage: self.operation_voltage,
            video: self.video_memory@,
        }
    }
}

/// A video memory of `n` cells, all dark.
fn dark_video(n: usize) -> (v: Vec<bool>)
    ensures
        v@ == Seq::new(n as nat, |i: int| false),
{
    let mut v: Vec<bool> = Vec::new();
    let mut i: usize = 0;
    while i < n
        invariant
            i <= n,
            v@.len() == i,
            forall|k: int| 0 <= k < i ==> !v@[k],
        decreases n - i,
    {
        v.push(false);
        i = i + 1;
    }
    proof {
        assert(v@ =~= Seq::new(n as nat, |i: int| false));
    }
    v
}

impl State {
    /// The power-on state.
    pub fn new() -> (r: State)
        ensures
            r@ == DecoderView::initial(),
            r@.wf(),
    {
        let r = State {
            is_chip_enabled: false,
            mode: Mode::Command,
            register: Register { data: 0, counter: 0 },
            data_in: false,
            chip_mode: ChipMode::Active,
            addressing_mode: AddressingMode::Horizontal,
            instruction_set: InstructionSet::Basic,
            display_mode: DisplayMode::Blank,
            x: 0,
            y: 0,
            temperature_coefficient: 0,
            bias_voltage_coefficient: 0,
            operation_voltage: 0,
            video_memory: dark_video(COLUMNS * HEIGHT),
        };
        proof {
            assert(r@ =~= DecoderView::initial());
        }
        r
    }

    /// Expands a data byte into the eight pixel rows of the page under the
    /// cursor (a cursor outside the display writes nothing), then advances
    /// the cursor per the addressing mode.
    pub fn update_video_memory(&mut self, data: u8)
        requires
            old(self)@.wf(),
        ensures
            final(self)@ == apply_data_spec(old(self)@, data),
            final(self)@.wf(),
    {
        if self.x < 84 && self.y < 6 {
            let base: usize = (self.y as usize) * 8;
            let xcol: usize = self.x as usize;
            let mut n: usize = 0;
            while n < 8
                invariant
                    n <= 8,
                    old(self)@.wf(),
                    self.x == old(self).x,
                    self.y == old(self).y,
                    self.x < 84,
                    self.y < 6,
                    base == self.y as int * 8,
                    xcol == self.x as int,
                    self.is_chip_enabled == old(self).is_chip_enabled,
                    self.mode == old(self).mode,
                    self.register == old(self).register,
                    self.data_in == old(self).data_in,
                    self.chip_mode == old(self).chip_mode,
                    self.addressing_mode == old(self).addressing_mode,
                    self.instruction_set == old(self).instruction_set,
                    self.display_mode == old(self).display_mode,
                    self.temperature_coefficient == old(self).temperature_coefficient,
                    self.bias_voltage_coefficient == old(self).bias_voltage_coefficient,
                    self.operation_voltage == old(self).operation_voltage,
                    self.video_memory@.len() == 4032,
                    forall|i: int|
                        0 <= i < 4032 ==> self.video_memory@[i] == (if i % 84 == xcol as int && base
                            as int <= i / 84 < base as int + n {
                            nth_bit(data, (i / 84 - base) as u8)
                        } else {
                            old(self).video_memory@[i]
                        }),
                decreases 8 - n,
            {
                let row = base + n;
                let i = row * 84 + xcol;
                assert(i < 4032);
                let bit = data >> (n as u8) & 1 == 1;
                self.video_memory.set(i, bit);
                proof {
                    assert(nth_bit(data, (i as int / 84 - base) as u8) == bit);
                }
                n = n + 1;
            }
        }
        match self.addressing_mode {
            AddressingMode::Horizontal => {
                if self.x < 83 {
                    self.x = self.x + 1;
                } else {
                    self.x = 0;
                    if self.y < 5 {
                        self.y = self.y + 1;
                    } else {
                        self.y = 0;
                    }
                }
            },
            AddressingMode::Vertical => {
                if self.y < 5 {
                    self.y = self.y + 1;
                } else {
                    self.y = 0;
                    if self.x < 83 {
                        self.x = self.x + 1;
                    } else {
                        self.x = 0;
                    }
                }
            },
        }
        proof {
            assert(self@ =~= apply_data_spec(old(self)@, data));
        }
    }

    /// One clock rising edge with chip select asserted: shift the current
    /// data-in level into the register; when that completes a byte,
    /// dispatch it as data or as a command.
    pub fn update(&mut self)
        requires
            old(self)@.wf(),
        ensures
            final(self)@ == update_spec(old(self)@),
            final(self)@.wf(),
    {
        let bit = self.data_in;
        self.register.shift_in(bit);
        match self.mode {
            Mode::Command => {
                match self.register.try_command(self.instruction_set) {
                    Some(c) => match c {
                        Command::FunctionSet { chip_mode, addressing_mode, instruction_set } => {
                            self.chip_mode = chip_mode;
                            self.addressing_mode = addressing_mode;
                            self.instruction_set = instruction_set;
                        },
                        Command::DisplayControl(dm) => {
                            self.display_mode = dm;
                        },
                        Command::SetYAddress(page) => {
                            self.y = page;
                        },
                        Command::SetXAddress(column) => {
                            self.x = column;
                        },
                        Command::TemperatureControl(tc) => {
                            self.temperature_coefficient = tc;
                        },
                        Command::BiasSystem(bs) => {
                            self.bias_voltage_coefficient = bs;
                        },
                        Command::OperationVoltage(v) => {
                            self.operation_voltage = v;
                        },
                    },
                    None => {},
                }
                proof {
                    assert(self@ =~= update_spec(old(self)@));
                }
            },
            Mode::Data => {
                match self.register.try_data() {
                    Some(b) => {
                        self.update_video_memory(b);
                    },
                    None => {},
                }
                proof {
                    assert(self@ =~= update_spec(old(self)@));
                }
            },
        }
    }
}

/// The modeled LCD peripheral: owns the decoder state, takes pin events,
/// and answers pixel queries from the reconstructed video memory.
pub struct Lcd10168 {
    pub state: State,
}

impl Lcd10168 {
    /// A freshly powered-on modeled chip.
    pub fn new() -> (r: Lcd10168)
        ensures
            r.state@ == DecoderView::initial(),
            r.state@.wf(),
    {
        Lcd10168 { state: State::new() }
    }

    /// Level change of the reset line; the low level clears video memory.
    pub fn rst_changed(&mut self, high: bool)
        requires
            old(self).state@.wf(),
        ensures
            final(self).state@ == reset_spec(old(self).state@, high),
            final(self).state@.wf(),
    {
        if !high {
            self.state.video_memory = dark_video(COLUMNS * HEIGHT);
            proof {
                assert(self.state@ =~= reset_spec(old(self).state@, high));
            }
        }
    }

    /// Level change of the chip-select line, which is active low.
    pub fn sce_changed(&mut self, high: bool)
        requires
            old(self).state@.wf(),
        ensures
            final(self).state@ == (DecoderView { is_chip_enabled: !high, ..old(self).state@ }),
            final(self).state@.wf(),
    {
        self.state.is_chip_enabled = !high;
    }

    /// Level change of the data/command line: selects how the next
    /// completed byte commits.
    pub fn dc_changed(&mut self, high: bool)
        requires
            old(self).state@.wf(),
        ensures
            final(self).state@ == (DecoderView {
                mode: if high {
                    Mode::Data
                } else {
                    Mode::Command
                },
                ..old(self).state@
            }),
            final(self).state@.wf(),
    {
        self.state.mode = if high {
            Mode::Data
        } else {
            Mode::Command
        };
    }

    /// Level change of the data-in line.
    pub fn din_changed(&mut self, high: bool)
        requires
            old(self).state@.wf(),
        ensures
            final(self).state@ == (DecoderView { data_in: high, ..old(self).state@ }),
            final(self).state@.wf(),
    {
        self.state.data_in = high;
    }

    /// Level change of the clock line; a rising edge shifts while chip
    /// select is asserted.
    pub fn clk_changed(&mut self, high: bool)
        requires
            old(self).state@.wf(),
        ensures
            final(self).state@ == (if high && old(self).state@.is_chip_enabled {
                update_spec(old(self).state@)
            } else {
                old(self).state@
            }),
            final(self).state@.wf(),
    {
        if !high {
            return ;
        }
        if !self.state.is_chip_enabled {
            return ;
        }
        self.state.update();
    }

    /// Routes one observed pin event to its line.
    pub fn deliver(&mut self, ev: PinEvent)
        requires
            old(self).state@.wf(),
        ensures
            final(self).state@ == pin_spec(old(self).state@, ev),
            final(self).state@.wf(),
    {
        match ev {
            PinEvent::Level { line, high } => match line {
                Line::Reset => self.rst_changed(high),
                Line::ChipSelect => self.sce_changed(high),
                Line::DataCommand => self.dc_changed(high),
                Line::DataIn => self.din_changed(high),
                Line::Clock => self.clk_changed(high),
            },
            PinEvent::DelayMs { .. } => {},
        }
    }

    /// Replays a whole recorded event sequence, in order.
    pub fn deliver_all(&mut self, evs: &Vec<PinEvent>)
        requires
            old(self).state@.wf(),
        ensures
            final(self).state@ == run_spec(old(self).state@, evs@),
            final(self).state@.wf(),
    {
        proof {
            assert(evs@.subrange(0, evs@.len() as int) =~= evs@);
        }
        let mut i: usize = 0;
        while i < evs.len()
            invariant
                i <= evs@.len(),
                self.state@.wf(),
                run_spec(self.state@, evs@.subrange(i as int, evs@.len() as int)) == run_spec(
                    old(self).state@,
                    evs@,
                ),
            decreases evs@.len() - i,
        {
            let ghost pre = self.state@;
            self.deliver(evs[i]);
            proof {
                let tail = evs@.subrange(i as int, evs@.len() as int);
                assert(tail[0] == evs@[i as int]);
                assert(tail.drop_first() =~= evs@.subrange(i as int + 1, evs@.len() as int));
                assert(run_spec(pre, tail) == run_spec(
                    pin_spec(pre, evs@[i as int]),
                    tail.drop_first(),
                ));
            }
            i = i + 1;
        }
        proof {
            assert(evs@.subrange(evs@.len() as int, evs@.len() as int) =~= Seq::<
                PinEvent,
            >::empty());
        }
    }

    /// Whether the reconstructed pixel at column `x`, row `y` is lit.
    pub fn is_pixel_on_at(&self, x: u32, y: u32) -> (r: bool)
        requires
            self.state@.wf(),
            x < 84,
            y < 48,
        ensures
            r == self.state@.video[y as int * 84 + x as int],
    {
        let index = (y as usize) * COLUMNS + (x as usize);
        self.state.video_memory[index]
    }

    /// Width and height of the display in pixels.
    pub fn display_size(&self) -> (r: (u32, u32))
        ensures
            r.0 == 84,
            r.1 == 48,
    {
        (COLUMNS as u32, HEIGHT as u32)
    }
}

} // verus!
