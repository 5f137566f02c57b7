//! The decoder's building blocks and the small peripheral models.

use hilton::codec::Command;
use hilton::commands::InstructionSet;
use hilton::ioctl::IoCtl;
use hilton::pins::{DigitalPin, Pins};
use hilton::sim::lcd::{Mode, Register, State};
use hilton::sim::led::Led;

#[test]
fn shift_in_accumulates_msb_first() {
    let mut reg = Register { data: 0, counter: 0 };
    for bit in [true, false, true, false, false, true, false, true] {
        reg.shift_in(bit);
    }
    assert_eq!(reg.counter, 8);
    assert_eq!(reg.data, 0xA5);
    assert_eq!(reg.try_data(), Some(0xA5));
}

#[test]
fn shift_in_restarts_after_a_completed_byte() {
    let mut reg = Register { data: 0xFF, counter: 8 };
    reg.shift_in(false);
    assert_eq!(reg.counter, 1);
    assert_eq!(reg.try_data(), None);
}

#[test]
fn try_data_needs_a_complete_byte() {
    let reg = Register { data: 0x42, counter: 7 };
    assert_eq!(reg.try_data(), None);
    let full = Register { data: 0x42, counter: 8 };
    assert_eq!(full.try_data(), Some(0x42));
}

#[test]
fn try_command_decodes_under_the_current_set() {
    let reg = Register { data: 0x43, counter: 8 };
    assert_eq!(
        reg.try_command(InstructionSet::Basic),
        Some(Command::SetYAddress(3))
    );
    assert_eq!(reg.try_command(InstructionSet::Extended), None);
    let partial = Register { data: 0x43, counter: 5 };
    assert_eq!(partial.try_command(InstructionSet::Basic), None);
}

#[test]
fn update_dispatches_a_completed_command_byte() {
    let mut state = State::new();
    state.is_chip_enabled = true;
    // Shift in 0x43 (set Y address to page 3), bit by bit.
    for bit in [false, true, false, false, false, false, true, true] {
        state.data_in = bit;
        state.update();
    }
    assert_eq!(state.y, 3);
    assert_eq!(state.register.counter, 8);
}

#[test]
fn update_in_data_mode_fills_a_page_column() {
    let mut state = State::new();
    state.is_chip_enabled = true;
    state.mode = Mode::Data;
    // Shift in 0x80: only bit 7, the bottom row of the page.
    for bit in [true, false, false, false, false, false, false, false] {
        state.data_in = bit;
        state.update();
    }
    assert_eq!(state.x, 1);
    assert!(state.video_memory[7 * 84]);
    for row in 0..7 {
        assert!(!state.video_memory[row * 84]);
    }
}

#[test]
fn display_size_is_84_by_48() {
    let decoder = hilton::sim::lcd::Lcd10168::new();
    assert_eq!(decoder.display_size(), (84, 48));
}

#[test]
fn led_follows_its_anode_pin() {
    let mut led = Led::new();
    assert!(!led.is_on());
    led.anode_changed(true);
    assert!(led.is_on());
    led.anode_changed(false);
    assert!(!led.is_on());
}

#[test]
fn ioctl_packs_four_byte_tags() {
    assert_eq!(
        IoCtl::IoPortGetIrq { port: 'C' }.into_ffi(),
        u32::from_be_bytes([b'i', b'o', b'g', b'C'])
    );
    assert_eq!(
        IoCtl::AdcGetIrq.into_ffi(),
        u32::from_be_bytes([b'a', b'd', b'c', b'0'])
    );
    assert_eq!(
        IoCtl::UartSetFlags { uart: '0' }.into_ffi(),
        u32::from_be_bytes([b'u', b'a', b's', b'0'])
    );
}

#[test]
fn pins_name_port_and_bit() {
    let pins = Pins::new();
    assert_eq!(pins.pb0().port, 'B');
    assert_eq!(pins.pb0().pin, 0);
    assert_eq!(pins.pc6().port, 'C');
    assert_eq!(pins.pc6().pin, 6);
    assert_eq!(pins.pd7().port, 'D');
    assert_eq!(pins.pd7().pin, 7);
    let custom = DigitalPin::new('B', 5);
    assert_eq!(custom.port, 'B');
    assert_eq!(custom.pin, 5);
}
