//! The wire format: command bytes, their decoding, the driver's event
//! stream, and the round trip through the protocol decoder.

use hilton::canvas::Canvas;
use hilton::codec::{decode_command, Command, Line, PinEvent};
use hilton::commands::{AddressingMode, ChipMode, DisplayMode, InstructionSet};
use hilton::lcd::Lcd10168;
use hilton::pins::Pins;
use hilton::sim;
use hilton::vec2::Vec2;
use hilton::color::Color;

fn fresh_driver() -> Lcd10168 {
    let pins = Pins::new();
    Lcd10168::builder()
        .reset(pins.pc1())
        .chip_enable(pins.pc2())
        .data_command(pins.pc3())
        .data_in(pins.pc4())
        .clock(pins.pc5())
        .build()
}

#[test]
fn decode_recognises_every_family() {
    let basic = InstructionSet::Basic;
    let extended = InstructionSet::Extended;
    assert_eq!(
        decode_command(0x21, basic),
        Some(Command::FunctionSet {
            chip_mode: ChipMode::Active,
            addressing_mode: AddressingMode::Horizontal,
            instruction_set: InstructionSet::Extended,
        })
    );
    assert_eq!(
        decode_command(0x26, extended),
        Some(Command::FunctionSet {
            chip_mode: ChipMode::PowerDown,
            addressing_mode: AddressingMode::Vertical,
            instruction_set: InstructionSet::Basic,
        })
    );
    assert_eq!(
        decode_command(0x0C, basic),
        Some(Command::DisplayControl(DisplayMode::Normal))
    );
    assert_eq!(
        decode_command(0x08, basic),
        Some(Command::DisplayControl(DisplayMode::Blank))
    );
    assert_eq!(
        decode_command(0x09, basic),
        Some(Command::DisplayControl(DisplayMode::Filled))
    );
    assert_eq!(
        decode_command(0x0D, basic),
        Some(Command::DisplayControl(DisplayMode::Inverse))
    );
    assert_eq!(decode_command(0x43, basic), Some(Command::SetYAddress(3)));
    assert_eq!(decode_command(0x8A, basic), Some(Command::SetXAddress(10)));
    assert_eq!(decode_command(0x06, extended), Some(Command::TemperatureControl(2)));
    assert_eq!(decode_command(0x14, extended), Some(Command::BiasSystem(4)));
    assert_eq!(decode_command(0xB2, extended), Some(Command::OperationVoltage(50)));
}

#[test]
fn decode_ignores_bytes_outside_the_grammar() {
    let basic = InstructionSet::Basic;
    let extended = InstructionSet::Extended;
    // Bit 1 set inside the display-control family is no command.
    assert_eq!(decode_command(0x0A, basic), None);
    // Basic-only commands are no commands under the extended set.
    assert_eq!(decode_command(0x0C, extended), None);
    assert_eq!(decode_command(0x43, extended), None);
    // Extended-only commands are no commands under the basic set.
    assert_eq!(decode_command(0x06, basic), None);
    assert_eq!(decode_command(0x14, basic), None);
    // A no-operation byte.
    assert_eq!(decode_command(0x00, basic), None);
    assert_eq!(decode_command(0x00, extended), None);
}

#[test]
fn driver_serialises_a_byte_msb_first() {
    let mut lcd = fresh_driver();
    lcd.write_data(0xA5);
    let mut expected = vec![
        PinEvent::Level { line: Line::ChipSelect, high: false },
        PinEvent::Level { line: Line::DataCommand, high: true },
    ];
    for bit in [true, false, true, false, false, true, false, true] {
        expected.push(PinEvent::Level { line: Line::DataIn, high: bit });
        expected.push(PinEvent::Level { line: Line::Clock, high: true });
        expected.push(PinEvent::Level { line: Line::Clock, high: false });
    }
    expected.push(PinEvent::Level { line: Line::ChipSelect, high: true });
    assert_eq!(lcd.events, expected);
}

#[test]
fn driver_reset_sequence() {
    let mut lcd = fresh_driver();
    lcd.reset();
    let expected = vec![
        PinEvent::Level { line: Line::Reset, high: true },
        PinEvent::Level { line: Line::ChipSelect, high: true },
        PinEvent::DelayMs { ms: 10 },
        PinEvent::Level { line: Line::Reset, high: false },
        PinEvent::DelayMs { ms: 70 },
        PinEvent::Level { line: Line::Reset, high: true },
        PinEvent::Level { line: Line::ChipSelect, high: false },
    ];
    assert_eq!(lcd.events, expected);
}

#[test]
fn builder_assigns_all_five_roles() {
    let pins = Pins::new();
    let lcd = Lcd10168::builder()
        .reset(pins.pc1())
        .chip_enable(pins.pc2())
        .data_command(pins.pc3())
        .data_in(pins.pc4())
        .clock(pins.pc5())
        .build();
    assert_eq!(lcd.rst.port, 'C');
    assert_eq!(lcd.rst.pin, 1);
    assert_eq!(lcd.sce.pin, 2);
    assert_eq!(lcd.dc.pin, 3);
    assert_eq!(lcd.din.pin, 4);
    assert_eq!(lcd.clk.pin, 5);
    assert_eq!(lcd.instruction_set, InstructionSet::Basic);
    assert!(lcd.events.is_empty());
}

#[test]
fn function_set_round_trips_through_the_decoder() {
    let mut lcd = fresh_driver();
    lcd.function_set(ChipMode::Active, AddressingMode::Horizontal, InstructionSet::Extended);
    let mut decoder = sim::lcd::Lcd10168::new();
    decoder.deliver_all(&lcd.events);
    assert_eq!(decoder.state.chip_mode, ChipMode::Active);
    assert_eq!(decoder.state.addressing_mode, AddressingMode::Horizontal);
    assert_eq!(decoder.state.instruction_set, InstructionSet::Extended);
}

#[test]
fn every_driver_setter_reaches_the_decoder() {
    let mut lcd = fresh_driver();
    lcd.function_set(ChipMode::Active, AddressingMode::Horizontal, InstructionSet::Extended);
    lcd.set_bias_voltage_coefficient(4);
    lcd.set_temperature_coefficient(2);
    lcd.set_operation_voltage(50);
    lcd.function_set(ChipMode::Active, AddressingMode::Horizontal, InstructionSet::Basic);
    lcd.set_display_mode(DisplayMode::Inverse);
    lcd.set_x_cursor(17);
    lcd.set_y_cursor(3);
    let mut decoder = sim::lcd::Lcd10168::new();
    decoder.deliver_all(&lcd.events);
    assert_eq!(decoder.state.bias_voltage_coefficient, 4);
    assert_eq!(decoder.state.temperature_coefficient, 2);
    assert_eq!(decoder.state.operation_voltage, 50);
    assert_eq!(decoder.state.instruction_set, InstructionSet::Basic);
    assert_eq!(decoder.state.display_mode, DisplayMode::Inverse);
    assert_eq!(decoder.state.x, 17);
    assert_eq!(decoder.state.y, 3);
}

#[test]
fn horizontal_addressing_wraps_after_a_row() {
    let mut lcd = fresh_driver();
    for _ in 0..84 {
        lcd.write_data(0xFF);
    }
    let mut decoder = sim::lcd::Lcd10168::new();
    decoder.deliver_all(&lcd.events);
    assert_eq!(decoder.state.x, 0);
    assert_eq!(decoder.state.y, 1);
}

#[test]
fn horizontal_addressing_wraps_after_a_frame() {
    let mut lcd = fresh_driver();
    for _ in 0..504 {
        lcd.write_data(0x55);
    }
    let mut decoder = sim::lcd::Lcd10168::new();
    decoder.deliver_all(&lcd.events);
    assert_eq!(decoder.state.x, 0);
    assert_eq!(decoder.state.y, 0);
}

#[test]
fn vertical_addressing_advances_pages_first() {
    let mut lcd = fresh_driver();
    lcd.function_set(ChipMode::Active, AddressingMode::Vertical, InstructionSet::Basic);
    for _ in 0..6 {
        lcd.write_data(0x01);
    }
    let mut decoder = sim::lcd::Lcd10168::new();
    decoder.deliver_all(&lcd.events);
    assert_eq!(decoder.state.x, 1);
    assert_eq!(decoder.state.y, 0);
}

#[test]
fn reset_clears_video_memory_and_keeps_registers() {
    let mut lcd = fresh_driver();
    lcd.function_set(ChipMode::Active, AddressingMode::Horizontal, InstructionSet::Extended);
    lcd.write_data(0xFF);
    lcd.write_data(0x81);
    let mut decoder = sim::lcd::Lcd10168::new();
    decoder.deliver_all(&lcd.events);
    assert!(decoder.is_pixel_on_at(0, 0));
    assert!(decoder.is_pixel_on_at(1, 0));
    assert!(decoder.is_pixel_on_at(1, 7));
    decoder.rst_changed(false);
    for y in 0..48 {
        for x in 0..84 {
            assert!(!decoder.is_pixel_on_at(x, y));
        }
    }
    // Only display RAM is cleared; the register file survives the reset.
    assert_eq!(decoder.state.instruction_set, InstructionSet::Extended);
    assert_eq!(decoder.state.x, 2);
}

#[test]
fn clock_edges_are_ignored_while_chip_select_is_deasserted() {
    let mut decoder = sim::lcd::Lcd10168::new();
    decoder.sce_changed(true);
    decoder.din_changed(true);
    for _ in 0..8 {
        decoder.clk_changed(true);
        decoder.clk_changed(false);
    }
    assert_eq!(decoder.state.register.counter, 0);
    assert_eq!(decoder.state.register.data, 0);
}

#[test]
fn power_on_program_programs_the_replica_registers() {
    let pins = Pins::new();
    let lcd = Lcd10168::builder()
        .reset(pins.pc1())
        .chip_enable(pins.pc2())
        .data_command(pins.pc3())
        .data_in(pins.pc4())
        .clock(pins.pc5())
        .build();
    let canvas = Canvas::new_uninit(lcd).init();
    let mut decoder = sim::lcd::Lcd10168::new();
    decoder.deliver_all(&canvas.lcd.events);
    assert_eq!(decoder.state.chip_mode, ChipMode::Active);
    assert_eq!(decoder.state.addressing_mode, AddressingMode::Horizontal);
    assert_eq!(decoder.state.instruction_set, InstructionSet::Basic);
    assert_eq!(decoder.state.display_mode, DisplayMode::Normal);
    assert_eq!(decoder.state.bias_voltage_coefficient, 0);
    assert_eq!(decoder.state.temperature_coefficient, 0);
    assert_eq!(decoder.state.operation_voltage, 50);
    for y in 0..48 {
        for x in 0..84 {
            assert!(!decoder.is_pixel_on_at(x, y));
        }
    }
}

#[test]
fn whole_frame_round_trips_pixel_for_pixel() {
    let pins = Pins::new();
    let lcd = Lcd10168::builder()
        .reset(pins.pc1())
        .chip_enable(pins.pc2())
        .data_command(pins.pc3())
        .data_in(pins.pc4())
        .clock(pins.pc5())
        .build();
    let mut canvas = Canvas::new_uninit(lcd).init();
    canvas.draw_filled_circle(Vec2::new(42, 20), 12, Color::On);
    canvas.draw_rect(Vec2::new(5, 30), Vec2::new(10, 12), Color::On);
    canvas.set_pixel(0, 0, true);
    canvas.set_pixel(83, 47, true);
    canvas.write_frame();
    let mut decoder = sim::lcd::Lcd10168::new();
    decoder.deliver_all(&canvas.lcd.events);
    for y in 0..48 {
        for x in 0..84 {
            assert_eq!(
                decoder.is_pixel_on_at(x, y),
                canvas.pixel_at(x as usize, y as usize)
            );
        }
    }
}
