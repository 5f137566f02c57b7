//! Replaying driver output through the decoder: the round-trip laws of
//! the wire protocol. Delivering the event sequence the driver emits for
//! one byte leaves the decoder exactly as if that byte had been committed
//! directly, and from there the command and data round trips follow.

use crate::bits::nth_bit;
use crate::canvas::{buf_pixel, data_events, frame_events};
use crate::chunk::Chunk;
use crate::codec::{
    bit_events, bits_events, byte_events, encode_function_set, encode_set_x, encode_set_y,
    spec_decode, Command, Line, PinEvent,
};
use crate::commands::{AddressingMode, ChipMode, InstructionSet};
use crate::sim::lcd::{
    apply_command_spec, apply_data_spec, dispatch_spec, pin_spec, run_spec, shift_spec,
    update_spec, DecoderView, Mode, Register,
};
use vstd::prelude::*;

verus! {

/// Running a concatenation of event sequences runs the parts in order.
pub proof fn lemma_run_concat(d: DecoderView, a: Seq<PinEvent>, b: Seq<PinEvent>)
    ensures
        run_spec(d, a + b) == run_spec(run_spec(d, a), b),
    decreases a.len(),
{
    if a.len() == 0 {
        assert(a + b =~= b);
    } else {
        assert((a + b)[0] == a[0]);
        assert((a + b).drop_first() =~= a.drop_first() + b);
        lemma_run_concat(pin_spec(d, a[0]), a.drop_first(), b);
    }
}

/// The register after shifting bits `k .. 8` of `b` in, most significant
/// first.
pub open spec fn shift_bits(r: Register, b: u8, k: int) -> Register
    decreases 8 - k,
{
    if k < 0 || k >= 8 {
        r
    } else {
        shift_bits(shift_spec(r, nth_bit(b, (7 - k) as u8)), b, k + 1)
    }
}

/// Shifting a whole byte into a byte-aligned register leaves exactly that
/// byte in the accumulator, with the counter at eight.
pub proof fn lemma_shift_bits_assembles(r: Register, b: u8)
    requires
        r.counter == 0 || r.counter == 8,
    ensures
        shift_bits(r, b, 0) == (Register { data: b, counter: 8 }),
{
    let r1 = shift_spec(r, nth_bit(b, 7));
    let r2 = shift_spec(r1, nth_bit(b, 6));
    let r3 = shift_spec(r2, nth_bit(b, 5));
    let r4 = shift_spec(r3, nth_bit(b, 4));
    let r5 = shift_spec(r4, nth_bit(b, 3));
    let r6 = shift_spec(r5, nth_bit(b, 2));
    let r7 = shift_spec(r6, nth_bit(b, 1));
    let r8 = shift_spec(r7, nth_bit(b, 0));
    assert(shift_bits(r, b, 0) == shift_bits(r1, b, 1));
    assert(shift_bits(r1, b, 1) == shift_bits(r2, b, 2));
    assert(shift_bits(r2, b, 2) == shift_bits(r3, b, 3));
    assert(shift_bits(r3, b, 3) == shift_bits(r4, b, 4));
    assert(shift_bits(r4, b, 4) == shift_bits(r5, b, 5));
    assert(shift_bits(r5, b, 5) == shift_bits(r6, b, 6));
    assert(shift_bits(r6, b, 6) == shift_bits(r7, b, 7));
    assert(shift_bits(r7, b, 7) == shift_bits(r8, b, 8));
    assert(shift_bits(r8, b, 8) == r8);
    assert(r8.counter == 8);
    let a0 = r.data;
    let a1 = r1.data;
    let a2 = r2.data;
    let a3 = r3.data;
    let a4 = r4.data;
    let a5 = r5.data;
    let a6 = r6.data;
    let a7 = r7.data;
    let a8 = r8.data;
    assert(a8 == b) by (bit_vector)
        requires
            a1 == ((a0 % 128) * 2 + (if b >> 7u8 & 1 == 1 {
                1u8
            } else {
                0u8
            })) as u8,
            a2 == ((a1 % 128) * 2 + (if b >> 6u8 & 1 == 1 {
                1u8
            } else {
                0u8
            })) as u8,
            a3 == ((a2 % 128) * 2 + (if b >> 5u8 & 1 == 1 {
                1u8
            } else {
                0u8
            })) as u8,
            a4 == ((a3 % 128) * 2 + (if b >> 4u8 & 1 == 1 {
                1u8
            } else {
                0u8
            })) as u8,
            a5 == ((a4 % 128) * 2 + (if b >> 3u8 & 1 == 1 {
                1u8
            } else {
                0u8
            })) as u8,
            a6 == ((a5 % 128) * 2 + (if b >> 2u8 & 1 == 1 {
                1u8
            } else {
                0u8
            })) as u8,
            a7 == ((a6 % 128) * 2 + (if b >> 1u8 & 1 == 1 {
                1u8
            } else {
                0u8
            })) as u8,
            a8 == ((a7 % 128) * 2 + (if b >> 0u8 & 1 == 1 {
                1u8
            } else {
                0u8
            })) as u8,
    ;
}

/// Delivering the three events of one bit transfer shifts that bit in;
/// the eighth bit of a byte also dispatches the completed byte.
pub proof fn lemma_bit_delivery(d: DecoderView, b: u8, k: int)
    requires
        d.is_chip_enabled,
        0 <= k < 8,
        (if d.register.counter == 8 {
            0int
        } else {
            d.register.counter as int
        }) == k,
    ensures
        run_spec(d, bit_events(b, k)) == ({
            let bit = nth_bit(b, (7 - k) as u8);
            let d2 = DecoderView { register: shift_spec(d.register, bit), data_in: bit, ..d };
            if k == 7 {
                dispatch_spec(d2)
            } else {
                d2
            }
        }),
{
    let bit = nth_bit(b, (7 - k) as u8);
    let ev0 = PinEvent::Level { line: Line::DataIn, high: bit };
    let ev1 = PinEvent::Level { line: Line::Clock, high: true };
    let ev2 = PinEvent::Level { line: Line::Clock, high: false };
    let s = bit_events(b, k);
    assert(s.len() == 3 && s[0] == ev0 && s[1] == ev1 && s[2] == ev2);
    let da = pin_spec(d, ev0);
    assert(da == (DecoderView { data_in: bit, ..d }));
    let db = pin_spec(da, ev1);
    assert(db == update_spec(da));
    let dc = pin_spec(db, ev2);
    assert(dc == db);
    assert(s.drop_first() =~= seq![ev1, ev2]);
    assert(seq![ev1, ev2].drop_first() =~= seq![ev2]);
    assert(seq![ev2].drop_first() =~= Seq::<PinEvent>::empty());
    assert(run_spec(d, s) == run_spec(da, seq![ev1, ev2]));
    assert(run_spec(da, seq![ev1, ev2]) == run_spec(db, seq![ev2]));
    assert(run_spec(db, seq![ev2]) == run_spec(dc, Seq::<PinEvent>::empty()));
    let shifted = DecoderView { register: shift_spec(da.register, da.data_in), ..da };
    assert(db == dispatch_spec(shifted));
    let d2 = DecoderView { register: shift_spec(d.register, bit), data_in: bit, ..d };
    assert(shifted =~= d2);
    if k < 7 {
        assert(d2.register.counter == k + 1);
        assert(d2.register.counter != 8);
        assert(dispatch_spec(d2) == d2);
    }
}

/// Delivering the whole transfer of bits `k .. 8` of `b` to an enabled
/// decoder whose counter stands at `k` assembles those bits and, with the
/// last one, dispatches the completed byte.
pub proof fn lemma_bits_delivery(d: DecoderView, b: u8, k: int)
    requires
        d.is_chip_enabled,
        0 <= k <= 7,
        (if d.register.counter == 8 {
            0int
        } else {
            d.register.counter as int
        }) == k,
    ensures
        run_spec(d, bits_events(b, k)) == dispatch_spec(
            DecoderView {
                register: shift_bits(d.register, b, k),
                data_in: nth_bit(b, 0),
                ..d
            },
        ),
    decreases 8 - k,
{
    assert(bits_events(b, k) == bit_events(b, k) + bits_events(b, k + 1));
    lemma_run_concat(d, bit_events(b, k), bits_events(b, k + 1));
    lemma_bit_delivery(d, b, k);
    let bit = nth_bit(b, (7 - k) as u8);
    let d2 = DecoderView { register: shift_spec(d.register, bit), data_in: bit, ..d };
    if k == 7 {
        assert(bits_events(b, 8) == Seq::<PinEvent>::empty());
        assert(run_spec(dispatch_spec(d2), Seq::<PinEvent>::empty()) == dispatch_spec(d2));
        assert(shift_bits(d.register, b, 7) == shift_bits(shift_spec(d.register, bit), b, 8));
        assert(d2 =~= (DecoderView {
            register: shift_bits(d.register, b, 7),
            data_in: nth_bit(b, 0),
            ..d
        }));
    } else {
        assert(d2.register.counter == k + 1);
        assert(d2.is_chip_enabled);
        lemma_bits_delivery(d2, b, k + 1);
        assert(shift_bits(d2.register, b, k + 1) == shift_bits(d.register, b, k));
        assert((DecoderView {
            register: shift_bits(d2.register, b, k + 1),
            data_in: nth_bit(b, 0),
            ..d2
        }) =~= (DecoderView {
            register: shift_bits(d.register, b, k),
            data_in: nth_bit(b, 0),
            ..d
        }));
    }
}

/// Delivering one whole byte transfer to a byte-aligned decoder: chip
/// select is asserted, the data/command choice applies to this byte, the
/// byte is shifted in and dispatched, and chip select ends deasserted.
pub proof fn lemma_byte_delivery(d: DecoderView, b: u8, is_data: bool)
    requires
        d.register.counter == 0 || d.register.counter == 8,
    ensures
        run_spec(d, byte_events(b, is_data)) == (DecoderView {
            is_chip_enabled: false,
            ..dispatch_spec(
                DecoderView {
                    is_chip_enabled: true,
                    mode: if is_data {
                        Mode::Data
                    } else {
                        Mode::Command
                    },
                    register: Register { data: b, counter: 8 },
                    data_in: nth_bit(b, 0),
                    ..d
                },
            )
        }),
{
    let ev_sce0 = PinEvent::Level { line: Line::ChipSelect, high: false };
    let ev_dc = PinEvent::Level { line: Line::DataCommand, high: is_data };
    let ev_sce1 = PinEvent::Level { line: Line::ChipSelect, high: true };
    let head = seq![ev_sce0, ev_dc];
    let mid = bits_events(b, 0);
    let tail = seq![ev_sce1];
    assert(byte_events(b, is_data) == (head + mid) + tail);
    lemma_run_concat(d, head + mid, tail);
    lemma_run_concat(d, head, mid);
    let da = pin_spec(d, ev_sce0);
    let dh = pin_spec(da, ev_dc);
    assert(head.len() == 2 && head[0] == ev_sce0 && head[1] == ev_dc);
    assert(head.drop_first() =~= seq![ev_dc]);
    assert(seq![ev_dc].drop_first() =~= Seq::<PinEvent>::empty());
    assert(run_spec(d, head) == run_spec(da, seq![ev_dc]));
    assert(run_spec(da, seq![ev_dc]) == run_spec(dh, Seq::<PinEvent>::empty()));
    assert(run_spec(d, head) == dh);
    assert(dh == (DecoderView {
        is_chip_enabled: true,
        mode: if is_data {
            Mode::Data
        } else {
            Mode::Command
        },
        ..d
    }));
    lemma_bits_delivery(dh, b, 0);
    lemma_shift_bits_assembles(dh.register, b);
    let committed = dispatch_spec(
        DecoderView {
            is_chip_enabled: true,
            mode: if is_data {
                Mode::Data
            } else {
                Mode::Command
            },
            register: Register { data: b, counter: 8 },
            data_in: nth_bit(b, 0),
            ..d
        },
    );
    assert(run_spec(d, head + mid) =~= committed);
    assert(tail.len() == 1 && tail[0] == ev_sce1);
    assert(tail.drop_first() =~= Seq::<PinEvent>::empty());
    assert(run_spec(committed, tail) == run_spec(
        pin_spec(committed, ev_sce1),
        Seq::<PinEvent>::empty(),
    ));
    assert(run_spec(committed, tail) == pin_spec(committed, ev_sce1));
    assert(pin_spec(committed, ev_sce1) =~= (DecoderView {
        is_chip_enabled: false,
        ..committed
    }));
}

/// Delivering one command byte transfer: the decoder decodes the byte
/// under its current instruction set and applies the command it means; a
/// byte meaning no command leaves the register file untouched.
pub proof fn lemma_command_byte(d: DecoderView, b: u8)
    requires
        d.register.counter == 0 || d.register.counter == 8,
    ensures
        run_spec(d, byte_events(b, false)) == (DecoderView {
            is_chip_enabled: false,
            mode: Mode::Command,
            register: Register { data: b, counter: 8 },
            data_in: nth_bit(b, 0),
            ..(match spec_decode(b, d.instruction_set) {
                Some(c) => apply_command_spec(d, c),
                None => d,
            })
        }),
{
    lemma_byte_delivery(d, b, false);
    let dpre = DecoderView {
        is_chip_enabled: true,
        mode: Mode::Command,
        register: Register { data: b, counter: 8 },
        data_in: nth_bit(b, 0),
        ..d
    };
    match spec_decode(b, d.instruction_set) {
        Some(c) => {
            assert(dispatch_spec(dpre) == apply_command_spec(dpre, c));
            assert((DecoderView { is_chip_enabled: false, ..apply_command_spec(dpre, c) }) =~= (
            DecoderView {
                is_chip_enabled: false,
                mode: Mode::Command,
                register: Register { data: b, counter: 8 },
                data_in: nth_bit(b, 0),
                ..apply_command_spec(d, c)
            }));
        },
        None => {
            assert(dispatch_spec(dpre) == dpre);
        },
    }
}

/// The wire-level round trip of a function-set command: encoding it,
/// serialising the byte as pin events and delivering those events to a
/// byte-aligned decoder sets exactly the three encoded modes, and nothing
/// else of the register file, cursor or video memory.
pub proof fn lemma_function_set_wire_round_trip(
    d: DecoderView,
    cm: ChipMode,
    am: AddressingMode,
    is: InstructionSet,
)
    requires
        d.register.counter == 0 || d.register.counter == 8,
    ensures
        run_spec(d, byte_events(encode_function_set(cm, am, is), false)) == (DecoderView {
            is_chip_enabled: false,
            mode: Mode::Command,
            register: Register { data: encode_function_set(cm, am, is), counter: 8 },
            data_in: nth_bit(encode_function_set(cm, am, is), 0),
            chip_mode: cm,
            addressing_mode: am,
            instruction_set: is,
            ..d
        }),
{
    let b = encode_function_set(cm, am, is);
    lemma_command_byte(d, b);
    crate::codec::lemma_function_set_round_trip(cm, am, is, d.instruction_set);
}

/// Delivering one data byte transfer commits the byte to video memory at
/// the cursor and advances the cursor.
pub proof fn lemma_data_byte(d: DecoderView, b: u8)
    requires
        d.register.counter == 0 || d.register.counter == 8,
    ensures
        run_spec(d, byte_events(b, true)) == (DecoderView {
            is_chip_enabled: false,
            mode: Mode::Data,
            register: Register { data: b, counter: 8 },
            data_in: nth_bit(b, 0),
            ..apply_data_spec(d, b)
        }),
{
    lemma_byte_delivery(d, b, true);
    let dpre = DecoderView {
        is_chip_enabled: true,
        mode: Mode::Data,
        register: Register { data: b, counter: 8 },
        data_in: nth_bit(b, 0),
        ..d
    };
    assert(dispatch_spec(dpre) == apply_data_spec(dpre, b));
    assert(apply_data_spec(dpre, b).video =~= apply_data_spec(d, b).video);
    assert((DecoderView { is_chip_enabled: false, ..apply_data_spec(dpre, b) }) =~= (DecoderView {
        is_chip_enabled: false,
        mode: Mode::Data,
        register: Register { data: b, counter: 8 },
        data_in: nth_bit(b, 0),
        ..apply_data_spec(d, b)
    }));
}

/// The pin events of a run of data bytes, each sent as one byte transfer.
pub open spec fn data_stream_events(bytes: Seq<u8>) -> Seq<PinEvent>
    decreases bytes.len(),
{
    if bytes.len() == 0 {
        Seq::empty()
    } else {
        byte_events(bytes[0], true) + data_stream_events(bytes.drop_first())
    }
}

/// The decoder after committing a run of data bytes in order.
pub open spec fn apply_data_seq(d: DecoderView, bytes: Seq<u8>) -> DecoderView
    decreases bytes.len(),
{
    if bytes.len() == 0 {
        d
    } else {
        apply_data_seq(apply_data_spec(d, bytes[0]), bytes.drop_first())
    }
}

/// Committing data bytes touches only the cursor and the video memory.
pub proof fn lemma_apply_data_seq_keeps(d: DecoderView, bytes: Seq<u8>)
    ensures
        apply_data_seq(d, bytes).is_chip_enabled == d.is_chip_enabled,
        apply_data_seq(d, bytes).mode == d.mode,
        apply_data_seq(d, bytes).register == d.register,
        apply_data_seq(d, bytes).data_in == d.data_in,
        apply_data_seq(d, bytes).chip_mode == d.chip_mode,
        apply_data_seq(d, bytes).addressing_mode == d.addressing_mode,
        apply_data_seq(d, bytes).instruction_set == d.instruction_set,
        apply_data_seq(d, bytes).display_mode == d.display_mode,
        apply_data_seq(d, bytes).temperature_coefficient == d.temperature_coefficient,
        apply_data_seq(d, bytes).bias_voltage_coefficient == d.bias_voltage_coefficient,
        apply_data_seq(d, bytes).operation_voltage == d.operation_voltage,
        apply_data_seq(d, bytes).video.len() == d.video.len(),
    decreases bytes.len(),
{
    if bytes.len() > 0 {
        lemma_apply_data_seq_keeps(apply_data_spec(d, bytes[0]), bytes.drop_first());
    }
}

/// Two decoders that agree on cursor, video memory and addressing mode
/// commit a run of data bytes to the same cursor and video memory.
pub proof fn lemma_apply_data_seq_shift(d1: DecoderView, d2: DecoderView, bytes: Seq<u8>)
    requires
        d1.x == d2.x,
        d1.y == d2.y,
        d1.video == d2.video,
        d1.addressing_mode == d2.addressing_mode,
    ensures
        apply_data_seq(d1, bytes).x == apply_data_seq(d2, bytes).x,
        apply_data_seq(d1, bytes).y == apply_data_seq(d2, bytes).y,
        apply_data_seq(d1, bytes).video == apply_data_seq(d2, bytes).video,
    decreases bytes.len(),
{
    if bytes.len() > 0 {
        let e1 = apply_data_spec(d1, bytes[0]);
        let e2 = apply_data_spec(d2, bytes[0]);
        assert(e1.video =~= e2.video);
        lemma_apply_data_seq_shift(e1, e2, bytes.drop_first());
    }
}

/// Delivering a run of data byte transfers to a byte-aligned decoder
/// commits exactly those bytes, in order.
pub proof fn lemma_data_stream(d: DecoderView, bytes: Seq<u8>)
    requires
        d.register.counter == 0 || d.register.counter == 8,
    ensures
        run_spec(d, data_stream_events(bytes)) == (if bytes.len() == 0 {
            d
        } else {
            DecoderView {
                is_chip_enabled: false,
                mode: Mode::Data,
                register: Register { data: bytes.last(), counter: 8 },
                data_in: nth_bit(bytes.last(), 0),
                ..apply_data_seq(d, bytes)
            }
        }),
    decreases bytes.len(),
{
    if bytes.len() > 0 {
        let b0 = bytes[0];
        let rest = bytes.drop_first();
        assert(data_stream_events(bytes) == byte_events(b0, true) + data_stream_events(rest));
        lemma_run_concat(d, byte_events(b0, true), data_stream_events(rest));
        lemma_data_byte(d, b0);
        let d1 = DecoderView {
            is_chip_enabled: false,
            mode: Mode::Data,
            register: Register { data: b0, counter: 8 },
            data_in: nth_bit(b0, 0),
            ..apply_data_spec(d, b0)
        };
        lemma_data_stream(d1, rest);
        if rest.len() == 0 {
            assert(bytes.last() == b0);
            assert(apply_data_seq(d, bytes) == apply_data_seq(apply_data_spec(d, b0), rest));
            assert(run_spec(d, data_stream_events(bytes)) =~= (DecoderView {
                is_chip_enabled: false,
                mode: Mode::Data,
                register: Register { data: bytes.last(), counter: 8 },
                data_in: nth_bit(bytes.last(), 0),
                ..apply_data_seq(d, bytes)
            }));
        } else {
            assert(rest.last() == bytes.last());
            lemma_apply_data_seq_shift(d1, apply_data_spec(d, b0), rest);
            lemma_apply_data_seq_keeps(d1, rest);
            lemma_apply_data_seq_keeps(apply_data_spec(d, b0), rest);
            assert((DecoderView {
                is_chip_enabled: false,
                mode: Mode::Data,
                register: Register { data: bytes.last(), counter: 8 },
                data_in: nth_bit(bytes.last(), 0),
                ..apply_data_seq(d1, rest)
            }) =~= (DecoderView {
                is_chip_enabled: false,
                mode: Mode::Data,
                register: Register { data: bytes.last(), counter: 8 },
                data_in: nth_bit(bytes.last(), 0),
                ..apply_data_seq(d, bytes)
            }));
        }
    }
}

/// In horizontal addressing the cursor walks a run of data bytes like a
/// counter: after `n` bytes from `(x, y)` it stands at position
/// `x + n` of the column-major count, column `(x + n) % 84`, page
/// advanced by `(x + n) / 84` pages modulo 6.
pub proof fn lemma_apply_data_seq_cursor(d: DecoderView, bytes: Seq<u8>)
    requires
        d.addressing_mode == AddressingMode::Horizontal,
        d.x < 84,
        d.y < 6,
    ensures
        apply_data_seq(d, bytes).x as int == (d.x + bytes.len()) % 84,
        apply_data_seq(d, bytes).y as int == (d.y + (d.x + bytes.len()) / 84) % 6,
    decreases bytes.len(),
{
    let len = bytes.len() as int;
    if bytes.len() == 0 {
        assert((d.x as int) % 84 == d.x as int) by {
            vstd::arithmetic::div_mod::lemma_small_mod(d.x as nat, 84);
        }
        assert((d.x as int) / 84 == 0) by {
            vstd::arithmetic::div_mod::lemma_basic_div(d.x as int, 84);
        }
        assert((d.y as int) % 6 == d.y as int) by {
            vstd::arithmetic::div_mod::lemma_small_mod(d.y as nat, 6);
        }
    } else {
        let d1 = apply_data_spec(d, bytes[0]);
        let rest = bytes.drop_first();
        assert(d1.addressing_mode == AddressingMode::Horizontal && d1.x < 84 && d1.y < 6);
        lemma_apply_data_seq_cursor(d1, rest);
        if d.x < 83 {
            assert(d1.x == d.x + 1 && d1.y == d.y);
        } else {
            assert(d.x == 83);
            assert(d1.x == 0);
            assert(d1.y as int == (d.y + 1) % 6) by {
                if d.y < 5 {
                    vstd::arithmetic::div_mod::lemma_small_mod((d.y + 1) as nat, 6);
                } else {
                    assert(d.y == 5);
                }
            }
            let m = (len - 1) / 84;
            let r = (len - 1) % 84;
            vstd::arithmetic::div_mod::lemma_fundamental_div_mod(len - 1, 84);
            vstd::arithmetic::div_mod::lemma_mod_bound(len - 1, 84);
            vstd::arithmetic::div_mod::lemma_fundamental_div_mod_converse(
                83 + len,
                84,
                1 + m,
                r,
            );
            assert((83 + len) / 84 == 1 + m);
            assert((83 + len) % 84 == r);
            vstd::arithmetic::div_mod::lemma_add_mod_noop((d.y + 1) as int, m, 6);
            vstd::arithmetic::div_mod::lemma_mod_twice((d.y + 1) as int, 6);
            vstd::arithmetic::div_mod::lemma_mod_bound(m, 6);
            vstd::arithmetic::div_mod::lemma_add_mod_noop(((d.y + 1) % 6) as int, m, 6);
            vstd::arithmetic::div_mod::lemma_mod_twice(m, 6);
            assert(((d.y + 1) % 6 + m) % 6 == (d.y + 1 + m) % 6);
        }
    }
}

/// Addressing wraparound, one row: a byte-aligned decoder in horizontal
/// addressing with the cursor at column 0 of some page moves, after 84
/// delivered data byte transfers, to column 0 of the next page (pages
/// wrapping at 6).
pub proof fn lemma_row_wraparound(d: DecoderView, bytes: Seq<u8>)
    requires
        d.register.counter == 0 || d.register.counter == 8,
        d.addressing_mode == AddressingMode::Horizontal,
        d.x == 0,
        d.y < 6,
        bytes.len() == 84,
    ensures
        run_spec(d, data_stream_events(bytes)).x == 0,
        run_spec(d, data_stream_events(bytes)).y as int == (d.y + 1) % 6,
{
    lemma_data_stream(d, bytes);
    lemma_apply_data_seq_cursor(d, bytes);
    if d.y < 5 {
        vstd::arithmetic::div_mod::lemma_small_mod((d.y + 1) as nat, 6);
    }
}

/// Addressing wraparound, full frame: after 504 delivered data byte
/// transfers (six pages of 84 columns) the cursor stands where it began.
pub proof fn lemma_frame_wraparound(d: DecoderView, bytes: Seq<u8>)
    requires
        d.register.counter == 0 || d.register.counter == 8,
        d.addressing_mode == AddressingMode::Horizontal,
        d.x == 0,
        d.y < 6,
        bytes.len() == 504,
    ensures
        run_spec(d, data_stream_events(bytes)).x == 0,
        run_spec(d, data_stream_events(bytes)).y == d.y,
{
    lemma_data_stream(d, bytes);
    lemma_apply_data_seq_cursor(d, bytes);
    assert(504int / 84 == 6);
    vstd::arithmetic::div_mod::lemma_mod_add_multiples_vanish(d.y as int, 6);
    vstd::arithmetic::div_mod::lemma_small_mod(d.y as nat, 6);
}

/// Delivering the reset pin sequence: the low pulse on the reset line
/// clears the video memory and nothing else, and chip select ends
/// asserted. The register file survives, as on the real chip.
pub proof fn lemma_reset_delivery(d: DecoderView)
    ensures
        run_spec(d, crate::codec::reset_events()) == (DecoderView {
            is_chip_enabled: true,
            video: Seq::new(d.video.len(), |i: int| false),
            ..d
        }),
{
    let s = crate::codec::reset_events();
    let e0 = PinEvent::Level { line: Line::Reset, high: true };
    let e1 = PinEvent::Level { line: Line::ChipSelect, high: true };
    let e2 = PinEvent::DelayMs { ms: 10 };
    let e3 = PinEvent::Level { line: Line::Reset, high: false };
    let e4 = PinEvent::DelayMs { ms: 70 };
    let e5 = PinEvent::Level { line: Line::Reset, high: true };
    let e6 = PinEvent::Level { line: Line::ChipSelect, high: false };
    assert(s.len() == 7 && s[0] == e0 && s[1] == e1 && s[2] == e2 && s[3] == e3 && s[4] == e4
        && s[5] == e5 && s[6] == e6);
    let d0 = pin_spec(d, e0);
    let d1 = pin_spec(d0, e1);
    let d2 = pin_spec(d1, e2);
    let d3 = pin_spec(d2, e3);
    let d4 = pin_spec(d3, e4);
    let d5 = pin_spec(d4, e5);
    let d6 = pin_spec(d5, e6);
    assert(s.drop_first() =~= seq![e1, e2, e3, e4, e5, e6]);
    assert(seq![e1, e2, e3, e4, e5, e6].drop_first() =~= seq![e2, e3, e4, e5, e6]);
    assert(seq![e2, e3, e4, e5, e6].drop_first() =~= seq![e3, e4, e5, e6]);
    assert(seq![e3, e4, e5, e6].drop_first() =~= seq![e4, e5, e6]);
    assert(seq![e4, e5, e6].drop_first() =~= seq![e5, e6]);
    assert(seq![e5, e6].drop_first() =~= seq![e6]);
    assert(seq![e6].drop_first() =~= Seq::<PinEvent>::empty());
    assert(run_spec(d, s) == run_spec(d0, seq![e1, e2, e3, e4, e5, e6]));
    assert(run_spec(d0, seq![e1, e2, e3, e4, e5, e6]) == run_spec(d1, seq![e2, e3, e4, e5, e6]));
    assert(run_spec(d1, seq![e2, e3, e4, e5, e6]) == run_spec(d2, seq![e3, e4, e5, e6]));
    assert(run_spec(d2, seq![e3, e4, e5, e6]) == run_spec(d3, seq![e4, e5, e6]));
    assert(run_spec(d3, seq![e4, e5, e6]) == run_spec(d4, seq![e5, e6]));
    assert(run_spec(d4, seq![e5, e6]) == run_spec(d5, seq![e6]));
    assert(run_spec(d5, seq![e6]) == run_spec(d6, Seq::<PinEvent>::empty()));
    assert(d6 =~= (DecoderView {
        is_chip_enabled: true,
        video: Seq::new(d.video.len(), |i: int| false),
        ..d
    }));
}

/// Delivering the canonical power-on program to a byte-aligned decoder
/// leaves the replica register file exactly as the program promises:
/// active chip, horizontal addressing, basic instruction set, normal
/// display mode, bias and temperature coefficients 0, operation voltage
/// 50, and a dark video memory. Only the cursor keeps its prior value.
pub proof fn lemma_init_round_trip(d: DecoderView)
    requires
        d.register.counter == 0 || d.register.counter == 8,
    ensures
        run_spec(d, crate::canvas::init_events()) == (DecoderView {
            is_chip_enabled: false,
            mode: Mode::Command,
            register: Register {
                data: crate::codec::encode_display_control(
                    crate::commands::DisplayMode::Normal,
                ),
                counter: 8,
            },
            data_in: nth_bit(
                crate::codec::encode_display_control(crate::commands::DisplayMode::Normal),
                0,
            ),
            chip_mode: ChipMode::Active,
            addressing_mode: AddressingMode::Horizontal,
            instruction_set: InstructionSet::Basic,
            display_mode: crate::commands::DisplayMode::Normal,
            temperature_coefficient: 0,
            bias_voltage_coefficient: 0,
            operation_voltage: 50,
            video: Seq::new(d.video.len(), |i: int| false),
            ..d
        }),
{
    let fs_ext = encode_function_set(
        ChipMode::Active,
        AddressingMode::Horizontal,
        InstructionSet::Extended,
    );
    let fs_basic = encode_function_set(
        ChipMode::Active,
        AddressingMode::Horizontal,
        InstructionSet::Basic,
    );
    let bias = crate::codec::encode_bias(0);
    let temp = crate::codec::encode_temperature(0);
    let volt = crate::codec::encode_voltage(50);
    let dc = crate::codec::encode_display_control(crate::commands::DisplayMode::Normal);
    let s0 = crate::codec::reset_events();
    let s1 = byte_events(fs_ext, false);
    let s2 = byte_events(bias, false);
    let s3 = byte_events(temp, false);
    let s4 = byte_events(volt, false);
    let s5 = byte_events(fs_basic, false);
    let s6 = byte_events(dc, false);
    assert(crate::canvas::init_events() == s0 + s1 + s2 + s3 + s4 + s5 + s6);
    lemma_run_concat(d, s0 + s1 + s2 + s3 + s4 + s5, s6);
    lemma_run_concat(d, s0 + s1 + s2 + s3 + s4, s5);
    lemma_run_concat(d, s0 + s1 + s2 + s3, s4);
    lemma_run_concat(d, s0 + s1 + s2, s3);
    lemma_run_concat(d, s0 + s1, s2);
    lemma_run_concat(d, s0, s1);
    lemma_reset_delivery(d);
    let d0 = run_spec(d, s0);
    lemma_function_set_wire_round_trip(
        d0,
        ChipMode::Active,
        AddressingMode::Horizontal,
        InstructionSet::Extended,
    );
    let d1 = run_spec(d0, s1);
    assert(d1.instruction_set == InstructionSet::Extended && d1.register.counter == 8);
    lemma_command_byte(d1, bias);
    crate::codec::lemma_bias_round_trip(0);
    let d2 = run_spec(d1, s2);
    assert(d2.bias_voltage_coefficient == 0 && d2.instruction_set == InstructionSet::Extended
        && d2.register.counter == 8);
    lemma_command_byte(d2, temp);
    crate::codec::lemma_temperature_round_trip(0);
    let d3 = run_spec(d2, s3);
    assert(d3.temperature_coefficient == 0 && d3.instruction_set == InstructionSet::Extended
        && d3.register.counter == 8);
    lemma_command_byte(d3, volt);
    crate::codec::lemma_voltage_round_trip(50);
    let d4 = run_spec(d3, s4);
    assert(d4.operation_voltage == 50 && d4.instruction_set == InstructionSet::Extended
        && d4.register.counter == 8);
    lemma_function_set_wire_round_trip(
        d4,
        ChipMode::Active,
        AddressingMode::Horizontal,
        InstructionSet::Basic,
    );
    let d5 = run_spec(d4, s5);
    assert(d5.instruction_set == InstructionSet::Basic && d5.register.counter == 8);
    lemma_command_byte(d5, dc);
    crate::codec::lemma_display_control_round_trip(crate::commands::DisplayMode::Normal);
    let d6 = run_spec(d5, s6);
    assert(d6 =~= (DecoderView {
        is_chip_enabled: false,
        mode: Mode::Command,
        register: Register { data: dc, counter: 8 },
        data_in: nth_bit(dc, 0),
        chip_mode: ChipMode::Active,
        addressing_mode: AddressingMode::Horizontal,
        instruction_set: InstructionSet::Basic,
        display_mode: crate::commands::DisplayMode::Normal,
        temperature_coefficient: 0,
        bias_voltage_coefficient: 0,
        operation_voltage: 50,
        video: Seq::new(d.video.len(), |i: int| false),
        ..d
    }));
    assert(run_spec(d, crate::canvas::init_events()) == d6);
}

/// Streaming chunks as data bytes is the same event sequence as the run
/// of their raw bytes.
pub proof fn lemma_data_events_as_stream(buf: Seq<Chunk>)
    ensures
        data_events(buf) == data_stream_events(buf.map_values(|c: Chunk| c.0)),
    decreases buf.len(),
{
    let bytes = buf.map_values(|c: Chunk| c.0);
    if buf.len() == 0 {
        assert(bytes.len() == 0);
    } else {
        assert(bytes[0] == buf[0].0);
        assert(buf.drop_first().map_values(|c: Chunk| c.0) =~= bytes.drop_first());
        lemma_data_events_as_stream(buf.drop_first());
    }
}

/// Without a wrap past the last cell, a run of data bytes writes each
/// byte's bits to the page-column cell the cursor's running index names,
/// and leaves every other cell alone.
pub proof fn lemma_apply_data_seq_video(d: DecoderView, bytes: Seq<u8>)
    requires
        d.addressing_mode == AddressingMode::Horizontal,
        d.x < 84,
        d.y < 6,
        d.video.len() == 4032,
        d.y * 84 + d.x + bytes.len() <= 504,
    ensures
        apply_data_seq(d, bytes).video.len() == 4032,
        forall|i: int|
            0 <= i < 4032 ==> apply_data_seq(d, bytes).video[i] == ({
                let n = (i / 84 / 8) * 84 + i % 84;
                let t0 = d.y * 84 + d.x;
                if t0 <= n < t0 + bytes.len() {
                    nth_bit(bytes[n - t0], ((i / 84) % 8) as u8)
                } else {
                    d.video[i]
                }
            }),
    decreases bytes.len(),
{
    let t0 = d.y * 84 + d.x;
    if bytes.len() > 0 {
        let d1 = apply_data_spec(d, bytes[0]);
        let rest = bytes.drop_first();
        assert(d1.x < 84 && d1.y < 6 && d1.addressing_mode == AddressingMode::Horizontal);
        assert(d1.video.len() == 4032);
        if d.x < 83 {
            assert(d1.y * 84 + d1.x == t0 + 1);
        } else {
            assert(d.x == 83);
            if d.y < 5 {
                assert(d1.y * 84 + d1.x == t0 + 1);
            } else {
                assert(t0 == 503);
                assert(rest.len() == 0);
            }
        }
        if rest.len() == 0 {
            assert(apply_data_seq(d, bytes) == apply_data_seq(d1, rest));
            assert(apply_data_seq(d, bytes) == d1);
            assert forall|i: int| 0 <= i < 4032 implies apply_data_seq(d, bytes).video[i] == ({
                let n = (i / 84 / 8) * 84 + i % 84;
                if t0 <= n < t0 + bytes.len() {
                    nth_bit(bytes[n - t0], ((i / 84) % 8) as u8)
                } else {
                    d.video[i]
                }
            }) by {
                let col = i % 84;
                let row = i / 84;
                let page = row / 8;
                let n = page * 84 + col;
                vstd::arithmetic::div_mod::lemma_fundamental_div_mod(i, 84);
                vstd::arithmetic::div_mod::lemma_mod_bound(i, 84);
                vstd::arithmetic::div_mod::lemma_fundamental_div_mod(row, 8);
                vstd::arithmetic::div_mod::lemma_mod_bound(row, 8);
                if n == t0 {
                    assert(col == d.x as int && d.y * 8 <= row < d.y * 8 + 8) by {
                        vstd::arithmetic::div_mod::lemma_fundamental_div_mod_converse(
                            n,
                            84,
                            page,
                            col,
                        );
                        vstd::arithmetic::div_mod::lemma_fundamental_div_mod_converse(
                            t0,
                            84,
                            d.y as int,
                            d.x as int,
                        );
                    }
                    assert(d1.video[i] == nth_bit(bytes[0], (row - d.y * 8) as u8));
                    assert(row - d.y * 8 == row % 8) by {
                        vstd::arithmetic::div_mod::lemma_fundamental_div_mod_converse(
                            row,
                            8,
                            d.y as int,
                            row - d.y * 8,
                        );
                    }
                } else {
                    if col == d.x as int && d.y * 8 <= row < d.y * 8 + 8 {
                        assert(page == d.y as int) by {
                            vstd::arithmetic::div_mod::lemma_fundamental_div_mod_converse(
                                row,
                                8,
                                d.y as int,
                                row - d.y * 8,
                            );
                        }
                        assert(n == t0);
                        assert(false);
                    }
                    assert(d1.video[i] == d.video[i]);
                }
            }
        } else {
            assert(d1.y * 84 + d1.x == t0 + 1);
            lemma_apply_data_seq_video(d1, rest);
            assert(apply_data_seq(d, bytes) == apply_data_seq(d1, rest));
            assert forall|i: int| 0 <= i < 4032 implies apply_data_seq(d, bytes).video[i] == ({
                let n = (i / 84 / 8) * 84 + i % 84;
                if t0 <= n < t0 + bytes.len() {
                    nth_bit(bytes[n - t0], ((i / 84) % 8) as u8)
                } else {
                    d.video[i]
                }
            }) by {
                let col = i % 84;
                let row = i / 84;
                let page = row / 8;
                let n = page * 84 + col;
                vstd::arithmetic::div_mod::lemma_fundamental_div_mod(i, 84);
                vstd::arithmetic::div_mod::lemma_mod_bound(i, 84);
                vstd::arithmetic::div_mod::lemma_fundamental_div_mod(row, 8);
                vstd::arithmetic::div_mod::lemma_mod_bound(row, 8);
                assert(apply_data_seq(d, bytes).video[i] == ({
                    if t0 + 1 <= n < t0 + 1 + rest.len() {
                        nth_bit(rest[n - (t0 + 1)], (row % 8) as u8)
                    } else {
                        d1.video[i]
                    }
                }));
                if t0 + 1 <= n < t0 + 1 + rest.len() {
                    assert(rest[n - (t0 + 1)] == bytes[n - t0]);
                } else if n == t0 {
                    assert(col == d.x as int && d.y * 8 <= row < d.y * 8 + 8) by {
                        vstd::arithmetic::div_mod::lemma_fundamental_div_mod_converse(
                            n,
                            84,
                            page,
                            col,
                        );
                        vstd::arithmetic::div_mod::lemma_fundamental_div_mod_converse(
                            t0,
                            84,
                            d.y as int,
                            d.x as int,
                        );
                    }
                    assert(d1.video[i] == nth_bit(bytes[0], (row - d.y * 8) as u8));
                    assert(row - d.y * 8 == row % 8) by {
                        vstd::arithmetic::div_mod::lemma_fundamental_div_mod_converse(
                            row,
                            8,
                            d.y as int,
                            row - d.y * 8,
                        );
                    }
                } else {
                    if col == d.x as int && d.y * 8 <= row < d.y * 8 + 8 {
                        assert(page == d.y as int) by {
                            vstd::arithmetic::div_mod::lemma_fundamental_div_mod_converse(
                                row,
                                8,
                                d.y as int,
                                row - d.y * 8,
                            );
                        }
                        assert(false);
                    }
                    assert(d1.video[i] == d.video[i]);
                }
            }
        }
    }
}

/// The frame round trip, the property the whole stack rests on: the event
/// stream `write_frame` emits for a buffer, delivered to a byte-aligned
/// decoder in the basic instruction set with horizontal addressing,
/// reproduces every pixel of that buffer in the decoder's video memory.
pub proof fn lemma_write_frame_round_trip(d: DecoderView, buf: Seq<Chunk>)
    requires
        d.register.counter == 0 || d.register.counter == 8,
        d.instruction_set == InstructionSet::Basic,
        d.addressing_mode == AddressingMode::Horizontal,
        d.video.len() == 4032,
        buf.len() == 504,
    ensures
        forall|x: int, y: int|
            0 <= x < 84 && 0 <= y < 48 ==> run_spec(d, frame_events(buf)).video[y * 84 + x]
                == buf_pixel(buf, x, y),
{
    let setx = byte_events(encode_set_x(0), false);
    let sety = byte_events(encode_set_y(0), false);
    let data = data_events(buf);
    assert(frame_events(buf) == (setx + sety) + data);
    lemma_run_concat(d, setx + sety, data);
    lemma_run_concat(d, setx, sety);
    lemma_command_byte(d, encode_set_x(0));
    crate::codec::lemma_set_x_round_trip(0);
    let d1 = run_spec(d, setx);
    assert(d1.x == 0 && d1.y == d.y && d1.instruction_set == InstructionSet::Basic
        && d1.addressing_mode == AddressingMode::Horizontal && d1.video == d.video
        && d1.register.counter == 8);
    lemma_command_byte(d1, encode_set_y(0));
    crate::codec::lemma_set_y_round_trip(0);
    let d2 = run_spec(d1, sety);
    assert(d2.x == 0 && d2.y == 0 && d2.instruction_set == InstructionSet::Basic
        && d2.addressing_mode == AddressingMode::Horizontal && d2.video == d.video
        && d2.register.counter == 8);
    let bytes = buf.map_values(|c: Chunk| c.0);
    lemma_data_events_as_stream(buf);
    lemma_data_stream(d2, bytes);
    lemma_apply_data_seq_video(d2, bytes);
    let f = run_spec(d, frame_events(buf));
    assert(f.video == apply_data_seq(d2, bytes).video);
    assert forall|x: int, y: int|
        0 <= x < 84 && 0 <= y < 48 implies f.video[y * 84 + x] == buf_pixel(buf, x, y) by {
        let i = y * 84 + x;
        assert(0 <= i < 4032);
        assert(i % 84 == x && i / 84 == y) by {
            vstd::arithmetic::div_mod::lemma_fundamental_div_mod_converse(i, 84, y, x);
        }
        let page = y / 8;
        let n = page * 84 + x;
        assert(0 <= n < 504);
        assert(f.video[i] == nth_bit(bytes[n], (y % 8) as u8));
        assert(bytes[n] == buf[n].0);
    }
}

} // verus!
