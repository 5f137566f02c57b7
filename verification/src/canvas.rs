//! The off-chip framebuffer and its drawing operations.

use crate::canvas::bitmap::{bitmap_cover, Bitmap};
use crate::canvas::blit::{paints, Blit};
use crate::canvas::circle::{circle_fill_cover, circle_ring_cover, Circle};
use crate::canvas::rect::{rect_cover, Rect};
use crate::chunk::Chunk;
use crate::codec::{byte_events, encode_display_control, encode_function_set, encode_set_x,
    encode_set_y, encode_bias, encode_temperature, encode_voltage, reset_events, PinEvent};
use crate::color::Color;
use crate::commands::{AddressingMode, ChipMode, DisplayMode, InstructionSet};
use crate::lcd::{same_wiring, Lcd10168};
use crate::vec2::Vec2;
use crate::{COLUMNS, HEIGHT, ROWS};
use vstd::prelude::*;

pub mod bitmap;
pub mod blit;
pub mod circle;
pub mod pixel;
pub mod rect;

verus! {

/// The pixel of a packed chunk sequence at column `x`, row `y`: bit
/// `y % 8` of the chunk of page `y / 8` at that column.
pub open spec fn buf_pixel(buf: Seq<Chunk>, x: int, y: int) -> bool {
    buf[(y / 8) * 84 + x].spec_bit(y % 8)
}

/// An in-memory framebuffer of 84 columns by 48 rows in front of a chip
/// driver: drawing goes to the packed buffer, `write_frame` streams the
/// whole buffer to the chip.
pub struct Canvas {
    pub lcd: Lcd10168,
    pub buffer: Vec<Chunk>,
}

/// A canvas whose chip has not run its power-on program yet.
pub struct UninitCanvas {
    pub lcd: Lcd10168,
}

/// A buffer of 504 chunks, all pixels off.
fn zero_chunks() -> (v: Vec<Chunk>)
    ensures
        v@.len() == 504,
        forall|i: int| 0 <= i < 504 ==> v@[i] == Chunk(0u8),
{
    let mut v: Vec<Chunk> = Vec::new();
    let mut i: usize = 0;
    while i < COLUMNS * ROWS
        invariant
            i <= 504,
            v@.len() == i,
            forall|k: int| 0 <= k < i ==> v@[k] == Chunk(0u8),
        decreases 504 - i,
    {
        v.push(Chunk(0));
        i = i + 1;
    }
    v
}

/// The canonical power-on program: reset, then select the extended
/// instruction set to program bias, temperature and voltage, then return
/// to the basic set and switch the display to normal mode.
pub open spec fn init_events() -> Seq<PinEvent> {
    reset_events() + byte_events(
        encode_function_set(ChipMode::Active, AddressingMode::Horizontal, InstructionSet::Extended),
        false,
    ) + byte_events(encode_bias(0), false) + byte_events(encode_temperature(0), false)
        + byte_events(encode_voltage(50), false) + byte_events(
        encode_function_set(ChipMode::Active, AddressingMode::Horizontal, InstructionSet::Basic),
        false,
    ) + byte_events(encode_display_control(DisplayMode::Normal), false)
}

impl Canvas {
    /// Puts a framebuffer in front of a driver; the chip still has to be
    /// initialised before the canvas is usable.
    pub fn new_uninit(lcd: Lcd10168) -> (r: UninitCanvas)
        ensures
            r.lcd == lcd,
    {
        UninitCanvas { lcd }
    }

    /// The buffer holds exactly one chunk per page and column.
    pub open spec fn wf(&self) -> bool {
        self.buffer@.len() == 504
    }

    /// The pixel at column `x`, row `y`.
    pub open spec fn spec_pixel(&self, x: int, y: int) -> bool {
        buf_pixel(self.buffer@, x, y)
    }

    /// Reads one pixel of the framebuffer.
    pub fn pixel_at(&self, x: usize, y: usize) -> (r: bool)
        requires
            self.wf(),
            x < 84,
            y < 48,
        ensures
            r == self.spec_pixel(x as int, y as int),
    {
        let chunk = self.buffer[(y / 8) * COLUMNS + x];
        chunk.get(y % 8)
    }

    /// The chunk holding the pixel at column `x`, row `y`.
    pub fn chunk_at(&self, x: usize, y: usize) -> (r: Chunk)
        requires
            self.wf(),
            x < 84,
            y < 48,
        ensures
            r == self.buffer@[(y as int / 8) * 84 + x as int],
    {
        self.chunk_at_raw(x, y / 8)
    }

    /// The chunk of page `row` at column `column`.
    pub fn chunk_at_raw(&self, column: usize, row: usize) -> (r: Chunk)
        requires
            self.wf(),
            column < 84,
            row < 6,
        ensures
            r == self.buffer@[row as int * 84 + column as int],
    {
        self.buffer[row * COLUMNS + column]
    }

    /// Turns every pixel of the framebuffer off. The chip is not touched:
    /// the change reaches it with the next `write_frame`.
    pub fn clear(&mut self)
        ensures
            final(self).wf(),
            final(self).lcd == old(self).lcd,
            forall|i: int| 0 <= i < 504 ==> final(self).buffer@[i] == Chunk(0u8),
            forall|x: int, y: int|
                0 <= x < 84 && 0 <= y < 48 ==> !final(self).spec_pixel(x, y),
    {
        self.buffer = zero_chunks();
        proof {
            assert forall|x: int, y: int|
                0 <= x < 84 && 0 <= y < 48 implies !self.spec_pixel(x, y) by {
                crate::bits::lemma_zero_bit((y % 8) as u8);
            }
        }
    }
}

impl UninitCanvas {
    /// Runs the power-on program through the driver and hands back a
    /// well-formed canvas with every pixel off and the chip left in the
    /// basic instruction set.
    pub fn init(self) -> (r: Canvas)
        ensures
            r.wf(),
            same_wiring(r.lcd, self.lcd),
            r.lcd.instruction_set == InstructionSet::Basic,
            r.lcd.events@ == self.lcd.events@ + init_events(),
            forall|i: int| 0 <= i < 504 ==> r.buffer@[i] == Chunk(0u8),
            forall|x: int, y: int| 0 <= x < 84 && 0 <= y < 48 ==> !r.spec_pixel(x, y),
    {
        let UninitCanvas { mut lcd } = self;
        lcd.reset();
        lcd.function_set(ChipMode::Active, AddressingMode::Horizontal, InstructionSet::Extended);
        lcd.set_bias_voltage_coefficient(0);
        lcd.set_temperature_coefficient(0);
        lcd.set_operation_voltage(50);
        lcd.function_set(ChipMode::Active, AddressingMode::Horizontal, InstructionSet::Basic);
        lcd.set_display_mode(DisplayMode::Normal);
        proof {
            assert(lcd.events@ =~= self.lcd.events@ + init_events());
        }
        let r = Canvas { lcd, buffer: zero_chunks() };
        proof {
            assert forall|x: int, y: int|
                0 <= x < 84 && 0 <= y < 48 implies !r.spec_pixel(x, y) by {
                crate::bits::lemma_zero_bit((y % 8) as u8);
            }
        }
        r
    }
}

impl Blit for Canvas {
    type Rest = Lcd10168;

    open spec fn pix_width(&self) -> int {
        84
    }

    open spec fn pix_height(&self) -> int {
        48
    }

    open spec fn pix(&self, x: int, y: int) -> bool {
        self.spec_pixel(x, y)
    }

    open spec fn rest(&self) -> Lcd10168 {
        self.lcd
    }

    open spec fn blit_inv(&self) -> bool {
        self.wf()
    }

    /// Sets or clears exactly one pixel with a read-modify-write of its
    /// chunk; coordinates outside the display are a no-op.
    fn blit_pixel(&mut self, x: isize, y: isize, color: Color) {
        if x < 0 || y < 0 {
            return ;
        }
        let xu = x as usize;
        let yu = y as usize;
        if xu >= COLUMNS || yu >= HEIGHT {
            return ;
        }
        let idx = (yu / 8) * COLUMNS + xu;
        let mask = Chunk::bit(yu % 8);
        let c = self.buffer[idx];
        let c2 = match color {
            Color::On => Chunk(c.0 | mask.0),
            Color::Off => Chunk(c.0 & !mask.0),
        };
        self.buffer.set(idx, c2);
        proof {
            let buf0 = old(self).buffer@;
            let buf1 = self.buffer@;
            let k = (yu % 8) as u8;
            assert forall|i: int, j: int|
                0 <= i < 84 && 0 <= j < 48 implies buf_pixel(buf1, i, j) == (if i == x as int && j
                == y as int {
                color.spec_is_on()
            } else {
                buf_pixel(buf0, i, j)
            }) by {
                let ci = (j / 8) * 84 + i;
                assert(0 <= ci < 504);
                if ci == idx {
                    assert(i == xu as int && j / 8 == yu as int / 8);
                    match color {
                        Color::On => {
                            crate::bits::lemma_or_bit(c.0, k, (j % 8) as u8);
                        },
                        Color::Off => {
                            crate::bits::lemma_and_not_bit(c.0, k, (j % 8) as u8);
                        },
                    }
                }
            }
        }
    }
}

/// The data-byte transfers that stream a chunk sequence, in order.
pub open spec fn data_events(buf: Seq<Chunk>) -> Seq<PinEvent>
    decreases buf.len(),
{
    if buf.len() == 0 {
        Seq::empty()
    } else {
        byte_events(buf[0].0, true) + data_events(buf.drop_first())
    }
}

/// Streaming one more chunk appends one more data-byte transfer.
pub proof fn lemma_data_events_push(buf: Seq<Chunk>, c: Chunk)
    ensures
        data_events(buf.push(c)) == data_events(buf) + byte_events(c.0, true),
    decreases buf.len(),
{
    if buf.len() == 0 {
        let s = buf.push(c);
        assert(s[0] == c);
        assert(s.drop_first() =~= Seq::<Chunk>::empty());
        assert(data_events(s.drop_first()) == Seq::<PinEvent>::empty());
        assert(data_events(s) == byte_events(c.0, true) + Seq::<PinEvent>::empty());
        assert(data_events(buf) == Seq::<PinEvent>::empty());
        assert(byte_events(c.0, true) + Seq::<PinEvent>::empty() =~= Seq::<PinEvent>::empty()
            + byte_events(c.0, true));
    } else {
        assert(buf.push(c)[0] == buf[0]);
        assert(buf.push(c).drop_first() =~= buf.drop_first().push(c));
        lemma_data_events_push(buf.drop_first(), c);
        assert(data_events(buf.push(c)) == byte_events(buf[0].0, true) + (data_events(
            buf.drop_first(),
        ) + byte_events(c.0, true)));
        assert(byte_events(buf[0].0, true) + (data_events(buf.drop_first()) + byte_events(
            c.0,
            true,
        )) =~= (byte_events(buf[0].0, true) + data_events(buf.drop_first())) + byte_events(
            c.0,
            true,
        ));
    }
}

/// The full frame transfer: cursor to column 0, page 0, then every chunk
/// in page-major, column-ascending order; the chip's auto-increment does
/// the addressing.
pub open spec fn frame_events(buf: Seq<Chunk>) -> Seq<PinEvent> {
    byte_events(encode_set_x(0), false) + byte_events(encode_set_y(0), false) + data_events(buf)
}

impl Canvas {
    /// Turns one pixel on or off; coordinates outside the display are a
    /// no-op.
    pub fn set_pixel(&mut self, x: isize, y: isize, on: bool)
        requires
            old(self).wf(),
        ensures
            final(self).wf(),
            final(self).lcd == old(self).lcd,
            forall|i: int, j: int|
                0 <= i < 84 && 0 <= j < 48 ==> final(self).spec_pixel(i, j) == (if i == x as int
                    && j == y as int {
                    on
                } else {
                    old(self).spec_pixel(i, j)
                }),
    {
        let color = if on {
            Color::On
        } else {
            Color::Off
        };
        self.blit_pixel(x, y, color);
        proof {
            assert forall|i: int, j: int|
                0 <= i < 84 && 0 <= j < 48 implies self.spec_pixel(i, j) == (if i == x as int && j
                == y as int {
                on
            } else {
                old(self).spec_pixel(i, j)
            }) by {
                assert(self.pix(i, j) == (if i == x as int && j == y as int {
                    color.spec_is_on()
                } else {
                    old(self).pix(i, j)
                }));
            }
        }
    }

    /// Fills an axis-aligned rectangle; negative size components draw the
    /// mirrored rectangle.
    pub fn draw_rect(&mut self, position: Vec2<isize>, size: Vec2<isize>, color: Color)
        requires
            old(self).wf(),
            isize::MIN <= position.x + size.x <= isize::MAX,
            isize::MIN <= position.y + size.y <= isize::MAX,
        ensures
            paints(*old(self), *final(self), rect_cover(position, size), color),
    {
        Rect::new(position, size, color).draw(self);
    }

    /// Draws a circle outline with the midpoint walk.
    pub fn draw_circle(&mut self, center: Vec2<isize>, radius: isize, color: Color)
        requires
            old(self).wf(),
            (Circle { center, radius, color }).fits(),
        ensures
            paints(*old(self), *final(self), circle_ring_cover(center, radius), color),
    {
        Circle::new(center, radius, color).draw_outline(self);
    }

    /// Draws a filled circle with the midpoint walk, as horizontal spans
    /// between the octant boundaries.
    pub fn draw_filled_circle(&mut self, center: Vec2<isize>, radius: isize, color: Color)
        requires
            old(self).wf(),
            (Circle { center, radius, color }).fits(),
        ensures
            paints(*old(self), *final(self), circle_fill_cover(center, radius), color),
    {
        Circle::new(center, radius, color).draw(self);
    }

    /// Paints a stamp's black pixels on; its background leaves the buffer
    /// untouched.
    pub fn draw_bitmap(&mut self, stamp: &Bitmap)
        requires
            old(self).wf(),
            stamp.wf(),
            stamp.width <= isize::MAX,
            stamp.height <= isize::MAX,
            stamp.position.x + stamp.width <= isize::MAX,
            stamp.position.y + stamp.height <= isize::MAX,
        ensures
            paints(*old(self), *final(self), bitmap_cover(*stamp), Color::On),
    {
        stamp.draw(self);
    }

    /// Streams the whole frame to the chip: cursor to (0, 0), then all
    /// 504 chunks in page-major, column-ascending order.
    #[verifier::loop_isolation(false)]
    pub fn write_frame(&mut self)
        requires
            old(self).wf(),
            old(self).lcd.instruction_set == InstructionSet::Basic,
        ensures
            final(self).wf(),
            final(self).buffer@ == old(self).buffer@,
            same_wiring(final(self).lcd, old(self).lcd),
            final(self).lcd.instruction_set == old(self).lcd.instruction_set,
            final(self).lcd.events@ == old(self).lcd.events@ + frame_events(old(self).buffer@),
    {
        self.lcd.set_x_cursor(0);
        self.lcd.set_y_cursor(0);
        let ghost head = self.lcd.events@;
        let mut i: usize = 0;
        while i < self.buffer.len()
            invariant
                i <= 504,
                self.wf(),
                self.buffer@ == old(self).buffer@,
                same_wiring(self.lcd, old(self).lcd),
                self.lcd.instruction_set == old(self).lcd.instruction_set,
                self.lcd.events@ == head + data_events(self.buffer@.subrange(0, i as int)),
            decreases 504 - i,
        {
            let c = self.buffer[i];
            self.lcd.write_data(c.0);
            proof {
                assert(self.buffer@.subrange(0, i as int + 1) =~= self.buffer@.subrange(
                    0,
                    i as int,
                ).push(c));
                lemma_data_events_push(self.buffer@.subrange(0, i as int), c);
            }
            i = i + 1;
        }
        proof {
            assert(self.buffer@.subrange(0, 504) =~= self.buffer@);
            assert(self.lcd.events@ =~= old(self).lcd.events@ + frame_events(old(self).buffer@));
        }
    }
}

/// Two well-formed buffers that show the same pixels are the same
/// buffer, chunk for chunk: every chunk bit is some pixel.
pub proof fn lemma_buffer_ext(b1: Seq<Chunk>, b2: Seq<Chunk>)
    requires
        b1.len() == 504,
        b2.len() == 504,
        forall|x: int, y: int|
            0 <= x < 84 && 0 <= y < 48 ==> buf_pixel(b1, x, y) == buf_pixel(b2, x, y),
    ensures
        b1 == b2,
{
    assert forall|ci: int| 0 <= ci < 504 implies b1[ci] == b2[ci] by {
        let page = ci / 84;
        let col = ci % 84;
        assert(ci == page * 84 + col);
        assert forall|k: int| 0 <= k < 8 implies b1[ci].spec_bit(k) == b2[ci].spec_bit(k) by {
            let row = page * 8 + k;
            assert(0 <= col < 84 && 0 <= row < 48);
            assert(row / 8 == page && row % 8 == k);
            assert(buf_pixel(b1, col, row) == buf_pixel(b2, col, row));
        }
        assert(b1[ci].spec_bit(0) == b2[ci].spec_bit(0));
        assert(b1[ci].spec_bit(1) == b2[ci].spec_bit(1));
        assert(b1[ci].spec_bit(2) == b2[ci].spec_bit(2));
        assert(b1[ci].spec_bit(3) == b2[ci].spec_bit(3));
        assert(b1[ci].spec_bit(4) == b2[ci].spec_bit(4));
        assert(b1[ci].spec_bit(5) == b2[ci].spec_bit(5));
        assert(b1[ci].spec_bit(6) == b2[ci].spec_bit(6));
        assert(b1[ci].spec_bit(7) == b2[ci].spec_bit(7));
        crate::bits::lemma_bit_ext(b1[ci].0, b2[ci].0);
    }
    assert(b1 =~= b2);
}

/// Drawing the same shape twice with the same arguments leaves the buffer
/// identical to drawing it once: the second pass paints every covered
/// pixel the color it already has.
pub proof fn lemma_draw_twice_identical(
    once: Canvas,
    twice: Canvas,
    start: Canvas,
    cover: Set<(int, int)>,
    color: Color,
)
    requires
        start.wf(),
        paints(start, once, cover, color),
        paints(once, twice, cover, color),
    ensures
        twice.buffer@ == once.buffer@,
{
    crate::canvas::blit::lemma_paints_idempotent(start, once, twice, cover, color);
    assert forall|x: int, y: int|
        0 <= x < 84 && 0 <= y < 48 implies buf_pixel(once.buffer@, x, y) == buf_pixel(
        twice.buffer@,
        x,
        y,
    ) by {
        assert(once.pix(x, y) == twice.pix(x, y));
    }
    lemma_buffer_ext(once.buffer@, twice.buffer@);
}

} // verus!
