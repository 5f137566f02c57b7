//! Pixel-level behavior of the canvas and its shape drawing.

use hilton::canvas::bitmap::Bitmap;
use hilton::canvas::circle::Circle;
use hilton::canvas::pixel::Pixel;
use hilton::canvas::rect::Rect;
use hilton::canvas::Canvas;
use hilton::chunk::Chunk;
use hilton::color::Color;
use hilton::lcd::Lcd10168;
use hilton::pins::Pins;
use hilton::vec2::Vec2;

fn fresh_canvas() -> Canvas {
    let pins = Pins::new();
    let lcd = Lcd10168::builder()
        .reset(pins.pc1())
        .chip_enable(pins.pc2())
        .data_command(pins.pc3())
        .data_in(pins.pc4())
        .clock(pins.pc5())
        .build();
    Canvas::new_uninit(lcd).init()
}

fn buffers_equal(a: &Canvas, b: &Canvas) -> bool {
    for row in 0..6 {
        for col in 0..84 {
            if a.chunk_at_raw(col, row).0 != b.chunk_at_raw(col, row).0 {
                return false;
            }
        }
    }
    true
}

#[test]
fn set_pixel_then_read_back() {
    let mut canvas = fresh_canvas();
    canvas.set_pixel(5, 13, true);
    assert!(canvas.pixel_at(5, 13));
    canvas.set_pixel(5, 13, false);
    assert!(!canvas.pixel_at(5, 13));
}

#[test]
fn set_pixel_leaves_neighbor_bits_alone() {
    let mut canvas = fresh_canvas();
    // Fill some neighbours within the same chunk (rows 8..16 of column 5).
    canvas.set_pixel(5, 8, true);
    canvas.set_pixel(5, 15, true);
    canvas.set_pixel(5, 13, true);
    assert!(canvas.pixel_at(5, 8));
    assert!(canvas.pixel_at(5, 15));
    canvas.set_pixel(5, 13, false);
    assert!(canvas.pixel_at(5, 8));
    assert!(canvas.pixel_at(5, 15));
    assert!(!canvas.pixel_at(5, 13));
}

#[test]
fn clear_turns_every_pixel_off() {
    let mut canvas = fresh_canvas();
    canvas.set_pixel(0, 0, true);
    canvas.set_pixel(83, 47, true);
    canvas.draw_rect(Vec2::new(3, 3), Vec2::new(20, 20), Color::On);
    canvas.clear();
    for y in 0..48 {
        for x in 0..84 {
            assert!(!canvas.pixel_at(x, y));
        }
    }
}

#[test]
fn out_of_range_set_pixel_is_a_no_op() {
    let mut canvas = fresh_canvas();
    canvas.set_pixel(10, 10, true);
    canvas.set_pixel(-1, 0, true);
    canvas.set_pixel(84, 0, true);
    canvas.set_pixel(0, 48, true);
    canvas.set_pixel(0, -9, true);
    for y in 0..48 {
        for x in 0..84 {
            assert_eq!(canvas.pixel_at(x, y), x == 10 && y == 10);
        }
    }
}

#[test]
fn rect_draws_its_area() {
    let mut canvas = fresh_canvas();
    canvas.draw_rect(Vec2::new(2, 3), Vec2::new(4, 2), Color::On);
    for y in 0..48 {
        for x in 0..84 {
            let inside = (2..6).contains(&x) && (3..5).contains(&y);
            assert_eq!(canvas.pixel_at(x as usize, y as usize), inside);
        }
    }
}

#[test]
fn rect_twice_is_identical_to_once() {
    let mut once = fresh_canvas();
    let rect = Rect::new(Vec2::new(7, 9), Vec2::new(11, 5), Color::On);
    rect.draw(&mut once);
    let mut twice = fresh_canvas();
    rect.draw(&mut twice);
    rect.draw(&mut twice);
    assert!(buffers_equal(&once, &twice));
}

#[test]
fn circle_twice_is_identical_to_once() {
    let mut once = fresh_canvas();
    let circle = Circle::new(Vec2::new(30, 20), 7, Color::On);
    circle.draw(&mut once);
    let mut twice = fresh_canvas();
    circle.draw(&mut twice);
    circle.draw(&mut twice);
    assert!(buffers_equal(&once, &twice));
    let mut ring_once = fresh_canvas();
    let ring = Circle::new(Vec2::new(30, 20), 7, Color::On);
    ring.draw_outline(&mut ring_once);
    let mut ring_twice = fresh_canvas();
    ring.draw_outline(&mut ring_twice);
    ring.draw_outline(&mut ring_twice);
    assert!(buffers_equal(&ring_once, &ring_twice));
}

#[test]
fn negative_size_rect_equals_mirrored_rect() {
    let mut negative = fresh_canvas();
    negative.draw_rect(Vec2::new(10, 10), Vec2::new(-4, -4), Color::On);
    let mut mirrored = fresh_canvas();
    mirrored.draw_rect(Vec2::new(6, 6), Vec2::new(4, 4), Color::On);
    assert!(buffers_equal(&negative, &mirrored));
    // And the covered pixels are exactly the 4 x 4 block at (6, 6).
    for y in 0..48 {
        for x in 0..84 {
            let inside = (6..10).contains(&x) && (6..10).contains(&y);
            assert_eq!(negative.pixel_at(x as usize, y as usize), inside);
        }
    }
}

#[test]
fn negative_radius_circle_equals_positive() {
    let mut plus = fresh_canvas();
    plus.draw_filled_circle(Vec2::new(20, 20), 5, Color::On);
    let mut minus = fresh_canvas();
    minus.draw_filled_circle(Vec2::new(20, 20), -5, Color::On);
    assert!(buffers_equal(&plus, &minus));
}

#[test]
fn circle_radius_three_exact_pixels() {
    // The midpoint walk for radius 3, relative to the center.
    let expected: [(isize, isize); 16] = [
        (0, 3),
        (0, -3),
        (3, 0),
        (-3, 0),
        (1, 3),
        (1, -3),
        (-1, 3),
        (-1, -3),
        (3, 1),
        (3, -1),
        (-3, 1),
        (-3, -1),
        (2, 2),
        (2, -2),
        (-2, 2),
        (-2, -2),
    ];
    let mut canvas = fresh_canvas();
    canvas.draw_circle(Vec2::new(10, 10), 3, Color::On);
    for y in 0..48isize {
        for x in 0..84isize {
            let on = expected.iter().any(|&(dx, dy)| x == 10 + dx && y == 10 + dy);
            assert_eq!(canvas.pixel_at(x as usize, y as usize), on);
        }
    }
}

#[test]
fn circle_at_origin_clips_to_visible_quadrant() {
    let mut canvas = fresh_canvas();
    canvas.draw_circle(Vec2::new(0, 0), 3, Color::On);
    let expected: [(isize, isize); 5] = [(0, 3), (3, 0), (1, 3), (3, 1), (2, 2)];
    for y in 0..48isize {
        for x in 0..84isize {
            let on = expected.iter().any(|&(px, py)| x == px && y == py);
            assert_eq!(canvas.pixel_at(x as usize, y as usize), on);
        }
    }
}

#[test]
fn filled_circle_radius_two_exact_pixels() {
    let mut canvas = fresh_canvas();
    canvas.draw_filled_circle(Vec2::new(10, 10), 2, Color::On);
    // Radius 2: rows -1..=1 span the full width, the top and bottom rows
    // close with three pixels each.
    for y in 0..48isize {
        for x in 0..84isize {
            let dx = x - 10;
            let dy = y - 10;
            let on = (dy.abs() <= 1 && dx.abs() <= 2) || (dy.abs() == 2 && dx.abs() <= 1);
            assert_eq!(canvas.pixel_at(x as usize, y as usize), on);
        }
    }
}

#[test]
fn bitmap_draws_black_pixels_only() {
    let mut canvas = fresh_canvas();
    canvas.set_pixel(21, 10, true);
    // A 3 x 2 stamp: black cells in an L shape.
    let data = vec![true, false, false, true, true, false];
    let stamp = Bitmap::new(3, 2, data, Vec2::new(20, 10));
    canvas.draw_bitmap(&stamp);
    assert!(canvas.pixel_at(20, 10));
    assert!(!canvas.pixel_at(22, 10));
    assert!(canvas.pixel_at(20, 11));
    assert!(canvas.pixel_at(21, 11));
    assert!(!canvas.pixel_at(22, 11));
    // The background cell at (21, 10) kept its previous value.
    assert!(canvas.pixel_at(21, 10));
}

#[test]
fn bitmap_flip_h_mirrors_columns() {
    let mut canvas = fresh_canvas();
    let data = vec![true, false, false, true, true, false];
    let stamp = Bitmap::new(3, 2, data, Vec2::new(20, 10)).flip_h();
    canvas.draw_bitmap(&stamp);
    assert!(canvas.pixel_at(22, 10));
    assert!(!canvas.pixel_at(21, 10));
    assert!(!canvas.pixel_at(20, 10));
    assert!(canvas.pixel_at(22, 11));
    assert!(canvas.pixel_at(21, 11));
    assert!(!canvas.pixel_at(20, 11));
}

#[test]
fn bitmap_flip_v_mirrors_rows() {
    let mut canvas = fresh_canvas();
    let data = vec![true, false, false, true, true, false];
    let stamp = Bitmap::new(3, 2, data, Vec2::new(20, 10)).flip_v();
    canvas.draw_bitmap(&stamp);
    assert!(canvas.pixel_at(20, 11));
    assert!(!canvas.pixel_at(21, 11));
    assert!(canvas.pixel_at(20, 10));
    assert!(canvas.pixel_at(21, 10));
}

#[test]
fn pixel_shape_draws_one_pixel() {
    let mut canvas = fresh_canvas();
    let dot = Pixel::new(Vec2::new(40, 25), Color::On);
    dot.draw(&mut canvas);
    for y in 0..48 {
        for x in 0..84 {
            assert_eq!(canvas.pixel_at(x, y), x == 40 && y == 25);
        }
    }
    Pixel::new(Vec2::new(40, 25), Color::Off).draw(&mut canvas);
    assert!(!canvas.pixel_at(40, 25));
}

#[test]
fn chunk_bit_masks() {
    assert_eq!(Chunk::bit(0).0, 1);
    assert_eq!(Chunk::bit(3).0, 8);
    assert_eq!(Chunk::bit(7).0, 128);
    let c = Chunk(0b0100_1000);
    assert!(c.get(3));
    assert!(c.get(6));
    assert!(!c.get(0));
}

#[test]
fn drawing_off_color_erases() {
    let mut canvas = fresh_canvas();
    canvas.draw_rect(Vec2::new(0, 0), Vec2::new(30, 30), Color::On);
    canvas.draw_filled_circle(Vec2::new(10, 10), 3, Color::Off);
    assert!(!canvas.pixel_at(10, 10));
    assert!(!canvas.pixel_at(12, 10));
    assert!(canvas.pixel_at(15, 10));
}
