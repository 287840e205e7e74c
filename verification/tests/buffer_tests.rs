use inky_el133::buffer::PixelBuffer;
use inky_el133::color::{is_valid_color, BLACK, BLUE, GREEN, RED, WHITE, YELLOW};
use inky_el133::error::InkyError;
use inky_el133::{HEIGHT, WIDTH};

#[test]
fn valid_colors_are_the_sparse_set() {
    for c in 0u8..=255 {
        let expected = matches!(c, 0 | 1 | 2 | 3 | 5 | 6);
        assert_eq!(is_valid_color(c), expected, "color {}", c);
    }
}

#[test]
fn new_buffer_is_all_white() {
    let buf = PixelBuffer::new(WIDTH, HEIGHT);
    assert_eq!(buf.get_pixel(0, 0).unwrap(), WHITE);
    assert_eq!(buf.get_pixel(WIDTH - 1, HEIGHT - 1).unwrap(), WHITE);
    assert_eq!(buf.get_pixel(799, 599).unwrap(), WHITE);
}

#[test]
fn set_then_get_yields_color_for_every_valid_color() {
    let mut buf = PixelBuffer::new(WIDTH, HEIGHT);
    for &c in &[BLACK, WHITE, YELLOW, RED, BLUE, GREEN] {
        assert_eq!(buf.set_pixel(100, 200, c), Ok(()));
        assert_eq!(buf.get_pixel(100, 200).unwrap(), c);
    }
}

#[test]
fn set_rejects_invalid_colors_and_leaves_cell_unchanged() {
    let mut buf = PixelBuffer::new(WIDTH, HEIGHT);
    assert_eq!(buf.set_pixel(10, 20, RED), Ok(()));
    for &c in &[4u8, 7, 8, 100, 255] {
        assert_eq!(buf.set_pixel(10, 20, c), Err(InkyError::InvalidColor(c)));
        assert_eq!(buf.get_pixel(10, 20).unwrap(), RED);
    }
}

#[test]
fn set_out_of_bounds_regardless_of_color_validity() {
    let mut buf = PixelBuffer::new(WIDTH, HEIGHT);
    // Valid color, out-of-range coordinates.
    assert_eq!(buf.set_pixel(WIDTH, 0, RED), Err(InkyError::OutOfBounds(WIDTH, 0)));
    assert_eq!(buf.set_pixel(0, HEIGHT, RED), Err(InkyError::OutOfBounds(0, HEIGHT)));
    assert_eq!(
        buf.set_pixel(2000, 5000, BLUE),
        Err(InkyError::OutOfBounds(2000, 5000))
    );
    // Invalid color as well: bounds are checked first.
    assert_eq!(buf.set_pixel(WIDTH, 0, 4), Err(InkyError::OutOfBounds(WIDTH, 0)));
    assert_eq!(buf.set_pixel(9999, HEIGHT, 42), Err(InkyError::OutOfBounds(9999, HEIGHT)));
}

#[test]
fn corner_pixels_are_settable() {
    let mut buf = PixelBuffer::new(WIDTH, HEIGHT);
    for &(x, y) in &[(0, 0), (WIDTH - 1, 0), (0, HEIGHT - 1), (WIDTH - 1, HEIGHT - 1)] {
        assert_eq!(buf.set_pixel(x, y, BLACK), Ok(()));
        assert_eq!(buf.get_pixel(x, y).unwrap(), BLACK);
    }
}

#[test]
fn get_out_of_bounds() {
    let buf = PixelBuffer::new(WIDTH, HEIGHT);
    assert_eq!(buf.get_pixel(WIDTH, 0), Err(InkyError::OutOfBounds(WIDTH, 0)));
    assert_eq!(buf.get_pixel(0, HEIGHT), Err(InkyError::OutOfBounds(0, HEIGHT)));
}

#[test]
fn fill_overwrites_every_cell_for_every_valid_color() {
    let mut buf = PixelBuffer::new(WIDTH, HEIGHT);
    for &c in &[BLACK, WHITE, YELLOW, RED, BLUE, GREEN] {
        assert_eq!(buf.fill(c), Ok(()));
        assert_eq!(buf.get_pixel(0, 0).unwrap(), c);
        assert_eq!(buf.get_pixel(WIDTH - 1, 0).unwrap(), c);
        assert_eq!(buf.get_pixel(0, HEIGHT - 1).unwrap(), c);
        assert_eq!(buf.get_pixel(WIDTH - 1, HEIGHT - 1).unwrap(), c);
        assert_eq!(buf.get_pixel(777, 333).unwrap(), c);
    }
}

#[test]
fn fill_with_invalid_color_fails_and_leaves_buffer_unchanged() {
    let mut buf = PixelBuffer::new(WIDTH, HEIGHT);
    assert_eq!(buf.set_pixel(5, 6, GREEN), Ok(()));
    assert_eq!(buf.fill(4), Err(InkyError::InvalidColor(4)));
    assert_eq!(buf.get_pixel(5, 6).unwrap(), GREEN);
    assert_eq!(buf.get_pixel(0, 0).unwrap(), WHITE);
    assert_eq!(buf.fill(9), Err(InkyError::InvalidColor(9)));
    assert_eq!(buf.get_pixel(5, 6).unwrap(), GREEN);
}
