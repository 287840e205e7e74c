use inky_el133::buffer::PixelBuffer;
use inky_el133::color::{BLACK, BLUE, GREEN, RED, WHITE, YELLOW};
use inky_el133::packing::unpack_pixels;
use inky_el133::{HEIGHT, SPLIT_COL, WIDTH};

const PALETTE: [u8; 6] = [BLACK, WHITE, YELLOW, RED, BLUE, GREEN];

/// A pixel at source (x, y) lands at rotated coordinate (y, WIDTH - 1 - x):
/// rotated row r is source column x = WIDTH - 1 - r read with y ascending.
/// Columns [0, SPLIT_COL) of a rotated row go to payload A, the rest to B.
fn expected_position(x: usize, y: usize) -> (bool, usize) {
    let new_x = y;
    let new_y = WIDTH - 1 - x;
    if new_x < SPLIT_COL {
        (true, new_y * SPLIT_COL + new_x)
    } else {
        (false, new_y * (HEIGHT - SPLIT_COL) + (new_x - SPLIT_COL))
    }
}

#[test]
fn payload_sizes_match_the_split() {
    let buf = PixelBuffer::new(WIDTH, HEIGHT);
    let (a, b) = buf.rotate_and_split();
    // Per rotated row: SPLIT_COL pixels to A and HEIGHT - SPLIT_COL to B,
    // for WIDTH rows, two pixels per byte.
    assert_eq!(a.len(), WIDTH * SPLIT_COL / 2);
    assert_eq!(b.len(), WIDTH * (HEIGHT - SPLIT_COL) / 2);
}

#[test]
fn single_pixel_lands_at_rotated_position_in_a() {
    let mut buf = PixelBuffer::new(WIDTH, HEIGHT);
    buf.set_pixel(5, 7, BLUE).unwrap();
    let (a, b) = buf.rotate_and_split();
    let a_pix = unpack_pixels(&a);
    let b_pix = unpack_pixels(&b);
    let (in_a, idx) = expected_position(5, 7);
    assert!(in_a);
    assert_eq!(a_pix[idx], BLUE);
    // Every other sampled pixel stays white.
    assert_eq!(a_pix[0], WHITE);
    assert_eq!(a_pix[idx - 1], WHITE);
    assert_eq!(a_pix[idx + 1], WHITE);
    assert_eq!(b_pix[0], WHITE);
}

#[test]
fn single_pixel_lands_at_rotated_position_in_b() {
    let mut buf = PixelBuffer::new(WIDTH, HEIGHT);
    buf.set_pixel(3, 700, GREEN).unwrap();
    let (a, b) = buf.rotate_and_split();
    let a_pix = unpack_pixels(&a);
    let b_pix = unpack_pixels(&b);
    let (in_a, idx) = expected_position(3, 700);
    assert!(!in_a);
    assert_eq!(b_pix[idx], GREEN);
    assert_eq!(b_pix[idx - 1], WHITE);
    assert_eq!(b_pix[idx + 1], WHITE);
    assert_eq!(a_pix[0], WHITE);
}

#[test]
fn concatenated_rows_of_a_and_b_reconstruct_each_rotated_row() {
    let mut buf = PixelBuffer::new(WIDTH, HEIGHT);
    // Paint the source columns that become rotated rows 0 and 42 with a
    // coordinate-derived pattern.
    for &row in &[0usize, 42] {
        let x = WIDTH - 1 - row;
        for y in 0..HEIGHT {
            buf.set_pixel(x, y, PALETTE[(x + y) % 6]).unwrap();
        }
    }
    let (a, b) = buf.rotate_and_split();
    let a_pix = unpack_pixels(&a);
    let b_pix = unpack_pixels(&b);
    for &row in &[0usize, 42] {
        let x = WIDTH - 1 - row;
        // Row `row` of A has SPLIT_COL pixels, row `row` of B the rest;
        // together they are the rotated row, which is source column x.
        for y in 0..HEIGHT {
            let expected = PALETTE[(x + y) % 6];
            let got = if y < SPLIT_COL {
                a_pix[row * SPLIT_COL + y]
            } else {
                b_pix[row * (HEIGHT - SPLIT_COL) + (y - SPLIT_COL)]
            };
            assert_eq!(got, expected, "row {} position {}", row, y);
        }
    }
}

#[test]
fn uniform_fill_gives_uniform_payloads() {
    let mut buf = PixelBuffer::new(WIDTH, HEIGHT);
    buf.fill(YELLOW).unwrap();
    let (a, b) = buf.rotate_and_split();
    assert!(a.iter().all(|&byte| byte == 0x22));
    assert!(b.iter().all(|&byte| byte == 0x22));
}
