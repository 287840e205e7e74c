use inky_el133::packing::{pack_pixels, unpack_pixels};

#[test]
fn pack_even_stream_exact_bytes() {
    assert_eq!(pack_pixels(&[1, 2, 3, 4]), vec![0x12, 0x34]);
    assert_eq!(pack_pixels(&[0, 15]), vec![0x0F]);
    assert_eq!(pack_pixels(&[]), Vec::<u8>::new());
}

#[test]
fn pack_odd_stream_last_byte_low_nibble_zero() {
    let packed = pack_pixels(&[1, 2, 3]);
    assert_eq!(packed, vec![0x12, 0x30]);
    assert_eq!(packed.last().unwrap() & 0x0F, 0);
    let single = pack_pixels(&[6]);
    assert_eq!(single, vec![0x60]);
    assert_eq!(single[0] & 0x0F, 0);
}

#[test]
fn unpack_exact_nibbles() {
    assert_eq!(unpack_pixels(&[0xAB, 0x01]), vec![0xA, 0xB, 0x0, 0x1]);
    assert_eq!(unpack_pixels(&[]), Vec::<u8>::new());
}

#[test]
fn pack_then_unpack_reproduces_even_nibble_stream() {
    let stream: Vec<u8> = (0u8..160).map(|i| i % 16).collect();
    assert_eq!(stream.len() % 2, 0);
    let packed = pack_pixels(&stream);
    assert_eq!(packed.len(), stream.len() / 2);
    assert_eq!(unpack_pixels(&packed), stream);
}

#[test]
fn pack_of_odd_stream_unpacks_with_zero_tail() {
    let stream: Vec<u8> = vec![5, 6, 3, 1, 2, 0, 15];
    let packed = pack_pixels(&stream);
    assert_eq!(packed.len(), (stream.len() + 1) / 2);
    let mut expected = stream.clone();
    expected.push(0);
    assert_eq!(unpack_pixels(&packed), expected);
}
