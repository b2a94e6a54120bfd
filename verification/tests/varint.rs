use wasi_js_transformer::varint::read_varuint;

#[test]
fn reads_single_byte() {
    let bytes: Vec<u8> = vec![0x05, 0x00, 0x00, 0x00];
    assert_eq!(read_varuint(&bytes, 0), Some((5, 1)));
}

#[test]
fn reads_zero() {
    let bytes: Vec<u8> = vec![0x00, 0xff, 0xff, 0xff];
    assert_eq!(read_varuint(&bytes, 0), Some((0, 1)));
}

#[test]
fn reads_largest_single_byte() {
    let bytes: Vec<u8> = vec![0x7f, 0x00, 0x00, 0x00];
    assert_eq!(read_varuint(&bytes, 0), Some((127, 1)));
}

#[test]
fn reads_two_bytes() {
    let bytes: Vec<u8> = vec![0x80, 0x01, 0x00, 0x00];
    assert_eq!(read_varuint(&bytes, 0), Some((128, 2)));
}

#[test]
fn reads_three_bytes() {
    // 624485 = 0x26 << 14 | 0x0e << 7 | 0x65
    let bytes: Vec<u8> = vec![0xe5, 0x8e, 0x26, 0x00];
    assert_eq!(read_varuint(&bytes, 0), Some((624485, 3)));
}

#[test]
fn reads_four_bytes() {
    let bytes: Vec<u8> = vec![0xff, 0xff, 0xff, 0x7f];
    assert_eq!(read_varuint(&bytes, 0), Some((268435455, 4)));
}

#[test]
fn reads_padded_encoding() {
    // 0x84 0x80 0x80 0x00 is the value 4 written in four bytes
    let bytes: Vec<u8> = vec![0x84, 0x80, 0x80, 0x00];
    assert_eq!(read_varuint(&bytes, 0), Some((4, 4)));
}

#[test]
fn reads_at_an_offset() {
    let bytes: Vec<u8> = vec![0xff, 0xff, 0x83, 0x01, 0x00, 0x00];
    assert_eq!(read_varuint(&bytes, 2), Some((131, 2)));
}

#[test]
fn stops_at_the_first_byte_without_flag() {
    let bytes: Vec<u8> = vec![0x01, 0x82, 0x83, 0x84];
    assert_eq!(read_varuint(&bytes, 0), Some((1, 1)));
}

#[test]
fn reads_five_bytes() {
    let bytes: Vec<u8> = vec![0x80, 0x80, 0x80, 0x80, 0x00];
    assert_eq!(read_varuint(&bytes, 0), Some((0, 5)));
    // 0x8a 0x80 0x80 0x80 0x00 is the value 10 written in five bytes
    let bytes: Vec<u8> = vec![0x8a, 0x80, 0x80, 0x80, 0x00, 0x7f];
    assert_eq!(read_varuint(&bytes, 0), Some((10, 5)));
    let bytes: Vec<u8> = vec![0x80, 0x80, 0x80, 0x80, 0x01];
    assert_eq!(read_varuint(&bytes, 0), Some((268435456, 5)));
}

#[test]
fn reads_the_largest_value() {
    let bytes: Vec<u8> = vec![0xff, 0xff, 0xff, 0xff, 0x0f];
    assert_eq!(read_varuint(&bytes, 0), Some((u32::MAX, 5)));
}

#[test]
fn fails_when_the_value_does_not_fit() {
    let bytes: Vec<u8> = vec![0x80, 0x80, 0x80, 0x80, 0x10];
    assert_eq!(read_varuint(&bytes, 0), None);
    let bytes: Vec<u8> = vec![0xff, 0xff, 0xff, 0xff, 0x7f];
    assert_eq!(read_varuint(&bytes, 0), None);
}

#[test]
fn fails_when_five_bytes_continue() {
    let bytes: Vec<u8> = vec![0x80, 0x80, 0x80, 0x80, 0x80, 0x00];
    assert_eq!(read_varuint(&bytes, 0), None);
}

#[test]
fn fails_when_the_buffer_ends_inside() {
    let bytes: Vec<u8> = vec![0x01, 0x82, 0x83];
    assert_eq!(read_varuint(&bytes, 1), None);
    assert_eq!(read_varuint(&bytes, 2), None);
    assert_eq!(read_varuint(&bytes, 3), None);
    assert_eq!(read_varuint(&bytes, 4), None);
    assert_eq!(read_varuint(&bytes, usize::MAX), None);
}

#[test]
fn reads_up_to_the_last_byte() {
    let bytes: Vec<u8> = vec![0x01, 0x02, 0x83, 0x04];
    assert_eq!(read_varuint(&bytes, 1), Some((2, 1)));
    assert_eq!(read_varuint(&bytes, 2), Some((515, 2)));
    assert_eq!(read_varuint(&bytes, 3), Some((4, 1)));
}

#[test]
fn fails_on_an_empty_buffer() {
    let bytes: Vec<u8> = Vec::new();
    assert_eq!(read_varuint(&bytes, 0), None);
}
