use pixelflut::{capacity_reached, Color, Coordinate, NumberWriter, Pixel, PixelBuffer};

#[test]
fn pixelbuffer_from_iter() {
    let v = vec![
        Pixel::from(((12, 34), (255, 0, 10))),
        Pixel::from(((12, 35), (0, 255, 10))),
    ];
    let buffer = PixelBuffer::from_pixels(&v);
    assert_eq!(buffer.as_slice(), b"PX 12 34 ff000a\nPX 12 35 00ff0a\n");
}

#[test]
fn write_pixel_batches_lines() {
    let mut buffer = PixelBuffer::new();
    buffer.write_pixel(&Pixel::new((12, 34).into(), (255, 0, 10).into()));
    buffer.write_pixel(&Pixel::new((13, 34).into(), (255, 0, 10).into()));
    assert_eq!(buffer.as_slice(), b"PX 12 34 ff000a\nPX 13 34 ff000a\n");
    assert_eq!(AsRef::<[u8]>::as_ref(&buffer), buffer.as_slice());
    assert!(!buffer.is_capacity_reached());
}

#[test]
fn write_pixel_with_alpha_and_large_coordinates() {
    let mut buffer = PixelBuffer::with_capacity(0);
    buffer.write_pixel(&Pixel::new(
        Coordinate::new(4294967295, 4096),
        Color::rgba(1, 2, 3, 4),
    ));
    buffer.write_pixel(&Pixel::new(Coordinate::new(4095, 0), Color::rgb(0xab, 0xcd, 0xef)));
    assert_eq!(
        buffer.as_slice(),
        b"PX 4294967295 4096 01020304\nPX 4095 0 abcdef\n"
    );
}

#[test]
fn is_empty_tracks_writes() {
    let mut buffer = PixelBuffer::default();
    assert!(buffer.is_empty());
    buffer.write_pixel(&Pixel::default());
    assert!(!buffer.is_empty());
    assert_eq!(buffer.as_slice(), b"PX 0 0 000000\n");
    buffer.clear();
    assert!(buffer.is_empty());
}

#[test]
fn capacity_trigger_then_flush_keeps_capacity() {
    let mut buffer = PixelBuffer::with_capacity_pixels(10);
    let capacity = buffer.capacity();
    assert!(capacity >= 340);
    let mut i = 0;
    while !buffer.is_capacity_reached() {
        buffer.write_pixel(&Pixel::new((i, 0).into(), (255, 0, 0).into()));
        i += 1;
    }
    assert_eq!(buffer.capacity(), capacity);
    buffer.clear();
    assert!(buffer.is_empty());
    assert_eq!(buffer.capacity(), capacity);
    assert!(!buffer.is_capacity_reached());
}

#[test]
fn capacity_reached_formula() {
    assert!(!capacity_reached(100, 66));
    assert!(capacity_reached(100, 67));
    assert!(capacity_reached(34, 1));
    assert!(!capacity_reached(34, 0));
}

#[test]
fn number_writer_tables_and_fallback() {
    let writer = NumberWriter::with_decimal_size(10);
    let mut out = Vec::new();
    writer.write_decimal(&mut out, 7);
    out.push(b' ');
    writer.write_decimal(&mut out, 12345);
    out.push(b' ');
    writer.write_hex02(&mut out, 0x0f);
    writer.write_hex02(&mut out, 0xa0);
    assert_eq!(out, b"7 12345 0fa0");
    let writer = NumberWriter::create();
    let mut out = Vec::new();
    writer.write_decimal(&mut out, 4095);
    writer.write_decimal(&mut out, 4096);
    assert_eq!(out, b"40954096");
}
