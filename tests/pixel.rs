use pixelflut::{parse_hex_byte, Color, Coordinate, Pixel, PixelflutErrorKind};

#[test]
fn pixel_parses() {
    assert_eq!(
        Pixel::new(Coordinate::new(10, 20), Color::rgb(0x11, 0x22, 0x33)),
        Pixel::parse_byte_slice(b"10 20 112233").unwrap()
    );
}

#[test]
fn coordinate_parses() {
    assert_eq!(Coordinate::parse_byte_slice(b"0 0").unwrap(), Coordinate::new(0, 0));
    assert_eq!(Coordinate::parse_byte_slice(b"1 2").unwrap(), Coordinate::new(1, 2));
    assert_eq!(
        Coordinate::parse_byte_slice(b"1234 2345").unwrap(),
        Coordinate::new(1234, 2345)
    );
    assert_eq!(
        Coordinate::parse_byte_slice(b"1000000000 1000000000").unwrap(),
        Coordinate::new(1_000_000_000, 1_000_000_000)
    );
}

#[test]
fn color_parses() {
    assert_eq!(Color::parse_byte_slice(b"000000").unwrap(), Color::rgb(0, 0, 0));
    assert_eq!(Color::parse_byte_slice(b"00000000").unwrap(), Color::rgba(0, 0, 0, 0));
    assert_eq!(
        Color::parse_byte_slice(b"123456").unwrap(),
        Color::rgb(0x12, 0x34, 0x56)
    );
    assert_eq!(
        Color::parse_byte_slice(b"123456Ab").unwrap(),
        Color::rgba(0x12, 0x34, 0x56, 0xab)
    );
    assert!(Color::parse_byte_slice(b"").is_err());
}

#[test]
fn test_color_rgb() {
    assert_eq!(
        Color { r: 0x11, g: 0x22, b: 0x33, a: None },
        Color::rgb(0x11, 0x22, 0x33)
    );
}

#[test]
fn test_color_rgba() {
    assert_eq!(
        Color { r: 0x11, g: 0x22, b: 0x33, a: Some(0x44) },
        Color::rgba(0x11, 0x22, 0x33, 0x44)
    );
}

#[test]
fn test_color_normalized() {
    assert_eq!((0x11, 0x22, 0x33, 0xff), Color::rgb(0x11, 0x22, 0x33).normalized());
    assert_eq!(
        (0x11, 0x22, 0x33, 0x44),
        Color::rgba(0x11, 0x22, 0x33, 0x44).normalized()
    );
}

#[test]
fn hex_byte_parses() {
    assert_eq!(parse_hex_byte(b"12"), Some(0x12));
    assert_eq!(parse_hex_byte(b"a0"), Some(0xa0));
    assert_eq!(parse_hex_byte(b"A0"), Some(0xa0));
    assert_eq!(parse_hex_byte(b"00"), Some(0x00));
    assert_eq!(parse_hex_byte(b"1"), None);
    assert_eq!(parse_hex_byte(b"123"), None);
}

#[test]
fn hex_byte_rejects_non_hex() {
    assert_eq!(parse_hex_byte(b"g0"), None);
    assert_eq!(parse_hex_byte(b"0G"), None);
    assert_eq!(parse_hex_byte(b"fF"), Some(0xff));
}

#[test]
fn coordinate_parse_errors() {
    let e = Coordinate::parse_byte_slice(b"12").unwrap_err();
    assert_eq!(e.kind(), PixelflutErrorKind::WrongNumberOfArguments);
    let e = Coordinate::parse_byte_slice(b"1 2 3").unwrap_err();
    assert_eq!(e.kind(), PixelflutErrorKind::WrongNumberOfArguments);
    let e = Coordinate::parse_byte_slice(b"1x 2").unwrap_err();
    assert_eq!(e.kind(), PixelflutErrorKind::Parse);
    let e = Coordinate::parse_byte_slice(b"-1 2").unwrap_err();
    assert_eq!(e.kind(), PixelflutErrorKind::Parse);
    let e = Coordinate::parse_byte_slice(b"+1 2").unwrap_err();
    assert_eq!(e.kind(), PixelflutErrorKind::Parse);
}

#[test]
fn coordinate_bounds_of_u32() {
    assert_eq!(
        Coordinate::parse_byte_slice(b"4294967295 0").unwrap(),
        Coordinate::new(4294967295, 0)
    );
    let e = Coordinate::parse_byte_slice(b"4294967296 0").unwrap_err();
    assert_eq!(e.kind(), PixelflutErrorKind::Parse);
    assert_eq!(
        Coordinate::parse_byte_slice(b"0007 010").unwrap(),
        Coordinate::new(7, 10)
    );
}

#[test]
fn pixel_tokens_split_on_any_ascii_whitespace() {
    assert_eq!(
        Pixel::parse_byte_slice(b"  10\t20 \r112233\r").unwrap(),
        Pixel::new(Coordinate::new(10, 20), Color::rgb(0x11, 0x22, 0x33))
    );
    let e = Pixel::parse_byte_slice(b"10 20").unwrap_err();
    assert_eq!(e.kind(), PixelflutErrorKind::WrongNumberOfArguments);
    let e = Pixel::parse_byte_slice(b"10 20 112233 4").unwrap_err();
    assert_eq!(e.kind(), PixelflutErrorKind::WrongNumberOfArguments);
    let e = Pixel::parse_byte_slice(b"10 20 11223").unwrap_err();
    assert_eq!(e.kind(), PixelflutErrorKind::Parse);
}

#[test]
fn pixel_and_coordinate_to_string() {
    let p = Pixel::new(Coordinate::new(45, 67), Color::rgb(0x11, 0x22, 0x55));
    assert_eq!(p.to_string(), "45 67 112255");
    assert_eq!(Coordinate::new(0, 4294967295).to_string(), "0 4294967295");
}

#[test]
fn pixel_from_tuples() {
    let p = Pixel::from(((12, 34), (255, 0, 10)));
    assert_eq!(p, Pixel::new(Coordinate::new(12, 34), Color::rgb(255, 0, 10)));
    let p = Pixel::from(((12, 34), (255, 0, 10, 20)));
    assert_eq!(p.color, Color::rgba(255, 0, 10, 20));
    let t: (u32, u32) = Coordinate::new(5, 6).into();
    assert_eq!(t, (5, 6));
}

#[test]
fn pixel_from_str() {
    let p: Pixel = "10 20 112233".parse().unwrap();
    assert_eq!(p, Pixel::new(Coordinate::new(10, 20), Color::rgb(0x11, 0x22, 0x33)));
    assert!("10 20".parse::<Pixel>().is_err());
}
