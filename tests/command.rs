use pixelflut::{Color, Command, Coordinate, Pixel, PixelflutErrorKind, Response};

#[test]
fn command_parses() {
    assert_eq!(Command::parse_byte_slice(b"SIZE").unwrap(), Command::Size);
    assert_eq!(
        Command::parse_byte_slice(b"PX 123 456 123456").unwrap(),
        Command::Px(Pixel::new((123, 456).into(), Color::rgb(0x12, 0x34, 0x56)))
    );
}

#[test]
fn response_parses() {}

#[test]
fn display() {
    let pxcommand = Command::Px(Pixel::new((45, 67).into(), (0x11, 0x22, 0x55).into()));

    assert_eq!(pxcommand.to_string(), "PX 45 67 112255");
    assert_eq!(pxcommand, "PX 45 67 112255".parse().unwrap());
    assert_eq!(Command::Size.to_string(), "SIZE");
    assert_eq!(Command::Size, "SIZE".parse().unwrap());
    assert_eq!(Response::Size { w: 12, h: 34 }.to_string(), "SIZE 12 34");
    assert_eq!(Response::Size { w: 12, h: 34 }, "SIZE 12 34".parse().unwrap());
    assert!("SIZE Blah".parse::<Response>().is_err());
    assert!("FOO".parse::<Response>().is_err());
    assert!("FOO".parse::<Response>().is_err());
}

#[test]
fn command_errors_by_kind() {
    let kind = |line: &[u8]| Command::parse_byte_slice(line).unwrap_err().kind();
    assert_eq!(kind(b""), PixelflutErrorKind::InvalidCommand);
    assert_eq!(kind(b"   "), PixelflutErrorKind::InvalidCommand);
    assert_eq!(kind(b"FOO"), PixelflutErrorKind::InvalidCommand);
    assert_eq!(kind(b"size"), PixelflutErrorKind::InvalidCommand);
    assert_eq!(kind(b"SIZE 1"), PixelflutErrorKind::WrongNumberOfArguments);
    assert_eq!(kind(b"PX 1 2"), PixelflutErrorKind::WrongNumberOfArguments);
    assert_eq!(kind(b"PX 1 2 ffffff 3"), PixelflutErrorKind::WrongNumberOfArguments);
    assert_eq!(kind(b"PX a 2 ffffff"), PixelflutErrorKind::Parse);
    assert_eq!(kind(b"PX 1 2 fffff"), PixelflutErrorKind::Parse);
    assert_eq!(kind(b"PX 1 2 fffffg"), PixelflutErrorKind::Parse);
    assert_eq!(kind(b"PX 4294967296 0 ffffff"), PixelflutErrorKind::Parse);
}

#[test]
fn command_tolerates_surrounding_whitespace() {
    assert_eq!(Command::parse_byte_slice(b" SIZE \r").unwrap(), Command::Size);
    assert_eq!(
        Command::parse_byte_slice(b"PX\t1  2 0a0B0c\r").unwrap(),
        Command::Px(Pixel::new(Coordinate::new(1, 2), Color::rgb(10, 11, 12)))
    );
}

#[test]
fn px_round_trip_examples() {
    let pixels = [
        Pixel::new(Coordinate::new(0, 0), Color::rgb(0, 0, 0)),
        Pixel::new(Coordinate::new(4294967295, 4294967295), Color::rgba(255, 255, 255, 255)),
        Pixel::new(Coordinate::new(10, 20), Color::rgba(1, 2, 3, 0)),
        Pixel::new(Coordinate::new(999, 1000), Color::rgb(0xfe, 0xdc, 0xba)),
    ];
    for p in pixels.iter() {
        let line = Command::Px(*p).to_string();
        assert_eq!(Command::parse_byte_slice(line.as_bytes()).unwrap(), Command::Px(*p));
    }
    assert_eq!(
        Command::Px(pixels[1]).to_string(),
        "PX 4294967295 4294967295 ffffffff"
    );
}

#[test]
fn size_response_round_trip_examples() {
    for (w, h) in [(0u32, 0u32), (800, 600), (4294967295, 1)].iter() {
        let r = Response::Size { w: *w, h: *h };
        let line = r.to_string();
        assert_eq!(Response::parse_byte_slice(line.as_bytes()).unwrap(), r);
    }
}

#[test]
fn error_response_keeps_the_rest_of_the_line() {
    let r = Response::parse_byte_slice(b"ERROR invalid command: too many words").unwrap();
    assert_eq!(r, Response::Error("invalid command: too many words".to_string()));
    let r = Response::Error("h\u{e9}llo  w\u{f6}rld".to_string());
    let mut out = Vec::new();
    r.write_to(&mut out);
    assert_eq!(out, "ERROR h\u{e9}llo  w\u{f6}rld".as_bytes());
    assert_eq!(Response::parse_byte_slice(&out).unwrap(), r);
    assert_eq!(r.to_string(), "ERROR h\u{e9}llo  w\u{f6}rld");
}

#[test]
fn response_errors_by_kind() {
    let kind = |line: &[u8]| Response::parse_byte_slice(line).unwrap_err().kind();
    assert_eq!(kind(b"ERROR \xff\xfe"), PixelflutErrorKind::Parse);
    assert_eq!(kind(b"ERROR"), PixelflutErrorKind::WrongNumberOfArguments);
    assert_eq!(kind(b"SIZE"), PixelflutErrorKind::WrongNumberOfArguments);
    assert_eq!(kind(b"SIZE 1"), PixelflutErrorKind::WrongNumberOfArguments);
    assert_eq!(kind(b"SIZE 1 2 3"), PixelflutErrorKind::WrongNumberOfArguments);
    assert_eq!(kind(b"SIZE 1 x"), PixelflutErrorKind::Parse);
    assert_eq!(kind(b"PX 1 2 ffffff"), PixelflutErrorKind::InvalidCommand);
    assert_eq!(kind(b""), PixelflutErrorKind::InvalidCommand);
}

#[test]
fn response_dimensions() {
    assert_eq!(Response::Size { w: 800, h: 600 }.dimensions().unwrap(), (800, 600));
    let e = Response::Error("busy".to_string()).dimensions().unwrap_err();
    assert_eq!(e.kind(), PixelflutErrorKind::ServerError);
}

#[test]
fn command_from_pixel() {
    let p = Pixel::new(Coordinate::new(1, 2), Color::rgb(3, 4, 5));
    assert_eq!(Command::from(p), Command::Px(p));
}

#[test]
fn error_text_names_kind_and_description() {
    let e = Command::parse_byte_slice(b"FOO").unwrap_err();
    assert_eq!(e.to_string(), "invalid command: unknown command");
    let e: pixelflut::PixelflutError = PixelflutErrorKind::State.into();
    assert_eq!(e.to_string(), "invalid state");
    assert_eq!(PixelflutErrorKind::Io.as_str(), "io error");
    let e = PixelflutErrorKind::Parse.with_description("bad");
    assert_eq!(e.kind(), PixelflutErrorKind::Parse);
    assert_eq!(e.to_string(), "parse error: bad");
}

#[test]
fn malformed_input_never_panics() {
    let mut state: u64 = 0x9e3779b97f4a7c15;
    let alphabet = b"PXSIZERO 0123456789abcdefABCDEFg\t\r\n\xff-+";
    for round in 0..2000 {
        let len = (round % 40) as usize;
        let mut line = Vec::with_capacity(len);
        for _ in 0..len {
            state ^= state << 13;
            state ^= state >> 7;
            state ^= state << 17;
            let pick = if state % 3 == 0 {
                (state >> 8) as u8
            } else {
                alphabet[(state >> 8) as usize % alphabet.len()]
            };
            line.push(pick);
        }
        let _ = Command::parse_byte_slice(&line);
        let _ = Response::parse_byte_slice(&line);
        let _ = Pixel::parse_byte_slice(&line);
        let _ = Color::parse_byte_slice(&line);
    }
}
