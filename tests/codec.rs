use bytes::BytesMut;
use pixelflut::{
    Color, Command, Coordinate, Pixel, PixelflutClientCodec, PixelflutErrorKind,
    PixelflutServerCodec, Response,
};

#[test]
fn decode_server() {
    let pxcommand = Command::Px(Pixel::new((45, 67).into(), (0x11, 0x22, 0x55).into()));

    let mut buf = BytesMut::from("PX 45 67 112255\n");
    assert_eq!(PixelflutServerCodec.decode(&mut buf).unwrap(), Some(pxcommand));
    assert_eq!(buf.len(), 0);
}

#[test]
fn encode_server() {
    let pxcommand = Command::Px(Pixel::new((45, 67).into(), (0x11, 0x22, 0x55).into()));

    let mut buf = BytesMut::new();
    PixelflutClientCodec.encode(pxcommand, &mut buf).unwrap();
    assert_eq!(&buf[..], b"PX 45 67 112255\n");
}

#[test]
fn decode_client() {
    let sizecommand = Response::Size { w: 12, h: 34 };

    let mut buf = BytesMut::from("SIZE 12 34\n");
    assert_eq!(PixelflutClientCodec.decode(&mut buf).unwrap(), Some(sizecommand));
    assert_eq!(buf.len(), 0);
}

#[test]
fn encode_client() {
    let sizecommand = Response::Size { w: 12, h: 34 };

    let mut buf = BytesMut::new();
    PixelflutServerCodec.encode(sizecommand, &mut buf).unwrap();
    assert_eq!(&buf[..], b"SIZE 12 34\n");
}

#[test]
fn server_codec_keeps_what_follows_the_line() {
    let mut buf = BytesMut::from("SIZE\nPX 1 2 0000");
    assert_eq!(PixelflutServerCodec.decode(&mut buf).unwrap(), Some(Command::Size));
    assert_eq!(&buf[..], b"PX 1 2 0000");
    assert_eq!(PixelflutServerCodec.decode(&mut buf).unwrap(), None);
    buf.extend_from_slice(b"00\n");
    assert_eq!(
        PixelflutServerCodec.decode(&mut buf).unwrap(),
        Some(Command::Px(Pixel::new(Coordinate::new(1, 2), Color::rgb(0, 0, 0))))
    );
    assert!(buf.is_empty());
}

#[test]
fn server_codec_rejects_long_lines() {
    let mut buf = BytesMut::from(&[b'1'; 35][..]);
    let e = PixelflutServerCodec.decode(&mut buf).unwrap_err();
    assert_eq!(e.kind(), PixelflutErrorKind::Io);
    let mut buf = BytesMut::from(&[b'1'; 34][..]);
    assert_eq!(PixelflutServerCodec.decode(&mut buf).unwrap(), None);
}

#[test]
fn server_codec_drops_a_malformed_line() {
    let mut buf = BytesMut::from("FOO\nSIZE\n");
    let e = PixelflutServerCodec.decode(&mut buf).unwrap_err();
    assert_eq!(e.kind(), PixelflutErrorKind::InvalidCommand);
    assert_eq!(PixelflutServerCodec.decode(&mut buf).unwrap(), Some(Command::Size));
}

#[test]
fn client_codec_takes_long_error_lines() {
    let text = "ERROR parse error: a color is 6 or 8 hexadecimal digits\n";
    let mut buf = BytesMut::from(text);
    assert_eq!(
        PixelflutClientCodec.decode(&mut buf).unwrap(),
        Some(Response::Error(
            "parse error: a color is 6 or 8 hexadecimal digits".to_string()
        ))
    );
    let mut buf = BytesMut::from("SIZE 1");
    assert_eq!(PixelflutClientCodec.decode(&mut buf).unwrap(), None);
    assert_eq!(&buf[..], b"SIZE 1");
}

#[test]
fn client_codec_encodes_error_responses() {
    let mut buf = BytesMut::new();
    PixelflutServerCodec
        .encode(Response::Error("line is too long".to_string()), &mut buf)
        .unwrap();
    assert_eq!(&buf[..], b"ERROR line is too long\n");
}
