use pixelflut::{Color, Coordinate, Pixel, PixelflutErrorKind, ServerAction, ServerEngine};

fn pixel(x: u32, y: u32, c: Color) -> Pixel {
    Pixel::new(Coordinate::new(x, y), c)
}

/// Feeds `chunks` to a fresh engine, then closes the stream, and records
/// every pixel, reply and failure in order.
fn run(chunks: &[&[u8]]) -> Vec<String> {
    let mut engine = ServerEngine::new((800, 600));
    let mut log = Vec::new();
    let mut next = 0;
    loop {
        match engine.poll() {
            ServerAction::Pixel(p) => log.push(format!("pixel {}", p.to_string())),
            ServerAction::Reply(b) => log.push(format!("reply {}", String::from_utf8(b).unwrap())),
            ServerAction::ReplyAndFail(b, e) => {
                log.push(format!("reply {}", String::from_utf8(b).unwrap()));
                log.push(format!("fail {:?}", e.kind()));
                return log;
            }
            ServerAction::Fail(e) => {
                log.push(format!("fail {:?}", e.kind()));
                return log;
            }
            ServerAction::Read => {
                if next < chunks.len() {
                    engine.receive(chunks[next]);
                    next += 1;
                } else {
                    engine.receive(&[]);
                }
            }
            ServerAction::End => {
                log.push("end".to_string());
                return log;
            }
        }
    }
}

#[test]
fn engine_answers_size_and_yields_pixels() {
    let mut engine = ServerEngine::new((800, 600));
    assert!(matches!(engine.poll(), ServerAction::Read));
    engine.receive(b"PX 10 20 ff0000\nSIZE\n");
    match engine.poll() {
        ServerAction::Pixel(p) => assert_eq!(p, pixel(10, 20, Color::rgb(0xff, 0, 0))),
        other => panic!("expected a pixel, got {:?}", other),
    }
    match engine.poll() {
        ServerAction::Reply(bytes) => assert_eq!(bytes, b"SIZE 800 600\n"),
        other => panic!("expected a reply, got {:?}", other),
    }
    assert!(matches!(engine.poll(), ServerAction::Read));
    engine.receive(&[]);
    assert!(matches!(engine.poll(), ServerAction::End));
}

#[test]
fn engine_reports_malformed_lines_to_the_peer() {
    let mut engine = ServerEngine::with_capacity((1, 1), 16);
    engine.receive(b"PX 1 2\n");
    match engine.poll() {
        ServerAction::ReplyAndFail(bytes, e) => {
            assert_eq!(e.kind(), PixelflutErrorKind::WrongNumberOfArguments);
            assert_eq!(bytes, b"ERROR wrong number of arguments: PX takes three arguments\n");
        }
        other => panic!("expected a failure, got {:?}", other),
    }
}

#[test]
fn engine_rejects_a_line_one_past_the_limit() {
    let mut engine = ServerEngine::new((1, 1));
    engine.receive(&[b'7'; 34]);
    assert!(matches!(engine.poll(), ServerAction::Read));
    engine.receive(b"7");
    match engine.poll() {
        ServerAction::Fail(e) => assert_eq!(e.kind(), PixelflutErrorKind::Io),
        other => panic!("expected a failure, got {:?}", other),
    }
    assert_eq!(engine.buffered().len(), 35);
}

#[test]
fn engine_fails_on_a_truncated_last_line() {
    assert_eq!(run(&[b"SIZE\nPX 1"]), vec!["reply SIZE 800 600\n", "fail Io"]);
}

#[test]
fn engine_ends_cleanly_without_input() {
    assert_eq!(run(&[]), vec!["end"]);
}

#[test]
fn framing_does_not_depend_on_chunking() {
    let input: &[u8] = b"PX 1 2 ff0000\nSIZE\r\nPX 4294967295 0 00112233\n\nPX 3 4 abcdef\n";
    let whole = run(&[input]);
    let bytes: Vec<&[u8]> = input.chunks(1).collect();
    let threes: Vec<&[u8]> = input.chunks(3).collect();
    assert_eq!(run(&bytes), whole);
    assert_eq!(run(&threes), whole);
    assert_eq!(
        whole,
        vec![
            "pixel 1 2 ff0000",
            "reply SIZE 800 600\n",
            "pixel 4294967295 0 00112233",
            "reply ERROR invalid command: empty line\n",
            "fail InvalidCommand",
        ]
    );
    let clean: &[u8] = b"PX 1 2 ff0000\nSIZE\nPX 3 4 abcdef\n";
    let pieces: Vec<&[u8]> = clean.chunks(1).collect();
    assert_eq!(run(&pieces), run(&[clean]));
    assert_eq!(run(&[clean]).last().unwrap(), "end");
}
