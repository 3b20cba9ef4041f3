//! The wire grammar: commands sent to the server, responses sent back.
use vstd::prelude::*;
use vstd::slice::slice_subrange;
use vstd::utf8::{
    decode_utf8, encode_utf8, encode_utf8_decode_utf8, encode_utf8_valid_utf8, valid_utf8,
    valid_utf8_concat,
};

use crate::error::{outcome_is, PixelflutError, PixelflutErrorKind, PixelflutResult};
use crate::lex::{
    ascii_string, ascii_text, dec_digits, decode_text, is_ascii_bytes, is_word, lemma_ascii_utf8,
    lemma_parse_dec_digits, lemma_tokens_single, lemma_tokens_spaced, parse_decimal,
    parse_decimal_u32, push_decimal, span_texts, token_spans, tokens,
};
use crate::pixel::{
    color_text, lemma_dec_digits_ascii, lemma_pixel_round_trip, lemma_pixel_text_ascii,
    pixel_from_tokens, pixel_from_tokens_exec, pixel_text, push_pixel, Pixel,
};

verus! {

/// A command, sent by a client to the server.
#[derive(Clone, Copy, Debug, PartialEq, Eq, Structural)]
pub enum Command {
    /// Paint one pixel.
    Px(Pixel),
    /// Ask for the canvas dimensions.
    Size,
}

/// A response, sent by the server to a client.
#[derive(Clone, Debug)]
#[non_exhaustive]
pub enum Response {
    /// The canvas dimensions.
    Size { w: u32, h: u32 },
    /// A failure, described in text.
    Error(String),
}

/// What a [`Response`] holds, with its text as characters.
pub enum ResponseView {
    Size { w: u32, h: u32 },
    Error(Seq<char>),
}

impl View for Response {
    type V = ResponseView;

    open spec fn view(&self) -> ResponseView {
        match self {
            Response::Size { w, h } => ResponseView::Size { w: *w, h: *h },
            Response::Error(m) => ResponseView::Error(m@),
        }
    }
}

/// `SIZE`
pub open spec fn size_keyword() -> Seq<u8> {
    seq![0x53u8, 0x49, 0x5a, 0x45]
}

/// `PX`
pub open spec fn px_keyword() -> Seq<u8> {
    seq![0x50u8, 0x58]
}

/// `ERROR`
pub open spec fn error_keyword() -> Seq<u8> {
    seq![0x45u8, 0x52, 0x52, 0x4f, 0x52]
}

/// A line read as a command: `SIZE` alone, or `PX` with two decimal
/// coordinates and a color, separated by whitespace.
pub open spec fn command_from_text(s: Seq<u8>) -> Result<Command, PixelflutErrorKind> {
    let t = tokens(s);
    if t.len() == 0 {
        Err(PixelflutErrorKind::InvalidCommand)
    } else if t[0] == size_keyword() {
        if t.len() == 1 {
            Ok(Command::Size)
        } else {
            Err(PixelflutErrorKind::WrongNumberOfArguments)
        }
    } else if t[0] == px_keyword() {
        if t.len() != 4 {
            Err(PixelflutErrorKind::WrongNumberOfArguments)
        } else {
            match pixel_from_tokens(t[1], t[2], t[3]) {
                Ok(p) => Ok(Command::Px(p)),
                Err(k) => Err(k),
            }
        }
    } else {
        Err(PixelflutErrorKind::InvalidCommand)
    }
}

/// A line read as a response: `ERROR ` and any UTF-8 text after it, or
/// `SIZE` with two decimal dimensions, separated by whitespace.
pub open spec fn response_from_text(s: Seq<u8>) -> Result<ResponseView, PixelflutErrorKind> {
    let t = tokens(s);
    if s.len() >= 6 && s.take(6) == error_keyword().push(0x20) {
        if valid_utf8(s.skip(6)) {
            Ok(ResponseView::Error(decode_utf8(s.skip(6))))
        } else {
            Err(PixelflutErrorKind::Parse)
        }
    } else if t.len() == 0 {
        Err(PixelflutErrorKind::InvalidCommand)
    } else if t[0] == size_keyword() {
        if t.len() != 3 {
            Err(PixelflutErrorKind::WrongNumberOfArguments)
        } else {
            match (parse_decimal(t[1]), parse_decimal(t[2])) {
                (Some(w), Some(h)) => Ok(ResponseView::Size { w, h }),
                _ => Err(PixelflutErrorKind::Parse),
            }
        }
    } else if t[0] == error_keyword() {
        Err(PixelflutErrorKind::WrongNumberOfArguments)
    } else {
        Err(PixelflutErrorKind::InvalidCommand)
    }
}

/// The line of a command, without newline.
pub open spec fn command_text(c: Command) -> Seq<u8> {
    match c {
        Command::Px(p) => px_keyword() + seq![0x20u8] + pixel_text(p),
        Command::Size => size_keyword(),
    }
}

/// The line of a response, without newline.
pub open spec fn response_text(r: ResponseView) -> Seq<u8> {
    match r {
        ResponseView::Size { w, h } => size_keyword() + seq![0x20u8] + dec_digits(w as nat) + seq![
            0x20u8,
        ] + dec_digits(h as nat),
        ResponseView::Error(m) => error_keyword() + seq![0x20u8] + encode_utf8(m),
    }
}

/// `r` is the outcome `s`: a response that holds the same, or an error of
/// the same kind.
pub open spec fn response_outcome_is(
    r: PixelflutResult<Response>,
    s: Result<ResponseView, PixelflutErrorKind>,
) -> bool {
    match (r, s) {
        (Ok(a), Ok(b)) => a@ == b,
        (Err(e), Err(k)) => e.spec_kind() == k,
        _ => false,
    }
}

fn is_size_keyword(t: &[u8]) -> (r: bool)
    ensures
        r == (t@ == size_keyword()),
{
    let r = t.len() == 4 && t[0] == 0x53 && t[1] == 0x49 && t[2] == 0x5a && t[3] == 0x45;
    if r {
        assert(t@ =~= size_keyword());
    }
    r
}

fn is_px_keyword(t: &[u8]) -> (r: bool)
    ensures
        r == (t@ == px_keyword()),
{
    let r = t.len() == 2 && t[0] == 0x50 && t[1] == 0x58;
    if r {
        assert(t@ =~= px_keyword());
    }
    r
}

fn is_error_keyword(t: &[u8]) -> (r: bool)
    ensures
        r == (t@ == error_keyword()),
{
    let r = t.len() == 5 && t[0] == 0x45 && t[1] == 0x52 && t[2] == 0x52 && t[3] == 0x4f && t[4]
        == 0x52;
    if r {
        assert(t@ =~= error_keyword());
    }
    r
}

/// Appends all of `bytes` to `out`.
pub fn push_all(out: &mut Vec<u8>, bytes: &[u8])
    ensures
        final(out)@ == old(out)@ + bytes@,
{
    let mut i: usize = 0;
    while i < bytes.len()
        invariant
            i <= bytes@.len(),
            out@ == old(out)@ + bytes@.take(i as int),
        decreases bytes@.len() - i,
    {
        out.push(bytes[i]);
        i = i + 1;
        assert(out@ =~= old(out)@ + bytes@.take(i as int));
    }
    assert(bytes@.take(i as int) =~= bytes@);
}

fn push_size_keyword(out: &mut Vec<u8>)
    ensures
        final(out)@ == old(out)@ + size_keyword(),
{
    out.push(0x53);
    out.push(0x49);
    out.push(0x5a);
    out.push(0x45);
    assert(final(out)@ =~= old(out)@ + size_keyword());
}

impl Command {
    /// Reads one line, without its newline, as a command.
    pub fn parse_byte_slice(slice: &[u8]) -> (r: PixelflutResult<Command>)
        ensures
            outcome_is(r, command_from_text(slice@)),
    {
        let spans = token_spans(slice);
        proof {
            assert(span_texts(slice@, spans@).len() == spans@.len());
        }
        if spans.len() == 0 {
            return Err(PixelflutErrorKind::InvalidCommand.with_description("empty line"));
        }
        let first = slice_subrange(slice, spans[0].0, spans[0].1);
        assert(tokens(slice@)[0] == first@);
        if is_size_keyword(first) {
            if spans.len() == 1 {
                Ok(Command::Size)
            } else {
                Err(
                    PixelflutErrorKind::WrongNumberOfArguments.with_description(
                        "SIZE takes no arguments",
                    ),
                )
            }
        } else if is_px_keyword(first) {
            if spans.len() != 4 {
                return Err(
                    PixelflutErrorKind::WrongNumberOfArguments.with_description(
                        "PX takes three arguments",
                    ),
                );
            }
            let x = slice_subrange(slice, spans[1].0, spans[1].1);
            let y = slice_subrange(slice, spans[2].0, spans[2].1);
            let c = slice_subrange(slice, spans[3].0, spans[3].1);
            assert(tokens(slice@)[1] == x@);
            assert(tokens(slice@)[2] == y@);
            assert(tokens(slice@)[3] == c@);
            match pixel_from_tokens_exec(x, y, c) {
                Ok(p) => Ok(Command::Px(p)),
                Err(e) => Err(e),
            }
        } else {
            Err(PixelflutErrorKind::InvalidCommand.with_description("unknown command"))
        }
    }

    /// Appends the line of this command, without newline, to `out`.
    pub fn write_to(&self, out: &mut Vec<u8>)
        ensures
            final(out)@ == old(out)@ + command_text(*self),
    {
        match self {
            Command::Px(p) => {
                out.push(0x50);
                out.push(0x58);
                out.push(0x20);
                push_pixel(out, *p);
            },
            Command::Size => push_size_keyword(out),
        }
        assert(final(out)@ =~= old(out)@ + command_text(*self));
    }

    /// The line of this command, without newline.
    pub fn to_string(&self) -> (r: String)
        ensures
            r@ == ascii_text(command_text(*self)),
    {
        let mut out: Vec<u8> = Vec::new();
        self.write_to(&mut out);
        proof {
            lemma_command_text_ascii(*self);
        }
        ascii_string(out.as_slice())
    }
}

impl From<Pixel> for Command {
    fn from(pixel: Pixel) -> (r: Command) {
        Command::Px(pixel)
    }
}

impl vstd::std_specs::convert::FromSpecImpl<Pixel> for Command {
    open spec fn obeys_from_spec() -> bool {
        true
    }

    open spec fn from_spec(pixel: Pixel) -> Command {
        Command::Px(pixel)
    }
}

impl Response {
    /// Reads one line, without its newline, as a response.
    pub fn parse_byte_slice(slice: &[u8]) -> (r: PixelflutResult<Response>)
        ensures
            response_outcome_is(r, response_from_text(slice@)),
    {
        let n = slice.len();
        if n >= 6 && is_error_keyword(slice_subrange(slice, 0, 5)) && slice[5] == 0x20 {
            assert(slice@.take(6) =~= error_keyword().push(0x20));
            let rest = slice_subrange(slice, 6, n);
            assert(rest@ =~= slice@.skip(6));
            return match decode_text(rest) {
                Some(m) => Ok(Response::Error(m)),
                None => Err(PixelflutErrorKind::Parse.with_description("error text is not UTF-8")),
            };
        }
        proof {
            if n >= 6 {
                let k = error_keyword().push(0x20);
                if slice@.take(6) == k {
                    assert(slice@.subrange(0, 5) =~= error_keyword());
                    assert(slice@[5] == slice@.take(6)[5]);
                }
            }
        }
        let spans = token_spans(slice);
        proof {
            assert(span_texts(slice@, spans@).len() == spans@.len());
        }
        if spans.len() == 0 {
            return Err(PixelflutErrorKind::InvalidCommand.with_description("empty line"));
        }
        let first = slice_subrange(slice, spans[0].0, spans[0].1);
        assert(tokens(slice@)[0] == first@);
        if is_size_keyword(first) {
            if spans.len() != 3 {
                return Err(
                    PixelflutErrorKind::WrongNumberOfArguments.with_description(
                        "SIZE answers with two numbers",
                    ),
                );
            }
            let w = slice_subrange(slice, spans[1].0, spans[1].1);
            let h = slice_subrange(slice, spans[2].0, spans[2].1);
            assert(tokens(slice@)[1] == w@);
            assert(tokens(slice@)[2] == h@);
            match (parse_decimal_u32(w), parse_decimal_u32(h)) {
                (Some(w), Some(h)) => Ok(Response::Size { w, h }),
                _ => Err(
                    PixelflutErrorKind::Parse.with_description("a dimension is not a decimal u32"),
                ),
            }
        } else if is_error_keyword(first) {
            Err(PixelflutErrorKind::WrongNumberOfArguments.with_description("ERROR without text"))
        } else {
            Err(PixelflutErrorKind::InvalidCommand.with_description("unknown response"))
        }
    }

    /// Appends the line of this response, without newline, to `out`.
    pub fn write_to(&self, out: &mut Vec<u8>)
        ensures
            final(out)@ == old(out)@ + response_text(self@),
    {
        match self {
            Response::Size { w, h } => {
                push_size_keyword(out);
                out.push(0x20);
                push_decimal(out, *w as usize);
                out.push(0x20);
                push_decimal(out, *h as usize);
            },
            Response::Error(m) => {
                out.push(0x45);
                out.push(0x52);
                out.push(0x52);
                out.push(0x4f);
                out.push(0x52);
                out.push(0x20);
                push_all(out, m.as_str().as_bytes());
            },
        }
        assert(final(out)@ =~= old(out)@ + response_text(self@));
    }

    /// The line of this response, without newline.
    pub fn to_string(&self) -> (r: String)
        ensures
            r@ == decode_utf8(response_text(self@)),
    {
        let mut out: Vec<u8> = Vec::new();
        self.write_to(&mut out);
        proof {
            lemma_response_text_utf8(self@);
        }
        match decode_text(out.as_slice()) {
            Some(s) => s,
            None => String::new(),
        }
    }

    /// The canvas dimensions that this response gives: `SIZE` gives them,
    /// `ERROR` is the peer's failure.
    pub fn dimensions(&self) -> (r: PixelflutResult<(u32, u32)>)
        ensures
            match self@ {
                ResponseView::Size { w, h } => r == Ok::<(u32, u32), PixelflutError>((w, h)),
                ResponseView::Error(_) => r matches Err(e) && e.spec_kind()
                    == PixelflutErrorKind::ServerError,
            },
    {
        match self {
            Response::Size { w, h } => Ok((*w, *h)),
            Response::Error(_) => Err(
                PixelflutErrorKind::ServerError.with_description("the server answered ERROR"),
            ),
        }
    }
}

impl PartialEq for Response {
    fn eq(&self, other: &Response) -> (r: bool) {
        match (self, other) {
            (Response::Size { w, h }, Response::Size { w: w2, h: h2 }) => *w == *w2 && *h == *h2,
            (Response::Error(a), Response::Error(b)) => a.eq(b),
            _ => false,
        }
    }
}

impl vstd::std_specs::cmp::PartialEqSpecImpl for Response {
    open spec fn obeys_eq_spec() -> bool {
        true
    }

    open spec fn eq_spec(&self, other: &Response) -> bool {
        self@ == other@
    }
}

/// The line of a command is ASCII.
pub proof fn lemma_command_text_ascii(c: Command)
    ensures
        is_ascii_bytes(command_text(c)),
{
    match c {
        Command::Px(p) => lemma_pixel_text_ascii(p),
        Command::Size => {},
    }
}

/// Every command reads back from its line: decoding the encoding of a
/// command gives that command.
pub proof fn lemma_command_round_trip(c: Command)
    ensures
        command_from_text(command_text(c)) == Ok::<Command, PixelflutErrorKind>(c),
{
    lemma_keywords();
    match c {
        Command::Px(p) => {
            let body = pixel_text(p);
            lemma_pixel_round_trip(p);
            lemma_tokens_spaced(px_keyword(), body);
            let t = tokens(command_text(c));
            assert(t =~= seq![
                px_keyword(),
                dec_digits(p.position.x as nat),
                dec_digits(p.position.y as nat),
                color_text(p.color),
            ]);
            assert(t[0] != size_keyword());
        },
        Command::Size => {
            lemma_tokens_single(size_keyword());
        },
    }
}

/// Every response reads back from its line: decoding the encoding of a
/// response gives what that response holds.
pub proof fn lemma_response_round_trip(r: ResponseView)
    ensures
        response_from_text(response_text(r)) == Ok::<ResponseView, PixelflutErrorKind>(r),
{
    lemma_keywords();
    let s = response_text(r);
    match r {
        ResponseView::Size { w, h } => {
            let dw = dec_digits(w as nat);
            let dh = dec_digits(h as nat);
            lemma_parse_dec_digits(w);
            lemma_parse_dec_digits(h);
            lemma_tokens_single(dh);
            lemma_tokens_spaced(dw, dh);
            lemma_tokens_spaced(size_keyword(), dw + seq![0x20u8] + dh);
            assert(s =~= size_keyword() + seq![0x20u8] + (dw + seq![0x20u8] + dh));
            assert(tokens(s) =~= seq![size_keyword(), dw, dh]);
            assert(s.len() >= 6);
            assert(s.take(6)[0] != (error_keyword().push(0x20))[0]);
        },
        ResponseView::Error(m) => {
            let k = error_keyword().push(0x20);
            assert(s.take(6) =~= k);
            assert(s.skip(6) =~= encode_utf8(m));
            encode_utf8_valid_utf8(m);
            encode_utf8_decode_utf8(m);
        },
    }
}

proof fn lemma_keywords()
    ensures
        is_word(size_keyword()),
        is_word(px_keyword()),
        is_word(error_keyword()),
        size_keyword() != px_keyword(),
        size_keyword() != error_keyword(),
        px_keyword() != error_keyword(),
{
    assert(size_keyword().len() != px_keyword().len());
    assert(size_keyword().len() != error_keyword().len());
    assert(px_keyword().len() != error_keyword().len());
}

impl std::str::FromStr for Command {
    type Err = PixelflutError;

    fn from_str(s: &str) -> Result<Command, PixelflutError> {
        Command::parse_byte_slice(s.as_bytes())
    }
}

impl std::str::FromStr for Response {
    type Err = PixelflutError;

    fn from_str(s: &str) -> Result<Response, PixelflutError> {
        Response::parse_byte_slice(s.as_bytes())
    }
}

/// The line of a response is valid UTF-8.
pub proof fn lemma_response_text_utf8(r: ResponseView)
    ensures
        valid_utf8(response_text(r)),
{
    match r {
        ResponseView::Size { w, h } => {
            lemma_dec_digits_ascii(w as nat);
            lemma_dec_digits_ascii(h as nat);
            lemma_ascii_utf8(response_text(r));
        },
        ResponseView::Error(m) => {
            let head = error_keyword() + seq![0x20u8];
            lemma_ascii_utf8(head);
            encode_utf8_valid_utf8(m);
            valid_utf8_concat(head, encode_utf8(m));
        },
    }
}

} // verus!
