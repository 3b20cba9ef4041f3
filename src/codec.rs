//! Codecs that decode lines out of a byte buffer and encode them into it:
//! one for the server side (commands in, responses out), one for the
//! client side (responses in, commands out).
use vstd::prelude::*;

use bytes::BytesMut;

use crate::command::{
    command_from_text, command_text, response_from_text, response_text, Command, Response,
    ResponseView,
};
use crate::error::{PixelflutErrorKind, PixelflutResult};
use crate::frame::{
    buffer_bytes, buffer_extend, buffered, frames, has_line, line_len, next_line,
};
use crate::pixel::MAX_FORMATTED_PIXEL_SIZE_NEWLINE;

verus! {

/// `r` is a decoded item equal to the outcome `s`, or an error of its kind.
pub open spec fn decoded_as<T>(r: PixelflutResult<Option<T>>, s: Result<T, PixelflutErrorKind>) -> bool {
    match (r, s) {
        (Ok(Some(a)), Ok(b)) => a == b,
        (Err(e), Err(k)) => e.spec_kind() == k,
        _ => false,
    }
}

/// `r` is a decoded response that holds the outcome `s`, or an error of its
/// kind.
pub open spec fn decoded_response_as(
    r: PixelflutResult<Option<Response>>,
    s: Result<ResponseView, PixelflutErrorKind>,
) -> bool {
    match (r, s) {
        (Ok(Some(a)), Ok(b)) => a@ == b,
        (Err(e), Err(k)) => e.spec_kind() == k,
        _ => false,
    }
}

/// The server side: decodes commands and encodes responses.
pub struct PixelflutServerCodec;

/// The client side: decodes responses and encodes commands.
pub struct PixelflutClientCodec;

impl PixelflutServerCodec {
    /// Decodes the first complete line of `buf` as a command and takes it,
    /// with its newline, out of `buf`. Without a complete line, waits for
    /// more bytes (`Ok(None)`), unless `buf` already holds more than the
    /// longest command with its newline: then the line is too long.
    pub fn decode(&mut self, buf: &mut BytesMut) -> (r: PixelflutResult<Option<Command>>)
        ensures
            has_line(buffered(*old(buf))) ==> {
                let s = buffered(*old(buf));
                &&& buffered(*final(buf)) == s.skip(line_len(s) + 1int)
                &&& decoded_as(r, command_from_text(frames(s)[0]))
            },
            !has_line(buffered(*old(buf))) ==> buffered(*final(buf)) == buffered(*old(buf)),
            !has_line(buffered(*old(buf))) && buffered(*old(buf)).len()
                > MAX_FORMATTED_PIXEL_SIZE_NEWLINE ==> (r matches Err(e) && e.spec_kind()
                == PixelflutErrorKind::Io),
            !has_line(buffered(*old(buf))) && buffered(*old(buf)).len()
                <= MAX_FORMATTED_PIXEL_SIZE_NEWLINE ==> r matches Ok(None),
    {
        match next_line(buf) {
            Some(line) => match Command::parse_byte_slice(buffer_bytes(&line)) {
                Ok(c) => Ok(Some(c)),
                Err(e) => Err(e),
            },
            None => {
                if buffer_bytes(buf).len() > MAX_FORMATTED_PIXEL_SIZE_NEWLINE {
                    Err(PixelflutErrorKind::Io.with_description("line is too long"))
                } else {
                    Ok(None)
                }
            },
        }
    }

    /// Appends the line of `item`, with its newline, to `buf`.
    pub fn encode(&mut self, item: Response, buf: &mut BytesMut) -> (r: PixelflutResult<()>)
        requires
            buffered(*old(buf)).len() + response_text(item@).len() + 1 <= isize::MAX,
        ensures
            r is Ok,
            buffered(*final(buf)) == buffered(*old(buf)) + response_text(item@) + seq![0x0au8],
    {
        let mut out: Vec<u8> = Vec::new();
        item.write_to(&mut out);
        out.push(0x0a);
        buffer_extend(buf, out.as_slice());
        Ok(())
    }
}

impl PixelflutClientCodec {
    /// Decodes the first complete line of `buf` as a response and takes it,
    /// with its newline, out of `buf`; without a complete line, waits for
    /// more bytes. The text of an `ERROR` response has no bound, so neither
    /// has a response line.
    pub fn decode(&mut self, buf: &mut BytesMut) -> (r: PixelflutResult<Option<Response>>)
        ensures
            has_line(buffered(*old(buf))) ==> {
                let s = buffered(*old(buf));
                &&& buffered(*final(buf)) == s.skip(line_len(s) + 1int)
                &&& decoded_response_as(r, response_from_text(frames(s)[0]))
            },
            !has_line(buffered(*old(buf))) ==> (buffered(*final(buf)) == buffered(*old(buf))
                && r matches Ok(None)),
    {
        match next_line(buf) {
            Some(line) => match Response::parse_byte_slice(buffer_bytes(&line)) {
                Ok(c) => Ok(Some(c)),
                Err(e) => Err(e),
            },
            None => Ok(None),
        }
    }

    /// Appends the line of `item`, with its newline, to `buf`.
    pub fn encode(&mut self, item: Command, buf: &mut BytesMut) -> (r: PixelflutResult<()>)
        requires
            buffered(*old(buf)).len() + command_text(item).len() + 1 <= isize::MAX,
        ensures
            r is Ok,
            buffered(*final(buf)) == buffered(*old(buf)) + command_text(item) + seq![0x0au8],
    {
        let mut out: Vec<u8> = Vec::new();
        item.write_to(&mut out);
        out.push(0x0a);
        buffer_extend(buf, out.as_slice());
        Ok(())
    }
}

} // verus!
