//! The server side of a connection, as a state machine: it is handed the
//! bytes that the transport reads and tells its caller, step by step, what
//! to do next. `SIZE` requests are answered here and never reach the caller.
use vstd::prelude::*;

use bytes::BytesMut;

use crate::command::{command_from_text, response_text, Command, Response, ResponseView};
use crate::error::{PixelflutError, PixelflutErrorKind};
use crate::frame::{
    buffer_bytes, buffer_extend, buffer_with_capacity, buffered, frames, has_line, line_len,
    next_line,
};
use crate::pixel::{Pixel, MAX_FORMATTED_PIXEL_SIZE_NEWLINE};

verus! {

/// The capacity that a new engine's read buffer starts with.
pub const SERVER_READ_BUFFER_DEFAULT_CAPACITY: usize = 131072;

/// What the caller of [`ServerEngine::poll`] does next.
#[derive(Debug)]
pub enum ServerAction {
    /// A client painted this pixel.
    Pixel(Pixel),
    /// Write these bytes to the client, then poll again.
    Reply(Vec<u8>),
    /// Write these bytes to the client, ignoring a failure to do so, then
    /// give up with this error.
    ReplyAndFail(Vec<u8>, PixelflutError),
    /// Give up with this error.
    Fail(PixelflutError),
    /// Read more bytes, hand them to [`ServerEngine::receive`], then poll
    /// again.
    Read,
    /// The client closed the stream after a complete line: no more pixels.
    End,
}

/// The protocol state of one server connection.
pub struct ServerEngine {
    read_buf: BytesMut,
    dimensions: (u32, u32),
    closed: bool,
}

/// The line of a response with its newline.
pub open spec fn reply_bytes(r: ResponseView) -> Seq<u8> {
    response_text(r) + seq![0x0au8]
}

impl ServerEngine {
    /// The bytes received and not yet consumed.
    pub closed spec fn spec_buffered(&self) -> Seq<u8> {
        buffered(self.read_buf)
    }

    /// The canvas dimensions that `SIZE` is answered with.
    pub closed spec fn spec_dimensions(&self) -> (u32, u32) {
        self.dimensions
    }

    /// The client has closed its stream.
    pub closed spec fn spec_closed(&self) -> bool {
        self.closed
    }

    /// An engine for a canvas of `dimensions`, with the default capacity.
    pub fn new(dimensions: (u32, u32)) -> (r: ServerEngine)
        ensures
            r.spec_buffered() == Seq::<u8>::empty(),
            r.spec_dimensions() == dimensions,
            !r.spec_closed(),
    {
        ServerEngine::with_capacity(dimensions, SERVER_READ_BUFFER_DEFAULT_CAPACITY)
    }

    /// An engine for a canvas of `dimensions` whose read buffer starts with
    /// room for `capacity` bytes.
    pub fn with_capacity(dimensions: (u32, u32), capacity: usize) -> (r: ServerEngine)
        requires
            capacity <= isize::MAX,
        ensures
            r.spec_buffered() == Seq::<u8>::empty(),
            r.spec_dimensions() == dimensions,
            !r.spec_closed(),
    {
        ServerEngine { read_buf: buffer_with_capacity(capacity), dimensions, closed: false }
    }

    /// The bytes received and not yet consumed.
    pub fn buffered(&self) -> (r: &[u8])
        ensures
            r@ == self.spec_buffered(),
    {
        buffer_bytes(&self.read_buf)
    }

    /// Hands over what the transport read; an empty `data` means that the
    /// client closed its stream.
    pub fn receive(&mut self, data: &[u8])
        requires
            old(self).spec_buffered().len() + data@.len() <= isize::MAX,
        ensures
            final(self).spec_dimensions() == old(self).spec_dimensions(),
            final(self).spec_buffered() == old(self).spec_buffered() + data@,
            final(self).spec_closed() == (old(self).spec_closed() || data@.len() == 0),
    {
        if data.len() == 0 {
            self.closed = true;
            assert(buffered(self.read_buf) =~= buffered(self.read_buf) + data@);
        } else {
            buffer_extend(&mut self.read_buf, data);
        }
    }

    /// Decides the next step. A complete line is taken out of the buffer and
    /// decoded: `PX` hands the pixel to the caller, `SIZE` is answered with
    /// the dimensions, a malformed line is answered with `ERROR` and its
    /// description and then fails. Without a complete line, more than the
    /// longest command fails as too long; otherwise a closed stream ends
    /// cleanly if nothing is left and fails as truncated if something is,
    /// and an open one asks for more bytes.
    pub fn poll(&mut self) -> (r: ServerAction)
        ensures
            final(self).spec_dimensions() == old(self).spec_dimensions(),
            final(self).spec_closed() == old(self).spec_closed(),
            has_line(old(self).spec_buffered()) ==> {
                let s = old(self).spec_buffered();
                let (w, h) = old(self).spec_dimensions();
                &&& final(self).spec_buffered() == s.skip(line_len(s) + 1int)
                &&& match command_from_text(frames(s)[0]) {
                    Ok(Command::Px(p)) => r == ServerAction::Pixel(p),
                    Ok(Command::Size) => r matches ServerAction::Reply(b) && b@ == reply_bytes(
                        ResponseView::Size { w, h },
                    ),
                    Err(k) => r matches ServerAction::ReplyAndFail(b, e) && e.spec_kind() == k
                        && b@ == reply_bytes(ResponseView::Error(e.spec_text())),
                }
            },
            !has_line(old(self).spec_buffered()) ==> {
                let s = old(self).spec_buffered();
                &&& final(self).spec_buffered() == s
                &&& s.len() > MAX_FORMATTED_PIXEL_SIZE_NEWLINE ==> (r matches ServerAction::Fail(e)
                    && e.spec_kind() == PixelflutErrorKind::Io)
                &&& s.len() <= MAX_FORMATTED_PIXEL_SIZE_NEWLINE && old(self).spec_closed() && s.len()
                    == 0 ==> r == ServerAction::End
                &&& s.len() <= MAX_FORMATTED_PIXEL_SIZE_NEWLINE && old(self).spec_closed() && s.len()
                    > 0 ==> (r matches ServerAction::Fail(e) && e.spec_kind()
                    == PixelflutErrorKind::Io)
                &&& s.len() <= MAX_FORMATTED_PIXEL_SIZE_NEWLINE && !old(self).spec_closed() ==> r
                    == ServerAction::Read
            },
            r == ServerAction::Read ==> final(self).spec_buffered().len()
                <= MAX_FORMATTED_PIXEL_SIZE_NEWLINE,
    {
        match next_line(&mut self.read_buf) {
            Some(line) => match Command::parse_byte_slice(buffer_bytes(&line)) {
                Ok(Command::Px(p)) => ServerAction::Pixel(p),
                Ok(Command::Size) => {
                    let response = Response::Size { w: self.dimensions.0, h: self.dimensions.1 };
                    let mut out: Vec<u8> = Vec::new();
                    response.write_to(&mut out);
                    out.push(0x0a);
                    ServerAction::Reply(out)
                },
                Err(e) => {
                    let response = Response::Error(e.to_string());
                    let mut out: Vec<u8> = Vec::new();
                    response.write_to(&mut out);
                    out.push(0x0a);
                    ServerAction::ReplyAndFail(out, e)
                },
            },
            None => {
                let n = buffer_bytes(&self.read_buf).len();
                if n > MAX_FORMATTED_PIXEL_SIZE_NEWLINE {
                    ServerAction::Fail(PixelflutErrorKind::Io.with_description("line is too long"))
                } else if self.closed {
                    if n == 0 {
                        ServerAction::End
                    } else {
                        ServerAction::Fail(
                            PixelflutErrorKind::Io.with_description("unexpected end of stream"),
                        )
                    }
                } else {
                    ServerAction::Read
                }
            },
        }
    }
}

} // verus!
