//! An implementation of the Pixelflut protocol: the textual wire grammar of
//! its commands and responses, a newline framer over a byte buffer, the
//! server-side protocol engine and a client-side batcher of pixel commands.
//!
//! Transport (sockets, tasks, blocking reads) is left to the caller: every
//! item here is a value-to-value function or a state machine that is handed
//! the bytes read and hands back the bytes to write.

pub mod codec;
pub mod command;
pub mod error;
pub mod frame;
pub mod lex;
pub mod pixel;
pub mod pixel_buffer;
pub mod server;

pub use codec::{PixelflutClientCodec, PixelflutServerCodec};
pub use command::{Command, Response};
pub use error::{PixelflutError, PixelflutErrorKind, PixelflutResult};
pub use pixel::{
    parse_hex_byte, Color, Coordinate, Pixel, MAX_FORMATTED_COLOR_SIZE,
    MAX_FORMATTED_COORDINATE_SIZE, MAX_FORMATTED_PIXEL_SIZE, MAX_FORMATTED_PIXEL_SIZE_NEWLINE,
};
pub use pixel_buffer::{
    capacity_reached, NumberWriter, PixelBuffer, NUMBER_WRITER_DEFAULT_MAX_DECIMAL,
    PIXEL_BUFFER_DEFAULT_CAPACITY,
};
pub use server::{ServerAction, ServerEngine, SERVER_READ_BUFFER_DEFAULT_CAPACITY};
