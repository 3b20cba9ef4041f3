//! A byte buffer of encoded `PX` commands, for clients that send many
//! pixels at once.
use vstd::prelude::*;

use crate::command::{command_text, push_all, Command};
use crate::lex::{dec_digits, hex2, hex_char, push_decimal};
use crate::pixel::{Pixel, MAX_FORMATTED_PIXEL_SIZE_NEWLINE};

verus! {

/// The capacity in bytes of a buffer made by [`PixelBuffer::new`].
pub const PIXEL_BUFFER_DEFAULT_CAPACITY: usize = 8 * 1024;

/// How many numbers [`NumberWriter::create`] spells in advance.
pub const NUMBER_WRITER_DEFAULT_MAX_DECIMAL: usize = 4096;

/// The line of a `PX` command for `p`, with its newline.
pub open spec fn pixel_line(p: Pixel) -> Seq<u8> {
    command_text(Command::Px(p)) + seq![0x0au8]
}

/// The lines of the pixels `ps`, one after the other.
pub open spec fn pixel_lines(ps: Seq<Pixel>) -> Seq<u8>
    decreases ps.len(),
{
    if ps.len() == 0 {
        seq![]
    } else {
        pixel_lines(ps.drop_last()) + pixel_line(ps.last())
    }
}

/// Numbers spelled in advance: the two hexadecimal digits of every byte,
/// and the decimal digits of every number below a bound.
pub struct NumberWriter {
    hex02: Vec<(u8, u8)>,
    decimal: Vec<Vec<u8>>,
}

impl NumberWriter {
    /// The tables hold what they stand for.
    pub closed spec fn wf(&self) -> bool {
        &&& self.hex02@.len() == 256
        &&& forall|i: int|
            0 <= i < 256 ==> #[trigger] self.hex02@[i] == (hex_char(i as nat / 16), hex_char(
                i as nat % 16,
            ))
        &&& forall|i: int|
            0 <= i < self.decimal@.len() ==> #[trigger] self.decimal@[i]@ == dec_digits(i as nat)
    }

    /// How many numbers are spelled in advance.
    pub closed spec fn decimal_size(&self) -> nat {
        self.decimal@.len()
    }

    /// Tables for every byte and for the numbers below `decimal_size`.
    pub fn with_decimal_size(decimal_size: usize) -> (r: NumberWriter)
        ensures
            r.wf(),
            r.decimal_size() == decimal_size,
    {
        let mut hex02: Vec<(u8, u8)> = Vec::new();
        let mut i: usize = 0;
        while i < 256
            invariant
                i <= 256,
                hex02@.len() == i,
                forall|j: int|
                    0 <= j < i ==> #[trigger] hex02@[j] == (hex_char(j as nat / 16), hex_char(
                        j as nat % 16,
                    )),
            decreases 256 - i,
        {
            let v = i as u8;
            let hi = v / 16;
            let lo = v % 16;
            let h = if hi < 10 { 0x30 + hi } else { 0x61 + hi - 10 };
            let l = if lo < 10 { 0x30 + lo } else { 0x61 + lo - 10 };
            hex02.push((h, l));
            i = i + 1;
        }
        let mut decimal: Vec<Vec<u8>> = Vec::new();
        let mut k: usize = 0;
        while k < decimal_size
            invariant
                k <= decimal_size,
                decimal@.len() == k,
                forall|j: int| 0 <= j < k ==> #[trigger] decimal@[j]@ == dec_digits(j as nat),
            decreases decimal_size - k,
        {
            let mut digits: Vec<u8> = Vec::new();
            push_decimal(&mut digits, k);
            assert(digits@ =~= dec_digits(k as nat));
            decimal.push(digits);
            k = k + 1;
        }
        NumberWriter { hex02, decimal }
    }

    /// Tables for every byte and for the numbers below 4096.
    pub fn create() -> (r: NumberWriter)
        ensures
            r.wf(),
            r.decimal_size() == NUMBER_WRITER_DEFAULT_MAX_DECIMAL,
    {
        NumberWriter::with_decimal_size(NUMBER_WRITER_DEFAULT_MAX_DECIMAL)
    }

    /// Appends the two lowercase hexadecimal digits of `value` to `out`.
    pub fn write_hex02(&self, out: &mut Vec<u8>, value: u8)
        requires
            self.wf(),
        ensures
            final(out)@ == old(out)@ + hex2(value),
    {
        let (h, l) = self.hex02[value as usize];
        out.push(h);
        out.push(l);
        assert(final(out)@ =~= old(out)@ + hex2(value));
    }

    /// Appends the decimal digits of `value` to `out`: from the table where
    /// it holds them, spelled out where not.
    pub fn write_decimal(&self, out: &mut Vec<u8>, value: usize)
        requires
            self.wf(),
        ensures
            final(out)@ == old(out)@ + dec_digits(value as nat),
    {
        if value < self.decimal.len() {
            push_all(out, self.decimal[value].as_slice());
        } else {
            push_decimal(out, value);
        }
    }
}

impl Default for NumberWriter {
    fn default() -> (r: NumberWriter)
        ensures
            r.wf(),
    {
        NumberWriter::create()
    }
}

/// Relies on std's `Vec::capacity`: a vector has room for at least the
/// elements it holds.
#[verifier::external_body]
fn vec_capacity(v: &Vec<u8>) -> (r: usize)
    ensures
        r >= v@.len(),
{
    v.capacity()
}

/// Whether a buffer holding `len` bytes, with room for `capacity`, might
/// have to grow to take one more pixel of the longest form.
pub fn capacity_reached(capacity: usize, len: usize) -> (r: bool)
    requires
        len <= capacity,
    ensures
        r == (capacity - len < MAX_FORMATTED_PIXEL_SIZE_NEWLINE),
{
    capacity - len < MAX_FORMATTED_PIXEL_SIZE_NEWLINE
}

/// A byte buffer that holds only complete `PX` lines.
pub struct PixelBuffer {
    buffer: Vec<u8>,
    number_writer: NumberWriter,
}

impl View for PixelBuffer {
    type V = Seq<u8>;

    closed spec fn view(&self) -> Seq<u8> {
        self.buffer@
    }
}

impl PixelBuffer {
    /// The number tables are complete.
    pub closed spec fn wf(&self) -> bool {
        self.number_writer.wf()
    }

    /// An empty buffer with room for `capacity` bytes.
    pub fn with_capacity(capacity: usize) -> (r: PixelBuffer)
        requires
            capacity <= isize::MAX,
        ensures
            r.wf(),
            r@ == Seq::<u8>::empty(),
    {
        PixelBuffer { buffer: Vec::with_capacity(capacity), number_writer: NumberWriter::create() }
    }

    /// An empty buffer with room for `pixels` pixels of the longest form.
    pub fn with_capacity_pixels(pixels: usize) -> (r: PixelBuffer)
        requires
            pixels * MAX_FORMATTED_PIXEL_SIZE_NEWLINE <= isize::MAX,
        ensures
            r.wf(),
            r@ == Seq::<u8>::empty(),
    {
        PixelBuffer::with_capacity(pixels * MAX_FORMATTED_PIXEL_SIZE_NEWLINE)
    }

    /// An empty buffer with the default capacity.
    pub fn new() -> (r: PixelBuffer)
        ensures
            r.wf(),
            r@ == Seq::<u8>::empty(),
    {
        PixelBuffer::with_capacity(PIXEL_BUFFER_DEFAULT_CAPACITY)
    }

    /// A buffer with the lines of `pixels`, in order.
    pub fn from_pixels(pixels: &[Pixel]) -> (r: PixelBuffer)
        ensures
            r.wf(),
            r@ == pixel_lines(pixels@),
    {
        let mut buffer = PixelBuffer::new();
        let mut i: usize = 0;
        while i < pixels.len()
            invariant
                i <= pixels@.len(),
                buffer.wf(),
                buffer@ == pixel_lines(pixels@.take(i as int)),
            decreases pixels@.len() - i,
        {
            buffer.write_pixel(&pixels[i]);
            assert(pixels@.take(i + 1).drop_last() =~= pixels@.take(i as int));
            i = i + 1;
        }
        assert(pixels@.take(i as int) =~= pixels@);
        buffer
    }

    /// The bytes of the buffer.
    pub fn as_slice(&self) -> (r: &[u8])
        ensures
            r@ == self@,
    {
        self.buffer.as_slice()
    }

    /// Whether the buffer holds no bytes.
    pub fn is_empty(&self) -> (r: bool)
        ensures
            r == (self@.len() == 0),
    {
        self.buffer.len() == 0
    }

    /// How many bytes the buffer has room for without growing.
    pub fn capacity(&self) -> (r: usize)
        ensures
            r >= self@.len(),
    {
        vec_capacity(&self.buffer)
    }

    /// Whether one more pixel of the longest form might make the buffer
    /// grow: the time to send what it holds.
    pub fn is_capacity_reached(&self) -> (r: bool)
        ensures
            self@.len() + MAX_FORMATTED_PIXEL_SIZE_NEWLINE > usize::MAX ==> r,
    {
        capacity_reached(vec_capacity(&self.buffer), self.buffer.len())
    }

    /// Empties the buffer; its room stays.
    pub fn clear(&mut self)
        requires
            old(self).wf(),
        ensures
            final(self).wf(),
            final(self)@ == Seq::<u8>::empty(),
    {
        self.buffer.clear();
    }

    /// Appends the line `PX x y color` of `pixel`, with its newline.
    pub fn write_pixel(&mut self, pixel: &Pixel)
        requires
            old(self).wf(),
        ensures
            final(self).wf(),
            final(self)@ == old(self)@ + pixel_line(*pixel),
    {
        let color = pixel.color;
        let out = &mut self.buffer;
        out.push(0x50);
        out.push(0x58);
        out.push(0x20);
        self.number_writer.write_decimal(out, pixel.position.x as usize);
        out.push(0x20);
        self.number_writer.write_decimal(out, pixel.position.y as usize);
        out.push(0x20);
        self.number_writer.write_hex02(out, color.r);
        self.number_writer.write_hex02(out, color.g);
        self.number_writer.write_hex02(out, color.b);
        match color.a {
            Some(a) => self.number_writer.write_hex02(out, a),
            None => {},
        }
        out.push(0x0a);
        assert(self.buffer@ =~= old(self)@ + pixel_line(*pixel));
    }
}

impl Default for PixelBuffer {
    fn default() -> (r: PixelBuffer)
        ensures
            r.wf(),
            r@ == Seq::<u8>::empty(),
    {
        PixelBuffer::new()
    }
}

impl AsRef<[u8]> for PixelBuffer {
    fn as_ref(&self) -> &[u8] {
        self.buffer.as_slice()
    }
}

} // verus!
