//! The values that commands carry: coordinates, colors and pixels.
use vstd::prelude::*;
use vstd::slice::slice_subrange;

use crate::error::{outcome_is, PixelflutError, PixelflutErrorKind, PixelflutResult};
use crate::lex::{
    ascii_string, ascii_text, dec_digits, hex2, hex_byte, hex_digit, is_ascii_bytes, is_word,
    lemma_hex2, lemma_parse_dec_digits, lemma_tokens_single, lemma_tokens_spaced,
    lemma_word_concat, parse_decimal, parse_decimal_u32, push_decimal, push_hex2, span_texts,
    token_spans, tokens,
};

verus! {

/// The most decimal digits of a coordinate.
pub const MAX_FORMATTED_COORDINATE_SIZE: usize = 10;

/// The most hexadecimal digits of a color.
pub const MAX_FORMATTED_COLOR_SIZE: usize = 8;

/// The longest command: `PX`, two coordinates and a color with alpha,
/// separated by single spaces.
pub const MAX_FORMATTED_PIXEL_SIZE: usize = 3 + MAX_FORMATTED_COORDINATE_SIZE + 1
    + MAX_FORMATTED_COORDINATE_SIZE + 1 + MAX_FORMATTED_COLOR_SIZE;

/// The longest command with its newline.
pub const MAX_FORMATTED_PIXEL_SIZE_NEWLINE: usize = MAX_FORMATTED_PIXEL_SIZE + 1;

/// A position on the canvas.
#[derive(Clone, Copy, Debug, PartialEq, Eq, Hash, Default, Structural)]
pub struct Coordinate {
    pub x: u32,
    pub y: u32,
}

/// An RGB color with an optional alpha channel; no alpha means opaque.
#[derive(Clone, Copy, Debug, PartialEq, Eq, Hash, Default, Structural)]
pub struct Color {
    pub r: u8,
    pub g: u8,
    pub b: u8,
    pub a: Option<u8>,
}

/// A colored position.
#[derive(Clone, Copy, Debug, PartialEq, Eq, Hash, Default, Structural)]
pub struct Pixel {
    pub position: Coordinate,
    pub color: Color,
}

/// Two decimal tokens read as a coordinate.
pub open spec fn coordinate_from_tokens(x: Seq<u8>, y: Seq<u8>) -> Result<
    Coordinate,
    PixelflutErrorKind,
> {
    match (parse_decimal(x), parse_decimal(y)) {
        (Some(x), Some(y)) => Ok(Coordinate { x, y }),
        _ => Err(PixelflutErrorKind::Parse),
    }
}

/// Six hexadecimal digits read as an RGB color, eight as an RGBA color.
pub open spec fn color_from_hex(t: Seq<u8>) -> Option<Color> {
    if t.len() == 6 {
        match (hex_byte(t.subrange(0, 2)), hex_byte(t.subrange(2, 4)), hex_byte(t.subrange(4, 6))) {
            (Some(r), Some(g), Some(b)) => Some(Color { r, g, b, a: None }),
            _ => None,
        }
    } else if t.len() == 8 {
        match (
            hex_byte(t.subrange(0, 2)),
            hex_byte(t.subrange(2, 4)),
            hex_byte(t.subrange(4, 6)),
            hex_byte(t.subrange(6, 8)),
        ) {
            (Some(r), Some(g), Some(b), Some(a)) => Some(Color { r, g, b, a: Some(a) }),
            _ => None,
        }
    } else {
        None
    }
}

/// A color token read as a color.
pub open spec fn color_from_token(t: Seq<u8>) -> Result<Color, PixelflutErrorKind> {
    match color_from_hex(t) {
        Some(c) => Ok(c),
        None => Err(PixelflutErrorKind::Parse),
    }
}

/// Three tokens read as a pixel: two coordinates and a color.
pub open spec fn pixel_from_tokens(x: Seq<u8>, y: Seq<u8>, c: Seq<u8>) -> Result<
    Pixel,
    PixelflutErrorKind,
> {
    match coordinate_from_tokens(x, y) {
        Ok(position) => match color_from_token(c) {
            Ok(color) => Ok(Pixel { position, color }),
            Err(k) => Err(k),
        },
        Err(k) => Err(k),
    }
}

/// The text `x y` read as a coordinate.
pub open spec fn coordinate_from_text(s: Seq<u8>) -> Result<Coordinate, PixelflutErrorKind> {
    let t = tokens(s);
    if t.len() != 2 {
        Err(PixelflutErrorKind::WrongNumberOfArguments)
    } else {
        coordinate_from_tokens(t[0], t[1])
    }
}

/// The text `x y color` read as a pixel.
pub open spec fn pixel_from_text(s: Seq<u8>) -> Result<Pixel, PixelflutErrorKind> {
    let t = tokens(s);
    if t.len() != 3 {
        Err(PixelflutErrorKind::WrongNumberOfArguments)
    } else {
        pixel_from_tokens(t[0], t[1], t[2])
    }
}

/// The hexadecimal form of a color: six digits, eight with alpha.
pub open spec fn color_text(c: Color) -> Seq<u8> {
    match c.a {
        Some(a) => hex2(c.r) + hex2(c.g) + hex2(c.b) + hex2(a),
        None => hex2(c.r) + hex2(c.g) + hex2(c.b),
    }
}

/// The form `x y` of a coordinate.
pub open spec fn coordinate_text(c: Coordinate) -> Seq<u8> {
    dec_digits(c.x as nat) + seq![0x20u8] + dec_digits(c.y as nat)
}

/// The form `x y color` of a pixel.
pub open spec fn pixel_text(p: Pixel) -> Seq<u8> {
    coordinate_text(p.position) + seq![0x20u8] + color_text(p.color)
}

/// The alpha channel of a color, where no alpha means opaque.
pub open spec fn alpha_of(c: Color) -> u8 {
    match c.a {
        Some(a) => a,
        None => 255,
    }
}

/// The color with an alpha channel only where it is not opaque.
pub open spec fn packed_of(r: u8, g: u8, b: u8, a: u8) -> Color {
    if a == 255 {
        Color { r, g, b, a: None }
    } else {
        Color { r, g, b, a: Some(a) }
    }
}

/// The bytes of the token at `span` of `line`.
fn token_at<'a>(line: &'a [u8], span: (usize, usize)) -> (r: &'a [u8])
    requires
        span.0 <= span.1 <= line@.len(),
    ensures
        r@ == line@.subrange(span.0 as int, span.1 as int),
{
    slice_subrange(line, span.0, span.1)
}

fn hex_nibble(c: u8) -> (r: Option<u8>)
    ensures
        r == hex_digit(c),
        r matches Some(d) ==> d < 16,
{
    if 0x30 <= c && c <= 0x39 {
        Some(c - 0x30)
    } else if 0x61 <= c && c <= 0x66 {
        Some(c - 0x61 + 10)
    } else if 0x41 <= c && c <= 0x46 {
        Some(c - 0x41 + 10)
    } else {
        None
    }
}

/// Reads two hexadecimal digits, either case, as a byte.
pub fn parse_hex_byte(slice: &[u8]) -> (r: Option<u8>)
    ensures
        r == hex_byte(slice@),
{
    if slice.len() == 2 {
        match (hex_nibble(slice[0]), hex_nibble(slice[1])) {
            (Some(hi), Some(lo)) => Some(hi * 16 + lo),
            _ => None,
        }
    } else {
        None
    }
}

impl Coordinate {
    /// A coordinate at `x`, `y`.
    pub fn new(x: u32, y: u32) -> (r: Coordinate)
        ensures
            r == (Coordinate { x, y }),
    {
        Coordinate { x, y }
    }

    /// Reads two decimal tokens `x y`.
    pub fn parse_byte_slice(slice: &[u8]) -> (r: PixelflutResult<Coordinate>)
        ensures
            outcome_is(r, coordinate_from_text(slice@)),
    {
        let spans = token_spans(slice);
        proof {
            assert(span_texts(slice@, spans@).len() == spans@.len());
        }
        if spans.len() != 2 {
            return Err(
                PixelflutErrorKind::WrongNumberOfArguments.with_description(
                    "a coordinate is two numbers",
                ),
            );
        }
        let x = token_at(slice, spans[0]);
        let y = token_at(slice, spans[1]);
        proof {
            assert(tokens(slice@)[0] == x@);
            assert(tokens(slice@)[1] == y@);
        }
        coordinate_from_tokens_exec(x, y)
    }

    /// The form `x y` of this coordinate.
    pub fn to_string(&self) -> (r: String)
        ensures
            r@ == ascii_text(coordinate_text(*self)),
    {
        let mut out: Vec<u8> = Vec::new();
        push_coordinate(&mut out, *self);
        proof {
            lemma_coordinate_text_ascii(*self);
        }
        ascii_string(out.as_slice())
    }
}

fn coordinate_from_tokens_exec(x: &[u8], y: &[u8]) -> (r: PixelflutResult<Coordinate>)
    ensures
        outcome_is(r, coordinate_from_tokens(x@, y@)),
{
    match (parse_decimal_u32(x), parse_decimal_u32(y)) {
        (Some(x), Some(y)) => Ok(Coordinate { x, y }),
        _ => Err(PixelflutErrorKind::Parse.with_description("a coordinate is not a decimal u32")),
    }
}

impl Color {
    /// A color without alpha channel.
    pub fn rgb(r: u8, g: u8, b: u8) -> (c: Color)
        ensures
            c == (Color { r, g, b, a: None }),
    {
        Color { r, g, b, a: None }
    }

    /// A color with an alpha channel.
    pub fn rgba(r: u8, g: u8, b: u8, a: u8) -> (c: Color)
        ensures
            c == (Color { r, g, b, a: Some(a) }),
    {
        Color { r, g, b, a: Some(a) }
    }

    /// Reads six hexadecimal digits as an RGB color, eight as an RGBA
    /// color, in either case.
    pub fn parse_byte_slice(slice: &[u8]) -> (r: PixelflutResult<Color>)
        ensures
            outcome_is(r, color_from_token(slice@)),
    {
        let n = slice.len();
        if n != 6 && n != 8 {
            return Err(
                PixelflutErrorKind::Parse.with_description(
                    "a color is 6 or 8 hexadecimal digits",
                ),
            );
        }
        let r = parse_hex_byte(slice_subrange(slice, 0, 2));
        let g = parse_hex_byte(slice_subrange(slice, 2, 4));
        let b = parse_hex_byte(slice_subrange(slice, 4, 6));
        if n == 6 {
            match (r, g, b) {
                (Some(r), Some(g), Some(b)) => Ok(Color::rgb(r, g, b)),
                _ => Err(
                    PixelflutErrorKind::Parse.with_description("bad hexadecimal digit in color"),
                ),
            }
        } else {
            let a = parse_hex_byte(slice_subrange(slice, 6, 8));
            match (r, g, b, a) {
                (Some(r), Some(g), Some(b), Some(a)) => Ok(Color::rgba(r, g, b, a)),
                _ => Err(
                    PixelflutErrorKind::Parse.with_description("bad hexadecimal digit in color"),
                ),
            }
        }
    }

    /// The alpha channel; 255 where the color has none.
    pub fn alpha(self) -> (r: u8)
        ensures
            r == alpha_of(self),
    {
        match self.a {
            Some(a) => a,
            None => 255,
        }
    }

    /// A color that carries an alpha channel only where `a` is not 255.
    pub fn packed(r: u8, g: u8, b: u8, a: u8) -> (c: Color)
        ensures
            c == packed_of(r, g, b, a),
    {
        if a == 255 {
            Color::rgb(r, g, b)
        } else {
            Color::rgba(r, g, b, a)
        }
    }

    /// This color without an alpha channel where that channel is opaque.
    pub fn pack(&self) -> (c: Color)
        ensures
            c == packed_of(self.r, self.g, self.b, alpha_of(*self)),
    {
        match self.a {
            None => Color::rgb(self.r, self.g, self.b),
            Some(a) => Color::packed(self.r, self.g, self.b, a),
        }
    }

    /// The channels red, green, blue and alpha, with 255 for no alpha.
    pub fn normalized(self) -> (r: (u8, u8, u8, u8))
        ensures
            r == (self.r, self.g, self.b, alpha_of(self)),
    {
        (self.r, self.g, self.b, self.alpha())
    }

    /// The hexadecimal form of this color, in lowercase.
    pub fn to_string(&self) -> (r: String)
        ensures
            r@ == ascii_text(color_text(*self)),
    {
        let mut out: Vec<u8> = Vec::new();
        push_color(&mut out, *self);
        proof {
            lemma_color_text_ascii(*self);
        }
        ascii_string(out.as_slice())
    }
}

impl Pixel {
    /// A pixel of `color` at `position`.
    pub fn new(position: Coordinate, color: Color) -> (r: Pixel)
        ensures
            r == (Pixel { position, color }),
    {
        Pixel { position, color }
    }

    /// Reads the three tokens `x y color`.
    pub fn parse_byte_slice(slice: &[u8]) -> (r: PixelflutResult<Pixel>)
        ensures
            outcome_is(r, pixel_from_text(slice@)),
    {
        let spans = token_spans(slice);
        proof {
            assert(span_texts(slice@, spans@).len() == spans@.len());
        }
        if spans.len() != 3 {
            return Err(
                PixelflutErrorKind::WrongNumberOfArguments.with_description(
                    "a pixel is two numbers and a color",
                ),
            );
        }
        let x = token_at(slice, spans[0]);
        let y = token_at(slice, spans[1]);
        let c = token_at(slice, spans[2]);
        proof {
            assert(tokens(slice@)[0] == x@);
            assert(tokens(slice@)[1] == y@);
            assert(tokens(slice@)[2] == c@);
        }
        pixel_from_tokens_exec(x, y, c)
    }

    /// The form `x y color` of this pixel.
    pub fn to_string(&self) -> (r: String)
        ensures
            r@ == ascii_text(pixel_text(*self)),
    {
        let mut out: Vec<u8> = Vec::new();
        push_pixel(&mut out, *self);
        proof {
            lemma_pixel_text_ascii(*self);
        }
        ascii_string(out.as_slice())
    }
}

/// Reads three tokens as a pixel.
pub fn pixel_from_tokens_exec(x: &[u8], y: &[u8], c: &[u8]) -> (r: PixelflutResult<Pixel>)
    ensures
        outcome_is(r, pixel_from_tokens(x@, y@, c@)),
{
    let position = match coordinate_from_tokens_exec(x, y) {
        Ok(p) => p,
        Err(e) => return Err(e),
    };
    let color = match Color::parse_byte_slice(c) {
        Ok(c) => c,
        Err(e) => return Err(e),
    };
    Ok(Pixel { position, color })
}

/// Appends the hexadecimal form of `c` to `out`.
pub fn push_color(out: &mut Vec<u8>, c: Color)
    ensures
        final(out)@ == old(out)@ + color_text(c),
{
    push_hex2(out, c.r);
    push_hex2(out, c.g);
    push_hex2(out, c.b);
    match c.a {
        Some(a) => push_hex2(out, a),
        None => {},
    }
    assert(final(out)@ =~= old(out)@ + color_text(c));
}

/// Appends the form `x y` of `c` to `out`.
pub fn push_coordinate(out: &mut Vec<u8>, c: Coordinate)
    ensures
        final(out)@ == old(out)@ + coordinate_text(c),
{
    push_decimal(out, c.x as usize);
    out.push(0x20);
    push_decimal(out, c.y as usize);
    assert(final(out)@ =~= old(out)@ + coordinate_text(c));
}

/// Appends the form `x y color` of `p` to `out`.
pub fn push_pixel(out: &mut Vec<u8>, p: Pixel)
    ensures
        final(out)@ == old(out)@ + pixel_text(p),
{
    push_coordinate(out, p.position);
    out.push(0x20);
    push_color(out, p.color);
    assert(final(out)@ =~= old(out)@ + pixel_text(p));
}

/// Decimal digits are ASCII.
pub proof fn lemma_dec_digits_ascii(v: nat)
    ensures
        is_ascii_bytes(dec_digits(v)),
    decreases v,
{
    if v >= 10 {
        lemma_dec_digits_ascii(v / 10);
    }
}

/// The form of a color is ASCII.
pub proof fn lemma_color_text_ascii(c: Color)
    ensures
        is_ascii_bytes(color_text(c)),
{
}

/// The form of a coordinate is ASCII.
pub proof fn lemma_coordinate_text_ascii(c: Coordinate)
    ensures
        is_ascii_bytes(coordinate_text(c)),
{
    lemma_dec_digits_ascii(c.x as nat);
    lemma_dec_digits_ascii(c.y as nat);
}

/// The form of a pixel is ASCII.
pub proof fn lemma_pixel_text_ascii(p: Pixel)
    ensures
        is_ascii_bytes(pixel_text(p)),
{
    lemma_coordinate_text_ascii(p.position);
    lemma_color_text_ascii(p.color);
}

/// The color that `pack` gives.
pub open spec fn pack_of(c: Color) -> Color {
    packed_of(c.r, c.g, c.b, alpha_of(c))
}

/// Packing is stable: packing the channels that `normalized` gives is
/// packing the color itself, packing keeps the alpha that every consumer
/// sees, and packing twice is packing once.
pub proof fn lemma_pack_stable(c: Color)
    ensures
        packed_of(c.r, c.g, c.b, alpha_of(c)) == pack_of(c),
        alpha_of(pack_of(c)) == alpha_of(c),
        pack_of(pack_of(c)) == pack_of(c),
{
}

/// The form of a color is a token that reads back as that color.
pub proof fn lemma_color_round_trip(c: Color)
    ensures
        is_word(color_text(c)),
        color_from_hex(color_text(c)) == Some(c),
{
    let t = color_text(c);
    lemma_hex2(c.r);
    lemma_hex2(c.g);
    lemma_hex2(c.b);
    lemma_word_concat(hex2(c.r), hex2(c.g));
    lemma_word_concat(hex2(c.r) + hex2(c.g), hex2(c.b));
    assert(t.subrange(0, 2) =~= hex2(c.r));
    assert(t.subrange(2, 4) =~= hex2(c.g));
    assert(t.subrange(4, 6) =~= hex2(c.b));
    match c.a {
        Some(a) => {
            lemma_hex2(a);
            lemma_word_concat(hex2(c.r) + hex2(c.g) + hex2(c.b), hex2(a));
            assert(t.subrange(6, 8) =~= hex2(a));
        },
        None => {},
    }
}

/// The form of a pixel splits into its three tokens, which read back as
/// that pixel.
pub proof fn lemma_pixel_round_trip(p: Pixel)
    ensures
        tokens(pixel_text(p)) == seq![
            dec_digits(p.position.x as nat),
            dec_digits(p.position.y as nat),
            color_text(p.color),
        ],
        pixel_from_tokens(
            dec_digits(p.position.x as nat),
            dec_digits(p.position.y as nat),
            color_text(p.color),
        ) == Ok::<Pixel, PixelflutErrorKind>(p),
{
    let dx = dec_digits(p.position.x as nat);
    let dy = dec_digits(p.position.y as nat);
    let hx = color_text(p.color);
    lemma_parse_dec_digits(p.position.x);
    lemma_parse_dec_digits(p.position.y);
    lemma_color_round_trip(p.color);
    lemma_tokens_single(hx);
    lemma_tokens_spaced(dy, hx);
    lemma_tokens_spaced(dx, dy + seq![0x20u8] + hx);
    assert(pixel_text(p) =~= dx + seq![0x20u8] + (dy + seq![0x20u8] + hx));
    assert(seq![dx] + (seq![dy] + seq![hx]) =~= seq![dx, dy, hx]);
}

impl From<(u32, u32)> for Coordinate {
    fn from(c: (u32, u32)) -> (r: Coordinate) {
        Coordinate { x: c.0, y: c.1 }
    }
}

impl vstd::std_specs::convert::FromSpecImpl<(u32, u32)> for Coordinate {
    open spec fn obeys_from_spec() -> bool {
        true
    }

    open spec fn from_spec(c: (u32, u32)) -> Coordinate {
        Coordinate { x: c.0, y: c.1 }
    }
}

impl From<Coordinate> for (u32, u32) {
    fn from(c: Coordinate) -> (r: (u32, u32)) {
        (c.x, c.y)
    }
}

impl vstd::std_specs::convert::FromSpecImpl<Coordinate> for (u32, u32) {
    open spec fn obeys_from_spec() -> bool {
        true
    }

    open spec fn from_spec(c: Coordinate) -> (u32, u32) {
        (c.x, c.y)
    }
}

impl From<(u8, u8, u8)> for Color {
    fn from(c: (u8, u8, u8)) -> (r: Color) {
        Color { r: c.0, g: c.1, b: c.2, a: None }
    }
}

impl vstd::std_specs::convert::FromSpecImpl<(u8, u8, u8)> for Color {
    open spec fn obeys_from_spec() -> bool {
        true
    }

    open spec fn from_spec(c: (u8, u8, u8)) -> Color {
        Color { r: c.0, g: c.1, b: c.2, a: None }
    }
}

impl From<(u8, u8, u8, u8)> for Color {
    fn from(c: (u8, u8, u8, u8)) -> (r: Color) {
        Color { r: c.0, g: c.1, b: c.2, a: Some(c.3) }
    }
}

impl vstd::std_specs::convert::FromSpecImpl<(u8, u8, u8, u8)> for Color {
    open spec fn obeys_from_spec() -> bool {
        true
    }

    open spec fn from_spec(c: (u8, u8, u8, u8)) -> Color {
        Color { r: c.0, g: c.1, b: c.2, a: Some(c.3) }
    }
}

impl From<Color> for (u8, u8, u8) {
    fn from(c: Color) -> (r: (u8, u8, u8)) {
        (c.r, c.g, c.b)
    }
}

impl vstd::std_specs::convert::FromSpecImpl<Color> for (u8, u8, u8) {
    open spec fn obeys_from_spec() -> bool {
        true
    }

    open spec fn from_spec(c: Color) -> (u8, u8, u8) {
        (c.r, c.g, c.b)
    }
}

impl From<Color> for (u8, u8, u8, u8) {
    fn from(c: Color) -> (r: (u8, u8, u8, u8)) {
        (c.r, c.g, c.b, c.alpha())
    }
}

impl vstd::std_specs::convert::FromSpecImpl<Color> for (u8, u8, u8, u8) {
    open spec fn obeys_from_spec() -> bool {
        true
    }

    open spec fn from_spec(c: Color) -> (u8, u8, u8, u8) {
        (c.r, c.g, c.b, alpha_of(c))
    }
}

impl From<(Coordinate, Color)> for Pixel {
    fn from(p: (Coordinate, Color)) -> (r: Pixel) {
        Pixel { position: p.0, color: p.1 }
    }
}

impl vstd::std_specs::convert::FromSpecImpl<(Coordinate, Color)> for Pixel {
    open spec fn obeys_from_spec() -> bool {
        true
    }

    open spec fn from_spec(p: (Coordinate, Color)) -> Pixel {
        Pixel { position: p.0, color: p.1 }
    }
}

impl From<((u32, u32), (u8, u8, u8))> for Pixel {
    fn from(p: ((u32, u32), (u8, u8, u8))) -> (r: Pixel) {
        Pixel {
            position: Coordinate { x: (p.0).0, y: (p.0).1 },
            color: Color { r: (p.1).0, g: (p.1).1, b: (p.1).2, a: None },
        }
    }
}

impl vstd::std_specs::convert::FromSpecImpl<((u32, u32), (u8, u8, u8))> for Pixel {
    open spec fn obeys_from_spec() -> bool {
        true
    }

    open spec fn from_spec(p: ((u32, u32), (u8, u8, u8))) -> Pixel {
        Pixel {
            position: Coordinate { x: (p.0).0, y: (p.0).1 },
            color: Color { r: (p.1).0, g: (p.1).1, b: (p.1).2, a: None },
        }
    }
}

impl From<((u32, u32), (u8, u8, u8, u8))> for Pixel {
    fn from(p: ((u32, u32), (u8, u8, u8, u8))) -> (r: Pixel) {
        Pixel {
            position: Coordinate { x: (p.0).0, y: (p.0).1 },
            color: Color { r: (p.1).0, g: (p.1).1, b: (p.1).2, a: Some((p.1).3) },
        }
    }
}

impl vstd::std_specs::convert::FromSpecImpl<((u32, u32), (u8, u8, u8, u8))> for Pixel {
    open spec fn obeys_from_spec() -> bool {
        true
    }

    open spec fn from_spec(p: ((u32, u32), (u8, u8, u8, u8))) -> Pixel {
        Pixel {
            position: Coordinate { x: (p.0).0, y: (p.0).1 },
            color: Color { r: (p.1).0, g: (p.1).1, b: (p.1).2, a: Some((p.1).3) },
        }
    }
}

impl std::str::FromStr for Color {
    type Err = PixelflutError;

    fn from_str(s: &str) -> Result<Color, PixelflutError> {
        Color::parse_byte_slice(s.as_bytes())
    }
}

impl std::str::FromStr for Coordinate {
    type Err = PixelflutError;

    fn from_str(s: &str) -> Result<Coordinate, PixelflutError> {
        Coordinate::parse_byte_slice(s.as_bytes())
    }
}

impl std::str::FromStr for Pixel {
    type Err = PixelflutError;

    fn from_str(s: &str) -> Result<Pixel, PixelflutError> {
        Pixel::parse_byte_slice(s.as_bytes())
    }
}

} // verus!
