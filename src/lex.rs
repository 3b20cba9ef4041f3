//! The bytes-level pieces of the wire grammar: whitespace and tokens,
//! unsigned decimal numbers and two-digit hexadecimal bytes.
use vstd::prelude::*;
use vstd::slice::slice_subrange;
use vstd::utf8::{
    decode_utf8, encode_utf8, encode_utf8_decode_utf8, encode_utf8_valid_utf8, is_ascii_chars,
    is_ascii_chars_encode_utf8, valid_utf8,
};

verus! {

/// ASCII whitespace, the separator of tokens: space, tab, line feed, form
/// feed and carriage return.
pub open spec fn is_space(b: u8) -> bool {
    b == 0x20 || b == 0x09 || b == 0x0a || b == 0x0c || b == 0x0d
}

/// A token: a non-empty run of bytes none of which is whitespace.
pub open spec fn is_word(w: Seq<u8>) -> bool {
    w.len() > 0 && forall|i: int| 0 <= i < w.len() ==> !is_space(#[trigger] w[i])
}

/// The number of leading bytes of `s` that are not whitespace.
pub open spec fn word_len(s: Seq<u8>) -> nat
    decreases s.len(),
{
    if s.len() == 0 || is_space(s[0]) {
        0
    } else {
        1 + word_len(s.drop_first())
    }
}

/// The whitespace-separated tokens of `s`, in order.
pub open spec fn tokens(s: Seq<u8>) -> Seq<Seq<u8>>
    decreases s.len(),
{
    if s.len() == 0 {
        seq![]
    } else if is_space(s[0]) {
        tokens(s.drop_first())
    } else {
        proof {
            lemma_word_len_bounds(s);
        }
        seq![s.take(word_len(s) as int)] + tokens(s.skip(word_len(s) as int))
    }
}

/// A token ends inside `s`, and a non-blank start makes one of at least a byte.
pub proof fn lemma_word_len_bounds(s: Seq<u8>)
    ensures
        word_len(s) <= s.len(),
        s.len() > 0 && !is_space(s[0]) ==> word_len(s) >= 1,
    decreases s.len(),
{
    if s.len() > 0 && !is_space(s[0]) {
        lemma_word_len_bounds(s.drop_first());
    }
}

/// `word_len` is the index of the first whitespace byte, or the length.
pub proof fn lemma_word_len_exact(s: Seq<u8>, k: int)
    requires
        0 <= k <= s.len(),
        forall|j: int| 0 <= j < k ==> !is_space(#[trigger] s[j]),
        k == s.len() || is_space(s[k]),
    ensures
        word_len(s) == k,
    decreases k,
{
    if k > 0 {
        let t = s.drop_first();
        assert forall|j: int| 0 <= j < k - 1 implies !is_space(#[trigger] t[j]) by {
            assert(t[j] == s[j + 1]);
        }
        lemma_word_len_exact(t, k - 1);
    }
}

/// A token followed by whitespace (or nothing) is the first token.
pub proof fn lemma_tokens_word_then(w: Seq<u8>, rest: Seq<u8>)
    requires
        is_word(w),
        rest.len() == 0 || is_space(rest[0]),
    ensures
        tokens(w + rest) == seq![w] + tokens(rest),
{
    let s = w + rest;
    assert forall|j: int| 0 <= j < w.len() implies !is_space(#[trigger] s[j]) by {
        assert(s[j] == w[j]);
    }
    assert(s[0] == w[0]);
    lemma_word_len_exact(s, w.len() as int);
    assert(s.take(w.len() as int) =~= w);
    assert(s.skip(w.len() as int) =~= rest);
}

/// Leading whitespace does not change the tokens.
pub proof fn lemma_tokens_space_then(b: u8, rest: Seq<u8>)
    requires
        is_space(b),
    ensures
        tokens(seq![b] + rest) == tokens(rest),
{
    assert((seq![b] + rest).drop_first() =~= rest);
}

/// Relies on bstr's `ByteSlice::find_byteset`: the index of the first byte of
/// `haystack` that is one of the bytes of `set`, or `None` where there is none.
#[verifier::external_body]
fn find_any_of(haystack: &[u8], set: &[u8]) -> (r: Option<usize>)
    ensures
        match r {
            Some(i) => {
                &&& i < haystack@.len()
                &&& set@.contains(haystack@[i as int])
                &&& forall|j: int| 0 <= j < i ==> !set@.contains(#[trigger] haystack@[j])
            },
            None => forall|j: int|
                0 <= j < haystack@.len() ==> !set@.contains(#[trigger] haystack@[j]),
        },
{
    bstr::ByteSlice::find_byteset(haystack, set)
}

/// The bytes of `s` between each span's start and end.
pub open spec fn span_texts(s: Seq<u8>, spans: Seq<(usize, usize)>) -> Seq<Seq<u8>> {
    spans.map_values(|p: (usize, usize)| s.subrange(p.0 as int, p.1 as int))
}

/// Every span lies inside a sequence of length `n` and is not empty.
pub open spec fn spans_within(spans: Seq<(usize, usize)>, n: nat) -> bool {
    forall|i: int| 0 <= i < spans.len() ==> #[trigger] spans[i].0 < spans[i].1 <= n
}

/// Whether `b` separates tokens.
pub fn is_space_byte(b: u8) -> (r: bool)
    ensures
        r == is_space(b),
{
    b == 0x20 || b == 0x09 || b == 0x0a || b == 0x0c || b == 0x0d
}

/// Splits `line` into the spans of its whitespace-separated tokens.
pub fn token_spans(line: &[u8]) -> (r: Vec<(usize, usize)>)
    ensures
        spans_within(r@, line@.len()),
        span_texts(line@, r@) == tokens(line@),
{
    let spaces: [u8; 5] = [0x20, 0x09, 0x0a, 0x0c, 0x0d];
    let set = spaces.as_slice();
    assert forall|b: u8| set@.contains(b) <==> is_space(b) by {
        if is_space(b) {
            if b == 0x20 {
                assert(set@[0] == b);
            } else if b == 0x09 {
                assert(set@[1] == b);
            } else if b == 0x0a {
                assert(set@[2] == b);
            } else if b == 0x0c {
                assert(set@[3] == b);
            } else {
                assert(set@[4] == b);
            }
        }
    }
    let mut spans: Vec<(usize, usize)> = Vec::new();
    let mut pos: usize = 0;
    assert(line@.skip(0) =~= line@);
    while pos < line.len()
        invariant
            pos <= line@.len(),
            forall|b: u8| set@.contains(b) <==> is_space(b),
            spans_within(spans@, line@.len()),
            tokens(line@) == span_texts(line@, spans@) + tokens(line@.skip(pos as int)),
        decreases line@.len() - pos,
    {
        let rest_view = Ghost(line@.skip(pos as int));
        if is_space_byte(line[pos]) {
            assert(rest_view@.drop_first() =~= line@.skip(pos + 1));
            pos = pos + 1;
        } else {
            let rest = slice_subrange(line, pos, line.len());
            assert(rest@ =~= rest_view@);
            let end = match find_any_of(rest, set) {
                Some(i) => pos + i,
                None => line.len(),
            };
            proof {
                lemma_word_len_exact(rest_view@, end - pos);
                assert(rest_view@.take(end - pos) =~= line@.subrange(pos as int, end as int));
                assert(rest_view@.skip(end - pos) =~= line@.skip(end as int));
            }
            let ghost old_spans = spans@;
            spans.push((pos, end));
            assert(span_texts(line@, spans@) =~= span_texts(line@, old_spans) + seq![
                line@.subrange(pos as int, end as int),
            ]);
            pos = end;
        }
    }
    assert(line@.skip(pos as int) =~= Seq::<u8>::empty());
    assert(span_texts(line@, spans@) + tokens(Seq::<u8>::empty()) =~= span_texts(line@, spans@));
    spans
}

/// An ASCII decimal digit.
pub open spec fn is_digit(b: u8) -> bool {
    0x30 <= b <= 0x39
}

/// The number of leading bytes of `s` that are decimal digits.
pub open spec fn digit_run(s: Seq<u8>) -> nat
    decreases s.len(),
{
    if s.len() == 0 || !is_digit(s[0]) {
        0
    } else {
        1 + digit_run(s.drop_first())
    }
}

/// The number that the decimal digits `s` spell (most significant first).
pub open spec fn dec_value(s: Seq<u8>) -> nat
    decreases s.len(),
{
    if s.len() == 0 {
        0
    } else {
        dec_value(s.drop_last()) * 10 + (s.last() - 0x30) as nat
    }
}

/// The token `t` read as an unsigned decimal `u32`: one or more digits and
/// nothing else, whose value fits.
pub open spec fn parse_decimal(t: Seq<u8>) -> Option<u32> {
    if t.len() > 0 && digit_run(t) == t.len() && dec_value(t) <= u32::MAX {
        Some(dec_value(t) as u32)
    } else {
        None
    }
}

/// The shortest decimal spelling of `v`.
pub open spec fn dec_digits(v: nat) -> Seq<u8>
    decreases v,
{
    if v < 10 {
        seq![(0x30 + v) as u8]
    } else {
        dec_digits(v / 10) + seq![(0x30 + v % 10) as u8]
    }
}

/// The value of a hexadecimal digit, either case.
pub open spec fn hex_digit(c: u8) -> Option<u8> {
    if 0x30 <= c <= 0x39 {
        Some((c - 0x30) as u8)
    } else if 0x61 <= c <= 0x66 {
        Some((c - 0x61 + 10) as u8)
    } else if 0x41 <= c <= 0x46 {
        Some((c - 0x41 + 10) as u8)
    } else {
        None
    }
}

/// The byte that two hexadecimal digits spell.
pub open spec fn hex_byte(s: Seq<u8>) -> Option<u8> {
    if s.len() == 2 {
        match (hex_digit(s[0]), hex_digit(s[1])) {
            (Some(hi), Some(lo)) => Some((hi * 16 + lo) as u8),
            _ => None,
        }
    } else {
        None
    }
}

/// The lowercase hexadecimal digit of a value below 16.
pub open spec fn hex_char(d: nat) -> u8 {
    if d < 10 {
        (0x30 + d) as u8
    } else {
        (0x61 + d - 10) as u8
    }
}

/// The two lowercase hexadecimal digits of a byte.
pub open spec fn hex2(v: u8) -> Seq<u8> {
    seq![hex_char(v as nat / 16), hex_char(v as nat % 16)]
}

/// Relies on atoi's `FromRadix10Checked::from_radix_10_checked` for `u32`:
/// it reads the run of decimal digits at the start of `text`, returns the
/// run's length, and its value where that fits in `u32` (`None` where not).
#[verifier::external_body]
fn leading_decimal(text: &[u8]) -> (r: (Option<u32>, usize))
    ensures
        r.1 == digit_run(text@),
        r.0 == (if dec_value(text@.take(r.1 as int)) <= u32::MAX {
            Some(dec_value(text@.take(r.1 as int)) as u32)
        } else {
            None
        }),
{
    <u32 as atoi::FromRadix10Checked>::from_radix_10_checked(text)
}

/// Reads the token `t` as an unsigned decimal `u32`.
pub fn parse_decimal_u32(t: &[u8]) -> (r: Option<u32>)
    ensures
        r == parse_decimal(t@),
{
    let (value, used) = leading_decimal(t);
    if used > 0 && used == t.len() {
        assert(t@.take(used as int) =~= t@);
        value
    } else {
        None
    }
}

/// Appends the decimal spelling of `v` to `out`.
pub fn push_decimal(out: &mut Vec<u8>, v: usize)
    ensures
        final(out)@ == old(out)@ + dec_digits(v as nat),
    decreases v,
{
    if v >= 10 {
        push_decimal(out, v / 10);
    }
    out.push((0x30 + v % 10) as u8);
    assert(final(out)@ =~= old(out)@ + dec_digits(v as nat));
}

/// Appends the two lowercase hexadecimal digits of `v` to `out`.
pub fn push_hex2(out: &mut Vec<u8>, v: u8)
    ensures
        final(out)@ == old(out)@ + hex2(v),
{
    let hi = v / 16;
    let lo = v % 16;
    out.push(if hi < 10 { 0x30 + hi } else { 0x61 + hi - 10 });
    out.push(if lo < 10 { 0x30 + lo } else { 0x61 + lo - 10 });
    assert(final(out)@ =~= old(out)@ + hex2(v));
}

/// The decimal spelling of a number is a token that reads back as it.
pub proof fn lemma_dec_digits(v: nat)
    ensures
        is_word(dec_digits(v)),
        digit_run(dec_digits(v)) == dec_digits(v).len(),
        dec_value(dec_digits(v)) == v,
    decreases v,
{
    let d = dec_digits(v);
    if v >= 10 {
        lemma_dec_digits(v / 10);
        let p = dec_digits(v / 10);
        assert(d.drop_last() =~= p);
        lemma_digit_run_append(p, (0x30 + v % 10) as u8);
        assert(d =~= p.push((0x30 + v % 10) as u8));
        assert(d.last() == (0x30 + v % 10) as u8);
        assert(dec_value(d) == dec_value(p) * 10 + (d.last() - 0x30) as nat);
        assert(v == (v / 10) * 10 + v % 10);
    } else {
        assert(d.len() == 1 && d[0] == (0x30 + v) as u8);
        assert(d.drop_first() =~= Seq::<u8>::empty());
        assert(d.drop_last() =~= Seq::<u8>::empty());
        assert(digit_run(d) == 1 + digit_run(d.drop_first()));
        assert(dec_value(d) == dec_value(d.drop_last()) * 10 + (d.last() - 0x30) as nat);
    }
    assert forall|i: int| 0 <= i < d.len() implies !is_space(#[trigger] d[i]) by {
        lemma_dec_digits_are_digits(v, i);
    }
}

proof fn lemma_dec_digits_are_digits(v: nat, i: int)
    requires
        0 <= i < dec_digits(v).len(),
    ensures
        is_digit(dec_digits(v)[i]),
    decreases v,
{
    if v >= 10 {
        if i < dec_digits(v / 10).len() {
            lemma_dec_digits_are_digits(v / 10, i);
        }
    }
}

proof fn lemma_digit_run_append(p: Seq<u8>, b: u8)
    requires
        digit_run(p) == p.len(),
        is_digit(b),
    ensures
        digit_run(p.push(b)) == p.len() + 1,
    decreases p.len(),
{
    let q = p.push(b);
    if p.len() > 0 {
        assert(q.drop_first() =~= p.drop_first().push(b));
        assert(q[0] == p[0]);
        assert(is_digit(p[0]));
        assert(digit_run(p.drop_first()) == p.drop_first().len());
        lemma_digit_run_append(p.drop_first(), b);
        assert(digit_run(q) == 1 + digit_run(q.drop_first()));
    } else {
        assert(q.drop_first() =~= Seq::<u8>::empty());
        assert(q[0] == b);
        assert(digit_run(q) == 1 + digit_run(q.drop_first()));
    }
}

/// A number below `u32::MAX` reads back from its decimal spelling.
pub proof fn lemma_parse_dec_digits(v: u32)
    ensures
        parse_decimal(dec_digits(v as nat)) == Some(v),
        is_word(dec_digits(v as nat)),
{
    lemma_dec_digits(v as nat);
}

/// Two hexadecimal digits of a byte form a token that reads back as it.
pub proof fn lemma_hex2(v: u8)
    ensures
        hex_byte(hex2(v)) == Some(v),
        is_word(hex2(v)),
{
    let s = hex2(v);
    assert(s[0] == hex_char(v as nat / 16));
    assert(s[1] == hex_char(v as nat % 16));
    assert forall|i: int| 0 <= i < s.len() implies !is_space(#[trigger] s[i]) by {}
}

/// Bytes that are all ASCII.
pub open spec fn is_ascii_bytes(b: Seq<u8>) -> bool {
    forall|i: int| 0 <= i < b.len() ==> #[trigger] b[i] < 128
}

/// ASCII bytes read as characters.
pub open spec fn ascii_text(b: Seq<u8>) -> Seq<char> {
    b.map_values(|x: u8| x as char)
}

/// Relies on std's `str::from_utf8`: the text that `bytes` encode in UTF-8,
/// or `None` where they are not valid UTF-8.
#[verifier::external_body]
fn utf8_text(bytes: &[u8]) -> (r: Option<String>)
    ensures
        r is Some <==> valid_utf8(bytes@),
        r matches Some(s) ==> s@ == decode_utf8(bytes@),
{
    match std::str::from_utf8(bytes) {
        Ok(s) => Some(s.to_owned()),
        Err(_) => None,
    }
}

/// Reads `bytes` as UTF-8 text.
pub fn decode_text(bytes: &[u8]) -> (r: Option<String>)
    ensures
        r is Some <==> valid_utf8(bytes@),
        r matches Some(s) ==> s@ == decode_utf8(bytes@),
{
    utf8_text(bytes)
}

/// ASCII bytes are the UTF-8 encoding of the characters they stand for.
pub proof fn lemma_ascii_utf8(b: Seq<u8>)
    requires
        is_ascii_bytes(b),
    ensures
        encode_utf8(ascii_text(b)) == b,
        valid_utf8(b),
        decode_utf8(b) == ascii_text(b),
{
    let chars = ascii_text(b);
    assert forall|i: int| 0 <= i < chars.len() implies '\0' <= #[trigger] chars[i] <= '\u{7f}' by {
        assert(b[i] < 128);
    }
    assert(is_ascii_chars(chars));
    is_ascii_chars_encode_utf8(chars);
    assert forall|i: int| 0 <= i < b.len() implies #[trigger] encode_utf8(chars)[i] == b[i] by {
        assert(chars[i] == b[i] as char);
        assert(b[i] < 128);
    }
    assert(encode_utf8(chars) =~= b);
    encode_utf8_valid_utf8(chars);
    encode_utf8_decode_utf8(chars);
}

/// The text that ASCII bytes spell.
pub fn ascii_string(bytes: &[u8]) -> (r: String)
    requires
        is_ascii_bytes(bytes@),
    ensures
        r@ == ascii_text(bytes@),
{
    proof {
        lemma_ascii_utf8(bytes@);
    }
    match utf8_text(bytes) {
        Some(s) => s,
        None => String::new(),
    }
}

/// Two tokens side by side form one token.
pub proof fn lemma_word_concat(a: Seq<u8>, b: Seq<u8>)
    requires
        is_word(a),
        is_word(b),
    ensures
        is_word(a + b),
{
    assert forall|i: int| 0 <= i < (a + b).len() implies !is_space(#[trigger] (a + b)[i]) by {
        if i < a.len() {
            assert((a + b)[i] == a[i]);
        } else {
            assert((a + b)[i] == b[i - a.len()]);
        }
    }
}

/// A single token is the only token of itself.
pub proof fn lemma_tokens_single(w: Seq<u8>)
    requires
        is_word(w),
    ensures
        tokens(w) == seq![w],
{
    lemma_tokens_word_then(w, Seq::<u8>::empty());
    assert(w + Seq::<u8>::empty() =~= w);
    assert(seq![w] + Seq::<Seq<u8>>::empty() =~= seq![w]);
}

/// Tokens joined by single spaces split back into those tokens.
pub proof fn lemma_tokens_spaced(w: Seq<u8>, rest: Seq<u8>)
    requires
        is_word(w),
    ensures
        tokens(w + seq![0x20u8] + rest) == seq![w] + tokens(rest),
{
    let tail = seq![0x20u8] + rest;
    assert(w + seq![0x20u8] + rest =~= w + tail);
    lemma_tokens_word_then(w, tail);
    lemma_tokens_space_then(0x20u8, rest);
}

} // verus!
