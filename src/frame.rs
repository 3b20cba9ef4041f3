//! Newline framing: a byte buffer that collects what the transport hands
//! over and gives back complete lines, in order.
use vstd::prelude::*;

use bytes::BytesMut;

verus! {

/// bytes' `BytesMut`, the growable buffer that bytes are read into; its
/// contents are known here only through `buffered`.
#[verifier::external_type_specification]
#[verifier::external_body]
pub struct ExBytesMut(bytes::BytesMut);

/// What a byte buffer holds.
pub uninterp spec fn buffered(b: BytesMut) -> Seq<u8>;

/// Relies on bytes' `BytesMut::with_capacity`: a new buffer is empty.
#[verifier::external_body]
pub(crate) fn buffer_with_capacity(capacity: usize) -> (r: BytesMut)
    requires
        capacity <= isize::MAX,
    ensures
        buffered(r) == Seq::<u8>::empty(),
{
    BytesMut::with_capacity(capacity)
}

/// Relies on bytes' `BytesMut::as_ref`: the bytes that the buffer holds.
#[verifier::external_body]
pub(crate) fn buffer_bytes(b: &BytesMut) -> (r: &[u8])
    ensures
        r@ == buffered(*b),
{
    b.as_ref()
}

/// Relies on bytes' `BytesMut::extend_from_slice`: `data` is appended, and
/// nothing else changes; its capacity check panics only past `isize::MAX`.
#[verifier::external_body]
pub(crate) fn buffer_extend(b: &mut BytesMut, data: &[u8])
    requires
        buffered(*old(b)).len() + data@.len() <= isize::MAX,
    ensures
        buffered(*final(b)) == buffered(*old(b)) + data@,
{
    b.extend_from_slice(data)
}

/// Relies on bytes' `BytesMut::split_to`: the first `at` bytes move to the
/// returned buffer and the rest stay; it panics where `at` is past the end.
#[verifier::external_body]
pub(crate) fn buffer_split_to(b: &mut BytesMut, at: usize) -> (r: BytesMut)
    requires
        at <= buffered(*old(b)).len(),
    ensures
        buffered(r) == buffered(*old(b)).take(at as int),
        buffered(*final(b)) == buffered(*old(b)).skip(at as int),
{
    b.split_to(at)
}

/// Relies on memchr's `memchr`: the index of the first occurrence of
/// `needle` in `haystack`, or `None` where there is none.
#[verifier::external_body]
fn find_byte(needle: u8, haystack: &[u8]) -> (r: Option<usize>)
    ensures
        match r {
            Some(i) => {
                &&& i < haystack@.len()
                &&& haystack@[i as int] == needle
                &&& forall|j: int| 0 <= j < i ==> #[trigger] haystack@[j] != needle
            },
            None => forall|j: int| 0 <= j < haystack@.len() ==> #[trigger] haystack@[j] != needle,
        },
{
    memchr::memchr(needle, haystack)
}

/// The line feed that ends every line.
pub open spec fn is_newline(b: u8) -> bool {
    b == 0x0a
}

/// The number of bytes of `s` before its first newline (all of them where
/// there is none).
pub open spec fn line_len(s: Seq<u8>) -> nat
    decreases s.len(),
{
    if s.len() == 0 || is_newline(s[0]) {
        0
    } else {
        1 + line_len(s.drop_first())
    }
}

/// `s` holds a complete line.
pub open spec fn has_line(s: Seq<u8>) -> bool {
    line_len(s) < s.len()
}

/// The complete lines of `s`, in order, without their newlines.
pub open spec fn frames(s: Seq<u8>) -> Seq<Seq<u8>>
    decreases s.len(),
{
    if has_line(s) {
        seq![s.take(line_len(s) as int)] + frames(s.skip(line_len(s) + 1int))
    } else {
        seq![]
    }
}

/// What follows the last newline of `s`: the start of a line to come.
pub open spec fn pending(s: Seq<u8>) -> Seq<u8>
    decreases s.len(),
{
    if has_line(s) {
        pending(s.skip(line_len(s) + 1int))
    } else {
        s
    }
}

/// The bytes of `chunks` one after the other.
pub open spec fn flatten_chunks(chunks: Seq<Seq<u8>>) -> Seq<u8>
    decreases chunks.len(),
{
    if chunks.len() == 0 {
        seq![]
    } else {
        chunks[0] + flatten_chunks(chunks.drop_first())
    }
}

/// The lines that a reader yields when it holds `held` and is then handed
/// `chunks` one at a time, yielding every complete line after each.
pub open spec fn frames_fed(held: Seq<u8>, chunks: Seq<Seq<u8>>) -> Seq<Seq<u8>>
    decreases chunks.len(),
{
    if chunks.len() == 0 {
        seq![]
    } else {
        frames(held + chunks[0]) + frames_fed(pending(held + chunks[0]), chunks.drop_first())
    }
}

proof fn lemma_line_len_exact(s: Seq<u8>, k: int)
    requires
        0 <= k <= s.len(),
        forall|j: int| 0 <= j < k ==> !is_newline(#[trigger] s[j]),
        k == s.len() || is_newline(s[k]),
    ensures
        line_len(s) == k,
    decreases k,
{
    if k > 0 {
        let t = s.drop_first();
        assert forall|j: int| 0 <= j < k - 1 implies !is_newline(#[trigger] t[j]) by {
            assert(t[j] == s[j + 1]);
        }
        lemma_line_len_exact(t, k - 1);
    }
}

proof fn lemma_line_len_facts(s: Seq<u8>)
    ensures
        line_len(s) <= s.len(),
        forall|j: int| 0 <= j < line_len(s) ==> !is_newline(#[trigger] s[j]),
        has_line(s) ==> is_newline(s[line_len(s) as int]),
    decreases s.len(),
{
    if s.len() > 0 && !is_newline(s[0]) {
        let t = s.drop_first();
        lemma_line_len_facts(t);
        assert forall|j: int| 0 <= j < line_len(s) implies !is_newline(#[trigger] s[j]) by {
            if j > 0 {
                assert(s[j] == t[j - 1]);
            }
        }
        if has_line(s) {
            assert(s[line_len(s) as int] == t[line_len(t) as int]);
        }
    }
}

/// A complete line of `a` stays the first line of `a + b`.
proof fn lemma_line_len_prefix(a: Seq<u8>, b: Seq<u8>)
    requires
        has_line(a),
    ensures
        line_len(a + b) == line_len(a),
{
    lemma_line_len_facts(a);
    let s = a + b;
    let k = line_len(a) as int;
    assert forall|j: int| 0 <= j < k implies !is_newline(#[trigger] s[j]) by {
        assert(s[j] == a[j]);
    }
    assert(s[k] == a[k]);
    lemma_line_len_exact(s, k);
}

/// What is pending holds no complete line.
pub proof fn lemma_pending_has_no_line(s: Seq<u8>)
    ensures
        !has_line(pending(s)),
        frames(pending(s)) == Seq::<Seq<u8>>::empty(),
    decreases s.len(),
{
    if has_line(s) {
        lemma_pending_has_no_line(s.skip(line_len(s) + 1int));
    }
}

/// Lines do not depend on where the input is cut: the lines of `a + b` are
/// the lines of `a`, then those of what `a` leaves pending followed by `b`;
/// and both leave the same bytes pending.
pub proof fn lemma_frames_concat(a: Seq<u8>, b: Seq<u8>)
    ensures
        frames(a + b) == frames(a) + frames(pending(a) + b),
        pending(a + b) == pending(pending(a) + b),
    decreases a.len(),
{
    if has_line(a) {
        let n = line_len(a) as int;
        lemma_line_len_facts(a);
        lemma_line_len_prefix(a, b);
        assert((a + b).take(n) =~= a.take(n));
        assert((a + b).skip(n + 1) =~= a.skip(n + 1) + b);
        lemma_frames_concat(a.skip(n + 1), b);
        assert(frames(a + b) =~= seq![a.take(n)] + (frames(a.skip(n + 1)) + frames(
            pending(a.skip(n + 1)) + b,
        )));
    } else {
        assert(frames(a) =~= Seq::<Seq<u8>>::empty());
    }
}

/// Framing does not depend on how the input is cut into chunks: a reader
/// handed the chunks one by one (a byte at a time, or everything at once)
/// yields the lines of all the input together, and so decodes the same
/// sequence of commands.
pub proof fn lemma_frames_chunked(chunks: Seq<Seq<u8>>)
    ensures
        frames_fed(Seq::<u8>::empty(), chunks) == frames(flatten_chunks(chunks)),
        frames_fed(Seq::<u8>::empty(), chunks).map_values(
            |l: Seq<u8>| crate::command::command_from_text(l),
        ) == frames(flatten_chunks(chunks)).map_values(
            |l: Seq<u8>| crate::command::command_from_text(l),
        ),
{
    lemma_frames_fed(Seq::<u8>::empty(), chunks);
    assert(Seq::<u8>::empty() + flatten_chunks(chunks) =~= flatten_chunks(chunks));
}

proof fn lemma_frames_fed(held: Seq<u8>, chunks: Seq<Seq<u8>>)
    requires
        !has_line(held),
    ensures
        frames_fed(held, chunks) == frames(held + flatten_chunks(chunks)),
    decreases chunks.len(),
{
    if chunks.len() == 0 {
        assert(held + flatten_chunks(chunks) =~= held);
    } else {
        let buf = held + chunks[0];
        let rest = chunks.drop_first();
        lemma_pending_has_no_line(buf);
        lemma_frames_fed(pending(buf), rest);
        lemma_frames_concat(buf, flatten_chunks(rest));
        assert(held + flatten_chunks(chunks) =~= buf + flatten_chunks(rest));
    }
}

/// Takes the first complete line out of `buf`, without its newline; leaves
/// `buf` as it is where it holds no complete line.
pub fn next_line(buf: &mut BytesMut) -> (r: Option<BytesMut>)
    ensures
        has_line(buffered(*old(buf))) ==> {
            let s = buffered(*old(buf));
            &&& r matches Some(line)
            &&& buffered(line) == frames(s)[0]
            &&& buffered(line) == s.take(line_len(s) as int)
            &&& buffered(*final(buf)) == s.skip(line_len(s) + 1int)
            &&& frames(buffered(*final(buf))) == frames(s).drop_first()
            &&& pending(buffered(*final(buf))) == pending(s)
        },
        !has_line(buffered(*old(buf))) ==> r is None && buffered(*final(buf)) == buffered(
            *old(buf),
        ),
{
    let ghost s = buffered(*buf);
    let found = find_byte(0x0a, buffer_bytes(buf));
    match found {
        Some(p) => {
            proof {
                lemma_line_len_exact(s, p as int);
                assert(frames(s) =~= seq![s.take(p as int)] + frames(s.skip(p + 1)));
            }
            let line = buffer_split_to(buf, p);
            let _newline = buffer_split_to(buf, 1);
            assert(s.skip(p as int).skip(1) =~= s.skip(p + 1));
            Some(line)
        },
        None => {
            proof {
                lemma_line_len_exact(s, s.len() as int);
            }
            None
        },
    }
}

} // verus!
