//! Text from bytes that come in pieces.

use crate::text;
use vstd::prelude::*;
use vstd::utf8::*;

verus! {

/// `String::from_utf8_lossy` of `bytes`.
pub uninterp spec fn utf8_lossy(bytes: Seq<u8>) -> Seq<char>;

/// `String::from_utf8_lossy`. Bytes that are valid UTF-8 are decoded; in other
/// bytes each malformed part is replaced, in a way that is not told here. The
/// result depends on the bytes alone.
#[verifier::external_body]
pub(crate) fn lossy_text(bytes: &[u8]) -> (r: String)
    ensures
        r@ == utf8_lossy(bytes@),
        valid_utf8(bytes@) ==> r@ == decode_utf8(bytes@),
{
    String::from_utf8_lossy(bytes).into_owned()
}

/// How many bytes `std::str::from_utf8` finds valid: all of them, or else those
/// up to `Utf8Error::valid_up_to`, the largest index up to which it would
/// succeed.
#[verifier::external_body]
pub(crate) fn valid_up_to(bytes: &[u8]) -> (r: usize)
    ensures
        r <= bytes@.len(),
        valid_utf8(bytes@.take(r as int)),
        forall|k: int| r < k <= bytes@.len() ==> !valid_utf8(#[trigger] bytes@.take(k)),
{
    std::str::from_utf8(bytes).map_or_else(|e| e.valid_up_to(), |s| s.len())
}

/// The length of the longest beginning of `bytes`, of at most `k` bytes, that
/// is valid UTF-8.
pub open spec fn valid_within(bytes: Seq<u8>, k: int) -> int
    decreases k,
{
    if k <= 0 {
        0
    } else if valid_utf8(bytes.take(k)) {
        k
    } else {
        valid_within(bytes, k - 1)
    }
}

/// The length of the longest beginning of `bytes` that is valid UTF-8.
pub open spec fn valid_len(bytes: Seq<u8>) -> int {
    valid_within(bytes, bytes.len() as int)
}

/// `valid_len` is the largest length of a valid beginning.
pub proof fn valid_len_is_largest(bytes: Seq<u8>)
    ensures
        0 <= valid_len(bytes) <= bytes.len(),
        valid_utf8(bytes.take(valid_len(bytes))),
        forall|k: int| valid_len(bytes) < k <= bytes.len() ==> !valid_utf8(#[trigger] bytes.take(k)),
{
    lemma_valid_within(bytes, bytes.len() as int);
}

proof fn lemma_valid_within(bytes: Seq<u8>, k: int)
    requires
        0 <= k <= bytes.len(),
    ensures
        0 <= valid_within(bytes, k) <= k,
        valid_utf8(bytes.take(valid_within(bytes, k))),
        forall|j: int| valid_within(bytes, k) < j <= k ==> !valid_utf8(#[trigger] bytes.take(j)),
    decreases k,
{
    if k > 0 && !valid_utf8(bytes.take(k)) {
        lemma_valid_within(bytes, k - 1);
    }
}

/// Takes from `buffer` as much as can be decoded and leaves what may be the
/// beginning of a character. There is nothing to take where no character is
/// complete.
pub fn drain_valid_utf8(buffer: &mut Vec<u8>) -> (r: Option<String>)
    ensures
        match r {
            Some(s) => valid_len(old(buffer)@) > 0 && s@ == decode_utf8(
                old(buffer)@.take(valid_len(old(buffer)@)),
            ) && final(buffer)@ == old(buffer)@.skip(valid_len(old(buffer)@)) && encode_utf8(s@)
                + final(buffer)@ == old(buffer)@,
            None => valid_len(old(buffer)@) == 0 && final(buffer)@ == old(buffer)@,
        },
{
    let n = valid_up_to(buffer);
    proof {
        valid_len_is_largest(buffer@);
        let m = valid_len(buffer@);
        if m < n {
            assert(!valid_utf8(buffer@.take(n as int)));
        }
        if n < m {
            assert(!valid_utf8(buffer@.take(m)));
        }
    }
    if n == 0 {
        return None;
    }
    let mut head: Vec<u8> = Vec::new();
    let mut tail: Vec<u8> = Vec::new();
    let mut i: usize = 0;
    while i < buffer.len()
        invariant
            i <= buffer@.len(),
            n <= buffer@.len(),
            buffer@ == old(buffer)@,
            i <= n ==> head@ == buffer@.take(i as int) && tail@ == Seq::<u8>::empty(),
            i > n ==> head@ == buffer@.take(n as int) && tail@ == buffer@.subrange(
                n as int,
                i as int,
            ),
        decreases buffer@.len() - i,
    {
        let b = buffer[i];
        if i < n {
            head.push(b);
            assert(buffer@.take(i as int + 1) =~= buffer@.take(i as int).push(b));
        } else {
            tail.push(b);
            assert(buffer@.subrange(n as int, i as int + 1) =~= buffer@.subrange(
                n as int,
                i as int,
            ).push(b));
        }
        i = i + 1;
    }
    proof {
        assert(head@ =~= buffer@.take(n as int));
        assert(tail@ =~= buffer@.skip(n as int));
        decode_utf8_encode_utf8(head@);
        assert(head@ + tail@ =~= buffer@);
    }
    let decoded = lossy_text(&head);
    *buffer = tail;
    Some(decoded)
}

/// What has been decoded so far, and the bytes that wait for more.
pub struct Decoding {
    pub text: Seq<char>,
    pub waiting: Seq<u8>,
}

/// The decoding when the piece `piece` has come in.
pub open spec fn with_piece(d: Decoding, piece: Seq<u8>) -> Decoding {
    let bytes = d.waiting + piece;
    let n = valid_len(bytes);
    Decoding { text: d.text + decode_utf8(bytes.take(n)), waiting: bytes.skip(n) }
}

/// The decoding when all the pieces have come in, one after the other.
pub open spec fn with_pieces(pieces: Seq<Seq<u8>>) -> Decoding
    decreases pieces.len(),
{
    if pieces.len() == 0 {
        Decoding { text: Seq::empty(), waiting: Seq::empty() }
    } else {
        with_piece(with_pieces(pieces.drop_last()), pieces.last())
    }
}

/// The pieces put together.
pub open spec fn all_bytes(pieces: Seq<Seq<u8>>) -> Seq<u8>
    decreases pieces.len(),
{
    if pieces.len() == 0 {
        Seq::empty()
    } else {
        all_bytes(pieces.drop_last()) + pieces.last()
    }
}

/// No byte is lost or changed on the way: what was decoded and what waits are
/// together the bytes that came in.
pub proof fn pieces_keep_every_byte(pieces: Seq<Seq<u8>>)
    ensures
        encode_utf8(with_pieces(pieces).text) + with_pieces(pieces).waiting == all_bytes(pieces),
    decreases pieces.len(),
{
    if pieces.len() == 0 {
        assert(encode_utf8(Seq::<char>::empty()) =~= Seq::empty());
    } else {
        pieces_keep_every_byte(pieces.drop_last());
        let d = with_pieces(pieces.drop_last());
        let bytes = d.waiting + pieces.last();
        let n = valid_len(bytes);
        valid_len_is_largest(bytes);
        let more = decode_utf8(bytes.take(n));
        decode_utf8_encode_utf8(bytes.take(n));
        text::lemma_encode_concat(d.text, more);
        assert(bytes.take(n) + bytes.skip(n) =~= bytes);
        assert(encode_utf8(d.text) + bytes.take(n) + bytes.skip(n) =~= encode_utf8(d.text)
            + d.waiting + pieces.last());
    }
}

/// What waits never begins with a complete character.
proof fn lemma_waiting_is_partial(pieces: Seq<Seq<u8>>)
    ensures
        valid_len(with_pieces(pieces).waiting) == 0,
{
    let w = with_pieces(pieces).waiting;
    valid_len_is_largest(w);
    if pieces.len() > 0 {
        let d = with_pieces(pieces.drop_last());
        let bytes = d.waiting + pieces.last();
        let n = valid_len(bytes);
        valid_len_is_largest(bytes);
        let k = valid_len(w);
        if k > 0 {
            valid_utf8_concat(bytes.take(n), w.take(k));
            assert(bytes.take(n) + w.take(k) =~= bytes.take(n + k));
            assert(!valid_utf8(bytes.take(n + k)));
        }
    }
}

/// What follows valid bytes in valid bytes is valid.
proof fn lemma_rest_is_valid(a: Seq<u8>, b: Seq<u8>)
    requires
        valid_utf8(a),
        valid_utf8(a + b),
    ensures
        valid_utf8(b),
    decreases a.len(),
{
    if a.len() == 0 {
        assert(a + b =~= b);
    } else {
        let n = length_of_first_scalar(a);
        assert((a + b)[0] == a[0]);
        assert(n <= a.len());
        assert(length_of_first_scalar(a + b) == n);
        assert(pop_first_scalar(a + b) =~= pop_first_scalar(a) + b);
        lemma_rest_is_valid(pop_first_scalar(a), b);
    }
}

/// However text is cut into pieces, in the middle of a character or not, it
/// comes out whole: nothing waits at the end, and what was decoded is the text.
pub proof fn pieces_of_text_come_out_whole(pieces: Seq<Seq<u8>>)
    requires
        valid_utf8(all_bytes(pieces)),
    ensures
        with_pieces(pieces).waiting == Seq::<u8>::empty(),
        with_pieces(pieces).text == decode_utf8(all_bytes(pieces)),
{
    let d = with_pieces(pieces);
    pieces_keep_every_byte(pieces);
    lemma_waiting_is_partial(pieces);
    encode_utf8_valid_utf8(d.text);
    lemma_rest_is_valid(encode_utf8(d.text), d.waiting);
    valid_len_is_largest(d.waiting);
    if d.waiting.len() > 0 {
        assert(d.waiting.take(d.waiting.len() as int) =~= d.waiting);
    }
    assert(d.waiting =~= Seq::empty());
    assert(encode_utf8(d.text) =~= all_bytes(pieces));
    encode_utf8_decode_utf8(d.text);
}

} // verus!
