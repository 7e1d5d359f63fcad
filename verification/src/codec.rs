//! Byte-level codec for the two-word buffer.
//!
//! The buffer is [`STR_INNER_SIZE`] bytes, the size of two 64-bit machine
//! words. One designated byte — offset 0 in the little-endian layout, offset
//! `STR_INNER_SIZE - 1` in the big-endian layout — carries the discriminant:
//! its least significant bit is 1 exactly when the text is stored inline, in
//! which case the remaining seven bits hold the byte length. A heap-backed
//! value instead packs a length word (the length shifted left by one, so its
//! low bit stays 0) and a pointer word into the same sixteen bytes, ordered
//! so that the length word's least significant byte lands at the
//! discriminant position.

use vstd::prelude::*;

verus! {

/// Number of bytes in the fixed buffer: the size of two 64-bit words.
pub const STR_INNER_SIZE: usize = 16;

/// Largest byte length the inline form can hold: one byte of the buffer is
/// taken by the discriminant.
pub const MAX_EMBEDDED_LEN: usize = 15;

/// The byte order a buffer is laid out for. The layout is fixed once, when a
/// value is first encoded; the two orders are separate code paths, never
/// mixed on one buffer.
#[derive(Clone, Copy, PartialEq, Eq, Structural, Debug)]
pub enum ByteOrder {
    Little,
    Big,
}

/// Position of the discriminant byte in a buffer of the given order.
pub open spec fn disc_pos(order: ByteOrder) -> int {
    match order {
        ByteOrder::Little => 0,
        ByteOrder::Big => 15,
    }
}

/// The discriminant rule: a buffer holds inline text exactly when the low
/// bit of its discriminant byte is set.
pub open spec fn is_embedded_buf(buf: Seq<u8>, order: ByteOrder) -> bool
    recommends
        buf.len() == STR_INNER_SIZE,
{
    buf[disc_pos(order)] & 1 == 1
}

/// Byte length of the inline text, read from the seven high bits of the
/// discriminant byte.
pub open spec fn embedded_len_of(buf: Seq<u8>, order: ByteOrder) -> nat
    recommends
        buf.len() == STR_INNER_SIZE,
        is_embedded_buf(buf, order),
{
    (buf[disc_pos(order)] >> 1) as nat
}

/// The inline text bytes: right after the discriminant byte in the
/// little-endian layout, at the start of the buffer in the big-endian one.
pub open spec fn embedded_bytes(buf: Seq<u8>, order: ByteOrder) -> Seq<u8>
    recommends
        buf.len() == STR_INNER_SIZE,
        is_embedded_buf(buf, order),
        embedded_len_of(buf, order) <= MAX_EMBEDDED_LEN,
{
    let len = embedded_len_of(buf, order) as int;
    match order {
        ByteOrder::Little => buf.subrange(1, 1 + len),
        ByteOrder::Big => buf.subrange(0, len),
    }
}

/// Discriminant byte of an inline text of the given byte length.
pub open spec fn embedded_disc(len: nat) -> u8
    recommends
        len <= MAX_EMBEDDED_LEN,
{
    ((len as u8) << 1) | 1
}

/// A run of zeroed padding bytes.
pub open spec fn zero_bytes(n: int) -> Seq<u8> {
    Seq::new(n as nat, |i: int| 0u8)
}

/// The buffer produced by the inline codec: discriminant byte at its
/// designated position, the text verbatim beside it, zeroes as padding.
pub open spec fn spec_encode_embedded(text: Seq<u8>, order: ByteOrder) -> Seq<u8>
    recommends
        text.len() <= MAX_EMBEDDED_LEN,
{
    match order {
        ByteOrder::Little => seq![embedded_disc(text.len())] + text + zero_bytes(
            15 - text.len() as int,
        ),
        ByteOrder::Big => text + zero_bytes(15 - text.len() as int) + seq![
            embedded_disc(text.len()),
        ],
    }
}

/// Pack a short text into a fresh buffer using the inline layout.
pub fn encode_embedded(text: &[u8], order: ByteOrder) -> (buf: [u8; 16])
    requires
        text@.len() <= MAX_EMBEDDED_LEN,
    ensures
        buf@ == spec_encode_embedded(text@, order),
{
    let len = text.len();
    let disc: u8 = ((len as u8) << 1) | 1;
    let mut buf: [u8; 16] = [0; 16];
    let start: usize = match order {
        ByteOrder::Little => 1,
        ByteOrder::Big => 0,
    };
    let mut i: usize = 0;
    while i < len
        invariant
            i <= len,
            len == text@.len() <= MAX_EMBEDDED_LEN,
            start == 1 || start == 0,
            forall|j: int| start <= j < start + i ==> buf@[j] == text@[j - start],
            forall|j: int| 0 <= j < 16 && !(start <= j < start + i) ==> buf@[j] == 0,
        decreases len - i,
    {
        buf[start + i] = text[i];
        i += 1;
    }
    match order {
        ByteOrder::Little => {
            buf[0] = disc;
            proof {
                assert(buf@ =~= spec_encode_embedded(text@, order));
            }
        },
        ByteOrder::Big => {
            buf[15] = disc;
            proof {
                assert(buf@ =~= spec_encode_embedded(text@, order));
            }
        },
    }
    buf
}

/// Read the discriminant byte of a buffer.
pub fn read_disc(buf: &[u8; 16], order: ByteOrder) -> (d: u8)
    ensures
        d == buf@[disc_pos(order)],
{
    match order {
        ByteOrder::Little => buf[0],
        ByteOrder::Big => buf[15],
    }
}

/// Unpack the inline text of a buffer as a borrowed slice.
pub fn decode_embedded<'a>(buf: &'a [u8; 16], order: ByteOrder) -> (text: &'a [u8])
    requires
        is_embedded_buf(buf@, order),
        embedded_len_of(buf@, order) <= MAX_EMBEDDED_LEN,
    ensures
        text@ == embedded_bytes(buf@, order),
{
    let d = read_disc(buf, order);
    let len: usize = (d >> 1) as usize;
    match order {
        ByteOrder::Little => vstd::slice::slice_subrange(buf.as_slice(), 1, 1 + len),
        ByteOrder::Big => vstd::slice::slice_subrange(buf.as_slice(), 0, len),
    }
}

/// The eight bytes of a 64-bit word, least significant first.
pub open spec fn word_bytes_le(w: u64) -> Seq<u8> {
    seq![
        w as u8,
        (w >> 8) as u8,
        (w >> 16) as u8,
        (w >> 24) as u8,
        (w >> 32) as u8,
        (w >> 40) as u8,
        (w >> 48) as u8,
        (w >> 56) as u8,
    ]
}

/// The eight bytes of a 64-bit word, most significant first.
pub open spec fn word_bytes_be(w: u64) -> Seq<u8> {
    word_bytes_le(w).reverse()
}

/// The 64-bit word read from eight bytes, least significant first.
pub open spec fn word_of_bytes_le(b: Seq<u8>) -> u64
    recommends
        b.len() == 8,
{
    (b[0] as u64) | ((b[1] as u64) << 8) | ((b[2] as u64) << 16) | ((b[3] as u64) << 24) | ((
    b[4] as u64) << 32) | ((b[5] as u64) << 40) | ((b[6] as u64) << 48) | ((b[7] as u64) << 56)
}

/// The 64-bit word read from eight bytes, most significant first.
pub open spec fn word_of_bytes_be(b: Seq<u8>) -> u64
    recommends
        b.len() == 8,
{
    word_of_bytes_le(b.reverse())
}

/// Put the two words of a heap-backed value in buffer order: the length word
/// goes to the end whose first-read byte is least significant, so that its
/// stolen low bit lands at the discriminant position.
pub fn len_least_significant(words: [u64; 2], order: ByteOrder) -> (r: [u64; 2])
    ensures
        order == ByteOrder::Little ==> r@ == seq![words@[0], words@[1]],
        order == ByteOrder::Big ==> r@ == seq![words@[1], words@[0]],
{
    match order {
        ByteOrder::Little => words,
        ByteOrder::Big => {
            let r: [u64; 2] = [words[1], words[0]];
            proof {
                assert(r@ =~= seq![words@[1], words@[0]]);
            }
            r
        },
    }
}

/// The buffer produced by the heap codec: the length, shifted left by one so
/// the discriminant bit reads 0, and the pointer, as two whole words in the
/// buffer's byte order.
pub open spec fn spec_encode_heap(ptr: u64, len: u64, order: ByteOrder) -> Seq<u8>
    recommends
        len <= u64::MAX / 2,
        ptr % 2 == 0,
{
    match order {
        ByteOrder::Little => word_bytes_le(len << 1) + word_bytes_le(ptr),
        ByteOrder::Big => word_bytes_be(ptr) + word_bytes_be(len << 1),
    }
}

/// The length word of a heap-backed buffer: the word whose least significant
/// byte sits at the discriminant position.
pub open spec fn heap_len_word(buf: Seq<u8>, order: ByteOrder) -> u64
    recommends
        buf.len() == STR_INNER_SIZE,
{
    match order {
        ByteOrder::Little => word_of_bytes_le(buf.subrange(0, 8)),
        ByteOrder::Big => word_of_bytes_be(buf.subrange(8, 16)),
    }
}

/// The pointer word of a heap-backed buffer.
pub open spec fn heap_ptr_of(buf: Seq<u8>, order: ByteOrder) -> u64
    recommends
        buf.len() == STR_INNER_SIZE,
{
    match order {
        ByteOrder::Little => word_of_bytes_le(buf.subrange(8, 16)),
        ByteOrder::Big => word_of_bytes_be(buf.subrange(0, 8)),
    }
}

/// Byte length of a heap-backed value: the length word shifted back.
pub open spec fn heap_len_of(buf: Seq<u8>, order: ByteOrder) -> u64
    recommends
        buf.len() == STR_INNER_SIZE,
{
    heap_len_word(buf, order) >> 1
}

/// Write one word into the buffer at the given offset, least significant
/// byte first.
fn store_word_le(buf: &mut [u8; 16], off: usize, w: u64)
    requires
        off == 0 || off == 8,
    ensures
        final(buf)@.subrange(off as int, off + 8) == word_bytes_le(w),
        forall|j: int| 0 <= j < 16 && !(off <= j < off + 8) ==> final(buf)@[j] == old(buf)@[j],
{
    buf[off] = w as u8;
    buf[off + 1] = (w >> 8) as u8;
    buf[off + 2] = (w >> 16) as u8;
    buf[off + 3] = (w >> 24) as u8;
    buf[off + 4] = (w >> 32) as u8;
    buf[off + 5] = (w >> 40) as u8;
    buf[off + 6] = (w >> 48) as u8;
    buf[off + 7] = (w >> 56) as u8;
    proof {
        assert(buf@.subrange(off as int, off + 8) =~= word_bytes_le(w));
    }
}

/// Write one word into the buffer at the given offset, most significant
/// byte first.
fn store_word_be(buf: &mut [u8; 16], off: usize, w: u64)
    requires
        off == 0 || off == 8,
    ensures
        final(buf)@.subrange(off as int, off + 8) == word_bytes_be(w),
        forall|j: int| 0 <= j < 16 && !(off <= j < off + 8) ==> final(buf)@[j] == old(buf)@[j],
{
    buf[off] = (w >> 56) as u8;
    buf[off + 1] = (w >> 48) as u8;
    buf[off + 2] = (w >> 40) as u8;
    buf[off + 3] = (w >> 32) as u8;
    buf[off + 4] = (w >> 24) as u8;
    buf[off + 5] = (w >> 16) as u8;
    buf[off + 6] = (w >> 8) as u8;
    buf[off + 7] = w as u8;
    proof {
        assert(buf@.subrange(off as int, off + 8) =~= word_bytes_be(w));
    }
}

/// Read the word stored at the given offset, least significant byte first.
fn load_word_le(buf: &[u8; 16], off: usize) -> (w: u64)
    requires
        off == 0 || off == 8,
    ensures
        w == word_of_bytes_le(buf@.subrange(off as int, off + 8)),
{
    let w = (buf[off] as u64) | ((buf[off + 1] as u64) << 8) | ((buf[off + 2] as u64) << 16) | ((
    buf[off + 3] as u64) << 24) | ((buf[off + 4] as u64) << 32) | ((buf[off + 5] as u64) << 40) | ((
    buf[off + 6] as u64) << 48) | ((buf[off + 7] as u64) << 56);
    proof {
        let b = buf@.subrange(off as int, off + 8);
        assert(b[0] == buf@[off as int] && b[1] == buf@[off + 1] && b[2] == buf@[off + 2] && b[3]
            == buf@[off + 3] && b[4] == buf@[off + 4] && b[5] == buf@[off + 5] && b[6] == buf@[off
            + 6] && b[7] == buf@[off + 7]);
    }
    w
}

/// Read the word stored at the given offset, most significant byte first.
fn load_word_be(buf: &[u8; 16], off: usize) -> (w: u64)
    requires
        off == 0 || off == 8,
    ensures
        w == word_of_bytes_be(buf@.subrange(off as int, off + 8)),
{
    let w = (buf[off + 7] as u64) | ((buf[off + 6] as u64) << 8) | ((buf[off + 5] as u64) << 16)
        | ((buf[off + 4] as u64) << 24) | ((buf[off + 3] as u64) << 32) | ((buf[off + 2] as u64)
        << 40) | ((buf[off + 1] as u64) << 48) | ((buf[off] as u64) << 56);
    proof {
        let b = buf@.subrange(off as int, off + 8);
        let r = b.reverse();
        assert(r[0] == buf@[off + 7] && r[1] == buf@[off + 6] && r[2] == buf@[off + 5] && r[3]
            == buf@[off + 4] && r[4] == buf@[off + 3] && r[5] == buf@[off + 2] && r[6] == buf@[off
            + 1] && r[7] == buf@[off as int]);
    }
    w
}

/// A word is recovered intact from its eight bytes, in either byte order.
pub proof fn lemma_word_round_trip(w: u64)
    ensures
        word_of_bytes_le(word_bytes_le(w)) == w,
        word_of_bytes_be(word_bytes_be(w)) == w,
{
    let b0 = w as u8;
    let b1 = (w >> 8) as u8;
    let b2 = (w >> 16) as u8;
    let b3 = (w >> 24) as u8;
    let b4 = (w >> 32) as u8;
    let b5 = (w >> 40) as u8;
    let b6 = (w >> 48) as u8;
    let b7 = (w >> 56) as u8;
    assert((b0 as u64) | ((b1 as u64) << 8) | ((b2 as u64) << 16) | ((b3 as u64) << 24) | ((
    b4 as u64) << 32) | ((b5 as u64) << 40) | ((b6 as u64) << 48) | ((b7 as u64) << 56) == w)
        by (bit_vector)
        requires
            b0 == w as u8,
            b1 == (w >> 8) as u8,
            b2 == (w >> 16) as u8,
            b3 == (w >> 24) as u8,
            b4 == (w >> 32) as u8,
            b5 == (w >> 40) as u8,
            b6 == (w >> 48) as u8,
            b7 == (w >> 56) as u8,
    ;
    assert(word_bytes_be(w).reverse() =~= word_bytes_le(w));
}

/// Pack a pointer and a byte length into a fresh buffer using the heap
/// layout. The pointer's low bit must be clear — the platform's allocator
/// aligns every heap block to more than one byte — and the length must leave
/// the top bit free for the shift; every real allocation satisfies both.
pub fn encode_heap_words(ptr: u64, len: u64, order: ByteOrder) -> (buf: [u8; 16])
    requires
        len <= u64::MAX / 2,
        ptr % 2 == 0,
    ensures
        buf@ == spec_encode_heap(ptr, len, order),
{
    let len_word = len << 1;
    let words = len_least_significant([len_word, ptr], order);
    let mut buf: [u8; 16] = [0; 16];
    match order {
        ByteOrder::Little => {
            store_word_le(&mut buf, 0, words[0]);
            store_word_le(&mut buf, 8, words[1]);
            proof {
                assert(buf@ =~= spec_encode_heap(ptr, len, order));
            }
        },
        ByteOrder::Big => {
            store_word_be(&mut buf, 0, words[0]);
            store_word_be(&mut buf, 8, words[1]);
            proof {
                assert(buf@ =~= spec_encode_heap(ptr, len, order));
            }
        },
    }
    buf
}

/// Unpack the pointer and the byte length of a heap-backed buffer.
pub fn decode_heap_words(buf: &[u8; 16], order: ByteOrder) -> (r: (u64, u64))
    requires
        !is_embedded_buf(buf@, order),
    ensures
        r.0 == heap_ptr_of(buf@, order),
        r.1 == heap_len_of(buf@, order),
{
    match order {
        ByteOrder::Little => {
            let len_word = load_word_le(buf, 0);
            let ptr = load_word_le(buf, 8);
            (ptr, len_word >> 1)
        },
        ByteOrder::Big => {
            let ptr = load_word_be(buf, 0);
            let len_word = load_word_be(buf, 8);
            (ptr, len_word >> 1)
        },
    }
}

/// Law: the heap codec round-trips. Encoding a pointer and a length yields a
/// buffer that the discriminant rule classifies as heap-backed and from
/// which both words come back unchanged, in either byte order.
pub proof fn lemma_heap_round_trip(ptr: u64, len: u64, order: ByteOrder)
    requires
        len <= u64::MAX / 2,
        ptr % 2 == 0,
    ensures
        spec_encode_heap(ptr, len, order).len() == STR_INNER_SIZE,
        !is_embedded_buf(spec_encode_heap(ptr, len, order), order),
        heap_ptr_of(spec_encode_heap(ptr, len, order), order) == ptr,
        heap_len_of(spec_encode_heap(ptr, len, order), order) == len,
{
    let lw = len << 1;
    lemma_word_round_trip(lw);
    lemma_word_round_trip(ptr);
    let enc = spec_encode_heap(ptr, len, order);
    assert((lw as u8) & 1 == 0 && lw >> 1 == len) by (bit_vector)
        requires
            lw == len << 1,
            len <= u64::MAX / 2,
    ;
    match order {
        ByteOrder::Little => {
            assert(enc.subrange(0, 8) =~= word_bytes_le(lw));
            assert(enc.subrange(8, 16) =~= word_bytes_le(ptr));
            assert(enc[disc_pos(order)] == lw as u8);
        },
        ByteOrder::Big => {
            assert(enc.subrange(0, 8) =~= word_bytes_be(ptr));
            assert(enc.subrange(8, 16) =~= word_bytes_be(lw));
            assert(enc[disc_pos(order)] == word_bytes_be(lw)[7]);
            assert(word_bytes_be(lw)[7] == lw as u8);
        },
    }
}

/// Law: the inline codec round-trips. Encoding a text of at most
/// [`MAX_EMBEDDED_LEN`] bytes yields a buffer that the discriminant rule
/// classifies as inline, whose derived length is the text's length, and
/// whose decoded bytes are the text itself, in either byte order.
pub proof fn lemma_embedded_round_trip(text: Seq<u8>, order: ByteOrder)
    requires
        text.len() <= MAX_EMBEDDED_LEN,
    ensures
        spec_encode_embedded(text, order).len() == STR_INNER_SIZE,
        is_embedded_buf(spec_encode_embedded(text, order), order),
        embedded_len_of(spec_encode_embedded(text, order), order) == text.len(),
        embedded_bytes(spec_encode_embedded(text, order), order) == text,
{
    let l = text.len() as u8;
    let d = embedded_disc(text.len());
    assert(((l << 1) | 1) & 1 == 1 && ((l << 1) | 1) >> 1 == l) by (bit_vector)
        requires
            l <= 15,
    ;
    let enc = spec_encode_embedded(text, order);
    assert(enc[disc_pos(order)] == d);
    assert(embedded_bytes(enc, order) =~= text);
}

} // verus!
