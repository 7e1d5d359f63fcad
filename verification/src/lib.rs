//! An owned, immutable UTF-8 text value held in a fixed two-word footprint.
//!
//! Short texts (at most [`codec::MAX_EMBEDDED_LEN`] bytes) are stored inline
//! in the sixteen-byte buffer itself; longer texts live in a separately owned
//! heap buffer whose byte length is packed into the buffer's words. A single
//! stolen low bit of the designated discriminant byte tells the two forms
//! apart; no separate tag field exists.

pub mod codec;
mod text;

use vstd::prelude::*;

verus! {

use vstd::string::StringExecFns;
use vstd::utf8::{valid_utf8, decode_utf8, encode_utf8, encode_scalar};
use vstd::utf8::{encode_utf8_valid_utf8, encode_utf8_decode_utf8};
use crate::codec::{ByteOrder, MAX_EMBEDDED_LEN};
use crate::codec::{is_embedded_buf, embedded_len_of, embedded_bytes, spec_encode_embedded};
use crate::codec::{heap_len_of, spec_encode_heap};
use crate::codec::{encode_embedded, decode_embedded, encode_heap_words, read_disc};
use crate::codec::{lemma_embedded_round_trip, lemma_heap_round_trip};
use crate::text::{bytes_as_str, quote_debug, debug_quoted};

/// Whether a value stores its text inline or behind a heap allocation.
#[derive(PartialEq, Eq, Structural, Debug)]
pub enum EmbeddingStrMode {
    Boxed,
    Embedded,
}

/// Name of a mode, as the diagnostic rendering prints it.
pub open spec fn spec_mode_name(m: EmbeddingStrMode) -> Seq<char> {
    match m {
        EmbeddingStrMode::Boxed => "Boxed"@,
        EmbeddingStrMode::Embedded => "Embedded"@,
    }
}

/// An owned, immutable text value the size of two machine words.
///
/// `buf` models the two-word storage byte for byte, laid out for this
/// build's little-endian byte order. Safe verified code cannot take or reuse
/// a heap block's machine address, so a heap-backed value carries its
/// allocation in the owning `heap` handle — which is also what releases the
/// allocation, exactly once, whenever the value goes out of scope, on every
/// exit path — and the buffer's pointer word is recorded as zero. An inline
/// value owns nothing beyond its own sixteen bytes, so dropping it touches
/// no external state.
pub struct EmbeddingStr {
    buf: [u8; 16],
    heap: Option<String>,
}

impl View for EmbeddingStr {
    type V = Seq<char>;

    /// The text the value holds.
    closed spec fn view(&self) -> Seq<char> {
        match self.heap {
            None => decode_utf8(embedded_bytes(self.buf@, ByteOrder::Little)),
            Some(s) => s@,
        }
    }
}

impl EmbeddingStr {
    /// Exactly one representation is live at a time: the discriminant byte
    /// says which, the fields agree with it, and a heap-backed value's
    /// length word holds its text's byte length.
    #[verifier::type_invariant]
    spec fn wf(self) -> bool {
        match self.heap {
            None => {
                &&& is_embedded_buf(self.buf@, ByteOrder::Little)
                &&& embedded_len_of(self.buf@, ByteOrder::Little) <= MAX_EMBEDDED_LEN
                &&& valid_utf8(embedded_bytes(self.buf@, ByteOrder::Little))
            },
            Some(s) => {
                &&& !is_embedded_buf(self.buf@, ByteOrder::Little)
                &&& encode_utf8(s@).len() > MAX_EMBEDDED_LEN
                &&& heap_len_of(self.buf@, ByteOrder::Little) == encode_utf8(s@).len()
            },
        }
    }

    /// The two-word buffer's bytes: the value's in-memory encoding.
    pub closed spec fn spec_buf(&self) -> Seq<u8> {
        self.buf@
    }

    /// The representation the discriminant byte announces.
    pub closed spec fn spec_mode(&self) -> EmbeddingStrMode {
        if is_embedded_buf(self.buf@, ByteOrder::Little) {
            EmbeddingStrMode::Embedded
        } else {
            EmbeddingStrMode::Boxed
        }
    }

    /// Build an inline value: the text's bytes are copied into the buffer.
    fn new_embedded(s: &str) -> (r: Self)
        requires
            encode_utf8(s@).len() <= MAX_EMBEDDED_LEN,
        ensures
            r@ == s@,
            r.spec_mode() == EmbeddingStrMode::Embedded,
            r.spec_buf() == spec_encode_embedded(encode_utf8(s@), ByteOrder::Little),
    {
        let b = s.as_bytes();
        let buf = encode_embedded(b, ByteOrder::Little);
        proof {
            lemma_embedded_round_trip(b@, ByteOrder::Little);
            encode_utf8_valid_utf8(s@);
            encode_utf8_decode_utf8(s@);
        }
        EmbeddingStr { buf, heap: None }
    }

    /// Build a heap-backed value: the value takes sole ownership of the
    /// text's allocation, and packs its byte length, shifted, into the
    /// length word.
    fn new_heap(s: String) -> (r: Self)
        requires
            encode_utf8(s@).len() > MAX_EMBEDDED_LEN,
            encode_utf8(s@).len() <= u64::MAX / 2,
        ensures
            r@ == s@,
            r.spec_mode() == EmbeddingStrMode::Boxed,
            r.spec_buf() == spec_encode_heap(0, encode_utf8(s@).len() as u64, ByteOrder::Little),
    {
        let len = s.as_str().as_bytes().len();
        let buf = encode_heap_words(0, len as u64, ByteOrder::Little);
        proof {
            lemma_heap_round_trip(0, len as u64, ByteOrder::Little);
        }
        EmbeddingStr { buf, heap: Some(s) }
    }

    /// Build a value from borrowed text. This is the single decision point:
    /// text of at most [`MAX_EMBEDDED_LEN`] bytes is copied inline, anything
    /// longer is copied to an owned heap buffer of exactly its length. The
    /// length bound is the machine limit: a longer text could not leave the
    /// length word's low bit free.
    pub fn from(s: &str) -> (r: Self)
        requires
            encode_utf8(s@).len() <= u64::MAX / 2,
        ensures
            r@ == s@,
            r.spec_mode() == (if encode_utf8(s@).len() <= MAX_EMBEDDED_LEN {
                EmbeddingStrMode::Embedded
            } else {
                EmbeddingStrMode::Boxed
            }),
            encode_utf8(s@).len() <= MAX_EMBEDDED_LEN ==> r.spec_buf() == spec_encode_embedded(
                encode_utf8(s@),
                ByteOrder::Little,
            ),
            encode_utf8(s@).len() > MAX_EMBEDDED_LEN ==> r.spec_buf() == spec_encode_heap(
                0,
                encode_utf8(s@).len() as u64,
                ByteOrder::Little,
            ),
    {
        if s.as_bytes().len() <= MAX_EMBEDDED_LEN {
            Self::new_embedded(s)
        } else {
            Self::new_heap(s.to_owned())
        }
    }

    /// Build a value from owned text, with the same decision point as
    /// [`EmbeddingStr::from`]: short text is copied inline and the source
    /// released; longer text keeps the source allocation as the owned heap
    /// buffer, with no copy.
    pub fn from_string(s: String) -> (r: Self)
        requires
            encode_utf8(s@).len() <= u64::MAX / 2,
        ensures
            r@ == s@,
            r.spec_mode() == (if encode_utf8(s@).len() <= MAX_EMBEDDED_LEN {
                EmbeddingStrMode::Embedded
            } else {
                EmbeddingStrMode::Boxed
            }),
            encode_utf8(s@).len() <= MAX_EMBEDDED_LEN ==> r.spec_buf() == spec_encode_embedded(
                encode_utf8(s@),
                ByteOrder::Little,
            ),
            encode_utf8(s@).len() > MAX_EMBEDDED_LEN ==> r.spec_buf() == spec_encode_heap(
                0,
                encode_utf8(s@).len() as u64,
                ByteOrder::Little,
            ),
    {
        if s.as_str().as_bytes().len() <= MAX_EMBEDDED_LEN {
            Self::new_embedded(s.as_str())
        } else {
            Self::new_heap(s)
        }
    }

    /// Inline byte length when the value is inline, `None` when heap-backed,
    /// derived from the discriminant byte alone.
    fn embedded_len(&self) -> (r: Option<usize>)
        ensures
            r is Some <==> self.spec_mode() == EmbeddingStrMode::Embedded,
            r matches Some(l) ==> l == embedded_len_of(self.spec_buf(), ByteOrder::Little),
    {
        let d = read_disc(&self.buf, ByteOrder::Little);
        proof {
            assert(d & 1 == 0 || d & 1 == 1) by (bit_vector);
        }
        if d & 1 == 0 {
            None
        } else {
            Some((d >> 1) as usize)
        }
    }

    /// Which representation the value uses. Total, reads one byte.
    pub fn mode(&self) -> (m: EmbeddingStrMode)
        ensures
            m == self.spec_mode(),
    {
        match self.embedded_len() {
            Some(_) => EmbeddingStrMode::Embedded,
            None => EmbeddingStrMode::Boxed,
        }
    }

    /// Borrow the text for the value's lifetime: no allocation, constant
    /// time, dispatched on the discriminant byte.
    pub fn as_str<'a>(&'a self) -> (r: &'a str)
        ensures
            r@ == self@,
    {
        proof {
            use_type_invariant(self);
        }
        match &self.heap {
            Some(s) => s.as_str(),
            None => {
                let bytes = decode_embedded(&self.buf, ByteOrder::Little);
                let r = bytes_as_str(bytes);
                proof {
                    encode_utf8_decode_utf8(r@);
                }
                r
            },
        }
    }

    /// The text itself: what showing the value to a user prints.
    pub fn display_string(&self) -> (r: String)
        ensures
            r@ == self@,
    {
        String::from_str(self.as_str())
    }

    /// The diagnostic rendering: the mode's name, then the text in its
    /// debug-quoted form, in parentheses — `Embedded("a")`, `Boxed("abc")`.
    pub fn debug_string(&self) -> (r: String)
        ensures
            r@ == spec_mode_name(self.spec_mode()) + "("@ + debug_quoted(self@) + ")"@,
    {
        let mut out = match self.mode() {
            EmbeddingStrMode::Boxed => String::from_str("Boxed"),
            EmbeddingStrMode::Embedded => String::from_str("Embedded"),
        };
        out.append("(");
        let q = quote_debug(self.as_str());
        out.append(q.as_str());
        out.append(")");
        out
    }
}

/// Law: a text short enough for the inline form survives the full cycle.
/// Packing its UTF-8 bytes with the inline codec and decoding the resulting
/// buffer's inline bytes gives back the original text, in either byte order.
pub proof fn lemma_text_round_trip_embedded(text: Seq<char>, order: ByteOrder)
    requires
        encode_utf8(text).len() <= MAX_EMBEDDED_LEN,
    ensures
        decode_utf8(embedded_bytes(spec_encode_embedded(encode_utf8(text), order), order)) == text,
{
    lemma_embedded_round_trip(encode_utf8(text), order);
    encode_utf8_decode_utf8(text);
}

/// A UTF-8 encoding takes between one and four bytes per character. Callers
/// of [`EmbeddingStr::from`] can discharge its length bound with this, and
/// settle which mode a text of known character count gets, knowing only that
/// count.
pub proof fn lemma_utf8_len_bound(text: Seq<char>)
    ensures
        text.len() <= encode_utf8(text).len() <= 4 * text.len(),
    decreases text.len(),
{
    if text.len() > 0 {
        lemma_utf8_len_bound(text.drop_first());
        assert(1 <= encode_scalar(text[0] as u32).len() <= 4);
    }
}

} // verus!
