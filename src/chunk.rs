//! The validated text chunk, and its extraction from a growable byte buffer.

use bytes::{Bytes, BytesMut};
use vstd::prelude::*;
use vstd::utf8::*;

use crate::buffers::{
    buffer_as_slice, buffer_contents, buffer_freeze, buffer_split_to, buffer_take,
    bytes_as_slice, bytes_contents, bytes_empty, bytes_from_static, bytes_from_str, bytes_from_string,
};
use crate::utf8::{
    check_utf8, is_incomplete, is_valid_up_to, lemma_valid_up_to_of_valid, maximal_subpart_len,
};

verus! {

/// An immutable, cheaply cloned view over bytes that are well-formed UTF-8.
#[derive(Debug, PartialEq, Eq, PartialOrd, Ord, Hash)]
pub struct StrChunk {
    bytes: Bytes,
}

impl Clone for StrChunk {
    /// Another chunk over the same bytes.
    fn clone(&self) -> (r: StrChunk)
        ensures
            r@ == self@,
    {
        proof {
            use_type_invariant(self);
        }
        StrChunk { bytes: self.bytes.clone() }
    }
}

impl Default for StrChunk {
    /// The empty chunk.
    fn default() -> (r: StrChunk)
        ensures
            r@ == Seq::<u8>::empty(),
    {
        StrChunk { bytes: bytes_empty() }
    }
}

impl View for StrChunk {
    type V = Seq<u8>;

    closed spec fn view(&self) -> Seq<u8> {
        bytes_contents(self.bytes)
    }
}

impl StrChunk {
    #[verifier::type_invariant]
    spec fn inv(self) -> bool {
        valid_utf8(bytes_contents(self.bytes))
    }

    /// A chunk over the bytes of a string constant, without copying them.
    pub fn from_static(s: &'static str) -> (r: StrChunk)
        ensures
            r@ == encode_utf8(s@),
    {
        proof {
            encode_utf8_valid_utf8(s@);
        }
        StrChunk { bytes: bytes_from_static(s) }
    }

    /// A chunk that takes over the bytes of an owned string.
    pub fn from_string(s: String) -> (r: StrChunk)
        ensures
            r@ == encode_utf8(s@),
    {
        proof {
            encode_utf8_valid_utf8(s@);
        }
        StrChunk { bytes: bytes_from_string(s) }
    }

    /// A chunk holding a copy of the bytes of a string slice.
    pub fn from_text(s: &str) -> (r: StrChunk)
        ensures
            r@ == encode_utf8(s@),
    {
        proof {
            encode_utf8_valid_utf8(s@);
        }
        StrChunk { bytes: bytes_from_str(s) }
    }

    /// A chunk holding the UTF-8 encoding of a sequence of characters.
    pub fn from_chars(chars: &[char]) -> (r: StrChunk)
        ensures
            r@ == encode_utf8(chars@),
    {
        StrChunk::from_string(string_from_chars(chars))
    }

    /// The chunk's bytes, which are well-formed UTF-8.
    pub fn as_bytes(&self) -> (r: &[u8])
        ensures
            r@ == self@,
            valid_utf8(r@),
    {
        proof {
            use_type_invariant(self);
        }
        bytes_as_slice(&self.bytes)
    }

    /// The chunk's text.
    pub fn as_str(&self) -> (r: &str)
        ensures
            r@ == decode_utf8(self@),
            encode_utf8(r@) == self@,
    {
        proof {
            use_type_invariant(self);
            decode_utf8_encode_utf8(self@);
        }
        match check_utf8(bytes_as_slice(&self.bytes)) {
            Ok(s) => s,
            Err(_) => {
                proof {
                    assert(false);
                }
                ""
            },
        }
    }

    /// The chunk's text, copied into an owned string.
    pub fn into_string(self) -> (r: String)
        ensures
            r@ == decode_utf8(self@),
            encode_utf8(r@) == self@,
    {
        self.as_str().to_owned()
    }

    /// Carves the longest well-formed UTF-8 prefix off the front of `src`.
    ///
    /// A buffer that is well-formed end to end is drained whole into one
    /// chunk; an empty buffer gives `Ok(None)`. Otherwise the valid-up-to
    /// prefix, when it is not empty, leaves the buffer as a chunk. If the bytes
    /// behind it could still be completed by more input, the call succeeds and
    /// they wait in the buffer; if they are corrupt, the call fails with the
    /// extracted prefix and the length of the malformed sequence, which stays
    /// in the buffer untouched.
    pub fn extract_utf8(src: &mut BytesMut) -> (r: Result<Option<StrChunk>, ExtractUtf8Error>)
        ensures
            extracted_bytes(r) + buffer_contents(*final(src)) == buffer_contents(*old(src)),
            is_valid_up_to(buffer_contents(*old(src)), extracted_bytes(r).len() as int),
            r is Ok <==> (valid_utf8(buffer_contents(*old(src))) || is_incomplete(
                buffer_contents(*final(src)),
            )),
            match r {
                Ok(Some(c)) => c@.len() > 0,
                Ok(None) => true,
                Err(e) => {
                    &&& (e.spec_extracted() is Some <==> extracted_bytes(r).len() > 0)
                    &&& e.spec_error_len() == maximal_subpart_len(buffer_contents(*final(src)))
                    &&& 0 < e.spec_error_len() <= buffer_contents(*final(src)).len()
                },
            },
            valid_utf8(buffer_contents(*old(src))) && buffer_contents(*old(src)).len() > 0 ==> (
            r matches Ok(Some(c)) && c@ == buffer_contents(*old(src))),
            valid_utf8(buffer_contents(*old(src))) ==> buffer_contents(*final(src)).len() == 0,
            buffer_contents(*old(src)).len() == 0 ==> r matches Ok(None),
    {
        let ghost s = buffer_contents(*src);
        let len = buffer_as_slice(src).len();
        let outcome: Result<(), (usize, Option<usize>)> = match check_utf8(buffer_as_slice(src)) {
            Ok(_) => Ok(()),
            Err(e) => Err(e),
        };
        match outcome {
            Ok(()) => {
                proof {
                    lemma_valid_up_to_of_valid(s);
                }
                if len == 0 {
                    assert(s + s =~= s);
                    Ok(None)
                } else {
                    let bytes = buffer_freeze(buffer_take(src));
                    assert(s + buffer_contents(*src) =~= s);
                    Ok(Some(StrChunk { bytes }))
                }
            },
            Err((valid_len, error_len)) => {
                assert(s.subrange(0, valid_len as int) + s.subrange(valid_len as int, s.len() as int)
                    =~= s);
                let extracted = if valid_len == 0 {
                    assert(s.subrange(valid_len as int, s.len() as int) =~= s);
                    None
                } else {
                    let bytes = buffer_freeze(buffer_split_to(src, valid_len));
                    Some(StrChunk { bytes })
                };
                match error_len {
                    None => Ok(extracted),
                    Some(n) => Err(ExtractUtf8Error { extracted, error_len: n }),
                }
            },
        }
    }

    /// The shared byte range under the chunk, without copying.
    pub fn into_bytes(self) -> (r: Bytes)
        ensures
            bytes_contents(r) == self@,
    {
        self.bytes
    }
}

/// Relies on `String`'s `FromIterator<char>`: the string holds the characters in order.
#[verifier::external_body]
fn string_from_chars(chars: &[char]) -> (r: String)
    ensures
        r@ == chars@,
{
    chars.iter().collect()
}

/// Converting a chunk to an owned string (`into_string`) and that string back
/// into a chunk (`from_string`) gives the same bytes: encoding the text that
/// well-formed bytes decode to restores those bytes.
pub proof fn lemma_round_trip(c: StrChunk)
    requires
        valid_utf8(c@),
    ensures
        encode_utf8(decode_utf8(c@)) == c@,
{
    decode_utf8_encode_utf8(c@);
}

/// The bytes that an extraction took off the front of its buffer.
pub open spec fn extracted_bytes(r: Result<Option<StrChunk>, ExtractUtf8Error>) -> Seq<u8> {
    match r {
        Ok(Some(c)) => c@,
        Ok(None) => Seq::empty(),
        Err(e) => match e.spec_extracted() {
            Some(c) => c@,
            None => Seq::empty(),
        },
    }
}

/// Corrupt input met by an extraction: the well-formed prefix that was taken
/// off the buffer before it, if any, and the length of the malformed sequence
/// that starts the buffer afterwards.
#[derive(Clone, Debug)]
pub struct ExtractUtf8Error {
    extracted: Option<StrChunk>,
    error_len: usize,
}

impl ExtractUtf8Error {
    /// The well-formed prefix extracted before the corrupt bytes.
    pub closed spec fn spec_extracted(&self) -> Option<StrChunk> {
        self.extracted
    }

    /// The length of the malformed sequence.
    pub closed spec fn spec_error_len(&self) -> nat {
        self.error_len as nat
    }

    /// Gives up the error for the prefix extracted before the corrupt bytes.
    pub fn into_extracted(self) -> (r: Option<StrChunk>)
        ensures
            r == self.spec_extracted(),
    {
        self.extracted
    }

    /// The number of bytes, from the front of the buffer, that form the
    /// malformed sequence.
    pub fn error_len(&self) -> (r: usize)
        ensures
            r == self.spec_error_len(),
    {
        self.error_len
    }

    /// A human-readable description of the error.
    pub fn description(&self) -> (r: &'static str)
        ensures
            r@ == "invalid UTF-8 sequence in input"@,
    {
        proof {
            reveal_strlit("invalid UTF-8 sequence in input");
        }
        "invalid UTF-8 sequence in input"
    }
}

} // verus!
