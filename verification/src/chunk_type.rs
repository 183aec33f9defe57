//! The four-letter type tag of a chunk.

use crate::text::string_from_utf8;
use vstd::pervasive::unreached;
use vstd::prelude::*;
use vstd::string::StringSliceAdditionalSpecFns;
use vstd::utf8::{
    decode_utf8, encode_utf8, encode_utf8_decode_utf8, encode_utf8_valid_utf8, is_ascii_chars,
    is_ascii_chars_encode_utf8, valid_utf8,
};

verus! {

/// `b` is an ASCII capital letter.
pub open spec fn is_upper(b: u8) -> bool {
    0x41 <= b <= 0x5a
}

/// `b` is an ASCII small letter.
pub open spec fn is_lower(b: u8) -> bool {
    0x61 <= b <= 0x7a
}

/// `b` is an ASCII letter.
pub open spec fn is_letter(b: u8) -> bool {
    is_upper(b) || is_lower(b)
}

/// `s` is the byte sequence of a type tag: four ASCII letters.
pub open spec fn is_tag(s: Seq<u8>) -> bool {
    &&& s.len() == 4
    &&& forall|i: int| 0 <= i < 4 ==> is_letter(#[trigger] s[i])
}

/// The text that the bytes of a tag spell: each byte read as one ASCII
/// character.
pub open spec fn tag_text(tag: Seq<u8>) -> Seq<char> {
    Seq::new(tag.len(), |i: int| tag[i] as char)
}

/// The text of a tag is encoded in UTF-8 by the tag's own bytes, and no other
/// text is.
pub proof fn lemma_tag_text(tag: Seq<u8>)
    requires
        is_tag(tag),
    ensures
        encode_utf8(tag_text(tag)) == tag,
        valid_utf8(tag),
        decode_utf8(tag) == tag_text(tag),
        forall|text: Seq<char>| encode_utf8(text) == tag <==> text == tag_text(tag),
{
    let t = tag_text(tag);
    assert(is_ascii_chars(t)) by {
        assert forall|i: int| 0 <= i < t.len() implies '\0' <= #[trigger] t[i] <= '\u{7f}' by {
            assert(is_letter(tag[i]));
        }
    }
    is_ascii_chars_encode_utf8(t);
    assert(encode_utf8(t) =~= tag) by {
        assert forall|i: int| 0 <= i < tag.len() implies encode_utf8(t)[i] == tag[i] by {
            assert(is_letter(tag[i]));
            assert(t[i] as u8 == tag[i]);
        }
    }
    encode_utf8_valid_utf8(t);
    encode_utf8_decode_utf8(t);
    assert forall|text: Seq<char>| encode_utf8(text) == tag implies text == t by {
        encode_utf8_decode_utf8(text);
    }
}

/// Tells whether `b` is an ASCII capital letter.
pub fn byte_is_upper(b: u8) -> (r: bool)
    ensures
        r == is_upper(b),
{
    0x41 <= b && b <= 0x5a
}

/// Tells whether `b` is an ASCII small letter.
pub fn byte_is_lower(b: u8) -> (r: bool)
    ensures
        r == is_lower(b),
{
    0x61 <= b && b <= 0x7a
}

/// Tells whether `b` is an ASCII letter.
pub fn byte_is_letter(b: u8) -> (r: bool)
    ensures
        r == is_letter(b),
{
    byte_is_upper(b) || byte_is_lower(b)
}

/// A chunk's type tag: four ASCII letters whose case carries four flags.
#[derive(Debug)]
pub struct ChunkType {
    chunk_type: [u8; 4],
}

/// Why a type tag could not be built.
#[derive(Copy, Clone, Debug, PartialEq, Eq, Structural)]
enum ChunkTypeErrorKind {
    /// The input is not made of exactly four ASCII letters.
    NotFourLetters,
}

/// The error of building a type tag from bytes or text that are not four
/// ASCII letters.
#[derive(Copy, Clone, Debug, PartialEq, Eq, Structural)]
pub struct ParseChunkTypeError {
    kind: ChunkTypeErrorKind,
}

impl View for ChunkType {
    type V = Seq<u8>;

    /// The tag's four bytes.
    closed spec fn view(&self) -> Seq<u8> {
        self.chunk_type@
    }
}

impl ChunkType {
    /// Every tag holds four ASCII letters.
    #[verifier::type_invariant]
    pub open spec fn well_formed(self) -> bool {
        is_tag(self@)
    }

    /// The tag's four bytes.
    pub fn bytes(&self) -> (r: [u8; 4])
        ensures
            r@ == self@,
            is_tag(self@),
    {
        proof {
            use_type_invariant(self);
        }
        self.chunk_type
    }

    /// Whether the tag follows the format's convention: four ASCII letters,
    /// the third of them a capital.
    pub fn is_valid(&self) -> (r: bool)
        ensures
            r == (is_tag(self@) && is_upper(self@[2])),
    {
        byte_is_letter(self.chunk_type[0]) && byte_is_letter(self.chunk_type[1]) && byte_is_letter(
            self.chunk_type[2],
        ) && byte_is_letter(self.chunk_type[3]) && byte_is_upper(self.chunk_type[2])
    }

    /// Whether a decoder must understand this chunk: the first letter is a
    /// capital.
    pub fn is_critical(&self) -> (r: bool)
        ensures
            r == is_upper(self@[0]),
    {
        byte_is_upper(self.chunk_type[0])
    }

    /// Whether the chunk type is a public one: the second letter is a capital.
    pub fn is_public(&self) -> (r: bool)
        ensures
            r == is_upper(self@[1]),
    {
        byte_is_upper(self.chunk_type[1])
    }

    /// Whether the reserved bit is as the format asks: the third letter is a
    /// capital.
    pub fn is_reserved_bit_valid(&self) -> (r: bool)
        ensures
            r == is_upper(self@[2]),
    {
        byte_is_upper(self.chunk_type[2])
    }

    /// Whether an editor that does not know this chunk may copy it: the
    /// fourth letter is a small one.
    pub fn is_safe_to_copy(&self) -> (r: bool)
        ensures
            r == is_lower(self@[3]),
    {
        byte_is_lower(self.chunk_type[3])
    }

    /// Whether `text` is this tag's four letters.
    pub fn has_text(&self, text: &str) -> (r: bool)
        ensures
            r == (tag_text(self@) == text@),
    {
        proof {
            use_type_invariant(self);
            lemma_tag_text(self@);
        }
        let b = text.as_bytes();
        let r = b.len() == 4 && b[0] == self.chunk_type[0] && b[1] == self.chunk_type[1] && b[2]
            == self.chunk_type[2] && b[3] == self.chunk_type[3];
        assert(r == (text.spec_bytes() =~= self@));
        r
    }

    /// The tag as text: its four letters.
    pub fn to_string(&self) -> (r: String)
        ensures
            r@ == tag_text(self@),
    {
        proof {
            use_type_invariant(self);
            lemma_tag_text(self@);
        }
        let mut bytes: Vec<u8> = Vec::new();
        bytes.push(self.chunk_type[0]);
        bytes.push(self.chunk_type[1]);
        bytes.push(self.chunk_type[2]);
        bytes.push(self.chunk_type[3]);
        assert(bytes@ =~= self@);
        match string_from_utf8(bytes) {
            Some(s) => s,
            None => unreached(),
        }
    }

    /// The tag that holds the bytes `bytes`.
    pub closed spec fn of(bytes: [u8; 4]) -> ChunkType {
        ChunkType { chunk_type: bytes }
    }

    /// What `of` builds holds the bytes it was given.
    pub proof fn lemma_of_view(bytes: [u8; 4])
        ensures
            ChunkType::of(bytes)@ == bytes@,
    {
    }
}

impl ParseChunkTypeError {
    /// The one value of this error.
    pub closed spec fn value() -> ParseChunkTypeError {
        ParseChunkTypeError { kind: ChunkTypeErrorKind::NotFourLetters }
    }

    /// What went wrong, in words.
    pub fn to_string(&self) -> (r: String)
        ensures
            r@ == "a chunk type is four ASCII letters"@,
    {
        match self.kind {
            ChunkTypeErrorKind::NotFourLetters => "a chunk type is four ASCII letters".to_owned(),
        }
    }
}

impl PartialEq for ChunkType {
    /// Two tags are equal when their bytes are.
    fn eq(&self, other: &Self) -> (r: bool) {
        let r = self.chunk_type[0] == other.chunk_type[0] && self.chunk_type[1]
            == other.chunk_type[1] && self.chunk_type[2] == other.chunk_type[2]
            && self.chunk_type[3] == other.chunk_type[3];
        assert(r ==> self@ =~= other@);
        r
    }
}

impl Eq for ChunkType {

}

impl vstd::std_specs::cmp::PartialEqSpecImpl for ChunkType {
    open spec fn obeys_eq_spec() -> bool {
        true
    }

    open spec fn eq_spec(&self, other: &Self) -> bool {
        self@ == other@
    }
}

impl TryFrom<[u8; 4]> for ChunkType {
    type Error = ParseChunkTypeError;

    /// Builds a tag from four bytes; fails unless all four are ASCII letters.
    fn try_from(value: [u8; 4]) -> (r: Result<Self, Self::Error>)
        ensures
            r is Ok <==> is_tag(value@),
            r matches Ok(c) ==> c@ == value@,
            r matches Err(e) ==> e == ParseChunkTypeError::value(),
    {
        if byte_is_letter(value[0]) && byte_is_letter(value[1]) && byte_is_letter(value[2])
            && byte_is_letter(value[3]) {
            Ok(ChunkType { chunk_type: value })
        } else {
            Err(ParseChunkTypeError { kind: ChunkTypeErrorKind::NotFourLetters })
        }
    }
}

impl std::str::FromStr for ChunkType {
    type Err = ParseChunkTypeError;

    /// Builds a tag from text; fails unless the text is exactly four ASCII
    /// letters.
    fn from_str(s: &str) -> (r: Result<Self, Self::Err>)
        ensures
            r is Ok <==> is_tag(s.spec_bytes()),
            r matches Ok(c) ==> c@ == s.spec_bytes() && tag_text(c@) == s@,
            r matches Err(e) ==> e == ParseChunkTypeError::value(),
    {
        let b = s.as_bytes();
        if b.len() == 4 && byte_is_letter(b[0]) && byte_is_letter(b[1]) && byte_is_letter(b[2])
            && byte_is_letter(b[3]) {
            let value: [u8; 4] = [b[0], b[1], b[2], b[3]];
            assert(value@ =~= s.spec_bytes());
            proof {
                lemma_tag_text(value@);
            }
            Ok(ChunkType { chunk_type: value })
        } else {
            Err(ParseChunkTypeError { kind: ChunkTypeErrorKind::NotFourLetters })
        }
    }
}

impl vstd::std_specs::convert::TryFromSpecImpl<[u8; 4]> for ChunkType {
    open spec fn obeys_try_from_spec() -> bool {
        true
    }

    open spec fn try_from_spec(v: [u8; 4]) -> Result<Self, ParseChunkTypeError> {
        if is_tag(v@) {
            Ok(ChunkType::of(v))
        } else {
            Err(ParseChunkTypeError::value())
        }
    }
}

} // verus!
