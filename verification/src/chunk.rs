//! A chunk: a type tag and a payload, framed by a length and a checksum.

use crate::bytes::{
    append_bytes, be_bytes, be_value, lemma_be_bytes_of_value, lemma_be_value_of_bytes,
    u32_from_be, u32_to_be,
};
use crate::checksum::{checksum, crc32_iso_hdlc};
use crate::chunk_type::{is_tag, tag_text, ChunkType};
use crate::text::{decimal, push_decimal, string_from_utf8};
use vstd::pervasive::unreached;
use vstd::prelude::*;
use vstd::slice::{slice_subrange, slice_to_vec};
use vstd::string::StringExecFns;
use vstd::utf8::{decode_utf8, valid_utf8};

verus! {

/// Why a chunk could not be read, or its payload not be shown.
#[derive(Copy, Clone, Debug, PartialEq, Eq, Structural)]
pub enum ChunkError {
    /// The input ends before the frame that it begins is complete.
    TruncatedInput,
    /// The four bytes of the type tag are not all ASCII letters.
    InvalidTypeBytes,
    /// The stored checksum is not the checksum of the tag and the payload.
    ChecksumMismatch,
    /// The payload is not UTF-8 text.
    NotUtf8,
}

/// What a chunk is: its tag and its payload. Length and checksum follow from
/// the two.
pub struct ChunkView {
    /// The four bytes of the type tag.
    pub chunk_type: Seq<u8>,
    /// The payload.
    pub data: Seq<u8>,
}

impl ChunkView {
    /// The tag is four ASCII letters, and the payload's length fits the
    /// frame's 32-bit length field.
    pub open spec fn well_formed(self) -> bool {
        &&& is_tag(self.chunk_type)
        &&& self.data.len() <= u32::MAX
    }

    /// The checksum of the chunk: the CRC-32 of the tag followed by the
    /// payload.
    pub open spec fn crc(self) -> u32 {
        crc32_iso_hdlc(self.chunk_type + self.data)
    }

    /// The number of bytes that the chunk's frame takes.
    pub open spec fn frame_len(self) -> nat {
        12 + self.data.len()
    }

    /// The chunk's frame: length, tag, payload, checksum.
    #[verifier::opaque]
    pub open spec fn bytes(self) -> Seq<u8> {
        be_bytes(self.data.len() as u32) + self.chunk_type + self.data + be_bytes(self.crc())
    }

    /// The chunk shown as text: tag, payload read as UTF-8, length and
    /// checksum in decimal, each on a line of its own.
    pub open spec fn text(self) -> Seq<char>
        recommends
            valid_utf8(self.data),
    {
        "chunk_type: "@ + tag_text(self.chunk_type) + "\ndata: "@ + decode_utf8(self.data)
            + "\nlength:"@ + decimal(self.data.len()) + "\ncrc:"@ + decimal(self.crc() as nat)
    }
}

impl ChunkError {
    /// What went wrong, in words.
    pub fn to_string(&self) -> (r: String)
        ensures
            r@ == match self {
                ChunkError::TruncatedInput => "truncated input"@,
                ChunkError::InvalidTypeBytes => "invalid chunk type"@,
                ChunkError::ChecksumMismatch => "checksum failed"@,
                ChunkError::NotUtf8 => "payload is not UTF-8 text"@,
            },
    {
        match self {
            ChunkError::TruncatedInput => "truncated input".to_owned(),
            ChunkError::InvalidTypeBytes => "invalid chunk type".to_owned(),
            ChunkError::ChecksumMismatch => "checksum failed".to_owned(),
            ChunkError::NotUtf8 => "payload is not UTF-8 text".to_owned(),
        }
    }
}

/// The payload length that the frame at the start of `bytes` declares.
pub open spec fn frame_length(bytes: Seq<u8>) -> int
    recommends
        bytes.len() >= 4,
{
    be_value(bytes) as int
}

/// `bytes` holds all of the frame that it begins: the length field, the tag,
/// as many payload bytes as the length field says, and the checksum.
pub open spec fn frame_complete(bytes: Seq<u8>) -> bool {
    bytes.len() >= 12 && bytes.len() >= 12 + frame_length(bytes)
}

/// The tag bytes of the frame at the start of `bytes`.
pub open spec fn frame_type(bytes: Seq<u8>) -> Seq<u8>
    recommends
        frame_complete(bytes),
{
    bytes.subrange(4, 8)
}

/// The payload of the frame at the start of `bytes`.
pub open spec fn frame_data(bytes: Seq<u8>) -> Seq<u8>
    recommends
        frame_complete(bytes),
{
    bytes.subrange(8, 8 + frame_length(bytes))
}

/// The checksum stored in the frame at the start of `bytes`.
pub open spec fn frame_crc(bytes: Seq<u8>) -> u32
    recommends
        frame_complete(bytes),
{
    be_value(bytes.subrange(8 + frame_length(bytes), 12 + frame_length(bytes)))
}

/// The fields of the frame at the start of `bytes`: tag, payload and stored
/// checksum. A frame that `bytes` does not hold whole is truncated; failing
/// that, a tag that is not four letters is invalid.
pub open spec fn read_frame(bytes: Seq<u8>) -> Result<(Seq<u8>, Seq<u8>, u32), ChunkError> {
    if !frame_complete(bytes) {
        Err(ChunkError::TruncatedInput)
    } else if !is_tag(frame_type(bytes)) {
        Err(ChunkError::InvalidTypeBytes)
    } else {
        Ok((frame_type(bytes), frame_data(bytes), frame_crc(bytes)))
    }
}

/// The chunk of tag `chunk_type` and payload `data`, provided that the
/// checksum `stored` with them is `computed`, the checksum of the two.
pub open spec fn check_frame(chunk_type: Seq<u8>, data: Seq<u8>, stored: u32, computed: u32)
    -> Result<ChunkView, ChunkError> {
    if stored == computed {
        Ok(ChunkView { chunk_type, data })
    } else {
        Err(ChunkError::ChecksumMismatch)
    }
}

/// The chunk that the frame at the start of `bytes` holds. Bytes after the
/// frame are not looked at.
pub open spec fn parse_chunk(bytes: Seq<u8>) -> Result<ChunkView, ChunkError> {
    match read_frame(bytes) {
        Err(e) => Err(e),
        Ok((chunk_type, data, stored)) => check_frame(
            chunk_type,
            data,
            stored,
            crc32_iso_hdlc(chunk_type + data),
        ),
    }
}

/// Reading a chunk's frame gives the chunk back, whatever follows the frame.
pub proof fn lemma_parse_chunk_bytes(c: ChunkView, rest: Seq<u8>)
    requires
        c.well_formed(),
    ensures
        c.bytes().len() == c.frame_len(),
        parse_chunk(c.bytes() + rest) == Ok::<_, ChunkError>(c),
{
    reveal(ChunkView::bytes);
    let length = c.data.len() as u32;
    let bytes = c.bytes() + rest;
    lemma_be_value_of_bytes(length);
    lemma_be_value_of_bytes(c.crc());
    assert(be_value(bytes) == be_value(be_bytes(length)));
    assert(frame_type(bytes) =~= c.chunk_type);
    assert(frame_data(bytes) =~= c.data);
    assert(bytes.subrange(8 + frame_length(bytes), 12 + frame_length(bytes)) =~= be_bytes(c.crc()));
}

/// A chunk that was read is well formed, and its frame is the bytes that it
/// was read from, byte for byte.
pub proof fn lemma_bytes_of_parse_chunk(bytes: Seq<u8>)
    requires
        parse_chunk(bytes) is Ok,
    ensures
        parse_chunk(bytes).unwrap().well_formed(),
        parse_chunk(bytes).unwrap().frame_len() <= bytes.len(),
        parse_chunk(bytes).unwrap().bytes() == bytes.subrange(
            0,
            parse_chunk(bytes).unwrap().frame_len() as int,
        ),
{
    reveal(ChunkView::bytes);
    let c = parse_chunk(bytes).unwrap();
    let length = frame_length(bytes);
    let head = bytes.subrange(0, 4);
    let foot = bytes.subrange(8 + length, 12 + length);
    assert(c.data.len() == length);
    assert(be_value(head) == be_value(bytes));
    lemma_be_bytes_of_value(head);
    lemma_be_bytes_of_value(foot);
    assert(c.bytes() =~= bytes.subrange(0, 12 + length));
}

/// A chunk of a PNG file. Its length field always counts its payload, and its
/// checksum is always the checksum of its tag and payload.
#[derive(Debug)]
pub struct Chunk {
    length: u32,
    chunk_type: ChunkType,
    data: Vec<u8>,
    crc: u32,
}

impl View for Chunk {
    type V = ChunkView;

    /// The chunk's tag and payload.
    closed spec fn view(&self) -> ChunkView {
        ChunkView { chunk_type: self.chunk_type@, data: self.data@ }
    }
}

/// The CRC-32 of a tag followed by a payload.
fn checksum_of(chunk_type: &ChunkType, data: &Vec<u8>) -> (r: u32)
    ensures
        r == crc32_iso_hdlc(chunk_type@ + data@),
{
    let tag = chunk_type.bytes();
    let mut mix: Vec<u8> = Vec::new();
    append_bytes(&mut mix, tag.as_slice());
    append_bytes(&mut mix, data.as_slice());
    assert(mix@ =~= chunk_type@ + data@);
    checksum(mix.as_slice())
}

impl Chunk {
    /// Every chunk has a tag of four letters, a length field that counts its
    /// payload, and the checksum of its tag and payload.
    #[verifier::type_invariant]
    pub closed spec fn sound(self) -> bool {
        &&& is_tag(self.chunk_type@)
        &&& self.length == self.data@.len()
        &&& self.crc == crc32_iso_hdlc(self.chunk_type@ + self.data@)
    }

    /// Takes the frame at the start of `bytes` apart into tag, payload and
    /// stored checksum, without looking at what the checksum should be.
    pub fn read_frame(bytes: &[u8]) -> (r: Result<(ChunkType, Vec<u8>, u32), ChunkError>)
        ensures
            match r {
                Ok((chunk_type, data, stored)) => read_frame(bytes@) == Ok::<_, ChunkError>(
                    (chunk_type@, data@, stored),
                ),
                Err(e) => read_frame(bytes@) == Err::<(Seq<u8>, Seq<u8>, u32), _>(e),
            },
    {
        let n = bytes.len();
        if n < 12 {
            return Err(ChunkError::TruncatedInput);
        }
        let length = u32_from_be([bytes[0], bytes[1], bytes[2], bytes[3]]);
        if n - 12 < length as usize {
            return Err(ChunkError::TruncatedInput);
        }
        let end: usize = 8 + length as usize;
        match ChunkType::try_from([bytes[4], bytes[5], bytes[6], bytes[7]]) {
            Err(_) => {
                assert([bytes[4], bytes[5], bytes[6], bytes[7]]@ =~= frame_type(bytes@));
                Err(ChunkError::InvalidTypeBytes)
            },
            Ok(chunk_type) => {
                assert(chunk_type@ =~= frame_type(bytes@));
                let data = slice_to_vec(slice_subrange(bytes, 8, end));
                let stored = u32_from_be(
                    [bytes[end], bytes[end + 1], bytes[end + 2], bytes[end + 3]],
                );
                Ok((chunk_type, data, stored))
            },
        }
    }

    /// Builds the chunk of `chunk_type` and `data`, given the checksum
    /// `stored` that came with them and the checksum `computed` of the two;
    /// fails when they differ.
    pub fn with_checksum(chunk_type: ChunkType, data: Vec<u8>, stored: u32, computed: u32) -> (r:
        Result<Chunk, ChunkError>)
        requires
            data@.len() <= u32::MAX,
            computed == crc32_iso_hdlc(chunk_type@ + data@),
        ensures
            match r {
                Ok(c) => check_frame(chunk_type@, data@, stored, computed) == Ok::<_, ChunkError>(
                    c@,
                ) && c@.well_formed(),
                Err(e) => check_frame(chunk_type@, data@, stored, computed) == Err::<ChunkView, _>(
                    e,
                ),
            },
    {
        proof {
            use_type_invariant(&chunk_type);
        }
        if stored == computed {
            let length = data.len() as u32;
            Ok(Chunk { length, chunk_type, data, crc: stored })
        } else {
            Err(ChunkError::ChecksumMismatch)
        }
    }

    /// Reads the chunk at the start of `bytes` and tells how many bytes its
    /// frame took.
    pub fn parse(bytes: &[u8]) -> (r: Result<(Chunk, usize), ChunkError>)
        ensures
            match r {
                Ok((c, n)) => parse_chunk(bytes@) == Ok::<_, ChunkError>(c@) && n == c@.frame_len()
                    && n <= bytes@.len() && c@.well_formed(),
                Err(e) => parse_chunk(bytes@) == Err::<ChunkView, _>(e),
            },
    {
        match Chunk::read_frame(bytes) {
            Err(e) => Err(e),
            Ok((chunk_type, data, stored)) => {
                assert(data@.len() + 12 <= bytes.len());
                let computed = checksum_of(&chunk_type, &data);
                match Chunk::with_checksum(chunk_type, data, stored, computed) {
                    Err(e) => Err(e),
                    Ok(c) => {
                        let n = 12 + c.data.len();
                        Ok((c, n))
                    },
                }
            },
        }
    }

    /// Makes a chunk of a tag and a payload, with the checksum that belongs
    /// to them.
    pub fn new(chunk_type: ChunkType, data: Vec<u8>) -> (c: Chunk)
        requires
            data@.len() <= u32::MAX,
        ensures
            c@ == (ChunkView { chunk_type: chunk_type@, data: data@ }),
            c@.well_formed(),
    {
        let crc = checksum_of(&chunk_type, &data);
        match Chunk::with_checksum(chunk_type, data, crc, crc) {
            Ok(c) => c,
            Err(_) => unreached(),
        }
    }

    /// The number of payload bytes.
    pub fn length(&self) -> (r: u32)
        ensures
            r == self@.data.len(),
            self@.well_formed(),
    {
        proof {
            use_type_invariant(self);
        }
        self.length
    }

    /// The type tag.
    pub fn chunk_type(&self) -> (r: &ChunkType)
        ensures
            r@ == self@.chunk_type,
    {
        &self.chunk_type
    }

    /// The payload.
    pub fn data(&self) -> (r: &[u8])
        ensures
            r@ == self@.data,
    {
        self.data.as_slice()
    }

    /// The checksum: the CRC-32 of the tag followed by the payload.
    pub fn crc(&self) -> (r: u32)
        ensures
            r == self@.crc(),
            r == crc32_iso_hdlc(self@.chunk_type + self@.data),
    {
        proof {
            use_type_invariant(self);
        }
        self.crc
    }

    /// The payload as text; fails when the payload is not UTF-8.
    pub fn data_as_string(&self) -> (r: Result<String, ChunkError>)
        ensures
            match r {
                Ok(s) => valid_utf8(self@.data) && s@ == decode_utf8(self@.data),
                Err(e) => !valid_utf8(self@.data) && e == ChunkError::NotUtf8,
            },
    {
        match string_from_utf8(slice_to_vec(self.data.as_slice())) {
            Some(s) => Ok(s),
            None => Err(ChunkError::NotUtf8),
        }
    }

    /// The chunk shown as text. The payload must be UTF-8.
    pub fn to_string(&self) -> (r: String)
        requires
            valid_utf8(self@.data),
        ensures
            r@ == self@.text(),
    {
        proof {
            use_type_invariant(self);
        }
        let data = match self.data_as_string() {
            Ok(s) => s,
            Err(_) => unreached(),
        };
        let mut out = "chunk_type: ".to_owned();
        out.append(self.chunk_type.to_string().as_str());
        out.append("\ndata: ");
        out.append(data.as_str());
        out.append("\nlength:");
        push_decimal(&mut out, self.length);
        out.append("\ncrc:");
        push_decimal(&mut out, self.crc);
        out
    }

    /// The chunk's frame: length, tag, payload and checksum.
    pub fn as_bytes(&self) -> (r: Vec<u8>)
        ensures
            r@ == self@.bytes(),
            self@.well_formed(),
    {
        proof {
            use_type_invariant(self);
        }
        let length = u32_to_be(self.length);
        let tag = self.chunk_type.bytes();
        let crc = u32_to_be(self.crc);
        let mut out: Vec<u8> = Vec::new();
        append_bytes(&mut out, length.as_slice());
        append_bytes(&mut out, tag.as_slice());
        append_bytes(&mut out, self.data.as_slice());
        append_bytes(&mut out, crc.as_slice());
        assert(out@ =~= self@.bytes()) by {
            reveal(ChunkView::bytes);
        }
        out
    }
}

impl TryFrom<&[u8]> for Chunk {
    type Error = ChunkError;

    /// Reads the chunk at the start of `value`. Bytes after its frame are not
    /// looked at.
    fn try_from(value: &[u8]) -> (r: Result<Self, Self::Error>)
        ensures
            match r {
                Ok(c) => parse_chunk(value@) == Ok::<_, ChunkError>(c@) && c@.well_formed(),
                Err(e) => parse_chunk(value@) == Err::<ChunkView, _>(e),
            },
    {
        match Chunk::parse(value) {
            Ok((c, _)) => Ok(c),
            Err(e) => Err(e),
        }
    }
}

impl vstd::std_specs::convert::TryFromSpecImpl<&[u8]> for Chunk {
    /// A chunk is known by its view alone, so what `try_from` returns is
    /// stated there, over views.
    open spec fn obeys_try_from_spec() -> bool {
        false
    }

    open spec fn try_from_spec(v: &[u8]) -> Result<Self, ChunkError> {
        match parse_chunk(v@) {
            Ok(view) => Ok(choose|c: Chunk| c@ == view),
            Err(e) => Err(e),
        }
    }
}

impl PartialEq for Chunk {
    /// Two chunks are equal when their tags and their payloads are.
    fn eq(&self, other: &Self) -> (r: bool) {
        if self.chunk_type != other.chunk_type || self.data.len() != other.data.len() {
            assert(self.data@.len() != other.data@.len() ==> self.data@ != other.data@);
            return false;
        }
        let mut i: usize = 0;
        while i < self.data.len()
            invariant
                i <= self.data@.len(),
                self.data@.len() == other.data@.len(),
                self.data@.subrange(0, i as int) == other.data@.subrange(0, i as int),
            decreases self.data@.len() - i,
        {
            if self.data[i] != other.data[i] {
                return false;
            }
            i += 1;
            assert(self.data@.subrange(0, i as int) =~= other.data@.subrange(0, i as int)) by {
                assert forall|j: int| 0 <= j < i implies self.data@[j] == other.data@[j] by {
                    if j < i - 1 {
                        assert(self.data@.subrange(0, i - 1)[j] == other.data@.subrange(
                            0,
                            i - 1,
                        )[j]);
                    }
                }
            }
        }
        assert(self.data@ =~= self.data@.subrange(0, i as int));
        assert(other.data@ =~= other.data@.subrange(0, i as int));
        true
    }
}

impl Eq for Chunk {

}

impl vstd::std_specs::cmp::PartialEqSpecImpl for Chunk {
    open spec fn obeys_eq_spec() -> bool {
        true
    }

    open spec fn eq_spec(&self, other: &Self) -> bool {
        self@ == other@
    }
}

} // verus!
