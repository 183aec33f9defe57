//! A PNG file: the signature and the chunks that follow it, in order.

use crate::bytes::append_bytes;
use crate::chunk::{
    lemma_bytes_of_parse_chunk, lemma_parse_chunk_bytes, parse_chunk, Chunk, ChunkError,
    ChunkView,
};
use crate::chunk_type::tag_text;
use vstd::prelude::*;
use vstd::slice::slice_subrange;

verus! {

/// Why a file could not be read or changed.
#[derive(Copy, Clone, Debug, PartialEq, Eq, Structural)]
pub enum PngError {
    /// The input does not begin with the eight bytes of the PNG signature.
    BadSignature,
    /// The input ends before the frame that it begins is complete.
    TruncatedInput,
    /// The four bytes of a type tag are not all ASCII letters.
    InvalidTypeBytes,
    /// A stored checksum is not the checksum of its tag and payload.
    ChecksumMismatch,
    /// A payload that was asked for as text is not UTF-8.
    NotUtf8,
    /// No chunk has the type that was asked for.
    ChunkNotFound,
    /// After the last chunk there are bytes left, too few to hold a frame.
    TrailingGarbage,
}

impl PngError {
    /// What went wrong, in words.
    pub fn to_string(&self) -> (r: String)
        ensures
            r@ == match self {
                PngError::BadSignature => "not a PNG file"@,
                PngError::TruncatedInput => "truncated input"@,
                PngError::InvalidTypeBytes => "invalid chunk type"@,
                PngError::ChecksumMismatch => "checksum failed"@,
                PngError::NotUtf8 => "payload is not UTF-8 text"@,
                PngError::ChunkNotFound => "no such chunk"@,
                PngError::TrailingGarbage => "trailing bytes after the last chunk"@,
            },
    {
        match self {
            PngError::BadSignature => "not a PNG file".to_owned(),
            PngError::TruncatedInput => "truncated input".to_owned(),
            PngError::InvalidTypeBytes => "invalid chunk type".to_owned(),
            PngError::ChecksumMismatch => "checksum failed".to_owned(),
            PngError::NotUtf8 => "payload is not UTF-8 text".to_owned(),
            PngError::ChunkNotFound => "no such chunk".to_owned(),
            PngError::TrailingGarbage => "trailing bytes after the last chunk".to_owned(),
        }
    }
}

/// The error of a file whose chunk failed with `e`: the same kind.
pub open spec fn chunk_error(e: ChunkError) -> PngError {
    match e {
        ChunkError::TruncatedInput => PngError::TruncatedInput,
        ChunkError::InvalidTypeBytes => PngError::InvalidTypeBytes,
        ChunkError::ChecksumMismatch => PngError::ChecksumMismatch,
        ChunkError::NotUtf8 => PngError::NotUtf8,
    }
}

impl From<ChunkError> for PngError {
    /// The error of a file whose chunk failed with `e`.
    fn from(e: ChunkError) -> (r: PngError) {
        match e {
            ChunkError::TruncatedInput => PngError::TruncatedInput,
            ChunkError::InvalidTypeBytes => PngError::InvalidTypeBytes,
            ChunkError::ChecksumMismatch => PngError::ChecksumMismatch,
            ChunkError::NotUtf8 => PngError::NotUtf8,
        }
    }
}

impl vstd::std_specs::convert::FromSpecImpl<ChunkError> for PngError {
    open spec fn obeys_from_spec() -> bool {
        true
    }

    open spec fn from_spec(e: ChunkError) -> PngError {
        chunk_error(e)
    }
}

/// The eight bytes with which every PNG file begins.
pub const STANDARD_HEADER: [u8; 8] = [137, 80, 78, 71, 13, 10, 26, 10];

/// The eight bytes with which every PNG file begins.
pub open spec fn signature() -> Seq<u8> {
    seq![137u8, 80u8, 78u8, 71u8, 13u8, 10u8, 26u8, 10u8]
}

/// `bytes` begins with the PNG signature.
pub open spec fn has_signature(bytes: Seq<u8>) -> bool {
    bytes.len() >= 8 && bytes.subrange(0, 8) == signature()
}

/// The frames of `chunks`, one after another.
pub open spec fn chunks_bytes(chunks: Seq<ChunkView>) -> Seq<u8>
    decreases chunks.len(),
{
    if chunks.len() == 0 {
        Seq::empty()
    } else {
        chunks[0].bytes() + chunks_bytes(chunks.drop_first())
    }
}

/// The file that holds `chunks`: the signature, then each chunk's frame.
pub open spec fn png_bytes(chunks: Seq<ChunkView>) -> Seq<u8> {
    signature() + chunks_bytes(chunks)
}

/// `chunks` in front of what `rest` holds, or the error that `rest` is.
pub open spec fn prepend(chunks: Seq<ChunkView>, rest: Result<Seq<ChunkView>, PngError>) -> Result<
    Seq<ChunkView>,
    PngError,
> {
    match rest {
        Ok(more) => Ok(chunks + more),
        Err(e) => Err(e),
    }
}

/// The chunks whose frames fill `bytes` exactly. `first` says that no chunk
/// was read before these bytes: leftover bytes too few for a frame are
/// trailing garbage once a chunk has been read, and a truncated first frame
/// otherwise.
pub open spec fn parse_chunks(bytes: Seq<u8>, first: bool) -> Result<Seq<ChunkView>, PngError>
    decreases bytes.len(),
{
    if bytes.len() == 0 {
        Ok(Seq::empty())
    } else if !first && bytes.len() < 12 {
        Err(PngError::TrailingGarbage)
    } else {
        match parse_chunk(bytes) {
            Err(e) => Err(chunk_error(e)),
            Ok(c) => prepend(seq![c], parse_chunks(bytes.skip(c.frame_len() as int), false)),
        }
    }
}

/// The chunks of the file `bytes`: the signature must come first, and the
/// frames after it must fill the rest exactly.
pub open spec fn parse_png(bytes: Seq<u8>) -> Result<Seq<ChunkView>, PngError> {
    if !has_signature(bytes) {
        Err(PngError::BadSignature)
    } else {
        parse_chunks(bytes.skip(8), true)
    }
}

/// `c` is of the type that `text` names.
pub open spec fn has_type(c: ChunkView, text: Seq<char>) -> bool {
    tag_text(c.chunk_type) == text
}

/// The chunk at `i` is the first of `chunks` of the type that `text` names.
pub open spec fn is_first_of_type(chunks: Seq<ChunkView>, text: Seq<char>, i: int) -> bool {
    &&& 0 <= i < chunks.len()
    &&& has_type(chunks[i], text)
    &&& forall|j: int| 0 <= j < i ==> !has_type(#[trigger] chunks[j], text)
}

/// The index of the first of `chunks` of the type that `text` names, if
/// there is one.
pub open spec fn first_of_type(chunks: Seq<ChunkView>, text: Seq<char>) -> Option<int> {
    if exists|i: int| is_first_of_type(chunks, text, i) {
        Some(choose|i: int| is_first_of_type(chunks, text, i))
    } else {
        None
    }
}

/// A first chunk of a type is the only one: `first_of_type` finds it.
pub proof fn lemma_first_of_type(chunks: Seq<ChunkView>, text: Seq<char>, i: int)
    requires
        is_first_of_type(chunks, text, i),
    ensures
        first_of_type(chunks, text) == Some(i),
{
    let k = choose|k: int| is_first_of_type(chunks, text, k);
    assert(is_first_of_type(chunks, text, k));
    if k < i {
        assert(!has_type(chunks[k], text));
    }
    if i < k {
        assert(!has_type(chunks[i], text));
    }
}

/// The frames of a sequence with one more chunk are the frames of the
/// sequence and then the frame of that chunk.
pub proof fn lemma_chunks_bytes_push(chunks: Seq<ChunkView>, c: ChunkView)
    ensures
        chunks_bytes(chunks.push(c)) == chunks_bytes(chunks) + c.bytes(),
    decreases chunks.len(),
{
    if chunks.len() == 0 {
        assert(chunks.push(c).drop_first() =~= Seq::<ChunkView>::empty());
        assert(chunks_bytes(chunks.push(c).drop_first()) =~= Seq::<u8>::empty());
        assert(chunks_bytes(chunks.push(c)) =~= c.bytes());
        assert(chunks_bytes(chunks) + c.bytes() =~= c.bytes());
    } else {
        lemma_chunks_bytes_push(chunks.drop_first(), c);
        assert(chunks.push(c).drop_first() =~= chunks.drop_first().push(c));
        assert(chunks_bytes(chunks.push(c)) =~= chunks_bytes(chunks) + c.bytes());
    }
}

/// Reading the frames of well-formed chunks gives the chunks back.
pub proof fn lemma_parse_chunks_of_bytes(chunks: Seq<ChunkView>, first: bool)
    requires
        forall|i: int| 0 <= i < chunks.len() ==> (#[trigger] chunks[i]).well_formed(),
    ensures
        parse_chunks(chunks_bytes(chunks), first) == Ok::<_, PngError>(chunks),
    decreases chunks.len(),
{
    if chunks.len() > 0 {
        let c = chunks[0];
        let rest = chunks.drop_first();
        let tail = chunks_bytes(rest);
        let bytes = c.bytes() + tail;
        assert(chunks_bytes(chunks) == bytes);
        assert(c.well_formed());
        assert forall|i: int| 0 <= i < rest.len() implies (#[trigger] rest[i]).well_formed() by {
            assert(chunks[i + 1].well_formed());
        }
        lemma_parse_chunks_of_bytes(rest, false);
        assert(parse_chunk(bytes) == Ok::<_, ChunkError>(c) && bytes.len() >= 12 && bytes.skip(
            c.frame_len() as int,
        ) == tail) by {
            lemma_parse_chunk_bytes(c, tail);
            assert(bytes.skip(c.bytes().len() as int) =~= tail);
        }
        assert(seq![c] + rest =~= chunks);
    } else {
        assert(chunks =~= Seq::<ChunkView>::empty());
    }
}

/// Reading the file written for well-formed chunks gives the chunks back.
pub proof fn lemma_parse_png_of_bytes(chunks: Seq<ChunkView>)
    requires
        forall|i: int| 0 <= i < chunks.len() ==> (#[trigger] chunks[i]).well_formed(),
    ensures
        parse_png(png_bytes(chunks)) == Ok::<_, PngError>(chunks),
{
    let bytes = png_bytes(chunks);
    assert(bytes.subrange(0, 8) =~= signature());
    assert(bytes.skip(8) =~= chunks_bytes(chunks));
    lemma_parse_chunks_of_bytes(chunks, true);
}

/// Chunks that were read are well formed, and their frames are the bytes
/// that they were read from, byte for byte.
pub proof fn lemma_bytes_of_parse_chunks(bytes: Seq<u8>, first: bool)
    requires
        parse_chunks(bytes, first) is Ok,
    ensures
        chunks_bytes(parse_chunks(bytes, first).unwrap()) == bytes,
        forall|i: int|
            0 <= i < parse_chunks(bytes, first).unwrap().len() ==> (#[trigger] parse_chunks(
                bytes,
                first,
            ).unwrap()[i]).well_formed(),
    decreases bytes.len(),
{
    let chunks = parse_chunks(bytes, first).unwrap();
    if bytes.len() == 0 {
        assert(chunks_bytes(chunks) =~= bytes);
    } else {
        let c = parse_chunk(bytes).unwrap();
        let used = c.frame_len() as int;
        let tail = bytes.skip(used);
        let rest = parse_chunks(tail, false).unwrap();
        assert(parse_chunks(bytes, first) == prepend(seq![c], parse_chunks(tail, false)));
        lemma_bytes_of_parse_chunk(bytes);
        lemma_bytes_of_parse_chunks(tail, false);
        assert(chunks == seq![c] + rest);
        assert(chunks[0] == c);
        assert(chunks.drop_first() == rest) by {
            assert((seq![c] + rest).drop_first() =~= rest);
        }
        assert(chunks_bytes(chunks) == c.bytes() + chunks_bytes(rest));
        lemma_split(bytes, used);
        assert forall|i: int| 0 <= i < chunks.len() implies (#[trigger] chunks[i]).well_formed() by {
            if i > 0 {
                assert(chunks[i] == rest[i - 1]);
            }
        }
    }
}

/// A sequence is what comes before a place in it and then what comes from
/// that place on.
proof fn lemma_split(bytes: Seq<u8>, at: int)
    requires
        0 <= at <= bytes.len(),
    ensures
        bytes.subrange(0, at) + bytes.skip(at) == bytes,
{
    assert(bytes.subrange(0, at) + bytes.skip(at) =~= bytes);
}

/// A file that was read holds well-formed chunks, and writing them gives the
/// file back, byte for byte.
pub proof fn lemma_bytes_of_parse_png(bytes: Seq<u8>)
    requires
        parse_png(bytes) is Ok,
    ensures
        png_bytes(parse_png(bytes).unwrap()) == bytes,
        forall|i: int|
            0 <= i < parse_png(bytes).unwrap().len() ==> (#[trigger] parse_png(
                bytes,
            ).unwrap()[i]).well_formed(),
{
    let tail = bytes.skip(8);
    assert(parse_png(bytes) == parse_chunks(tail, true));
    lemma_bytes_of_parse_chunks(tail, true);
    lemma_split(bytes, 8);
}

/// Taking the second of three appended chunks out again leaves the first
/// directly in front of the third, in the sequence and in the file, provided
/// that the second is the first chunk of its type.
pub proof fn lemma_remove_between(
    before: Seq<ChunkView>,
    a: ChunkView,
    b: ChunkView,
    c: ChunkView,
    text: Seq<char>,
)
    requires
        has_type(b, text),
        !has_type(a, text),
        forall|j: int| 0 <= j < before.len() ==> !has_type(#[trigger] before[j], text),
    ensures
        first_of_type(before.push(a).push(b).push(c), text) == Some(before.len() as int + 1),
        before.push(a).push(b).push(c).remove(before.len() as int + 1) == before.push(a).push(c),
        png_bytes(before.push(a).push(c)) == png_bytes(before) + a.bytes() + c.bytes(),
{
    let all = before.push(a).push(b).push(c);
    let at = before.len() as int + 1;
    assert(is_first_of_type(all, text, at)) by {
        assert(all[at] == b);
        assert forall|j: int| 0 <= j < at implies !has_type(#[trigger] all[j], text) by {
            if j < before.len() {
                assert(all[j] == before[j]);
            } else {
                assert(all[j] == a);
            }
        }
    }
    lemma_first_of_type(all, text, at);
    assert(all.remove(at) =~= before.push(a).push(c));
    lemma_chunks_bytes_push(before, a);
    lemma_chunks_bytes_push(before.push(a), c);
    assert(png_bytes(before.push(a).push(c)) =~= png_bytes(before) + a.bytes() + c.bytes());
}

/// A PNG file held in memory: its chunks, in the order of the file.
#[derive(Debug)]
pub struct Png {
    chunks: Vec<Chunk>,
}

impl View for Png {
    type V = Seq<ChunkView>;

    /// The chunks, in order.
    closed spec fn view(&self) -> Seq<ChunkView> {
        Seq::new(self.chunks@.len(), |i: int| self.chunks@[i]@)
    }
}

impl Png {
    /// Puts `chunk` after the chunks that are there.
    pub fn append_chunk(&mut self, chunk: Chunk)
        ensures
            final(self)@ == old(self)@.push(chunk@),
    {
        self.chunks.push(chunk);
        assert(self@ =~= old(self)@.push(chunk@));
    }

    /// The index of the first chunk of the type that `chunk_type` names.
    fn position(&self, chunk_type: &str) -> (r: Option<usize>)
        ensures
            match r {
                Some(i) => first_of_type(self@, chunk_type@) == Some(i as int) && i
                    < self.chunks@.len(),
                None => first_of_type(self@, chunk_type@) is None,
            },
    {
        let mut i: usize = 0;
        while i < self.chunks.len()
            invariant
                i <= self.chunks@.len(),
                forall|j: int| 0 <= j < i ==> !has_type(#[trigger] self@[j], chunk_type@),
            decreases self.chunks@.len() - i,
        {
            if self.chunks[i].chunk_type().has_text(chunk_type) {
                proof {
                    lemma_first_of_type(self@, chunk_type@, i as int);
                }
                return Some(i);
            }
            i += 1;
        }
        None
    }

    /// The first chunk of the type that `chunk_type` names, if there is one.
    pub fn chunk_by_type(&self, chunk_type: &str) -> (r: Option<&Chunk>)
        ensures
            match r {
                Some(c) => first_of_type(self@, chunk_type@) is Some && c@ == self@[first_of_type(
                    self@,
                    chunk_type@,
                ).unwrap()],
                None => first_of_type(self@, chunk_type@) is None,
            },
    {
        match self.position(chunk_type) {
            Some(i) => Some(&self.chunks[i]),
            None => None,
        }
    }

    /// Takes out the first chunk of the type that `chunk_type` names and
    /// returns it; the others keep their order. Fails, and changes nothing,
    /// when there is no such chunk.
    pub fn remove_chunk(&mut self, chunk_type: &str) -> (r: Result<Chunk, PngError>)
        ensures
            match r {
                Ok(c) => first_of_type(old(self)@, chunk_type@) is Some && c@ == old(
                    self,
                )@[first_of_type(old(self)@, chunk_type@).unwrap()] && final(self)@ == old(
                    self,
                )@.remove(first_of_type(old(self)@, chunk_type@).unwrap()),
                Err(e) => e == PngError::ChunkNotFound && first_of_type(old(self)@, chunk_type@)
                    is None && final(self)@ == old(self)@,
            },
    {
        match self.position(chunk_type) {
            Some(i) => {
                let c = self.chunks.remove(i);
                assert(self@ =~= old(self)@.remove(i as int));
                Ok(c)
            },
            None => Err(PngError::ChunkNotFound),
        }
    }

    /// The file: the signature, then each chunk's frame in order. Reading
    /// these bytes gives the same chunks again.
    pub fn as_bytes(&self) -> (r: Vec<u8>)
        ensures
            r@ == png_bytes(self@),
            parse_png(r@) == Ok::<_, PngError>(self@),
    {
        let mut out: Vec<u8> = Vec::new();
        append_bytes(&mut out, STANDARD_HEADER.as_slice());
        assert(out@ =~= signature());
        let mut i: usize = 0;
        while i < self.chunks.len()
            invariant
                i <= self.chunks@.len(),
                out@ == signature() + chunks_bytes(self@.subrange(0, i as int)),
                forall|j: int| 0 <= j < i ==> (#[trigger] self@[j]).well_formed(),
            decreases self.chunks@.len() - i,
        {
            let c = &self.chunks[i];
            let frame = c.as_bytes();
            append_bytes(&mut out, frame.as_slice());
            proof {
                lemma_chunks_bytes_push(self@.subrange(0, i as int), c@);
                assert(self@.subrange(0, i + 1) =~= self@.subrange(0, i as int).push(c@));
            }
            i += 1;
        }
        proof {
            assert(self@.subrange(0, i as int) =~= self@);
            lemma_parse_png_of_bytes(self@);
        }
        out
    }
}

impl TryFrom<&[u8]> for Png {
    type Error = PngError;

    /// Reads a file: the signature, then chunks until the bytes end. A file
    /// that was read is written again byte for byte.
    fn try_from(value: &[u8]) -> (r: Result<Self, Self::Error>)
        ensures
            match r {
                Ok(png) => parse_png(value@) == Ok::<_, PngError>(png@) && png_bytes(png@)
                    == value@,
                Err(e) => parse_png(value@) == Err::<Seq<ChunkView>, _>(e),
            },
            !has_signature(value@) ==> r == Err::<Png, _>(PngError::BadSignature),
    {
        let n = value.len();
        if n < 8 || value[0] != STANDARD_HEADER[0] || value[1] != STANDARD_HEADER[1] || value[2]
            != STANDARD_HEADER[2] || value[3] != STANDARD_HEADER[3] || value[4]
            != STANDARD_HEADER[4] || value[5] != STANDARD_HEADER[5] || value[6]
            != STANDARD_HEADER[6] || value[7] != STANDARD_HEADER[7] {
            assert(!has_signature(value@)) by {
                if value@.len() >= 8 {
                    assert(forall|k: int| 0 <= k < 8 ==> value@.subrange(0, 8)[k] == value@[k]);
                }
            }
            return Err(PngError::BadSignature);
        }
        assert(value@.subrange(0, 8) =~= signature());
        let mut chunks: Vec<Chunk> = Vec::new();
        let mut at: usize = 8;
        let ghost all = value@.skip(8);
        assert(value@.skip(8) =~= all);
        while at < n
            invariant
                8 <= at <= n,
                n == value@.len(),
                has_signature(value@),
                all == value@.skip(8),
                parse_chunks(all, true) == prepend(
                    Seq::new(chunks@.len(), |i: int| chunks@[i]@),
                    parse_chunks(value@.skip(at as int), at == 8),
                ),
            decreases n - at,
        {
            let ghost before = Seq::new(chunks@.len(), |i: int| chunks@[i]@);
            let ghost rest = value@.skip(at as int);
            if at > 8 && n - at < 12 {
                return Err(PngError::TrailingGarbage);
            }
            let tail = slice_subrange(value, at, n);
            assert(tail@ =~= rest);
            match Chunk::parse(tail) {
                Err(e) => {
                    return Err(PngError::from(e));
                },
                Ok((c, used)) => {
                    chunks.push(c);
                    at += used;
                    proof {
                        let after = Seq::new(chunks@.len(), |i: int| chunks@[i]@);
                        assert(after =~= before + seq![c@]);
                        assert(rest.skip(used as int) =~= value@.skip(at as int));
                        let more = parse_chunks(value@.skip(at as int), false);
                        match more {
                            Ok(m) => {
                                assert(before + (seq![c@] + m) =~= after + m);
                            },
                            Err(_) => {},
                        }
                    }
                },
            }
        }
        let png = Png { chunks };
        proof {
            assert(value@.skip(at as int) =~= Seq::<u8>::empty());
            assert(png@ + Seq::<ChunkView>::empty() =~= png@);
            lemma_bytes_of_parse_png(value@);
        }
        Ok(png)
    }
}

impl vstd::std_specs::convert::TryFromSpecImpl<&[u8]> for Png {
    /// A file is known by its view alone, so what `try_from` returns is
    /// stated there, over views.
    open spec fn obeys_try_from_spec() -> bool {
        false
    }

    open spec fn try_from_spec(v: &[u8]) -> Result<Self, PngError> {
        match parse_png(v@) {
            Ok(chunks) => Ok(choose|png: Png| png@ == chunks),
            Err(e) => Err(e),
        }
    }
}

} // verus!
