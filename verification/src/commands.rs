//! The commands, and what each makes of a file's bytes.

use crate::args::{Decode, Encode, Print, Remove};
use crate::chunk::{Chunk, ChunkView};
use crate::chunk_type::{is_tag, ChunkType};
use crate::png::{first_of_type, parse_png, png_bytes, Png, PngError};
use std::str::FromStr;
use vstd::prelude::*;
use vstd::slice::slice_to_vec;
use vstd::string::StringSliceAdditionalSpecFns;
use vstd::utf8::{decode_utf8, encode_utf8, valid_utf8};

verus! {

/// What was asked for on the command line.
#[derive(Debug)]
pub struct Cli {
    /// The command to run.
    pub command: Commands,
}

/// The four commands.
#[derive(Debug)]
pub enum Commands {
    /// Hide a message in a file.
    Encode(Encode),
    /// Show the message hidden in a file.
    Decode(Decode),
    /// Take a hidden message out of a file.
    Remove(Remove),
    /// Show the bytes of a file.
    Print(Print),
}

/// What a command made of a file.
#[derive(Debug)]
pub enum Outcome {
    /// The file with the message in a new last chunk, to be written back.
    Encoded(Vec<u8>),
    /// The message found in the file, or nothing where no chunk is of the
    /// type asked for.
    Decoded(Option<String>),
    /// The file without the chunk that was taken out, to be written back.
    Removed(Vec<u8>),
    /// The bytes of the file, to be shown.
    Printed(Vec<u8>),
}

/// The file `file` with one more chunk at its end, of the type that
/// `chunk_type` spells and with `message` as its payload.
pub open spec fn encoded(file: Seq<u8>, chunk_type: Seq<char>, message: Seq<char>) -> Result<
    Seq<u8>,
    PngError,
> {
    match parse_png(file) {
        Err(e) => Err(e),
        Ok(chunks) => if is_tag(encode_utf8(chunk_type)) {
            Ok(
                png_bytes(
                    chunks.push(
                        ChunkView {
                            chunk_type: encode_utf8(chunk_type),
                            data: encode_utf8(message),
                        },
                    ),
                ),
            )
        } else {
            Err(PngError::InvalidTypeBytes)
        },
    }
}

/// The text in the first chunk of `file` of the type that `chunk_type`
/// names; nothing where there is no such chunk.
pub open spec fn decoded(file: Seq<u8>, chunk_type: Seq<char>) -> Result<
    Option<Seq<char>>,
    PngError,
> {
    match parse_png(file) {
        Err(e) => Err(e),
        Ok(chunks) => match first_of_type(chunks, chunk_type) {
            None => Ok(None),
            Some(i) => if valid_utf8(chunks[i].data) {
                Ok(Some(decode_utf8(chunks[i].data)))
            } else {
                Err(PngError::NotUtf8)
            },
        },
    }
}

/// The file `file` without its first chunk of the type that `chunk_type`
/// names.
pub open spec fn removed(file: Seq<u8>, chunk_type: Seq<char>) -> Result<Seq<u8>, PngError> {
    match parse_png(file) {
        Err(e) => Err(e),
        Ok(chunks) => match first_of_type(chunks, chunk_type) {
            None => Err(PngError::ChunkNotFound),
            Some(i) => Ok(png_bytes(chunks.remove(i))),
        },
    }
}

/// The file `file` as it is written again after reading.
pub open spec fn printed(file: Seq<u8>) -> Result<Seq<u8>, PngError> {
    match parse_png(file) {
        Err(e) => Err(e),
        Ok(chunks) => Ok(png_bytes(chunks)),
    }
}

impl Commands {
    /// The message of an `Encode` fits the 32-bit length field of a chunk.
    pub open spec fn fits(&self) -> bool {
        match self {
            Commands::Encode(e) => encode_utf8(e.message@).len() <= u32::MAX,
            _ => true,
        }
    }

    /// Runs the command on the bytes of its file. The caller reads the file
    /// before, and writes or shows the outcome after.
    pub fn run(&self, data: &[u8]) -> (r: Result<Outcome, PngError>)
        requires
            self.fits(),
        ensures
            match self {
                Commands::Encode(e) => match r {
                    Ok(Outcome::Encoded(bytes)) => encoded(data@, e.chunk_type@, e.message@) == Ok::<
                        _,
                        PngError,
                    >(bytes@),
                    Ok(_) => false,
                    Err(x) => encoded(data@, e.chunk_type@, e.message@) == Err::<Seq<u8>, _>(x),
                },
                Commands::Decode(d) => match r {
                    Ok(Outcome::Decoded(Some(text))) => decoded(data@, d.chunk_type@) == Ok::<
                        _,
                        PngError,
                    >(Some(text@)),
                    Ok(Outcome::Decoded(None)) => decoded(data@, d.chunk_type@) == Ok::<
                        _,
                        PngError,
                    >(None::<Seq<char>>),
                    Ok(_) => false,
                    Err(x) => decoded(data@, d.chunk_type@) == Err::<Option<Seq<char>>, _>(x),
                },
                Commands::Remove(m) => match r {
                    Ok(Outcome::Removed(bytes)) => removed(data@, m.chunk_type@) == Ok::<
                        _,
                        PngError,
                    >(bytes@),
                    Ok(_) => false,
                    Err(x) => removed(data@, m.chunk_type@) == Err::<Seq<u8>, _>(x),
                },
                Commands::Print(_) => match r {
                    Ok(Outcome::Printed(bytes)) => printed(data@) == Ok::<_, PngError>(bytes@)
                        && bytes@ == data@,
                    Ok(_) => false,
                    Err(x) => printed(data@) == Err::<Seq<u8>, _>(x),
                },
            },
    {
        let mut png = match Png::try_from(data) {
            Ok(png) => png,
            Err(e) => {
                return Err(e);
            },
        };
        match self {
            Commands::Encode(e) => {
                let chunk_type = match ChunkType::from_str(e.chunk_type.as_str()) {
                    Ok(t) => t,
                    Err(_) => {
                        return Err(PngError::InvalidTypeBytes);
                    },
                };
                let message = slice_to_vec(e.message.as_str().as_bytes());
                png.append_chunk(Chunk::new(chunk_type, message));
                Ok(Outcome::Encoded(png.as_bytes()))
            },
            Commands::Decode(d) => {
                match png.chunk_by_type(d.chunk_type.as_str()) {
                    None => Ok(Outcome::Decoded(None)),
                    Some(c) => match c.data_as_string() {
                        Ok(text) => Ok(Outcome::Decoded(Some(text))),
                        Err(e) => Err(PngError::from(e)),
                    },
                }
            },
            Commands::Remove(m) => {
                match png.remove_chunk(m.chunk_type.as_str()) {
                    Ok(_) => Ok(Outcome::Removed(png.as_bytes())),
                    Err(e) => Err(e),
                }
            },
            Commands::Print(_) => Ok(Outcome::Printed(png.as_bytes())),
        }
    }
}

} // verus!
