//! The arguments of each command.

use std::path::PathBuf;
use vstd::prelude::*;

verus! {

/// A path in the file system, from the standard library. The library carries
/// it along and never looks inside.
#[verifier::external_type_specification]
#[verifier::external_body]
pub struct ExPathBuf(PathBuf);

/// Hide a message in a file, in a new chunk at its end.
#[derive(Debug)]
pub struct Encode {
    /// The file to change.
    pub file_path: PathBuf,
    /// The four letters of the new chunk's type.
    pub chunk_type: String,
    /// The message that the new chunk will hold.
    pub message: String,
}

/// Show the message hidden in a file.
#[derive(Debug)]
pub struct Decode {
    /// The file to read.
    pub file_path: PathBuf,
    /// The four letters of the type of the chunk that holds the message.
    pub chunk_type: String,
}

/// Take a hidden message out of a file.
#[derive(Debug)]
pub struct Remove {
    /// The file to change.
    pub file_path: PathBuf,
    /// The four letters of the type of the chunk to take out.
    pub chunk_type: String,
}

/// Show the bytes of a file.
#[derive(Debug)]
pub struct Print {
    /// The file to read.
    pub file_path: PathBuf,
}

} // verus!
