//! Errors of reading and writing a package.
use vstd::prelude::*;

verus! {

/// What went wrong while a package was read or written.
#[derive(Debug)]
pub enum XlsxError {
    /// The file system refused a read or a write.
    Io,
    /// The XML token stream was malformed at the given byte offset.
    Xml { position: u64 },
    /// The stream ended before the closing tag of an element.
    UnexpectedEof { expected_tag: Vec<u8> },
    /// The archive container could not be written or read.
    Zip,
    /// The content of the named part is too large for an archive entry.
    PartTooLarge { part: Vec<u8> },
    /// Text content was not valid UTF-8.
    Utf8,
}

} // verus!
