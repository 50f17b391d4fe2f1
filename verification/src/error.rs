use vstd::prelude::*;
use vstd::string::StringExecFns;

verus! {

/// Why an operation of the node failed.
#[derive(Clone, Copy, Debug, PartialEq, Eq, Structural)]
pub enum Error {
    /// The configuration does not name exactly eight volumes.
    ConfigInvalid,
    /// A chunk file or a catalog to be created is already there.
    AlreadyExists,
    /// The codec could not encode or decode a segment.
    CodecError,
    /// A segment does not have the hash it is stored under.
    HashMismatch,
    /// The file system failed in some other way.
    IoError,
    /// No volume holds a catalog for the file hash.
    NotFound,
    /// A stored file has the wrong length or a malformed header.
    FormatViolation,
    /// A public or private key is not a valid secp256k1 key.
    KeyInvalid,
}

impl Error {
    /// The text shown to a client for this error.
    pub open spec fn message_text(self) -> Seq<char> {
        match self {
            Error::ConfigInvalid => "Eight volume paths must be configured"@,
            Error::AlreadyExists => "File already exists"@,
            Error::CodecError => "Segment could not be encoded or decoded"@,
            Error::HashMismatch => "Segment hash does not match"@,
            Error::IoError => "File system error"@,
            Error::NotFound => "File not found"@,
            Error::FormatViolation => "Stored file is malformed"@,
            Error::KeyInvalid => "Invalid secp256k1 key"@,
        }
    }

    pub fn to_string(&self) -> (text: String)
        ensures
            text@ == self.message_text(),
    {
        match self {
            Error::ConfigInvalid => String::from_str("Eight volume paths must be configured"),
            Error::AlreadyExists => String::from_str("File already exists"),
            Error::CodecError => String::from_str("Segment could not be encoded or decoded"),
            Error::HashMismatch => String::from_str("Segment hash does not match"),
            Error::IoError => String::from_str("File system error"),
            Error::NotFound => String::from_str("File not found"),
            Error::FormatViolation => String::from_str("Stored file is malformed"),
            Error::KeyInvalid => String::from_str("Invalid secp256k1 key"),
        }
    }
}

} // verus!
