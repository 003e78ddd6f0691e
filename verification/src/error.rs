//! The error type shared by the parsers of this crate.
use vstd::prelude::*;

verus! {

/// What went wrong while reading a replay or its data files.
#[derive(Debug)]
pub enum ErrorKind {
    /// The input ended before the value being read was complete.
    UnexpectedEof,
    /// A fixed byte sequence (a magic number or a tag) did not match.
    BadTag,
    /// A nullable fixed dictionary was preceded by a flag other than 0 or 1;
    /// `packet` holds the bytes that followed the flag.
    UnknownFixedDictFlag { flag: u8, packet: Vec<u8> },
    /// The replay's format version is not one this parser understands.
    UnsupportedReplayVersion(u32),
    /// A packet of a known kind could not be decoded.
    UnableToProcessPacket { supertype: u32, subtype: u32, reason: String, packet: Vec<u8> },
    /// An argument of an RPC method, or a property of a created entity,
    /// could not be read; `packet` holds the bytes from that argument on.
    UnableToParseRpcValue { method: String, argnum: usize, packet: Vec<u8> },
    /// A nested property update addressed a property that the entity does
    /// not hold yet.
    UnsupportedInternalPropSet { entity_id: u32, entity_type: String, payload: Vec<u8> },
    /// A packet referred to an entity id that was never created.
    UnknownEntity { entity_id: u32 },
    /// A packet referred to an entity type, property or method index that
    /// the entity definitions do not have.
    UnknownDefinition { type_index: u16, index: u32 },
    /// Bytes that should hold UTF-8 text do not.
    Utf8Error,
    /// A data file needed for the replay's version is missing.
    DatafileNotFound { version: crate::version::Version, path: String },
    /// The replay's metadata or an XML data file could not be parsed.
    ParsingFailure(String),
    /// The compressed packet stream could not be inflated.
    DecompressionFailure,
}

/// The name of the kind of error `e`.
pub open spec fn spec_error_name(e: ErrorKind) -> Seq<char> {
    match e {
        ErrorKind::UnexpectedEof => "UnexpectedEof"@,
        ErrorKind::BadTag => "BadTag"@,
        ErrorKind::UnknownFixedDictFlag { .. } => "UnknownFixedDictFlag"@,
        ErrorKind::UnsupportedReplayVersion(_) => "UnsupportedReplayVersion"@,
        ErrorKind::UnableToProcessPacket { .. } => "UnableToProcessPacket"@,
        ErrorKind::UnableToParseRpcValue { .. } => "UnableToParseRpcValue"@,
        ErrorKind::UnsupportedInternalPropSet { .. } => "UnsupportedInternalPropSet"@,
        ErrorKind::UnknownEntity { .. } => "UnknownEntity"@,
        ErrorKind::UnknownDefinition { .. } => "UnknownDefinition"@,
        ErrorKind::Utf8Error => "Utf8Error"@,
        ErrorKind::DatafileNotFound { .. } => "DatafileNotFound"@,
        ErrorKind::ParsingFailure(_) => "ParsingFailure"@,
        ErrorKind::DecompressionFailure => "DecompressionFailure"@,
    }
}

impl ErrorKind {
    /// The name of this kind of error.
    pub fn name(&self) -> (r: String)
        ensures
            r@ == spec_error_name(*self),
    {
        match self {
            ErrorKind::UnexpectedEof => "UnexpectedEof".to_owned(),
            ErrorKind::BadTag => "BadTag".to_owned(),
            ErrorKind::UnknownFixedDictFlag { .. } => "UnknownFixedDictFlag".to_owned(),
            ErrorKind::UnsupportedReplayVersion(_) => "UnsupportedReplayVersion".to_owned(),
            ErrorKind::UnableToProcessPacket { .. } => "UnableToProcessPacket".to_owned(),
            ErrorKind::UnableToParseRpcValue { .. } => "UnableToParseRpcValue".to_owned(),
            ErrorKind::UnsupportedInternalPropSet { .. } => "UnsupportedInternalPropSet".to_owned(),
            ErrorKind::UnknownEntity { .. } => "UnknownEntity".to_owned(),
            ErrorKind::UnknownDefinition { .. } => "UnknownDefinition".to_owned(),
            ErrorKind::Utf8Error => "Utf8Error".to_owned(),
            ErrorKind::DatafileNotFound { .. } => "DatafileNotFound".to_owned(),
            ErrorKind::ParsingFailure(_) => "ParsingFailure".to_owned(),
            ErrorKind::DecompressionFailure => "DecompressionFailure".to_owned(),
        }
    }
}

} // verus!
