//! Error model: wire-level error codes embedded in responses, and the
//! internal decode errors that abort a single request.
use vstd::prelude::*;

verus! {

/// Protocol error codes carried inside responses. Failures are per item
/// (per topic, per partition), never connection-fatal, except for the
/// version short-circuit.
#[derive(Clone, Copy, Debug, PartialEq, Eq, Structural)]
pub enum ErrorCode {
    NONE,
    UnsupportedVersion,
    UnknownTopicOrPartition,
    UnknownTopicId,
}

impl ErrorCode {
    /// The wire value of this error code.
    pub open spec fn spec_code(self) -> i16 {
        match self {
            ErrorCode::NONE => 0,
            ErrorCode::UnsupportedVersion => 35,
            ErrorCode::UnknownTopicOrPartition => 3,
            ErrorCode::UnknownTopicId => 100,
        }
    }

    pub fn code(self) -> (r: i16)
        ensures
            r == self.spec_code(),
    {
        match self {
            ErrorCode::NONE => 0,
            ErrorCode::UnsupportedVersion => 35,
            ErrorCode::UnknownTopicOrPartition => 3,
            ErrorCode::UnknownTopicId => 100,
        }
    }
}

/// Why a request or the metadata log could not be decoded. These abort only
/// the request (or connection) that carried the bad bytes.
#[derive(Clone, Copy, Debug, PartialEq, Eq, Structural)]
pub enum DecodeError {
    /// The input ran out before a complete value was read.
    TruncatedInput,
    /// The metadata log is not a valid sequence of record batches.
    CorruptLog,
    /// The request names an API this broker has no handler for.
    UnknownApiKey,
}

} // verus!
