//! The library's error types.
use vstd::prelude::*;

verus! {

/// Errors of DNA lookups.
#[derive(Debug, Clone, PartialEq, Eq)]
pub enum DnaError {
    ZomeNotFound(String),
    CapabilityNotFound(String),
    TraitNotFound(String),
}

/// Error codes that a callback hands back through its return value.
#[derive(Debug, Clone, Copy, PartialEq, Eq)]
pub enum RibosomeErrorCode {
    ArgumentDeserializationFailed,
    OutOfMemory,
    ReceivedWrongActionResult,
    CallbackFailed,
    RecursiveCallForbidden,
    ResponseSerializationFailed,
    NotAnAllocation,
    ZeroSizedAllocation,
    UnknownEntryType,
}

/// The number of each code on the return channel.
pub open spec fn code_number(c: RibosomeErrorCode) -> u32 {
    match c {
        RibosomeErrorCode::ArgumentDeserializationFailed => 1,
        RibosomeErrorCode::OutOfMemory => 2,
        RibosomeErrorCode::ReceivedWrongActionResult => 3,
        RibosomeErrorCode::CallbackFailed => 4,
        RibosomeErrorCode::RecursiveCallForbidden => 5,
        RibosomeErrorCode::ResponseSerializationFailed => 6,
        RibosomeErrorCode::NotAnAllocation => 7,
        RibosomeErrorCode::ZeroSizedAllocation => 8,
        RibosomeErrorCode::UnknownEntryType => 9,
    }
}

impl RibosomeErrorCode {
    pub fn code(&self) -> (r: u32)
        ensures
            r == code_number(*self),
    {
        match self {
            RibosomeErrorCode::ArgumentDeserializationFailed => 1,
            RibosomeErrorCode::OutOfMemory => 2,
            RibosomeErrorCode::ReceivedWrongActionResult => 3,
            RibosomeErrorCode::CallbackFailed => 4,
            RibosomeErrorCode::RecursiveCallForbidden => 5,
            RibosomeErrorCode::ResponseSerializationFailed => 6,
            RibosomeErrorCode::NotAnAllocation => 7,
            RibosomeErrorCode::ZeroSizedAllocation => 8,
            RibosomeErrorCode::UnknownEntryType => 9,
        }
    }

    /// The code with number `n`, if there is one.
    pub open spec fn spec_from_code(n: u32) -> Option<RibosomeErrorCode> {
        if n == 1 {
            Some(RibosomeErrorCode::ArgumentDeserializationFailed)
        } else if n == 2 {
            Some(RibosomeErrorCode::OutOfMemory)
        } else if n == 3 {
            Some(RibosomeErrorCode::ReceivedWrongActionResult)
        } else if n == 4 {
            Some(RibosomeErrorCode::CallbackFailed)
        } else if n == 5 {
            Some(RibosomeErrorCode::RecursiveCallForbidden)
        } else if n == 6 {
            Some(RibosomeErrorCode::ResponseSerializationFailed)
        } else if n == 7 {
            Some(RibosomeErrorCode::NotAnAllocation)
        } else if n == 8 {
            Some(RibosomeErrorCode::ZeroSizedAllocation)
        } else if n == 9 {
            Some(RibosomeErrorCode::UnknownEntryType)
        } else {
            None
        }
    }

    /// The code for a number, if it is one.
    pub fn from_code(n: u32) -> (r: Option<RibosomeErrorCode>)
        ensures
            match r {
                Some(c) => code_number(c) == n,
                None => !(1 <= n <= 9),
            },
            r == Self::spec_from_code(n),
    {
        if n == 1 {
            Some(RibosomeErrorCode::ArgumentDeserializationFailed)
        } else if n == 2 {
            Some(RibosomeErrorCode::OutOfMemory)
        } else if n == 3 {
            Some(RibosomeErrorCode::ReceivedWrongActionResult)
        } else if n == 4 {
            Some(RibosomeErrorCode::CallbackFailed)
        } else if n == 5 {
            Some(RibosomeErrorCode::RecursiveCallForbidden)
        } else if n == 6 {
            Some(RibosomeErrorCode::ResponseSerializationFailed)
        } else if n == 7 {
            Some(RibosomeErrorCode::NotAnAllocation)
        } else if n == 8 {
            Some(RibosomeErrorCode::ZeroSizedAllocation)
        } else if n == 9 {
            Some(RibosomeErrorCode::UnknownEntryType)
        } else {
            None
        }
    }
}

/// Distinct codes have distinct numbers.
pub proof fn lemma_code_numbers_distinct(a: RibosomeErrorCode, b: RibosomeErrorCode)
    ensures
        code_number(a) == code_number(b) ==> a == b,
        1 <= code_number(a) <= 9,
{
}

/// The library's error union.
#[derive(Debug, Clone, PartialEq, Eq)]
pub enum HolochainError {
    ErrorGeneric(String),
    NotImplemented,
    LoggingError,
    DnaMissing,
    Dna(DnaError),
    IoError(String),
    SerializationError(String),
    InvalidOperationOnSysEntry,
    ValidationFailed(String),
    Ribosome(RibosomeErrorCode),
    RibosomeFailed(String),
    ConfigError(String),
    Timeout,
    ChainDivergence,
}

} // verus!
