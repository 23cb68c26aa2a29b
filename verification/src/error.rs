//! The ways in which loading, querying or patching a module can fail.

use vstd::prelude::*;

verus! {

/// The kind of a failure.
#[derive(Clone, Copy, Debug, PartialEq, Eq, Structural)]
pub enum ReflectError {
    /// The word buffer is empty.
    NoInput,
    /// The byte length of the input is not a multiple of the word size.
    InvalidCodeSize,
    /// The first word is not the SPIR-V magic number.
    InvalidMagicNumber,
    /// The header or an instruction runs past the end of the buffer.
    UnexpectedEof,
    /// The buffer holds a header and no instruction.
    NoInstructions,
    /// An instruction has a zero word count, an opcode that is not defined,
    /// or fewer words than its operands need.
    InvalidInstruction,
    /// A storage class operand is not defined.
    InvalidStorageClass,
    /// An id is referenced that no instruction defines.
    InvalidIdReference,
    /// Two instructions define the same id.
    DuplicateId,
    /// A literal string is not terminated inside its instruction, or is
    /// not UTF-8.
    InvalidString,
    /// The type graph refers back to itself.
    Recursion,
    /// The bindings use more distinct set numbers than there are slots.
    SetNumberOverflow,
    /// The index of the binding to change is out of range.
    BindingIndexOutOfRange,
    /// The word offset of a binding number lies outside the word buffer.
    BindingOffsetExceeded,
    /// The word offset of a set number lies outside the word buffer.
    SetOffsetExceeded,
    /// The word offset of a location lies outside the word buffer, or the
    /// variable has no location.
    LocationOffsetExceeded,
    /// The module has no binding with the set number to change.
    SetNotFound,
    /// The module has no interface variable with the id to change.
    VariableNotFound,
}

/// The text that goes with each kind of failure.
pub open spec fn error_text(e: ReflectError) -> Seq<char> {
    match e {
        ReflectError::NoInput => "No SPIR-V specified for shader module"@,
        ReflectError::InvalidCodeSize =>
            "Invalid SPIR-V data - length must be evenly divisible by WORD size (4)"@,
        ReflectError::InvalidMagicNumber =>
            "Invalid SPIR-V - does not start with valid magic number."@,
        ReflectError::UnexpectedEof => "Invalid SPIR-V - unexpected end of data"@,
        ReflectError::NoInstructions => "No nodes found in SPIR-V binary, invalid!"@,
        ReflectError::InvalidInstruction => "Invalid SPIR-V op!"@,
        ReflectError::InvalidStorageClass => "Invalid SPIR-V storage class!"@,
        ReflectError::InvalidIdReference => "Invalid SPIR-V ID reference"@,
        ReflectError::DuplicateId => "Invalid SPIR-V - duplicate result id"@,
        ReflectError::InvalidString => "Invalid SPIR-V - string is not valid"@,
        ReflectError::Recursion => "Invalid SPIR-V - recursive type"@,
        ReflectError::SetNumberOverflow =>
            "Error building descriptor sets - no more slots available"@,
        ReflectError::BindingIndexOutOfRange =>
            "Error attempting to change descriptor binding numbers - index is out of range"@,
        ReflectError::BindingOffsetExceeded =>
            "Error attempting to change descriptor binding numbers - binding word offset range exceeded"@,
        ReflectError::SetOffsetExceeded =>
            "Error attempting to change descriptor binding numbers - set word offset range exceeded"@,
        ReflectError::LocationOffsetExceeded =>
            "Error attempting to change variable location - word offset range exceeded"@,
        ReflectError::SetNotFound =>
            "Error attempting to change descriptor set number - set not found"@,
        ReflectError::VariableNotFound =>
            "Error attempting to change variable location - variable not found"@,
    }
}

impl ReflectError {
    /// The text of this failure, as a borrowed literal.
    pub fn as_str(&self) -> (text: &'static str)
        ensures
            text@ == error_text(*self),
    {
        match self {
            ReflectError::NoInput => "No SPIR-V specified for shader module",
            ReflectError::InvalidCodeSize =>
                "Invalid SPIR-V data - length must be evenly divisible by WORD size (4)",
            ReflectError::InvalidMagicNumber =>
                "Invalid SPIR-V - does not start with valid magic number.",
            ReflectError::UnexpectedEof => "Invalid SPIR-V - unexpected end of data",
            ReflectError::NoInstructions => "No nodes found in SPIR-V binary, invalid!",
            ReflectError::InvalidInstruction => "Invalid SPIR-V op!",
            ReflectError::InvalidStorageClass => "Invalid SPIR-V storage class!",
            ReflectError::InvalidIdReference => "Invalid SPIR-V ID reference",
            ReflectError::DuplicateId => "Invalid SPIR-V - duplicate result id",
            ReflectError::InvalidString => "Invalid SPIR-V - string is not valid",
            ReflectError::Recursion => "Invalid SPIR-V - recursive type",
            ReflectError::SetNumberOverflow =>
                "Error building descriptor sets - no more slots available",
            ReflectError::BindingIndexOutOfRange =>
                "Error attempting to change descriptor binding numbers - index is out of range",
            ReflectError::BindingOffsetExceeded =>
                "Error attempting to change descriptor binding numbers - binding word offset range exceeded",
            ReflectError::SetOffsetExceeded =>
                "Error attempting to change descriptor binding numbers - set word offset range exceeded",
            ReflectError::LocationOffsetExceeded =>
                "Error attempting to change variable location - word offset range exceeded",
            ReflectError::SetNotFound =>
                "Error attempting to change descriptor set number - set not found",
            ReflectError::VariableNotFound =>
                "Error attempting to change variable location - variable not found",
        }
    }

    /// The text of this failure, as an owned string.
    pub fn message(&self) -> (text: String)
        ensures
            text@ == error_text(*self),
    {
        self.as_str().to_owned()
    }
}

/// The outcome of an operation, as the reflection interface of the
/// Khronos tools names it.
#[derive(Clone, Copy, Debug, PartialEq, Eq, Structural)]
pub enum ReflectResult {
    Success,
    NotReady,
    ErrorParseFailed,
    ErrorAllocFailed,
    ErrorRangeExceeded,
    ErrorNullPointer,
    ErrorInternalError,
    ErrorCountMismatch,
    ErrorElementNotFound,
    ErrorSpirvInvalidCodeSize,
    ErrorSpirvInvalidMagicNumber,
    ErrorSpirvUnexpectedEof,
    ErrorSpirvInvalidIdReference,
    ErrorSpirvSetNumberOverflow,
    ErrorSpirvInvalidStorageClass,
    ErrorSpirvRecursion,
}

/// The short text of each outcome.
pub open spec fn spec_result_text(result: ReflectResult) -> Seq<char> {
    match result {
        ReflectResult::Success => "Success"@,
        ReflectResult::NotReady => "Result Not Ready"@,
        ReflectResult::ErrorParseFailed => "Parse Failed"@,
        ReflectResult::ErrorAllocFailed => "Allocation Failed"@,
        ReflectResult::ErrorRangeExceeded => "Range Exceeded"@,
        ReflectResult::ErrorNullPointer => "Null Pointer"@,
        ReflectResult::ErrorInternalError => "Internal Error"@,
        ReflectResult::ErrorCountMismatch => "Count Mismatch"@,
        ReflectResult::ErrorElementNotFound => "Element Not Found"@,
        ReflectResult::ErrorSpirvInvalidCodeSize => "Invalid Code Size"@,
        ReflectResult::ErrorSpirvInvalidMagicNumber => "Invalid Magic Number"@,
        ReflectResult::ErrorSpirvUnexpectedEof => "Unexpected EoF"@,
        ReflectResult::ErrorSpirvInvalidIdReference => "Invalid ID Reference"@,
        ReflectResult::ErrorSpirvSetNumberOverflow => "Set Number Overflow"@,
        ReflectResult::ErrorSpirvInvalidStorageClass => "Invalid Storage Class"@,
        ReflectResult::ErrorSpirvRecursion => "Spirv Recursion"@,
    }
}

/// The short text of an outcome.
pub fn result_to_string(result: ReflectResult) -> (text: &'static str)
    ensures
        text@ == spec_result_text(result),
{
    match result {
        ReflectResult::Success => "Success",
        ReflectResult::NotReady => "Result Not Ready",
        ReflectResult::ErrorParseFailed => "Parse Failed",
        ReflectResult::ErrorAllocFailed => "Allocation Failed",
        ReflectResult::ErrorRangeExceeded => "Range Exceeded",
        ReflectResult::ErrorNullPointer => "Null Pointer",
        ReflectResult::ErrorInternalError => "Internal Error",
        ReflectResult::ErrorCountMismatch => "Count Mismatch",
        ReflectResult::ErrorElementNotFound => "Element Not Found",
        ReflectResult::ErrorSpirvInvalidCodeSize => "Invalid Code Size",
        ReflectResult::ErrorSpirvInvalidMagicNumber => "Invalid Magic Number",
        ReflectResult::ErrorSpirvUnexpectedEof => "Unexpected EoF",
        ReflectResult::ErrorSpirvInvalidIdReference => "Invalid ID Reference",
        ReflectResult::ErrorSpirvSetNumberOverflow => "Set Number Overflow",
        ReflectResult::ErrorSpirvInvalidStorageClass => "Invalid Storage Class",
        ReflectResult::ErrorSpirvRecursion => "Spirv Recursion",
    }
}

impl ReflectError {
    /// The outcome that stands for this failure.
    pub open spec fn spec_result(self) -> ReflectResult {
        match self {
            ReflectError::NoInput => ReflectResult::ErrorSpirvInvalidCodeSize,
            ReflectError::InvalidCodeSize => ReflectResult::ErrorSpirvInvalidCodeSize,
            ReflectError::InvalidMagicNumber => ReflectResult::ErrorSpirvInvalidMagicNumber,
            ReflectError::UnexpectedEof => ReflectResult::ErrorSpirvUnexpectedEof,
            ReflectError::NoInstructions => ReflectResult::ErrorParseFailed,
            ReflectError::InvalidInstruction => ReflectResult::ErrorParseFailed,
            ReflectError::InvalidStorageClass => ReflectResult::ErrorSpirvInvalidStorageClass,
            ReflectError::InvalidIdReference => ReflectResult::ErrorSpirvInvalidIdReference,
            ReflectError::DuplicateId => ReflectResult::ErrorSpirvInvalidIdReference,
            ReflectError::InvalidString => ReflectResult::ErrorParseFailed,
            ReflectError::Recursion => ReflectResult::ErrorSpirvRecursion,
            ReflectError::SetNumberOverflow => ReflectResult::ErrorSpirvSetNumberOverflow,
            ReflectError::BindingIndexOutOfRange => ReflectResult::ErrorRangeExceeded,
            ReflectError::BindingOffsetExceeded => ReflectResult::ErrorRangeExceeded,
            ReflectError::SetOffsetExceeded => ReflectResult::ErrorRangeExceeded,
            ReflectError::LocationOffsetExceeded => ReflectResult::ErrorRangeExceeded,
            ReflectError::SetNotFound => ReflectResult::ErrorElementNotFound,
            ReflectError::VariableNotFound => ReflectResult::ErrorElementNotFound,
        }
    }

    /// The outcome that stands for this failure.
    pub fn result(&self) -> (result: ReflectResult)
        ensures
            result == self.spec_result(),
    {
        match self {
            ReflectError::NoInput => ReflectResult::ErrorSpirvInvalidCodeSize,
            ReflectError::InvalidCodeSize => ReflectResult::ErrorSpirvInvalidCodeSize,
            ReflectError::InvalidMagicNumber => ReflectResult::ErrorSpirvInvalidMagicNumber,
            ReflectError::UnexpectedEof => ReflectResult::ErrorSpirvUnexpectedEof,
            ReflectError::NoInstructions => ReflectResult::ErrorParseFailed,
            ReflectError::InvalidInstruction => ReflectResult::ErrorParseFailed,
            ReflectError::InvalidStorageClass => ReflectResult::ErrorSpirvInvalidStorageClass,
            ReflectError::InvalidIdReference => ReflectResult::ErrorSpirvInvalidIdReference,
            ReflectError::DuplicateId => ReflectResult::ErrorSpirvInvalidIdReference,
            ReflectError::InvalidString => ReflectResult::ErrorParseFailed,
            ReflectError::Recursion => ReflectResult::ErrorSpirvRecursion,
            ReflectError::SetNumberOverflow => ReflectResult::ErrorSpirvSetNumberOverflow,
            ReflectError::BindingIndexOutOfRange => ReflectResult::ErrorRangeExceeded,
            ReflectError::BindingOffsetExceeded => ReflectResult::ErrorRangeExceeded,
            ReflectError::SetOffsetExceeded => ReflectResult::ErrorRangeExceeded,
            ReflectError::LocationOffsetExceeded => ReflectResult::ErrorRangeExceeded,
            ReflectError::SetNotFound => ReflectResult::ErrorElementNotFound,
            ReflectError::VariableNotFound => ReflectResult::ErrorElementNotFound,
        }
    }
}

} // verus!
