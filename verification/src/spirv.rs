//! What the library asks of the `spirv_headers` enumerations: whether a
//! number read from the word stream is one of their values.

use num_traits::FromPrimitive;
use vstd::prelude::*;

verus! {

/// Opcodes that the reflection reads.
pub const OP_SOURCE: u32 = 3;
pub const OP_NAME: u32 = 5;
pub const OP_MEMBER_NAME: u32 = 6;
pub const OP_STRING: u32 = 7;
pub const OP_ENTRY_POINT: u32 = 15;
pub const OP_EXECUTION_MODE: u32 = 16;
pub const OP_TYPE_VOID: u32 = 19;
pub const OP_TYPE_BOOL: u32 = 20;
pub const OP_TYPE_INT: u32 = 21;
pub const OP_TYPE_FLOAT: u32 = 22;
pub const OP_TYPE_VECTOR: u32 = 23;
pub const OP_TYPE_MATRIX: u32 = 24;
pub const OP_TYPE_IMAGE: u32 = 25;
pub const OP_TYPE_SAMPLER: u32 = 26;
pub const OP_TYPE_SAMPLED_IMAGE: u32 = 27;
pub const OP_TYPE_ARRAY: u32 = 28;
pub const OP_TYPE_RUNTIME_ARRAY: u32 = 29;
pub const OP_TYPE_STRUCT: u32 = 30;
pub const OP_TYPE_OPAQUE: u32 = 31;
pub const OP_TYPE_POINTER: u32 = 32;
pub const OP_TYPE_FUNCTION: u32 = 33;
pub const OP_TYPE_EVENT: u32 = 34;
pub const OP_TYPE_DEVICE_EVENT: u32 = 35;
pub const OP_TYPE_RESERVE_ID: u32 = 36;
pub const OP_TYPE_QUEUE: u32 = 37;
pub const OP_TYPE_PIPE: u32 = 38;
pub const OP_TYPE_FORWARD_POINTER: u32 = 39;
pub const OP_CONSTANT_TRUE: u32 = 41;
pub const OP_CONSTANT_FALSE: u32 = 42;
pub const OP_CONSTANT: u32 = 43;
pub const OP_CONSTANT_COMPOSITE: u32 = 44;
pub const OP_CONSTANT_SAMPLER: u32 = 45;
pub const OP_CONSTANT_NULL: u32 = 46;
pub const OP_FUNCTION: u32 = 54;
pub const OP_FUNCTION_END: u32 = 56;
pub const OP_FUNCTION_CALL: u32 = 57;
pub const OP_VARIABLE: u32 = 59;
pub const OP_IMAGE_TEXEL_POINTER: u32 = 60;
pub const OP_LOAD: u32 = 61;
pub const OP_STORE: u32 = 62;
pub const OP_COPY_MEMORY: u32 = 63;
pub const OP_COPY_MEMORY_SIZED: u32 = 64;
pub const OP_ACCESS_CHAIN: u32 = 65;
pub const OP_IN_BOUNDS_ACCESS_CHAIN: u32 = 66;
pub const OP_PTR_ACCESS_CHAIN: u32 = 67;
pub const OP_ARRAY_LENGTH: u32 = 68;
pub const OP_IN_BOUNDS_PTR_ACCESS_CHAIN: u32 = 70;
pub const OP_DECORATE: u32 = 71;
pub const OP_MEMBER_DECORATE: u32 = 72;
pub const OP_COPY_OBJECT: u32 = 83;
pub const OP_DECORATE_ID: u32 = 332;
pub const OP_TYPE_ACCELERATION_STRUCTURE_NV: u32 = 5341;
pub const OP_DECORATE_STRING: u32 = 5632;
pub const OP_MEMBER_DECORATE_STRING: u32 = 5633;

/// Decorations that the reflection reads.
pub const DECORATION_BLOCK: u32 = 2;
pub const DECORATION_BUFFER_BLOCK: u32 = 3;
pub const DECORATION_ROW_MAJOR: u32 = 4;
pub const DECORATION_COL_MAJOR: u32 = 5;
pub const DECORATION_ARRAY_STRIDE: u32 = 6;
pub const DECORATION_MATRIX_STRIDE: u32 = 7;
pub const DECORATION_BUILT_IN: u32 = 11;
pub const DECORATION_NO_PERSPECTIVE: u32 = 13;
pub const DECORATION_FLAT: u32 = 14;
pub const DECORATION_NON_WRITABLE: u32 = 24;
pub const DECORATION_LOCATION: u32 = 30;
pub const DECORATION_BINDING: u32 = 33;
pub const DECORATION_DESCRIPTOR_SET: u32 = 34;
pub const DECORATION_OFFSET: u32 = 35;
pub const DECORATION_INPUT_ATTACHMENT_INDEX: u32 = 43;
pub const DECORATION_COUNTER_BUFFER: u32 = 5634;
pub const DECORATION_USER_SEMANTIC: u32 = 5635;

/// The execution mode that declares a workgroup size.
pub const EXECUTION_MODE_LOCAL_SIZE: u32 = 17;

/// Whether `spirv_headers::Op` has a variant numbered `code`.
pub uninterp spec fn spirv_op_defined(code: u32) -> bool;

/// Whether `spirv_headers::BuiltIn` has a variant numbered `code`.
pub uninterp spec fn spirv_built_in_defined(code: u32) -> bool;

/// The numbers of the variants of `spirv_headers::StorageClass`.
pub open spec fn spirv_storage_class_defined(code: u32) -> bool {
    ||| code <= 12
    ||| code == 5328
    ||| code == 5329
    ||| code == 5338
    ||| code == 5339
    ||| code == 5342
    ||| code == 5343
    ||| code == 5349
}

/// The numbers of the variants of `spirv_headers::ExecutionModel`.
pub open spec fn spirv_execution_model_defined(code: u32) -> bool {
    ||| code <= 6
    ||| code == 5267
    ||| code == 5268
    ||| 5313 <= code <= 5318
}

/// The numbers of the variants of `spirv_headers::SourceLanguage`.
pub open spec fn spirv_source_language_defined(code: u32) -> bool {
    code <= 5
}

/// The numbers of the variants of `spirv_headers::Dim`.
pub open spec fn spirv_dim_defined(code: u32) -> bool {
    code <= 6
}

/// The numbers of the variants of `spirv_headers::ImageFormat`.
pub open spec fn spirv_image_format_defined(code: u32) -> bool {
    code <= 39
}

/// `spirv_headers::Op::from_u32`: the result is `Some` exactly for the
/// numbers of the enumeration's variants. Which numbers those are is left
/// to `spirv_op_defined`.
#[verifier::external_body]
pub(crate) fn op_defined(code: u32) -> (defined: bool)
    ensures
        defined == spirv_op_defined(code),
{
    spirv_headers::Op::from_u32(code).is_some()
}

/// `spirv_headers::BuiltIn::from_u32`: the result is `Some` exactly for the
/// numbers of the enumeration's variants. Which numbers those are is left
/// to `spirv_built_in_defined`.
#[verifier::external_body]
pub(crate) fn built_in_defined(code: u32) -> (defined: bool)
    ensures
        defined == spirv_built_in_defined(code),
{
    spirv_headers::BuiltIn::from_u32(code).is_some()
}

/// `spirv_headers::StorageClass::from_u32`: the result is `Some` exactly for
/// 0 to 12 and the seven extension classes.
#[verifier::external_body]
pub(crate) fn storage_class_defined(code: u32) -> (defined: bool)
    ensures
        defined == spirv_storage_class_defined(code),
{
    spirv_headers::StorageClass::from_u32(code).is_some()
}

/// `spirv_headers::ExecutionModel::from_u32`: the result is `Some` exactly
/// for 0 to 6 and the eight extension models.
#[verifier::external_body]
pub(crate) fn execution_model_defined(code: u32) -> (defined: bool)
    ensures
        defined == spirv_execution_model_defined(code),
{
    spirv_headers::ExecutionModel::from_u32(code).is_some()
}

/// `spirv_headers::SourceLanguage::from_u32`: the result is `Some` exactly
/// for 0 to 5.
#[verifier::external_body]
pub(crate) fn source_language_defined(code: u32) -> (defined: bool)
    ensures
        defined == spirv_source_language_defined(code),
{
    spirv_headers::SourceLanguage::from_u32(code).is_some()
}

/// `spirv_headers::Dim::from_u32`: the result is `Some` exactly for 0 to 6.
#[verifier::external_body]
pub(crate) fn dim_defined(code: u32) -> (defined: bool)
    ensures
        defined == spirv_dim_defined(code),
{
    spirv_headers::Dim::from_u32(code).is_some()
}

/// `spirv_headers::ImageFormat::from_u32`: the result is `Some` exactly for
/// 0 to 39.
#[verifier::external_body]
pub(crate) fn image_format_defined(code: u32) -> (defined: bool)
    ensures
        defined == spirv_image_format_defined(code),
{
    spirv_headers::ImageFormat::from_u32(code).is_some()
}

} // verus!
