//! The instruction index: one node for each instruction of the word stream.

use crate::error::ReflectError;
use crate::spirv::{
    op_defined, spirv_op_defined, spirv_storage_class_defined, storage_class_defined,
    DECORATION_ARRAY_STRIDE, DECORATION_BINDING, DECORATION_BUILT_IN, DECORATION_COUNTER_BUFFER,
    DECORATION_DESCRIPTOR_SET, DECORATION_INPUT_ATTACHMENT_INDEX, DECORATION_LOCATION,
    DECORATION_MATRIX_STRIDE, DECORATION_OFFSET, DECORATION_USER_SEMANTIC, OP_ACCESS_CHAIN,
    OP_ARRAY_LENGTH, OP_CONSTANT, OP_CONSTANT_COMPOSITE, OP_CONSTANT_FALSE, OP_CONSTANT_NULL,
    OP_CONSTANT_SAMPLER, OP_CONSTANT_TRUE, OP_COPY_MEMORY, OP_COPY_MEMORY_SIZED, OP_COPY_OBJECT,
    OP_DECORATE, OP_DECORATE_ID, OP_DECORATE_STRING, OP_ENTRY_POINT, OP_EXECUTION_MODE, OP_FUNCTION,
    OP_FUNCTION_CALL, OP_IMAGE_TEXEL_POINTER, OP_IN_BOUNDS_ACCESS_CHAIN,
    OP_IN_BOUNDS_PTR_ACCESS_CHAIN, OP_LOAD, OP_MEMBER_DECORATE, OP_MEMBER_DECORATE_STRING,
    OP_MEMBER_NAME, OP_NAME, OP_PTR_ACCESS_CHAIN, OP_SOURCE, OP_STORE, OP_STRING,
    OP_TYPE_ACCELERATION_STRUCTURE_NV, OP_TYPE_ARRAY, OP_TYPE_BOOL, OP_TYPE_DEVICE_EVENT,
    OP_TYPE_EVENT, OP_TYPE_FLOAT, OP_TYPE_FORWARD_POINTER, OP_TYPE_FUNCTION, OP_TYPE_IMAGE,
    OP_TYPE_INT, OP_TYPE_MATRIX, OP_TYPE_OPAQUE, OP_TYPE_PIPE, OP_TYPE_POINTER, OP_TYPE_QUEUE,
    OP_TYPE_RESERVE_ID, OP_TYPE_RUNTIME_ARRAY, OP_TYPE_SAMPLED_IMAGE, OP_TYPE_SAMPLER,
    OP_TYPE_STRUCT, OP_TYPE_VECTOR, OP_TYPE_VOID, OP_VARIABLE,
};
use crate::types::image::ReflectImageFormat;
use crate::types::variable::{ReflectDimension, ReflectStorageClass};
use crate::words::{opcode_of, spec_opcode, spec_word_count, word_count_of, STARTING_WORD};
use std::collections::HashSet;
use vstd::prelude::*;

verus! {

/// The ids that an array type refers to.
#[derive(Clone, Copy, Debug, PartialEq, Eq, Structural)]
pub struct ParserArrayTraits {
    pub element_type_id: u32,
    pub length_id: u32,
}

/// The operands of an image type.
#[derive(Clone, Copy, Debug, PartialEq, Eq, Structural)]
pub struct ParserImageTraits {
    pub sampled_type_id: u32,
    pub dim: ReflectDimension,
    pub depth: u32,
    pub arrayed: u32,
    pub ms: u32,
    pub sampled: u32,
    pub image_format: ReflectImageFormat,
}

/// What the index keeps of one instruction.
#[derive(Clone, Copy, Debug, PartialEq, Eq, Structural)]
pub struct ParserNode {
    /// The id that the instruction defines, or 0.
    pub result_id: u32,
    /// The opcode's number.
    pub op: u32,
    pub result_type_id: u32,
    pub type_id: u32,
    pub storage_class: ReflectStorageClass,
    /// Where the instruction starts in the word stream.
    pub word_offset: u32,
    /// How many words it fills.
    pub word_count: u32,
    /// Whether the instruction declares a type.
    pub is_type: bool,
    pub array_traits: ParserArrayTraits,
    pub image_traits: ParserImageTraits,
    pub image_type_id: u32,
    /// For a struct type, the number of members that it lists.
    pub member_count: u32,
}

/// Whether an instruction starts at `pos` and ends inside the stream.
pub open spec fn spec_frame_ok(words: Seq<u32>, pos: int) -> bool {
    &&& 0 <= pos < words.len()
    &&& spec_word_count(words[pos]) >= 1
    &&& pos + spec_word_count(words[pos]) <= words.len()
}

/// Whether a decoration is followed by an operand that the reflection
/// reads.
pub open spec fn spec_decoration_has_operand(kind: u32) -> bool {
    ||| kind == DECORATION_ARRAY_STRIDE
    ||| kind == DECORATION_MATRIX_STRIDE
    ||| kind == DECORATION_BUILT_IN
    ||| kind == DECORATION_LOCATION
    ||| kind == DECORATION_BINDING
    ||| kind == DECORATION_DESCRIPTOR_SET
    ||| kind == DECORATION_OFFSET
    ||| kind == DECORATION_INPUT_ATTACHMENT_INDEX
    ||| kind == DECORATION_COUNTER_BUFFER
    ||| kind == DECORATION_USER_SEMANTIC
}

/// Whether a decoration is followed by an operand that the reflection
/// reads.
pub fn decoration_has_operand(kind: u32) -> (has: bool)
    ensures
        has == spec_decoration_has_operand(kind),
{
    kind == DECORATION_ARRAY_STRIDE || kind == DECORATION_MATRIX_STRIDE || kind
        == DECORATION_BUILT_IN || kind == DECORATION_LOCATION || kind == DECORATION_BINDING || kind
        == DECORATION_DESCRIPTOR_SET || kind == DECORATION_OFFSET || kind
        == DECORATION_INPUT_ATTACHMENT_INDEX || kind == DECORATION_COUNTER_BUFFER || kind
        == DECORATION_USER_SEMANTIC
}

/// Whether `op` declares a type of which only the result id is kept.
pub open spec fn spec_is_plain_type(op: u32) -> bool {
    ||| op == OP_TYPE_VOID
    ||| op == OP_TYPE_BOOL
    ||| op == OP_TYPE_INT
    ||| op == OP_TYPE_FLOAT
    ||| op == OP_TYPE_VECTOR
    ||| op == OP_TYPE_MATRIX
    ||| op == OP_TYPE_SAMPLER
    ||| op == OP_TYPE_OPAQUE
    ||| op == OP_TYPE_FUNCTION
    ||| op == OP_TYPE_EVENT
    ||| op == OP_TYPE_DEVICE_EVENT
    ||| op == OP_TYPE_RESERVE_ID
    ||| op == OP_TYPE_QUEUE
    ||| op == OP_TYPE_PIPE
    ||| op == OP_TYPE_ACCELERATION_STRUCTURE_NV
}

/// Whether an instruction with the opcode `op` has a pointer as its third
/// operand: a load, an access chain of any kind, an array length, an
/// image texel pointer or a copy of an object.
pub open spec fn spec_has_pointer_operand(op: u32) -> bool {
    ||| op == OP_LOAD
    ||| op == OP_ACCESS_CHAIN
    ||| op == OP_IN_BOUNDS_ACCESS_CHAIN
    ||| op == OP_PTR_ACCESS_CHAIN
    ||| op == OP_IN_BOUNDS_PTR_ACCESS_CHAIN
    ||| op == OP_ARRAY_LENGTH
    ||| op == OP_IMAGE_TEXEL_POINTER
    ||| op == OP_COPY_OBJECT
}

/// Whether an instruction with the opcode `op` has a pointer as its third
/// operand.
pub fn has_pointer_operand(op: u32) -> (has: bool)
    ensures
        has == spec_has_pointer_operand(op),
{
    op == OP_LOAD || op == OP_ACCESS_CHAIN || op == OP_IN_BOUNDS_ACCESS_CHAIN || op
        == OP_PTR_ACCESS_CHAIN || op == OP_IN_BOUNDS_PTR_ACCESS_CHAIN || op == OP_ARRAY_LENGTH || op
        == OP_IMAGE_TEXEL_POINTER || op == OP_COPY_OBJECT
}

/// Whether `op` defines a constant.
pub open spec fn spec_is_constant(op: u32) -> bool {
    ||| op == OP_CONSTANT_TRUE
    ||| op == OP_CONSTANT_FALSE
    ||| op == OP_CONSTANT
    ||| op == OP_CONSTANT_COMPOSITE
    ||| op == OP_CONSTANT_SAMPLER
    ||| op == OP_CONSTANT_NULL
}

/// The least number of words that the instruction at `pos` must have for
/// the reflection to read its operands: the opcode word, the operands that
/// are read, and one word of each literal string.
pub open spec fn spec_required_words(words: Seq<u32>, pos: int) -> int {
    let op = spec_opcode(words[pos]);
    let count = spec_word_count(words[pos]);
    if op == OP_TYPE_IMAGE {
        9
    } else if op == OP_MEMBER_DECORATE || op == OP_MEMBER_DECORATE_STRING {
        if count >= 4 && spec_decoration_has_operand(words[pos + 3]) {
            5
        } else {
            4
        }
    } else if op == OP_DECORATE || op == OP_DECORATE_ID || op == OP_DECORATE_STRING {
        if count >= 3 && spec_decoration_has_operand(words[pos + 2]) {
            4
        } else {
            3
        }
    } else if op == OP_MEMBER_NAME || op == OP_ENTRY_POINT || op == OP_TYPE_INT || op
        == OP_TYPE_VECTOR || op == OP_TYPE_MATRIX || op == OP_TYPE_ARRAY || op == OP_TYPE_POINTER
        || op == OP_CONSTANT || op == OP_VARIABLE || op == OP_FUNCTION_CALL
        || spec_has_pointer_operand(op) {
        4
    } else if op == OP_SOURCE || op == OP_NAME || op == OP_STRING || op == OP_EXECUTION_MODE || op
        == OP_TYPE_FLOAT || op == OP_TYPE_SAMPLED_IMAGE || op == OP_TYPE_RUNTIME_ARRAY || op
        == OP_TYPE_FORWARD_POINTER || spec_is_constant(op) || op == OP_FUNCTION || op == OP_STORE
        || op == OP_COPY_MEMORY || op == OP_COPY_MEMORY_SIZED {
        3
    } else if op == OP_TYPE_STRUCT || spec_is_plain_type(op) {
        2
    } else {
        1
    }
}

/// The node of an instruction before its operands are read.
pub open spec fn spec_blank_node(pos: int, word: u32) -> ParserNode {
    ParserNode {
        result_id: 0,
        op: spec_opcode(word),
        result_type_id: 0,
        type_id: 0,
        storage_class: ReflectStorageClass::Undefined,
        word_offset: pos as u32,
        word_count: spec_word_count(word),
        is_type: false,
        array_traits: ParserArrayTraits { element_type_id: 0, length_id: 0 },
        image_traits: ParserImageTraits {
            sampled_type_id: 0,
            dim: ReflectDimension::Undefined,
            depth: 0,
            arrayed: 0,
            ms: 0,
            sampled: 0,
            image_format: ReflectImageFormat::Undefined,
        },
        image_type_id: 0,
        member_count: 0,
    }
}

/// The node of the instruction at `pos`. The opcode must be one that
/// `spirv_headers` defines, the instruction must have the words that its
/// operands need, and a storage class operand must be defined.
pub open spec fn spec_decode_node(words: Seq<u32>, pos: int) -> Result<ParserNode, ReflectError> {
    if !spirv_op_defined(spec_opcode(words[pos])) {
        Err(ReflectError::InvalidInstruction)
    } else {
        spec_decode_operands(words, pos)
    }
}

/// The node of the instruction at `pos`, whose opcode is defined: what the
/// index keeps of its operands. A forward pointer declares the id of a
/// pointer type that a later instruction defines: its node keeps that id
/// as the type it refers to, and defines no id and no type of its own.
pub open spec fn spec_decode_operands(
    words: Seq<u32>,
    pos: int,
) -> Result<ParserNode, ReflectError> {
    let word = words[pos];
    let op = spec_opcode(word);
    let count = spec_word_count(word);
    let blank = spec_blank_node(pos, word);
    if count < spec_required_words(words, pos) {
        Err(ReflectError::InvalidInstruction)
    } else if op == OP_TYPE_STRUCT {
        Ok(
            ParserNode {
                member_count: (count - 2) as u32,
                result_id: words[pos + 1],
                is_type: true,
                ..blank
            },
        )
    } else if spec_is_plain_type(op) {
        Ok(ParserNode { result_id: words[pos + 1], is_type: true, ..blank })
    } else if op == OP_TYPE_IMAGE {
        Ok(
            ParserNode {
                result_id: words[pos + 1],
                image_traits: ParserImageTraits {
                    sampled_type_id: words[pos + 2],
                    dim: ReflectDimension::spec_from_code(words[pos + 3]),
                    depth: words[pos + 4],
                    arrayed: words[pos + 5],
                    ms: words[pos + 6],
                    sampled: words[pos + 7],
                    image_format: ReflectImageFormat::spec_from_code(words[pos + 8]),
                },
                is_type: true,
                ..blank
            },
        )
    } else if op == OP_TYPE_SAMPLED_IMAGE {
        Ok(
            ParserNode {
                result_id: words[pos + 1],
                image_type_id: words[pos + 2],
                is_type: true,
                ..blank
            },
        )
    } else if op == OP_TYPE_ARRAY {
        Ok(
            ParserNode {
                result_id: words[pos + 1],
                array_traits: ParserArrayTraits {
                    element_type_id: words[pos + 2],
                    length_id: words[pos + 3],
                },
                is_type: true,
                ..blank
            },
        )
    } else if op == OP_TYPE_RUNTIME_ARRAY {
        Ok(
            ParserNode {
                result_id: words[pos + 1],
                array_traits: ParserArrayTraits { element_type_id: words[pos + 2], length_id: 0 },
                is_type: true,
                ..blank
            },
        )
    } else if op == OP_TYPE_POINTER {
        if !spirv_storage_class_defined(words[pos + 2]) {
            Err(ReflectError::InvalidStorageClass)
        } else {
            Ok(
                ParserNode {
                    result_id: words[pos + 1],
                    storage_class: ReflectStorageClass::spec_from_code(words[pos + 2]),
                    type_id: words[pos + 3],
                    is_type: true,
                    ..blank
                },
            )
        }
    } else if op == OP_TYPE_FORWARD_POINTER {
        if !spirv_storage_class_defined(words[pos + 2]) {
            Err(ReflectError::InvalidStorageClass)
        } else {
            Ok(
                ParserNode {
                    type_id: words[pos + 1],
                    storage_class: ReflectStorageClass::spec_from_code(words[pos + 2]),
                    ..blank
                },
            )
        }
    } else if spec_is_constant(op) || op == OP_LOAD {
        Ok(ParserNode { result_type_id: words[pos + 1], result_id: words[pos + 2], ..blank })
    } else if op == OP_VARIABLE {
        if !spirv_storage_class_defined(words[pos + 3]) {
            Err(ReflectError::InvalidStorageClass)
        } else {
            Ok(
                ParserNode {
                    type_id: words[pos + 1],
                    result_id: words[pos + 2],
                    storage_class: ReflectStorageClass::spec_from_code(words[pos + 3]),
                    ..blank
                },
            )
        }
    } else if op == OP_FUNCTION {
        Ok(ParserNode { result_id: words[pos + 2], ..blank })
    } else {
        Ok(blank)
    }
}

/// The least number of words that the instruction at `pos` must have.
fn required_words(words: &Vec<u32>, pos: usize) -> (count: u32)
    requires
        spec_frame_ok(words@, pos as int),
        words@.len() <= u32::MAX,
    ensures
        count == spec_required_words(words@, pos as int),
{
    let op = opcode_of(words[pos]);
    let count = word_count_of(words[pos]);
    if op == OP_TYPE_IMAGE {
        9
    } else if op == OP_MEMBER_DECORATE || op == OP_MEMBER_DECORATE_STRING {
        if count < 4 {
            4
        } else if decoration_has_operand(words[pos + 3]) {
            5
        } else {
            4
        }
    } else if op == OP_DECORATE || op == OP_DECORATE_ID || op == OP_DECORATE_STRING {
        if count < 3 {
            3
        } else if decoration_has_operand(words[pos + 2]) {
            4
        } else {
            3
        }
    } else if op == OP_MEMBER_NAME || op == OP_ENTRY_POINT || op == OP_TYPE_INT || op
        == OP_TYPE_VECTOR || op == OP_TYPE_MATRIX || op == OP_TYPE_ARRAY || op == OP_TYPE_POINTER
        || op == OP_CONSTANT || op == OP_VARIABLE || op == OP_FUNCTION_CALL || has_pointer_operand(
        op,
    ) {
        4
    } else if op == OP_SOURCE || op == OP_NAME || op == OP_STRING || op == OP_EXECUTION_MODE || op
        == OP_TYPE_FLOAT || op == OP_TYPE_SAMPLED_IMAGE || op == OP_TYPE_RUNTIME_ARRAY || op
        == OP_TYPE_FORWARD_POINTER || is_constant(op) || op == OP_FUNCTION || op == OP_STORE || op
        == OP_COPY_MEMORY || op == OP_COPY_MEMORY_SIZED {
        3
    } else if op == OP_TYPE_STRUCT || is_plain_type(op) {
        2
    } else {
        1
    }
}

/// Whether `op` declares a type of which only the result id is kept.
fn is_plain_type(op: u32) -> (plain: bool)
    ensures
        plain == spec_is_plain_type(op),
{
    op == OP_TYPE_VOID || op == OP_TYPE_BOOL || op == OP_TYPE_INT || op == OP_TYPE_FLOAT || op
        == OP_TYPE_VECTOR || op == OP_TYPE_MATRIX || op == OP_TYPE_SAMPLER || op == OP_TYPE_OPAQUE
        || op == OP_TYPE_FUNCTION || op == OP_TYPE_EVENT || op == OP_TYPE_DEVICE_EVENT || op
        == OP_TYPE_RESERVE_ID || op == OP_TYPE_QUEUE || op == OP_TYPE_PIPE || op
        == OP_TYPE_ACCELERATION_STRUCTURE_NV
}

/// Whether `op` defines a constant.
fn is_constant(op: u32) -> (constant: bool)
    ensures
        constant == spec_is_constant(op),
{
    op == OP_CONSTANT_TRUE || op == OP_CONSTANT_FALSE || op == OP_CONSTANT || op
        == OP_CONSTANT_COMPOSITE || op == OP_CONSTANT_SAMPLER || op == OP_CONSTANT_NULL
}

/// The storage class that the word `code` names, where it is defined.
fn storage_class_of(code: u32) -> (class: Result<ReflectStorageClass, ReflectError>)
    ensures
        class == if spirv_storage_class_defined(code) {
            Ok::<ReflectStorageClass, ReflectError>(ReflectStorageClass::spec_from_code(code))
        } else {
            Err::<ReflectStorageClass, ReflectError>(ReflectError::InvalidStorageClass)
        },
{
    if storage_class_defined(code) {
        Ok(ReflectStorageClass::from_code(code))
    } else {
        Err(ReflectError::InvalidStorageClass)
    }
}

/// The node of the instruction at `pos`.
pub fn decode_node(words: &Vec<u32>, pos: usize) -> (node: Result<ParserNode, ReflectError>)
    requires
        spec_frame_ok(words@, pos as int),
        words@.len() <= u32::MAX,
    ensures
        node == spec_decode_node(words@, pos as int),
{
    if !op_defined(opcode_of(words[pos])) {
        return Err(ReflectError::InvalidInstruction);
    }
    decode_operands(words, pos)
}

/// The node of the instruction at `pos`, whose opcode is defined.
pub fn decode_operands(words: &Vec<u32>, pos: usize) -> (node: Result<ParserNode, ReflectError>)
    requires
        spec_frame_ok(words@, pos as int),
        words@.len() <= u32::MAX,
    ensures
        node == spec_decode_operands(words@, pos as int),
{
    let word = words[pos];
    let op = opcode_of(word);
    let count = word_count_of(word);
    let mut node = ParserNode {
        result_id: 0,
        op,
        result_type_id: 0,
        type_id: 0,
        storage_class: ReflectStorageClass::Undefined,
        word_offset: pos as u32,
        word_count: count,
        is_type: false,
        array_traits: ParserArrayTraits { element_type_id: 0, length_id: 0 },
        image_traits: ParserImageTraits {
            sampled_type_id: 0,
            dim: ReflectDimension::Undefined,
            depth: 0,
            arrayed: 0,
            ms: 0,
            sampled: 0,
            image_format: ReflectImageFormat::Undefined,
        },
        image_type_id: 0,
        member_count: 0,
    };
    if count < required_words(words, pos) {
        return Err(ReflectError::InvalidInstruction);
    }
    if op == OP_TYPE_STRUCT {
        node.member_count = count - 2;
        node.result_id = words[pos + 1];
        node.is_type = true;
    } else if is_plain_type(op) {
        node.result_id = words[pos + 1];
        node.is_type = true;
    } else if op == OP_TYPE_IMAGE {
        node.result_id = words[pos + 1];
        node.image_traits.sampled_type_id = words[pos + 2];
        node.image_traits.dim = ReflectDimension::from_code(words[pos + 3]);
        node.image_traits.depth = words[pos + 4];
        node.image_traits.arrayed = words[pos + 5];
        node.image_traits.ms = words[pos + 6];
        node.image_traits.sampled = words[pos + 7];
        node.image_traits.image_format = ReflectImageFormat::from_code(words[pos + 8]);
        node.is_type = true;
    } else if op == OP_TYPE_SAMPLED_IMAGE {
        node.result_id = words[pos + 1];
        node.image_type_id = words[pos + 2];
        node.is_type = true;
    } else if op == OP_TYPE_ARRAY {
        node.result_id = words[pos + 1];
        node.array_traits.element_type_id = words[pos + 2];
        node.array_traits.length_id = words[pos + 3];
        node.is_type = true;
    } else if op == OP_TYPE_RUNTIME_ARRAY {
        node.result_id = words[pos + 1];
        node.array_traits.element_type_id = words[pos + 2];
        node.is_type = true;
    } else if op == OP_TYPE_POINTER {
        node.result_id = words[pos + 1];
        node.storage_class = storage_class_of(words[pos + 2])?;
        node.type_id = words[pos + 3];
        node.is_type = true;
    } else if op == OP_TYPE_FORWARD_POINTER {
        node.type_id = words[pos + 1];
        node.storage_class = storage_class_of(words[pos + 2])?;
    } else if is_constant(op) || op == OP_LOAD {
        node.result_type_id = words[pos + 1];
        node.result_id = words[pos + 2];
    } else if op == OP_VARIABLE {
        node.type_id = words[pos + 1];
        node.result_id = words[pos + 2];
        node.storage_class = storage_class_of(words[pos + 3])?;
    } else if op == OP_FUNCTION {
        node.result_id = words[pos + 2];
    }
    Ok(node)
}

/// The number of instructions from `pos` to the end of the stream. Each
/// must have at least one word and end inside the stream.
pub open spec fn spec_frames_from(words: Seq<u32>, pos: int) -> Result<nat, ReflectError>
    decreases words.len() - pos,
{
    if pos < 0 || pos >= words.len() {
        Ok(0)
    } else if spec_word_count(words[pos]) == 0 {
        Err(ReflectError::InvalidInstruction)
    } else if pos + spec_word_count(words[pos]) > words.len() {
        Err(ReflectError::UnexpectedEof)
    } else {
        match spec_frames_from(words, pos + spec_word_count(words[pos])) {
            Ok(count) => Ok(count + 1),
            Err(e) => Err(e),
        }
    }
}

/// The nodes of the instructions from `pos` to the end of the stream, up
/// to the first that cannot be decoded.
pub open spec fn spec_nodes_from(words: Seq<u32>, pos: int) -> Result<Seq<ParserNode>, ReflectError>
    decreases words.len() - pos,
{
    if !spec_frame_ok(words, pos) {
        Ok(Seq::empty())
    } else {
        match spec_decode_node(words, pos) {
            Err(e) => Err(e),
            Ok(node) => match spec_nodes_from(words, pos + spec_word_count(words[pos])) {
                Err(e) => Err(e),
                Ok(rest) => Ok(seq![node] + rest),
            },
        }
    }
}

/// The nodes of a word stream. The stream may hold at most `u32::MAX`
/// words, and after the header at least one instruction; the instructions
/// are framed first and decoded then.
pub open spec fn spec_decoded(words: Seq<u32>) -> Result<Seq<ParserNode>, ReflectError> {
    if words.len() > u32::MAX {
        Err(ReflectError::InvalidCodeSize)
    } else {
        match spec_frames_from(words, STARTING_WORD as int) {
            Err(e) => Err(e),
            Ok(count) => if count == 0 {
                Err(ReflectError::NoInstructions)
            } else {
                spec_nodes_from(words, STARTING_WORD as int)
            },
        }
    }
}

/// Whether no two of `nodes` define the same id. The id 0 stands for no
/// id, and any number of nodes may have it.
pub open spec fn spec_ids_distinct(nodes: Seq<ParserNode>) -> bool {
    forall|i: int, j: int|
        0 <= i < j < nodes.len() && (#[trigger] nodes[i]).result_id != 0 ==> nodes[i].result_id != (
        #[trigger] nodes[j]).result_id
}

/// The instruction index of a word stream: its nodes, of which no two may
/// define the same id.
pub open spec fn spec_index(words: Seq<u32>) -> Result<Seq<ParserNode>, ReflectError> {
    match spec_decoded(words) {
        Err(e) => Err(e),
        Ok(nodes) => if spec_ids_distinct(nodes) {
            Ok(nodes)
        } else {
            Err(ReflectError::DuplicateId)
        },
    }
}

/// Whether `node` is what the instruction at its word offset decodes to.
pub open spec fn spec_node_ok(words: Seq<u32>, node: ParserNode) -> bool {
    &&& STARTING_WORD <= node.word_offset
    &&& spec_frame_ok(words, node.word_offset as int)
    &&& spec_decode_node(words, node.word_offset as int) == Ok::<ParserNode, ReflectError>(node)
}

/// Whether each of `nodes` is what an instruction of `words` decodes to.
pub open spec fn spec_indexed(words: Seq<u32>, nodes: Seq<ParserNode>) -> bool {
    &&& words.len() <= u32::MAX
    &&& nodes.len() <= words.len()
    &&& forall|i: int| 0 <= i < nodes.len() ==> spec_node_ok(words, #[trigger] nodes[i])
}

/// The nodes from `pos` on are what the instructions of `words` decode
/// to, and there are no more of them than words.
pub proof fn lemma_nodes_from(words: Seq<u32>, pos: int)
    requires
        STARTING_WORD <= pos,
        words.len() <= u32::MAX,
        spec_nodes_from(words, pos).is_ok(),
    ensures
        pos <= words.len() ==> spec_nodes_from(words, pos).unwrap().len() <= words.len() - pos,
        pos > words.len() ==> spec_nodes_from(words, pos).unwrap().len() == 0,
        forall|i: int|
            0 <= i < spec_nodes_from(words, pos).unwrap().len() ==> spec_node_ok(
                words,
                #[trigger] spec_nodes_from(words, pos).unwrap()[i],
            ),
    decreases words.len() - pos,
{
    if spec_frame_ok(words, pos) {
        let next = pos + spec_word_count(words[pos]);
        lemma_nodes_from(words, next);
        let node = spec_decode_node(words, pos).unwrap();
        let rest = spec_nodes_from(words, next).unwrap();
        let all = spec_nodes_from(words, pos).unwrap();
        assert(all == seq![node] + rest);
        assert forall|i: int| 0 <= i < all.len() implies spec_node_ok(words, #[trigger] all[i]) by {
            if i > 0 {
                assert(all[i] == rest[i - 1]);
            }
        }
    }
}

/// The instruction index of a word stream holds what the instructions of
/// the stream decode to.
pub proof fn lemma_index_indexed(words: Seq<u32>)
    requires
        spec_index(words).is_ok(),
    ensures
        spec_indexed(words, spec_index(words).unwrap()),
        spec_ids_distinct(spec_index(words).unwrap()),
{
    lemma_nodes_from(words, STARTING_WORD as int);
}

/// The number of instructions after the header.
pub fn count_nodes(words: &Vec<u32>) -> (count: Result<usize, ReflectError>)
    ensures
        match count {
            Ok(n) => spec_frames_from(words@, STARTING_WORD as int) == Ok::<nat, ReflectError>(
                n as nat,
            ),
            Err(e) => spec_frames_from(words@, STARTING_WORD as int) == Err::<nat, ReflectError>(e),
        },
{
    let mut pos: usize = STARTING_WORD;
    let mut count: usize = 0;
    while pos < words.len()
        invariant
            STARTING_WORD <= pos,
            count <= pos,
            match spec_frames_from(words@, pos as int) {
                Ok(rest) => spec_frames_from(words@, STARTING_WORD as int) == Ok::<
                    nat,
                    ReflectError,
                >((count + rest) as nat),
                Err(
                    e,
                ) => spec_frames_from(words@, STARTING_WORD as int) == Err::<nat, ReflectError>(e),
            },
        decreases words@.len() - pos,
    {
        let node_word_count = word_count_of(words[pos]) as usize;
        if node_word_count == 0 {
            return Err(ReflectError::InvalidInstruction);
        }
        if node_word_count > words.len() - pos {
            return Err(ReflectError::UnexpectedEof);
        }
        pos += node_word_count;
        count += 1;
    }
    Ok(count)
}

/// Whether no two of `nodes` define the same id.
pub fn ids_distinct(nodes: &Vec<ParserNode>) -> (distinct: bool)
    ensures
        distinct == spec_ids_distinct(nodes@),
{
    let mut seen: HashSet<u32> = HashSet::new();
    let mut i: usize = 0;
    while i < nodes.len()
        invariant
            i <= nodes@.len(),
            forall|v: u32|
                seen@.contains(v) <==> v != 0 && exists|j: int|
                    0 <= j < i && (#[trigger] nodes@[j]).result_id == v,
            forall|a: int, b: int|
                0 <= a < b < i && (#[trigger] nodes@[a]).result_id != 0 ==> nodes@[a].result_id != (
                #[trigger] nodes@[b]).result_id,
        decreases nodes@.len() - i,
    {
        let id = nodes[i].result_id;
        if id != 0 {
            let ghost before = seen@;
            let fresh = seen.insert(id);
            if !fresh {
                proof {
                    assert(before.contains(id));
                    let j = choose|j: int| 0 <= j < i && (#[trigger] nodes@[j]).result_id == id;
                    assert(nodes@[j].result_id == nodes@[i as int].result_id);
                }
                return false;
            }
            proof {
                assert forall|v: u32|
                    seen@.contains(v) <==> v != 0 && exists|j: int|
                        0 <= j < i + 1 && (#[trigger] nodes@[j]).result_id == v by {
                    if v == id {
                        assert(nodes@[i as int].result_id == v);
                    } else if before.contains(v) {
                        let j = choose|j: int| 0 <= j < i && (#[trigger] nodes@[j]).result_id == v;
                        assert(0 <= j < i + 1 && nodes@[j].result_id == v);
                    } else if v != 0 && exists|j: int|
                        0 <= j < i + 1 && (#[trigger] nodes@[j]).result_id == v {
                        let j = choose|j: int|
                            0 <= j < i + 1 && (#[trigger] nodes@[j]).result_id == v;
                        assert(j < i);
                    }
                }
            }
        } else {
            proof {
                assert forall|v: u32|
                    seen@.contains(v) <==> v != 0 && exists|j: int|
                        0 <= j < i + 1 && (#[trigger] nodes@[j]).result_id == v by {
                    if seen@.contains(v) {
                        let j = choose|j: int| 0 <= j < i && (#[trigger] nodes@[j]).result_id == v;
                        assert(0 <= j < i + 1 && nodes@[j].result_id == v);
                    } else if v != 0 && exists|j: int|
                        0 <= j < i + 1 && (#[trigger] nodes@[j]).result_id == v {
                        let j = choose|j: int|
                            0 <= j < i + 1 && (#[trigger] nodes@[j]).result_id == v;
                        assert(j < i);
                    }
                }
            }
        }
        i += 1;
    }
    true
}

/// The instruction index of `words`: one node for each instruction after
/// the header, in the order of the stream. No two nodes define the same
/// id.
pub fn parse_nodes(words: &Vec<u32>) -> (nodes: Result<Vec<ParserNode>, ReflectError>)
    ensures
        match nodes {
            Ok(n) => spec_index(words@) == Ok::<Seq<ParserNode>, ReflectError>(n@) && spec_indexed(
                words@,
                n@,
            ) && n@.len() > 0 && spec_ids_distinct(n@),
            Err(e) => spec_index(words@) == Err::<Seq<ParserNode>, ReflectError>(e),
        },
{
    let nodes = decode_nodes(words)?;
    if !ids_distinct(&nodes) {
        return Err(ReflectError::DuplicateId);
    }
    Ok(nodes)
}

/// The nodes of `words`: one for each instruction after the header, in the
/// order of the stream.
pub fn decode_nodes(words: &Vec<u32>) -> (nodes: Result<Vec<ParserNode>, ReflectError>)
    ensures
        match nodes {
            Ok(n) => spec_decoded(words@) == Ok::<Seq<ParserNode>, ReflectError>(n@)
                && spec_indexed(words@, n@) && n@.len() > 0,
            Err(e) => spec_decoded(words@) == Err::<Seq<ParserNode>, ReflectError>(e),
        },
{
    if words.len() > u32::MAX as usize {
        return Err(ReflectError::InvalidCodeSize);
    }
    let node_count = count_nodes(words)?;
    if node_count == 0 {
        return Err(ReflectError::NoInstructions);
    }
    let mut nodes: Vec<ParserNode> = Vec::with_capacity(node_count);
    let mut pos: usize = STARTING_WORD;
    while pos < words.len()
        invariant
            STARTING_WORD <= pos,
            words@.len() <= u32::MAX,
            nodes@.len() <= pos,
            pos <= words@.len() || nodes@.len() <= words@.len(),
            spec_frames_from(words@, pos as int).is_ok(),
            spec_decoded(words@) == spec_nodes_from(words@, STARTING_WORD as int),
            match spec_nodes_from(words@, pos as int) {
                Ok(rest) => spec_nodes_from(words@, STARTING_WORD as int) == Ok::<
                    Seq<ParserNode>,
                    ReflectError,
                >(nodes@ + rest),
                Err(e) => spec_nodes_from(words@, STARTING_WORD as int) == Err::<
                    Seq<ParserNode>,
                    ReflectError,
                >(e),
            },
            forall|i: int| 0 <= i < nodes@.len() ==> spec_node_ok(words@, #[trigger] nodes@[i]),
        decreases words@.len() - pos,
    {
        let ghost before = nodes@;
        let node = decode_node(words, pos)?;
        let ghost next: int = pos + spec_word_count(words@[pos as int]);
        proof {
            match spec_nodes_from(words@, next) {
                Ok(rest) => {
                    assert(before.push(node) + rest =~= before + (seq![node] + rest));
                },
                Err(e) => {},
            }
        }
        pos += node.word_count as usize;
        nodes.push(node);
    }
    proof {
        assert(spec_nodes_from(words@, pos as int) == Ok::<Seq<ParserNode>, ReflectError>(
            Seq::empty(),
        ));
        assert(nodes@ + Seq::<ParserNode>::empty() =~= nodes@);
    }
    Ok(nodes)
}

/// The place of the first node from `from` on that defines `id`.
pub open spec fn spec_find_node_from(nodes: Seq<ParserNode>, id: u32, from: int) -> Option<int>
    decreases nodes.len() - from,
{
    if from < 0 || from >= nodes.len() {
        None
    } else if nodes[from].result_id == id {
        Some(from)
    } else {
        spec_find_node_from(nodes, id, from + 1)
    }
}

/// The place of the first node that defines `id`.
pub open spec fn spec_find_node(nodes: Seq<ParserNode>, id: u32) -> Option<int> {
    spec_find_node_from(nodes, id, 0)
}

/// Where no two nodes define the same id, a search for an id finds the
/// node that defines it.
pub proof fn lemma_find_node_only(nodes: Seq<ParserNode>, at: int)
    requires
        spec_ids_distinct(nodes),
        0 <= at < nodes.len(),
        nodes[at].result_id != 0,
    ensures
        spec_find_node(nodes, nodes[at].result_id) == Some(at),
{
    lemma_find_node_reaches(nodes, nodes[at].result_id, 0, at);
    lemma_find_node(nodes, nodes[at].result_id);
}

/// A search from `from` on finds a node where one behind `from` defines
/// the id.
pub proof fn lemma_find_node_reaches(nodes: Seq<ParserNode>, id: u32, from: int, at: int)
    requires
        0 <= from <= at < nodes.len(),
        nodes[at].result_id == id,
    ensures
        spec_find_node_from(nodes, id, from).is_some(),
        spec_find_node_from(nodes, id, from).unwrap() <= at,
    decreases at - from,
{
    if nodes[from].result_id != id {
        lemma_find_node_reaches(nodes, id, from + 1, at);
    }
}

/// The node that a search finds lies in the index and defines the id.
pub proof fn lemma_find_node(nodes: Seq<ParserNode>, id: u32)
    ensures
        spec_find_node(nodes, id) matches Some(at) ==> 0 <= at < nodes.len() && nodes[at].result_id
            == id,
{
    lemma_find_node_from(nodes, id, 0);
}

/// The node that a search from `from` on finds lies behind `from` in the
/// index and defines the id.
pub proof fn lemma_find_node_from(nodes: Seq<ParserNode>, id: u32, from: int)
    requires
        0 <= from,
    ensures
        spec_find_node_from(nodes, id, from) matches Some(at) ==> from <= at < nodes.len()
            && nodes[at].result_id == id,
    decreases nodes.len() - from,
{
    if from < nodes.len() && nodes[from].result_id != id {
        lemma_find_node_from(nodes, id, from + 1);
    }
}

/// A word stream with its instruction index.
pub struct Parser {
    /// The words of the module.
    pub words: Vec<u32>,
    /// One node for each instruction after the header, in the order of the
    /// stream.
    pub nodes: Vec<ParserNode>,
}

impl Parser {
    /// Whether each node is what an instruction of the words decodes to,
    /// and no two nodes define the same id.
    pub open spec fn wf(&self) -> bool {
        &&& spec_indexed(self.words@, self.nodes@)
        &&& spec_ids_distinct(self.nodes@)
    }

    /// The index of `words`.
    pub fn new(words: Vec<u32>) -> (parser: Result<Parser, ReflectError>)
        ensures
            match parser {
                Ok(p) => spec_index(words@) == Ok::<Seq<ParserNode>, ReflectError>(p.nodes@)
                    && p.words@ == words@ && p.wf() && p.nodes@.len() > 0,
                Err(e) => spec_index(words@) == Err::<Seq<ParserNode>, ReflectError>(e),
            },
    {
        let nodes = parse_nodes(&words)?;
        Ok(Parser { words, nodes })
    }

    /// The place of the first node that defines `id`.
    pub fn find_node(&self, id: u32) -> (found: Option<usize>)
        ensures
            match found {
                Some(
                    i,
                ) => spec_find_node(self.nodes@, id) == Some(i as int) && i < self.nodes@.len()
                    && self.nodes@[i as int].result_id == id,
                None => spec_find_node(self.nodes@, id).is_none(),
            },
    {
        let mut i: usize = 0;
        while i < self.nodes.len()
            invariant
                i <= self.nodes@.len(),
                spec_find_node(self.nodes@, id) == spec_find_node_from(self.nodes@, id, i as int),
            decreases self.nodes@.len() - i,
        {
            if self.nodes[i].result_id == id {
                return Some(i);
            }
            i += 1;
        }
        None
    }
}

} // verus!
