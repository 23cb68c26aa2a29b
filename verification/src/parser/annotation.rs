//! Names, strings, decorations and member counts: what the annotating
//! instructions say of an id, found by the id.
//!
//! An annotation may stand before or after the instruction that defines
//! its target, so each is looked up by id over the whole index. Where
//! several instructions annotate one target, they apply in the order of
//! the stream: a later name or operand replaces an earlier one.

use crate::error::ReflectError;
use crate::parser::node::{
    decoration_has_operand, spec_decoration_has_operand, spec_indexed, spec_node_ok,
    spec_required_words, Parser, ParserNode,
};
use crate::spirv::{
    built_in_defined, source_language_defined, spirv_built_in_defined,
    spirv_source_language_defined, DECORATION_ARRAY_STRIDE, DECORATION_BINDING, DECORATION_BLOCK,
    DECORATION_BUFFER_BLOCK, DECORATION_BUILT_IN, DECORATION_COL_MAJOR, DECORATION_COUNTER_BUFFER,
    DECORATION_DESCRIPTOR_SET, DECORATION_FLAT, DECORATION_INPUT_ATTACHMENT_INDEX,
    DECORATION_LOCATION, DECORATION_MATRIX_STRIDE, DECORATION_NON_WRITABLE,
    DECORATION_NO_PERSPECTIVE, DECORATION_OFFSET, DECORATION_ROW_MAJOR, DECORATION_USER_SEMANTIC,
    OP_DECORATE, OP_DECORATE_ID, OP_DECORATE_STRING, OP_MEMBER_DECORATE, OP_MEMBER_DECORATE_STRING,
    OP_MEMBER_NAME, OP_NAME, OP_SOURCE, OP_STRING,
};
use crate::types::flags::ReflectDecorationFlags;
use crate::words::{literal, spec_literal, spec_opcode, spec_word_count};
use crate::views::agrees;
use vstd::prelude::*;

verus! {

/// The operand of a decoration and the word that holds it. A word offset
/// of 0 says that the decoration is absent.
#[derive(Clone, Copy, Debug, PartialEq, Eq, Structural)]
pub struct NumberDecoration {
    pub word_offset: u32,
    pub value: u32,
}

/// The words that hold the literal string of a decoration. A word offset
/// of 0 says that the decoration is absent.
#[derive(Clone, Copy, Debug, PartialEq, Eq, Structural)]
pub struct StringDecoration {
    pub word_offset: u32,
    pub word_end: u32,
}

/// The decorations of an id or of a struct member.
#[derive(Clone, Copy, Debug, PartialEq, Eq, Structural)]
pub struct Decorations {
    pub is_block: bool,
    pub is_buffer_block: bool,
    pub is_row_major: bool,
    pub is_column_major: bool,
    pub is_noperspective: bool,
    pub is_flat: bool,
    pub is_non_writable: bool,
    pub set: NumberDecoration,
    pub binding: NumberDecoration,
    pub input_attachment_index: NumberDecoration,
    pub location: NumberDecoration,
    pub offset: NumberDecoration,
    pub uav_counter_buffer: NumberDecoration,
    pub semantic: StringDecoration,
    pub array_stride: u32,
    pub matrix_stride: u32,
    /// The number of the built-in, where `spirv_headers` defines it.
    pub built_in: Option<u32>,
}

impl NumberDecoration {
    /// Whether the decoration was found.
    pub open spec fn spec_is_present(self) -> bool {
        self.word_offset != 0
    }

    /// Whether the decoration was found.
    pub fn is_present(&self) -> (present: bool)
        ensures
            present == self.spec_is_present(),
    {
        self.word_offset != 0
    }
}

impl Decorations {
    /// No decoration at all.
    pub open spec fn spec_none() -> Decorations {
        Decorations {
            is_block: false,
            is_buffer_block: false,
            is_row_major: false,
            is_column_major: false,
            is_noperspective: false,
            is_flat: false,
            is_non_writable: false,
            set: NumberDecoration { word_offset: 0, value: 0 },
            binding: NumberDecoration { word_offset: 0, value: 0 },
            input_attachment_index: NumberDecoration { word_offset: 0, value: 0 },
            location: NumberDecoration { word_offset: 0, value: 0 },
            offset: NumberDecoration { word_offset: 0, value: 0 },
            uav_counter_buffer: NumberDecoration { word_offset: 0, value: 0 },
            semantic: StringDecoration { word_offset: 0, word_end: 0 },
            array_stride: 0,
            matrix_stride: 0,
            built_in: None,
        }
    }

    /// No decoration at all.
    pub fn none() -> (decorations: Decorations)
        ensures
            decorations == Self::spec_none(),
    {
        Decorations {
            is_block: false,
            is_buffer_block: false,
            is_row_major: false,
            is_column_major: false,
            is_noperspective: false,
            is_flat: false,
            is_non_writable: false,
            set: NumberDecoration { word_offset: 0, value: 0 },
            binding: NumberDecoration { word_offset: 0, value: 0 },
            input_attachment_index: NumberDecoration { word_offset: 0, value: 0 },
            location: NumberDecoration { word_offset: 0, value: 0 },
            offset: NumberDecoration { word_offset: 0, value: 0 },
            uav_counter_buffer: NumberDecoration { word_offset: 0, value: 0 },
            semantic: StringDecoration { word_offset: 0, word_end: 0 },
            array_stride: 0,
            matrix_stride: 0,
            built_in: None,
        }
    }

    /// The flags that stand for these decorations.
    pub open spec fn spec_flags(self) -> ReflectDecorationFlags {
        ReflectDecorationFlags {
            bits: (if self.is_block {
                ReflectDecorationFlags::BLOCK
            } else {
                0
            }) | (if self.is_buffer_block {
                ReflectDecorationFlags::BUFFER_BLOCK
            } else {
                0
            }) | (if self.is_row_major {
                ReflectDecorationFlags::ROW_MAJOR
            } else {
                0
            }) | (if self.is_column_major {
                ReflectDecorationFlags::COLUMN_MAJOR
            } else {
                0
            }) | (if self.built_in.is_some() {
                ReflectDecorationFlags::BUILT_IN
            } else {
                0
            }) | (if self.is_noperspective {
                ReflectDecorationFlags::NO_PERSPECTIVE
            } else {
                0
            }) | (if self.is_flat {
                ReflectDecorationFlags::FLAT
            } else {
                0
            }) | (if self.is_non_writable {
                ReflectDecorationFlags::NON_WRITABLE
            } else {
                0
            }),
        }
    }
}

/// The flags that stand for `decorations`: one bit for each of block,
/// buffer block, row major, column major, built-in, no perspective, flat
/// and non-writable.
pub fn apply_decorations(decorations: &Decorations) -> (flags: ReflectDecorationFlags)
    ensures
        flags == decorations.spec_flags(),
{
    let block: u32 = if decorations.is_block {
        ReflectDecorationFlags::BLOCK
    } else {
        0
    };
    let buffer_block: u32 = if decorations.is_buffer_block {
        ReflectDecorationFlags::BUFFER_BLOCK
    } else {
        0
    };
    let row_major: u32 = if decorations.is_row_major {
        ReflectDecorationFlags::ROW_MAJOR
    } else {
        0
    };
    let column_major: u32 = if decorations.is_column_major {
        ReflectDecorationFlags::COLUMN_MAJOR
    } else {
        0
    };
    let built_in: u32 = if decorations.built_in.is_some() {
        ReflectDecorationFlags::BUILT_IN
    } else {
        0
    };
    let noperspective: u32 = if decorations.is_noperspective {
        ReflectDecorationFlags::NO_PERSPECTIVE
    } else {
        0
    };
    let flat: u32 = if decorations.is_flat {
        ReflectDecorationFlags::FLAT
    } else {
        0
    };
    let non_writable: u32 = if decorations.is_non_writable {
        ReflectDecorationFlags::NON_WRITABLE
    } else {
        0
    };
    ReflectDecorationFlags {
        bits: block | buffer_block | row_major | column_major | built_in | noperspective | flat
            | non_writable,
    }
}

/// What holds of a node of the index, taken from how it was decoded.
pub proof fn lemma_node_ok(words: Seq<u32>, node: ParserNode)
    requires
        spec_node_ok(words, node),
    ensures
        node.op == spec_opcode(words[node.word_offset as int]),
        node.word_count == spec_word_count(words[node.word_offset as int]),
        node.word_count >= spec_required_words(words, node.word_offset as int),
        node.word_count >= 1,
        node.word_offset + node.word_count <= words.len(),
{
}

/// `decorations` with the decoration added whose kind stands in word
/// `kind_at` of an instruction that ends before word `end`.
pub open spec fn spec_apply_decoration(
    decorations: Decorations,
    words: Seq<u32>,
    kind_at: int,
    end: int,
) -> Decorations {
    let kind = words[kind_at];
    let operand = NumberDecoration { word_offset: (kind_at + 1) as u32, value: words[kind_at + 1] };
    if kind == DECORATION_BLOCK {
        Decorations { is_block: true, ..decorations }
    } else if kind == DECORATION_BUFFER_BLOCK {
        Decorations { is_buffer_block: true, ..decorations }
    } else if kind == DECORATION_ROW_MAJOR {
        Decorations { is_row_major: true, ..decorations }
    } else if kind == DECORATION_COL_MAJOR {
        Decorations { is_column_major: true, ..decorations }
    } else if kind == DECORATION_ARRAY_STRIDE {
        Decorations { array_stride: operand.value, ..decorations }
    } else if kind == DECORATION_MATRIX_STRIDE {
        Decorations { matrix_stride: operand.value, ..decorations }
    } else if kind == DECORATION_BUILT_IN {
        Decorations {
            built_in: if spirv_built_in_defined(operand.value) {
                Some(operand.value)
            } else {
                None
            },
            ..decorations
        }
    } else if kind == DECORATION_NO_PERSPECTIVE {
        Decorations { is_noperspective: true, ..decorations }
    } else if kind == DECORATION_FLAT {
        Decorations { is_flat: true, ..decorations }
    } else if kind == DECORATION_NON_WRITABLE {
        Decorations { is_non_writable: true, ..decorations }
    } else if kind == DECORATION_LOCATION {
        Decorations { location: operand, ..decorations }
    } else if kind == DECORATION_BINDING {
        Decorations { binding: operand, ..decorations }
    } else if kind == DECORATION_DESCRIPTOR_SET {
        Decorations { set: operand, ..decorations }
    } else if kind == DECORATION_OFFSET {
        Decorations { offset: operand, ..decorations }
    } else if kind == DECORATION_INPUT_ATTACHMENT_INDEX {
        Decorations { input_attachment_index: operand, ..decorations }
    } else if kind == DECORATION_COUNTER_BUFFER {
        Decorations { uav_counter_buffer: operand, ..decorations }
    } else if kind == DECORATION_USER_SEMANTIC {
        Decorations {
            semantic: StringDecoration { word_offset: (kind_at + 1) as u32, word_end: end as u32 },
            ..decorations
        }
    } else {
        decorations
    }
}

/// `decorations` with the decoration added whose kind stands in word
/// `kind_at` of an instruction that ends before word `end`.
fn apply_decoration(
    decorations: Decorations,
    words: &Vec<u32>,
    kind_at: usize,
    end: usize,
) -> (out: Decorations)
    requires
        words@.len() <= u32::MAX,
        kind_at < end <= words@.len(),
        spec_decoration_has_operand(words@[kind_at as int]) ==> kind_at + 1 < end,
    ensures
        out == spec_apply_decoration(decorations, words@, kind_at as int, end as int),
{
    let kind = words[kind_at];
    let mut out = decorations;
    if kind == DECORATION_BLOCK {
        out.is_block = true;
    } else if kind == DECORATION_BUFFER_BLOCK {
        out.is_buffer_block = true;
    } else if kind == DECORATION_ROW_MAJOR {
        out.is_row_major = true;
    } else if kind == DECORATION_COL_MAJOR {
        out.is_column_major = true;
    } else if kind == DECORATION_NO_PERSPECTIVE {
        out.is_noperspective = true;
    } else if kind == DECORATION_FLAT {
        out.is_flat = true;
    } else if kind == DECORATION_NON_WRITABLE {
        out.is_non_writable = true;
    } else if kind == DECORATION_USER_SEMANTIC {
        out.semantic = StringDecoration { word_offset: (kind_at + 1) as u32, word_end: end as u32 };
    } else if decoration_has_operand(kind) {
        let operand = NumberDecoration {
            word_offset: (kind_at + 1) as u32,
            value: words[kind_at + 1],
        };
        if kind == DECORATION_ARRAY_STRIDE {
            out.array_stride = operand.value;
        } else if kind == DECORATION_MATRIX_STRIDE {
            out.matrix_stride = operand.value;
        } else if kind == DECORATION_BUILT_IN {
            out.built_in = if built_in_defined(operand.value) {
                Some(operand.value)
            } else {
                None
            };
        } else if kind == DECORATION_LOCATION {
            out.location = operand;
        } else if kind == DECORATION_BINDING {
            out.binding = operand;
        } else if kind == DECORATION_DESCRIPTOR_SET {
            out.set = operand;
        } else if kind == DECORATION_OFFSET {
            out.offset = operand;
        } else if kind == DECORATION_INPUT_ATTACHMENT_INDEX {
            out.input_attachment_index = operand;
        } else if kind == DECORATION_COUNTER_BUFFER {
            out.uav_counter_buffer = operand;
        }
    }
    out
}

/// Whether `node` decorates the id `id`.
pub open spec fn spec_decorates(words: Seq<u32>, node: ParserNode, id: u32) -> bool {
    &&& node.op == OP_DECORATE || node.op == OP_DECORATE_ID || node.op == OP_DECORATE_STRING
    &&& words[node.word_offset + 1] == id
}

/// Whether `node` decorates member `member` of the struct `id`.
pub open spec fn spec_decorates_member(
    words: Seq<u32>,
    node: ParserNode,
    id: u32,
    member: u32,
) -> bool {
    &&& node.op == OP_MEMBER_DECORATE || node.op == OP_MEMBER_DECORATE_STRING
    &&& words[node.word_offset + 1] == id
    &&& words[node.word_offset + 2] == member
}

/// The decorations that the first `n` nodes give to the id `id`.
pub open spec fn spec_decorations_upto(
    words: Seq<u32>,
    nodes: Seq<ParserNode>,
    id: u32,
    n: int,
) -> Decorations
    decreases n,
{
    if n <= 0 {
        Decorations::spec_none()
    } else {
        let before = spec_decorations_upto(words, nodes, id, n - 1);
        let node = nodes[n - 1];
        if spec_decorates(words, node, id) {
            spec_apply_decoration(
                before,
                words,
                node.word_offset + 2,
                node.word_offset + node.word_count,
            )
        } else {
            before
        }
    }
}

/// The decorations of the id `id`.
pub open spec fn spec_decorations(words: Seq<u32>, nodes: Seq<ParserNode>, id: u32) -> Decorations {
    spec_decorations_upto(words, nodes, id, nodes.len() as int)
}

/// The decorations that the first `n` nodes give to member `member` of the
/// struct `id`.
pub open spec fn spec_member_decorations_upto(
    words: Seq<u32>,
    nodes: Seq<ParserNode>,
    id: u32,
    member: u32,
    n: int,
) -> Decorations
    decreases n,
{
    if n <= 0 {
        Decorations::spec_none()
    } else {
        let before = spec_member_decorations_upto(words, nodes, id, member, n - 1);
        let node = nodes[n - 1];
        if spec_decorates_member(words, node, id, member) {
            spec_apply_decoration(
                before,
                words,
                node.word_offset + 3,
                node.word_offset + node.word_count,
            )
        } else {
            before
        }
    }
}

/// The decorations of member `member` of the struct `id`.
pub open spec fn spec_member_decorations(
    words: Seq<u32>,
    nodes: Seq<ParserNode>,
    id: u32,
    member: u32,
) -> Decorations {
    spec_member_decorations_upto(words, nodes, id, member, nodes.len() as int)
}

/// Whether `number` is absent, or names a word that holds its value and
/// stands behind the decoration kind `kind`.
pub open spec fn spec_number_recorded(
    words: Seq<u32>,
    number: NumberDecoration,
    kind: u32,
) -> bool {
    number.spec_is_present() ==> {
        &&& 1 <= number.word_offset < words.len()
        &&& words[number.word_offset as int] == number.value
        &&& words[number.word_offset - 1] == kind
    }
}

/// Whether every number of `decorations` stands in `words` where
/// `decorations` say.
pub open spec fn spec_decorations_recorded(words: Seq<u32>, decorations: Decorations) -> bool {
    &&& spec_number_recorded(words, decorations.set, DECORATION_DESCRIPTOR_SET)
    &&& spec_number_recorded(words, decorations.binding, DECORATION_BINDING)
    &&& spec_number_recorded(
        words,
        decorations.input_attachment_index,
        DECORATION_INPUT_ATTACHMENT_INDEX,
    )
    &&& spec_number_recorded(words, decorations.location, DECORATION_LOCATION)
    &&& spec_number_recorded(words, decorations.offset, DECORATION_OFFSET)
    &&& spec_number_recorded(words, decorations.uav_counter_buffer, DECORATION_COUNTER_BUFFER)
}

/// The numbers that the decorations of an id record stand in the words
/// where the decorations say: the model and the words agree.
pub proof fn lemma_decorations_recorded(words: Seq<u32>, nodes: Seq<ParserNode>, id: u32, n: int)
    requires
        spec_indexed(words, nodes),
        0 <= n <= nodes.len(),
    ensures
        spec_decorations_recorded(words, spec_decorations_upto(words, nodes, id, n)),
    decreases n,
{
    if n > 0 {
        lemma_decorations_recorded(words, nodes, id, n - 1);
        lemma_node_ok(words, nodes[n - 1]);
    }
}

/// Whether `node` names the id `id`.
pub open spec fn spec_names(words: Seq<u32>, node: ParserNode, id: u32) -> bool {
    node.op == OP_NAME && words[node.word_offset + 1] == id
}

/// Whether `node` names member `member` of the struct `id`.
pub open spec fn spec_names_member(
    words: Seq<u32>,
    node: ParserNode,
    id: u32,
    member: u32,
) -> bool {
    &&& node.op == OP_MEMBER_NAME
    &&& words[node.word_offset + 1] == id
    &&& words[node.word_offset + 2] == member
}

/// The place of the last of the first `n` nodes that names the id `id`.
pub open spec fn spec_name_node_upto(
    words: Seq<u32>,
    nodes: Seq<ParserNode>,
    id: u32,
    n: int,
) -> Option<int>
    decreases n,
{
    if n <= 0 {
        None
    } else if spec_names(words, nodes[n - 1], id) {
        Some(n - 1)
    } else {
        spec_name_node_upto(words, nodes, id, n - 1)
    }
}

/// The name of the id `id`: the literal string of the last instruction
/// that names it, or the empty string where none does.
pub open spec fn spec_name(
    words: Seq<u32>,
    nodes: Seq<ParserNode>,
    id: u32,
) -> Result<Seq<char>, ReflectError> {
    match spec_name_node_upto(words, nodes, id, nodes.len() as int) {
        None => Ok(Seq::empty()),
        Some(i) => spec_literal(
            words,
            nodes[i].word_offset + 2,
            nodes[i].word_offset + nodes[i].word_count,
        ),
    }
}

/// The place of the last of the first `n` nodes that names member `member`
/// of the struct `id`.
pub open spec fn spec_member_name_node_upto(
    words: Seq<u32>,
    nodes: Seq<ParserNode>,
    id: u32,
    member: u32,
    n: int,
) -> Option<int>
    decreases n,
{
    if n <= 0 {
        None
    } else if spec_names_member(words, nodes[n - 1], id, member) {
        Some(n - 1)
    } else {
        spec_member_name_node_upto(words, nodes, id, member, n - 1)
    }
}

/// The name of member `member` of the struct `id`: the literal string of
/// the last instruction that names it, or the empty string where none does.
pub open spec fn spec_member_name(
    words: Seq<u32>,
    nodes: Seq<ParserNode>,
    id: u32,
    member: u32,
) -> Result<Seq<char>, ReflectError> {
    match spec_member_name_node_upto(words, nodes, id, member, nodes.len() as int) {
        None => Ok(Seq::empty()),
        Some(i) => spec_literal(
            words,
            nodes[i].word_offset + 3,
            nodes[i].word_offset + nodes[i].word_count,
        ),
    }
}

/// One more than `member`, or `u32::MAX` where that does not fit.
pub open spec fn spec_member_end(member: u32) -> u32 {
    if member == u32::MAX {
        u32::MAX
    } else {
        (member + 1) as u32
    }
}

/// Whether `node` names or decorates a member of the struct `id`.
pub open spec fn spec_mentions_member(words: Seq<u32>, node: ParserNode, id: u32) -> bool {
    &&& node.op == OP_MEMBER_NAME || node.op == OP_MEMBER_DECORATE
    &&& words[node.word_offset + 1] == id
}

/// The greater of `declared` and the ends of the members of the struct
/// `id` that the first `n` nodes name or decorate.
pub open spec fn spec_member_count_upto(
    words: Seq<u32>,
    nodes: Seq<ParserNode>,
    id: u32,
    declared: u32,
    n: int,
) -> u32
    decreases n,
{
    if n <= 0 {
        declared
    } else {
        let before = spec_member_count_upto(words, nodes, id, declared, n - 1);
        let node = nodes[n - 1];
        if spec_mentions_member(words, node, id) {
            let end = spec_member_end(words[node.word_offset + 2]);
            if end > before {
                end
            } else {
                before
            }
        } else {
            before
        }
    }
}

/// The member count of node `at`: the number of members that a struct type
/// lists, or more where an instruction names or decorates a member beyond
/// them.
pub open spec fn spec_member_count(words: Seq<u32>, nodes: Seq<ParserNode>, at: int) -> u32 {
    spec_member_count_upto(
        words,
        nodes,
        nodes[at].result_id,
        nodes[at].member_count,
        nodes.len() as int,
    )
}

/// The member count of a node never falls below what the node lists.
pub proof fn lemma_member_count_upto(
    words: Seq<u32>,
    nodes: Seq<ParserNode>,
    id: u32,
    declared: u32,
    n: int,
)
    ensures
        spec_member_count_upto(words, nodes, id, declared, n) >= declared,
    decreases n,
{
    if n > 0 {
        lemma_member_count_upto(words, nodes, id, declared, n - 1);
    }
}

/// The place of the first node from `from` on that is a string with the
/// id `id`.
pub open spec fn spec_string_node_from(
    words: Seq<u32>,
    nodes: Seq<ParserNode>,
    id: u32,
    from: int,
) -> Option<int>
    decreases nodes.len() - from,
{
    if from < 0 || from >= nodes.len() {
        None
    } else if nodes[from].op == OP_STRING && words[nodes[from].word_offset + 1] == id {
        Some(from)
    } else {
        spec_string_node_from(words, nodes, id, from + 1)
    }
}

/// The string with the id `id`: the literal of the first string
/// instruction with that id, or the empty string where there is none.
pub open spec fn spec_string(
    words: Seq<u32>,
    nodes: Seq<ParserNode>,
    id: u32,
) -> Result<Seq<char>, ReflectError> {
    match spec_string_node_from(words, nodes, id, 0) {
        None => Ok(Seq::empty()),
        Some(i) => spec_literal(
            words,
            nodes[i].word_offset + 2,
            nodes[i].word_offset + nodes[i].word_count,
        ),
    }
}

/// What the source instructions say of the module.
#[derive(Clone, Copy, Debug, PartialEq, Eq, Structural)]
pub struct SourceInfo {
    /// The number of the source language, where `spirv_headers` defines it.
    pub language: Option<u32>,
    pub version: u32,
    /// The id of the string that names the source file, or 0.
    pub file_id: u32,
    /// The words that hold the source text, where the module carries it.
    pub text: StringDecoration,
}

/// What the source instructions among the first `n` nodes say: language
/// and version of the last one, and file id and text of the last that has
/// them.
pub open spec fn spec_source_upto(words: Seq<u32>, nodes: Seq<ParserNode>, n: int) -> SourceInfo
    decreases n,
{
    if n <= 0 {
        SourceInfo {
            language: None,
            version: 0,
            file_id: 0,
            text: StringDecoration { word_offset: 0, word_end: 0 },
        }
    } else {
        let before = spec_source_upto(words, nodes, n - 1);
        let node = nodes[n - 1];
        if node.op == OP_SOURCE {
            let language = words[node.word_offset + 1];
            SourceInfo {
                language: if spirv_source_language_defined(language) {
                    Some(language)
                } else {
                    None
                },
                version: words[node.word_offset + 2],
                file_id: if node.word_count >= 4 {
                    words[node.word_offset + 3]
                } else {
                    before.file_id
                },
                text: if node.word_count >= 5 {
                    StringDecoration {
                        word_offset: (node.word_offset + 4) as u32,
                        word_end: (node.word_offset + node.word_count) as u32,
                    }
                } else {
                    before.text
                },
            }
        } else {
            before
        }
    }
}

/// What the source instructions say of the module.
pub open spec fn spec_source(words: Seq<u32>, nodes: Seq<ParserNode>) -> SourceInfo {
    spec_source_upto(words, nodes, nodes.len() as int)
}

/// Whether the literal strings of the first `n` nodes that carry a name or
/// a string can be read.
pub open spec fn spec_strings_ok_upto(words: Seq<u32>, nodes: Seq<ParserNode>, n: int) -> bool
    decreases n,
{
    if n <= 0 {
        true
    } else {
        let node = nodes[n - 1];
        let end = node.word_offset + node.word_count;
        &&& spec_strings_ok_upto(words, nodes, n - 1)
        &&& node.op == OP_NAME || node.op == OP_STRING ==> spec_literal(
            words,
            node.word_offset + 2,
            end,
        ).is_ok()
        &&& node.op == OP_MEMBER_NAME ==> spec_literal(words, node.word_offset + 3, end).is_ok()
    }
}

/// Whether every name, member name and string of the module can be read:
/// each ends in a zero byte inside its instruction and is UTF-8.
pub open spec fn spec_strings_ok(words: Seq<u32>, nodes: Seq<ParserNode>) -> bool {
    spec_strings_ok_upto(words, nodes, nodes.len() as int)
}

/// A string that cannot be read among the first `n` nodes is still one
/// among the first `m`.
pub proof fn lemma_strings_bad(words: Seq<u32>, nodes: Seq<ParserNode>, n: int, m: int)
    requires
        n <= m,
        !spec_strings_ok_upto(words, nodes, n),
    ensures
        !spec_strings_ok_upto(words, nodes, m),
    decreases m - n,
{
    if n < m {
        lemma_strings_bad(words, nodes, n, m - 1);
    }
}

/// Where the names and strings among the first `n` nodes can be read, so
/// can that of each node among them.
pub proof fn lemma_string_ok_at(words: Seq<u32>, nodes: Seq<ParserNode>, n: int, i: int)
    requires
        spec_strings_ok_upto(words, nodes, n),
        0 <= i < n,
    ensures
        nodes[i].op == OP_NAME || nodes[i].op == OP_STRING ==> spec_literal(
            words,
            nodes[i].word_offset + 2,
            nodes[i].word_offset + nodes[i].word_count,
        ).is_ok(),
        nodes[i].op == OP_MEMBER_NAME ==> spec_literal(
            words,
            nodes[i].word_offset + 3,
            nodes[i].word_offset + nodes[i].word_count,
        ).is_ok(),
    decreases n,
{
    if i < n - 1 {
        lemma_string_ok_at(words, nodes, n - 1, i);
    }
}

/// The node that names an id is one of the nodes, and it is a name.
pub proof fn lemma_name_node(words: Seq<u32>, nodes: Seq<ParserNode>, id: u32, n: int)
    ensures
        spec_name_node_upto(words, nodes, id, n) matches Some(i) ==> 0 <= i < n && nodes[i].op
            == OP_NAME,
    decreases n,
{
    if n > 0 && !spec_names(words, nodes[n - 1], id) {
        lemma_name_node(words, nodes, id, n - 1);
    }
}

/// The node that names a member is one of the nodes, and it is a member
/// name.
pub proof fn lemma_member_name_node(
    words: Seq<u32>,
    nodes: Seq<ParserNode>,
    id: u32,
    member: u32,
    n: int,
)
    ensures
        spec_member_name_node_upto(words, nodes, id, member, n) matches Some(i) ==> 0 <= i < n
            && nodes[i].op == OP_MEMBER_NAME,
    decreases n,
{
    if n > 0 && !spec_names_member(words, nodes[n - 1], id, member) {
        lemma_member_name_node(words, nodes, id, member, n - 1);
    }
}

/// Where every name of the module can be read, every id and every member
/// has a name, which is empty where no instruction names it.
pub proof fn lemma_names_decode(words: Seq<u32>, nodes: Seq<ParserNode>, id: u32, member: u32)
    requires
        spec_strings_ok(words, nodes),
    ensures
        spec_name(words, nodes, id).is_ok(),
        spec_member_name(words, nodes, id, member).is_ok(),
{
    let n = nodes.len() as int;
    lemma_name_node(words, nodes, id, n);
    lemma_member_name_node(words, nodes, id, member, n);
    match spec_name_node_upto(words, nodes, id, n) {
        Some(i) => {
            lemma_string_ok_at(words, nodes, n, i);
        },
        None => {},
    }
    match spec_member_name_node_upto(words, nodes, id, member, n) {
        Some(i) => {
            lemma_string_ok_at(words, nodes, n, i);
        },
        None => {},
    }
}

impl Parser {
    /// The decorations of the id `id`.
    pub fn decorations_of(&self, id: u32) -> (decorations: Decorations)
        requires
            self.wf(),
        ensures
            decorations == spec_decorations(self.words@, self.nodes@, id),
    {
        let mut decorations = Decorations::none();
        let mut i: usize = 0;
        while i < self.nodes.len()
            invariant
                i <= self.nodes@.len(),
                self.wf(),
                decorations == spec_decorations_upto(self.words@, self.nodes@, id, i as int),
            decreases self.nodes@.len() - i,
        {
            let node = self.nodes[i];
            proof {
                lemma_node_ok(self.words@, node);
            }
            if node.op == OP_DECORATE || node.op == OP_DECORATE_ID
                || node.op == OP_DECORATE_STRING {
                let start = node.word_offset as usize;
                if self.words[start + 1] == id {
                    decorations = apply_decoration(
                        decorations,
                        &self.words,
                        start + 2,
                        start + node.word_count as usize,
                    );
                }
            }
            i += 1;
        }
        decorations
    }

    /// The decorations of member `member` of the struct `id`.
    pub fn member_decorations_of(&self, id: u32, member: u32) -> (decorations: Decorations)
        requires
            self.wf(),
        ensures
            decorations == spec_member_decorations(self.words@, self.nodes@, id, member),
    {
        let mut decorations = Decorations::none();
        let mut i: usize = 0;
        while i < self.nodes.len()
            invariant
                i <= self.nodes@.len(),
                self.wf(),
                decorations == spec_member_decorations_upto(
                    self.words@,
                    self.nodes@,
                    id,
                    member,
                    i as int,
                ),
            decreases self.nodes@.len() - i,
        {
            let node = self.nodes[i];
            proof {
                lemma_node_ok(self.words@, node);
            }
            if node.op == OP_MEMBER_DECORATE || node.op == OP_MEMBER_DECORATE_STRING {
                let start = node.word_offset as usize;
                if self.words[start + 1] == id && self.words[start + 2] == member {
                    decorations = apply_decoration(
                        decorations,
                        &self.words,
                        start + 3,
                        start + node.word_count as usize,
                    );
                }
            }
            i += 1;
        }
        decorations
    }

    /// The name of the id `id`.
    pub fn name_of(&self, id: u32) -> (name: Result<String, ReflectError>)
        requires
            self.wf(),
        ensures
            agrees(name, spec_name(self.words@, self.nodes@, id)),
    {
        let mut found: Option<usize> = None;
        let mut i: usize = 0;
        while i < self.nodes.len()
            invariant
                i <= self.nodes@.len(),
                self.wf(),
                match found {
                    Some(k) => k < i && spec_name_node_upto(
                        self.words@,
                        self.nodes@,
                        id,
                        i as int,
                    ) == Some(k as int) && self.nodes@[k as int].op == OP_NAME,
                    None => spec_name_node_upto(self.words@, self.nodes@, id, i as int).is_none(),
                },
            decreases self.nodes@.len() - i,
        {
            let node = self.nodes[i];
            proof {
                lemma_node_ok(self.words@, node);
            }
            if node.op == OP_NAME && self.words[node.word_offset as usize + 1] == id {
                found = Some(i);
            }
            i += 1;
        }
        match found {
            None => Ok(String::new()),
            Some(k) => {
                let node = self.nodes[k];
                proof {
                    lemma_node_ok(self.words@, node);
                }
                let start = node.word_offset as usize;
                literal(&self.words, start + 2, start + node.word_count as usize)
            },
        }
    }

    /// The name of member `member` of the struct `id`.
    pub fn member_name_of(&self, id: u32, member: u32) -> (name: Result<
        String,
        ReflectError,
    >)
        requires
            self.wf(),
        ensures
            agrees(name, spec_member_name(self.words@, self.nodes@, id, member)),
    {
        let mut found: Option<usize> = None;
        let mut i: usize = 0;
        while i < self.nodes.len()
            invariant
                i <= self.nodes@.len(),
                self.wf(),
                match found {
                    Some(k) => k < i && spec_member_name_node_upto(
                        self.words@,
                        self.nodes@,
                        id,
                        member,
                        i as int,
                    ) == Some(k as int) && self.nodes@[k as int].op == OP_MEMBER_NAME,
                    None => spec_member_name_node_upto(
                        self.words@,
                        self.nodes@,
                        id,
                        member,
                        i as int,
                    ).is_none(),
                },
            decreases self.nodes@.len() - i,
        {
            let node = self.nodes[i];
            proof {
                lemma_node_ok(self.words@, node);
            }
            if node.op == OP_MEMBER_NAME {
                let start = node.word_offset as usize;
                if self.words[start + 1] == id && self.words[start + 2] == member {
                    found = Some(i);
                }
            }
            i += 1;
        }
        match found {
            None => Ok(String::new()),
            Some(k) => {
                let node = self.nodes[k];
                proof {
                    lemma_node_ok(self.words@, node);
                }
                let start = node.word_offset as usize;
                literal(&self.words, start + 3, start + node.word_count as usize)
            },
        }
    }

    /// The member count of node `at`.
    pub fn member_count_of(&self, at: usize) -> (count: u32)
        requires
            self.wf(),
            at < self.nodes@.len(),
        ensures
            count == spec_member_count(self.words@, self.nodes@, at as int),
            count >= self.nodes@[at as int].member_count,
    {
        let id = self.nodes[at].result_id;
        let declared = self.nodes[at].member_count;
        let mut count: u32 = declared;
        let mut i: usize = 0;
        while i < self.nodes.len()
            invariant
                i <= self.nodes@.len(),
                self.wf(),
                count == spec_member_count_upto(self.words@, self.nodes@, id, declared, i as int),
            decreases self.nodes@.len() - i,
        {
            let node = self.nodes[i];
            proof {
                lemma_node_ok(self.words@, node);
            }
            if node.op == OP_MEMBER_NAME || node.op == OP_MEMBER_DECORATE {
                let start = node.word_offset as usize;
                if self.words[start + 1] == id {
                    let member = self.words[start + 2];
                    let end: u32 = if member == u32::MAX {
                        u32::MAX
                    } else {
                        member + 1
                    };
                    if end > count {
                        count = end;
                    }
                }
            }
            i += 1;
        }
        proof {
            lemma_member_count_upto(
                self.words@,
                self.nodes@,
                id,
                declared,
                self.nodes@.len() as int,
            );
        }
        count
    }

    /// The string with the id `id`.
    pub fn string_of(&self, id: u32) -> (text: Result<String, ReflectError>)
        requires
            self.wf(),
        ensures
            agrees(text, spec_string(self.words@, self.nodes@, id)),
    {
        let mut i: usize = 0;
        while i < self.nodes.len()
            invariant
                i <= self.nodes@.len(),
                self.wf(),
                spec_string_node_from(self.words@, self.nodes@, id, 0) == spec_string_node_from(
                    self.words@,
                    self.nodes@,
                    id,
                    i as int,
                ),
            decreases self.nodes@.len() - i,
        {
            let node = self.nodes[i];
            proof {
                lemma_node_ok(self.words@, node);
            }
            let start = node.word_offset as usize;
            if node.op == OP_STRING && self.words[start + 1] == id {
                return literal(&self.words, start + 2, start + node.word_count as usize);
            }
            i += 1;
        }
        Ok(String::new())
    }

    /// What the source instructions say of the module.
    pub fn source_of(&self) -> (info: SourceInfo)
        requires
            self.wf(),
        ensures
            info == spec_source(self.words@, self.nodes@),
    {
        let mut info = SourceInfo {
            language: None,
            version: 0,
            file_id: 0,
            text: StringDecoration { word_offset: 0, word_end: 0 },
        };
        let mut i: usize = 0;
        while i < self.nodes.len()
            invariant
                i <= self.nodes@.len(),
                self.wf(),
                info == spec_source_upto(self.words@, self.nodes@, i as int),
            decreases self.nodes@.len() - i,
        {
            let node = self.nodes[i];
            proof {
                lemma_node_ok(self.words@, node);
            }
            if node.op == OP_SOURCE {
                let start = node.word_offset as usize;
                let language = self.words[start + 1];
                info.language = if source_language_defined(language) {
                    Some(language)
                } else {
                    None
                };
                info.version = self.words[start + 2];
                if node.word_count >= 4 {
                    info.file_id = self.words[start + 3];
                }
                if node.word_count >= 5 {
                    info.text = StringDecoration {
                        word_offset: (start + 4) as u32,
                        word_end: (start + node.word_count as usize) as u32,
                    };
                }
            }
            i += 1;
        }
        info
    }

    /// Reads every name, member name and string of the module once, so that a
    /// string that cannot be read fails the load whether or not anything
    /// refers to it.
    pub fn check_strings(&self) -> (checked: Result<(), ReflectError>)
        requires
            self.wf(),
        ensures
            checked.is_ok() == spec_strings_ok(self.words@, self.nodes@),
            checked matches Err(e) ==> e == ReflectError::InvalidString,
    {
        let mut i: usize = 0;
        while i < self.nodes.len()
            invariant
                i <= self.nodes@.len(),
                self.wf(),
                spec_strings_ok_upto(self.words@, self.nodes@, i as int),
            decreases self.nodes@.len() - i,
        {
            let node = self.nodes[i];
            proof {
                lemma_node_ok(self.words@, node);
            }
            let start = node.word_offset as usize;
            let end = start + node.word_count as usize;
            if node.op == OP_NAME || node.op == OP_STRING {
                if literal(&self.words, start + 2, end).is_err() {
                    proof {
                        lemma_strings_bad(
                            self.words@,
                            self.nodes@,
                            i as int + 1,
                            self.nodes@.len() as int,
                        );
                    }
                    return Err(ReflectError::InvalidString);
                }
            } else if node.op == OP_MEMBER_NAME {
                if literal(&self.words, start + 3, end).is_err() {
                    proof {
                        lemma_strings_bad(
                            self.words@,
                            self.nodes@,
                            i as int + 1,
                            self.nodes@.len() as int,
                        );
                    }
                    return Err(ReflectError::InvalidString);
                }
            }
            i += 1;
        }
        Ok(())
    }
}

} // verus!
