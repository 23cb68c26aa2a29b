//! The type graph resolver: from a type instruction to the description of
//! the type, with the types it is built from resolved into it.

use crate::error::ReflectError;
use crate::parser::annotation::{
    apply_decorations, lemma_member_count_upto, lemma_names_decode, lemma_node_ok,
    spec_decorations, spec_member_count, spec_member_decorations, spec_member_name, spec_name,
    spec_strings_ok,
};
use crate::parser::node::{
    lemma_find_node, spec_find_node, spec_indexed, spec_node_ok, Parser, ParserNode,
};
use crate::spirv::{
    OP_TYPE_ARRAY, OP_TYPE_BOOL, OP_TYPE_FLOAT, OP_TYPE_IMAGE, OP_TYPE_INT, OP_TYPE_MATRIX,
    OP_TYPE_POINTER, OP_TYPE_RUNTIME_ARRAY, OP_TYPE_SAMPLED_IMAGE, OP_TYPE_SAMPLER, OP_TYPE_STRUCT,
    OP_TYPE_VECTOR, OP_TYPE_VOID,
};
use crate::types::flags::{ReflectDecorationFlags, ReflectTypeFlags};
use crate::types::op::ReflectOp;
use crate::types::traits::{
    ArrayTraitsView, ReflectImageTraits, ReflectNumericTraits, ReflectNumericTraitsMatrix,
    ReflectNumericTraitsScalar, ReflectNumericTraitsVector, TypeDescriptionTraitsView,
};
use crate::types::variable::{
    lemma_type_members_view, ReflectStorageClass, ReflectTypeDescription, TypeDescriptionView,
    UNRESOLVED_ID,
};
use crate::views::{agrees, views};
use vstd::prelude::*;

verus! {

/// `count` descriptions into which nothing has been resolved.
pub open spec fn spec_blank_members(count: int) -> Seq<TypeDescriptionView> {
    Seq::new(count as nat, |i: int| TypeDescriptionView::unresolved())
}

/// `acc` on entry to node `at`: the members are the node's member count of
/// blank descriptions; id and opcode are the node's if `acc` has none yet;
/// the flags of the node's decorations are added.
pub open spec fn spec_enter(
    words: Seq<u32>,
    nodes: Seq<ParserNode>,
    at: int,
    acc: TypeDescriptionView,
) -> TypeDescriptionView {
    let node = nodes[at];
    let first = acc.id == UNRESOLVED_ID;
    let flags = spec_decorations(words, nodes, node.result_id).spec_flags();
    TypeDescriptionView {
        id: if first {
            node.result_id
        } else {
            acc.id
        },
        op: if first {
            ReflectOp { code: node.op }
        } else {
            acc.op
        },
        decoration_flags: if first {
            ReflectDecorationFlags { bits: 0 }.spec_with(flags.bits)
        } else {
            acc.decoration_flags.spec_with(flags.bits)
        },
        members: spec_blank_members(spec_member_count(words, nodes, at) as int),
        ..acc
    }
}

/// `t` with the bits of `mask` added to its type flags.
pub open spec fn spec_flagged(t: TypeDescriptionView, mask: u32) -> TypeDescriptionView {
    TypeDescriptionView { type_flags: t.type_flags.spec_with(mask), ..t }
}

/// `t` with other numeric traits.
pub open spec fn spec_with_numeric(
    t: TypeDescriptionView,
    numeric: ReflectNumericTraits,
) -> TypeDescriptionView {
    TypeDescriptionView { traits: TypeDescriptionTraitsView { numeric, ..t.traits }, ..t }
}

/// `t` with other array traits.
pub open spec fn spec_with_array(
    t: TypeDescriptionView,
    array: ArrayTraitsView,
) -> TypeDescriptionView {
    TypeDescriptionView { traits: TypeDescriptionTraitsView { array, ..t.traits }, ..t }
}

/// `t` with other image traits.
pub open spec fn spec_with_image(
    t: TypeDescriptionView,
    image: ReflectImageTraits,
) -> TypeDescriptionView {
    TypeDescriptionView { traits: TypeDescriptionTraitsView { image, ..t.traits }, ..t }
}

/// The stride of a matrix: that of the struct member it is the type of,
/// where it is resolved as one, else that of the matrix type itself.
pub open spec fn spec_matrix_stride(
    words: Seq<u32>,
    nodes: Seq<ParserNode>,
    at: int,
    member_of: Option<(usize, u32)>,
) -> u32 {
    match member_of {
        Some((owner, member)) => spec_member_decorations(
            words,
            nodes,
            nodes[owner as int].result_id,
            member,
        ).matrix_stride,
        None => spec_decorations(words, nodes, nodes[at].result_id).matrix_stride,
    }
}

/// `t` shaped by a type that refers to no other type: a flag for void,
/// bool and sampler; flag and width for int and float, and signedness for
/// int; flag and operands for an image. Any other opcode leaves `t` as it
/// is.
pub open spec fn spec_shape_plain(
    words: Seq<u32>,
    node: ParserNode,
    t: TypeDescriptionView,
) -> TypeDescriptionView {
    let pos = node.word_offset as int;
    if node.op == OP_TYPE_VOID {
        spec_flagged(t, ReflectTypeFlags::VOID)
    } else if node.op == OP_TYPE_BOOL {
        spec_flagged(t, ReflectTypeFlags::BOOL)
    } else if node.op == OP_TYPE_SAMPLER {
        spec_flagged(t, ReflectTypeFlags::EXTERNAL_SAMPLER)
    } else if node.op == OP_TYPE_INT {
        spec_with_numeric(
            spec_flagged(t, ReflectTypeFlags::INT),
            ReflectNumericTraits {
                scalar: ReflectNumericTraitsScalar {
                    width: words[pos + 2],
                    signedness: words[pos + 3],
                },
                ..t.traits.numeric
            },
        )
    } else if node.op == OP_TYPE_FLOAT {
        spec_with_numeric(
            spec_flagged(t, ReflectTypeFlags::FLOAT),
            ReflectNumericTraits {
                scalar: ReflectNumericTraitsScalar {
                    width: words[pos + 2],
                    ..t.traits.numeric.scalar
                },
                ..t.traits.numeric
            },
        )
    } else if node.op == OP_TYPE_IMAGE {
        spec_with_image(
            spec_flagged(t, ReflectTypeFlags::EXTERNAL_IMAGE),
            ReflectImageTraits {
                dim: node.image_traits.dim,
                depth: node.image_traits.depth,
                arrayed: node.image_traits.arrayed,
                ms: node.image_traits.ms,
                sampled: node.image_traits.sampled,
                image_format: node.image_traits.image_format,
            },
        )
    } else {
        t
    }
}

/// Whether a type with the opcode `op` is built from other types.
pub open spec fn spec_is_composite(op: u32) -> bool {
    ||| op == OP_TYPE_VECTOR
    ||| op == OP_TYPE_MATRIX
    ||| op == OP_TYPE_SAMPLED_IMAGE
    ||| op == OP_TYPE_ARRAY
    ||| op == OP_TYPE_RUNTIME_ARRAY
    ||| op == OP_TYPE_STRUCT
    ||| op == OP_TYPE_POINTER
}

/// `t` with the name of the id `id`, unless it has a name.
pub open spec fn spec_named(
    words: Seq<u32>,
    nodes: Seq<ParserNode>,
    id: u32,
    t: TypeDescriptionView,
) -> Result<TypeDescriptionView, ReflectError> {
    if t.name.len() == 0 {
        match spec_name(words, nodes, id) {
            Err(e) => Err(e),
            Ok(name) => Ok(TypeDescriptionView { name, ..t }),
        }
    } else {
        Ok(t)
    }
}

/// The type of node `at` resolved into `acc`.
///
/// Scalars set their flag and width; a vector, a matrix, a sampled image,
/// an array, a runtime array and a pointer set what they add and then
/// resolve the type they refer to into the same description; a struct
/// resolves each member it lists into a description of its own. A
/// description keeps the name it has; one without a name takes that of
/// the node. `fuel` bounds the depth: where it runs out, the type graph is
/// taken to refer back to itself.
pub open spec fn spec_resolve_type(
    words: Seq<u32>,
    nodes: Seq<ParserNode>,
    at: int,
    member_of: Option<(usize, u32)>,
    acc: TypeDescriptionView,
    fuel: nat,
) -> Result<TypeDescriptionView, ReflectError>
    decreases fuel, 0nat, 0nat,
{
    if fuel == 0 {
        Err(ReflectError::Recursion)
    } else {
        let node = nodes[at];
        let t = spec_enter(words, nodes, at, acc);
        let shaped = if spec_is_composite(node.op) {
            spec_shape_composite(words, nodes, at, member_of, t, (fuel - 1) as nat)
        } else {
            Ok(spec_shape_plain(words, node, t))
        };
        match shaped {
            Err(e) => Err(e),
            Ok(done) => spec_named(words, nodes, node.result_id, done),
        }
    }
}

/// `t` shaped by the composite type of node `at`.
pub open spec fn spec_shape_composite(
    words: Seq<u32>,
    nodes: Seq<ParserNode>,
    at: int,
    member_of: Option<(usize, u32)>,
    t: TypeDescriptionView,
    fuel: nat,
) -> Result<TypeDescriptionView, ReflectError>
    decreases fuel, 3nat, 0nat,
{
    let node = nodes[at];
    let pos = node.word_offset as int;
    if node.op == OP_TYPE_VECTOR {
        spec_resolve_next(
            words,
            nodes,
            words[pos + 2],
            spec_with_numeric(
                spec_flagged(t, ReflectTypeFlags::VECTOR),
                ReflectNumericTraits {
                    vector: ReflectNumericTraitsVector { component_count: words[pos + 3] },
                    ..t.traits.numeric
                },
            ),
            fuel,
        )
    } else if node.op == OP_TYPE_MATRIX {
        match spec_resolve_next(
            words,
            nodes,
            words[pos + 2],
            spec_with_numeric(
                spec_flagged(t, ReflectTypeFlags::MATRIX),
                ReflectNumericTraits {
                    matrix: ReflectNumericTraitsMatrix {
                        column_count: words[pos + 3],
                        ..t.traits.numeric.matrix
                    },
                    ..t.traits.numeric
                },
            ),
            fuel,
        ) {
            Err(e) => Err(e),
            Ok(column) => Ok(
                spec_with_numeric(
                    column,
                    ReflectNumericTraits {
                        matrix: ReflectNumericTraitsMatrix {
                            row_count: column.traits.numeric.vector.component_count,
                            stride: spec_matrix_stride(words, nodes, at, member_of),
                            ..column.traits.numeric.matrix
                        },
                        ..column.traits.numeric
                    },
                ),
            ),
        }
    } else if node.op == OP_TYPE_SAMPLED_IMAGE {
        spec_resolve_next(
            words,
            nodes,
            words[pos + 2],
            spec_flagged(t, ReflectTypeFlags::EXTERNAL_SAMPLED_IMAGE),
            fuel,
        )
    } else if node.op == OP_TYPE_ARRAY {
        match spec_find_node(nodes, words[pos + 3]) {
            None => Err(ReflectError::InvalidIdReference),
            Some(length_at) => if nodes[length_at].word_count < 4 {
                Err(ReflectError::InvalidInstruction)
            } else {
                spec_resolve_next(
                    words,
                    nodes,
                    words[pos + 2],
                    spec_with_array(
                        spec_flagged(t, ReflectTypeFlags::ARRAY),
                        ArrayTraitsView {
                            dims: t.traits.array.dims.push(words[nodes[length_at].word_offset + 3]),
                            stride: spec_decorations(words, nodes, node.result_id).array_stride,
                        },
                    ),
                    fuel,
                )
            },
        }
    } else if node.op == OP_TYPE_RUNTIME_ARRAY {
        spec_resolve_next(
            words,
            nodes,
            words[pos + 2],
            spec_with_array(
                t,
                ArrayTraitsView {
                    stride: spec_decorations(words, nodes, node.result_id).array_stride,
                    ..t.traits.array
                },
            ),
            fuel,
        )
    } else if node.op == OP_TYPE_STRUCT {
        match spec_resolve_members_upto(words, nodes, at, node.word_count - 2, fuel) {
            Err(e) => Err(e),
            Ok(listed) => Ok(
                TypeDescriptionView {
                    members: listed + spec_blank_members(t.members.len() - listed.len()),
                    ..spec_flagged(t, ReflectTypeFlags::STRUCT | ReflectTypeFlags::EXTERNAL_BLOCK)
                },
            ),
        }
    } else if node.storage_class == ReflectStorageClass::Undefined {
        Err(ReflectError::InvalidIdReference)
    } else {
        spec_resolve_next(
            words,
            nodes,
            node.type_id,
            TypeDescriptionView {
                storage_class: node.storage_class,
                ..spec_flagged(t, ReflectTypeFlags::STRUCT | ReflectTypeFlags::EXTERNAL_BLOCK)
            },
            fuel,
        )
    }
}

/// The type with the id `id` resolved into `acc`.
pub open spec fn spec_resolve_next(
    words: Seq<u32>,
    nodes: Seq<ParserNode>,
    id: u32,
    acc: TypeDescriptionView,
    fuel: nat,
) -> Result<TypeDescriptionView, ReflectError>
    decreases fuel, 1nat, 0nat,
{
    match spec_find_node(nodes, id) {
        None => Err(ReflectError::InvalidIdReference),
        Some(next) => spec_resolve_type(words, nodes, next, None, acc, fuel),
    }
}

/// The descriptions of the first `k` members that the struct at node `at`
/// lists, each resolved on its own and given its member name.
pub open spec fn spec_resolve_members_upto(
    words: Seq<u32>,
    nodes: Seq<ParserNode>,
    at: int,
    k: int,
    fuel: nat,
) -> Result<Seq<TypeDescriptionView>, ReflectError>
    decreases fuel, 2nat, k,
{
    if k <= 0 {
        Ok(Seq::empty())
    } else {
        match spec_resolve_members_upto(words, nodes, at, k - 1, fuel) {
            Err(e) => Err(e),
            Ok(before) => match spec_resolve_member(words, nodes, at, k - 1, fuel) {
                Err(e) => Err(e),
                Ok(member) => Ok(before.push(member)),
            },
        }
    }
}

/// The description of member `m` of the struct at node `at`.
pub open spec fn spec_resolve_member(
    words: Seq<u32>,
    nodes: Seq<ParserNode>,
    at: int,
    m: int,
    fuel: nat,
) -> Result<TypeDescriptionView, ReflectError>
    decreases fuel, 1nat, 0nat,
{
    let node = nodes[at];
    match spec_find_node(nodes, words[node.word_offset + 2 + m]) {
        None => Err(ReflectError::InvalidIdReference),
        Some(member_at) => match spec_resolve_type(
            words,
            nodes,
            member_at,
            Some((at as usize, m as u32)),
            TypeDescriptionView::unresolved(),
            fuel,
        ) {
            Err(e) => Err(e),
            Ok(member) => match spec_member_name(words, nodes, node.result_id, m as u32) {
                Err(e) => Err(e),
                Ok(name) => Ok(TypeDescriptionView { struct_member_name: name, ..member }),
            },
        },
    }
}

/// Once a member cannot be resolved, the members cannot.
pub proof fn lemma_members_fail(
    words: Seq<u32>,
    nodes: Seq<ParserNode>,
    at: int,
    k: int,
    n: int,
    fuel: nat,
)
    requires
        0 <= k <= n,
        spec_resolve_members_upto(words, nodes, at, k, fuel).is_err(),
    ensures
        spec_resolve_members_upto(words, nodes, at, n, fuel) == spec_resolve_members_upto(
            words,
            nodes,
            at,
            k,
            fuel,
        ),
    decreases n - k,
{
    if k < n {
        lemma_members_fail(words, nodes, at, k, n - 1, fuel);
    }
}

/// The members that were resolved are as many as were asked for.
pub proof fn lemma_members_len(words: Seq<u32>, nodes: Seq<ParserNode>, at: int, k: int, fuel: nat)
    requires
        0 <= k,
    ensures
        spec_resolve_members_upto(words, nodes, at, k, fuel) matches Ok(listed) ==> listed.len()
            == k,
    decreases k,
{
    if k > 0 {
        lemma_members_len(words, nodes, at, k - 1, fuel);
    }
}

/// The description of a struct type has as many members as the member
/// count of the struct's node: the members that it lists, or more where an
/// instruction names or decorates a member beyond them.
pub proof fn lemma_struct_member_count(
    words: Seq<u32>,
    nodes: Seq<ParserNode>,
    at: int,
    member_of: Option<(usize, u32)>,
    acc: TypeDescriptionView,
    fuel: nat,
)
    requires
        spec_indexed(words, nodes),
        0 <= at < nodes.len(),
        nodes[at].op == OP_TYPE_STRUCT,
        spec_resolve_type(words, nodes, at, member_of, acc, fuel).is_ok(),
    ensures
        spec_resolve_type(words, nodes, at, member_of, acc, fuel).unwrap().members.len()
            == spec_member_count(words, nodes, at),
        spec_member_count(words, nodes, at) >= nodes[at].word_count - 2,
{
    let node = nodes[at];
    lemma_node_ok(words, node);
    lemma_member_count_upto(
        words,
        nodes,
        node.result_id,
        node.member_count,
        nodes.len() as int,
    );
    lemma_members_len(words, nodes, at, node.word_count - 2, (fuel - 1) as nat);
}

/// What the composite type of node `at` that is no struct hands on to the
/// type that it refers to: the description `t` with what the type itself
/// adds.
pub open spec fn spec_handed_on(
    words: Seq<u32>,
    nodes: Seq<ParserNode>,
    at: int,
    t: TypeDescriptionView,
) -> TypeDescriptionView {
    let node = nodes[at];
    if node.op == OP_TYPE_VECTOR {
        spec_with_numeric(
            spec_flagged(t, ReflectTypeFlags::VECTOR),
            ReflectNumericTraits {
                vector: ReflectNumericTraitsVector {
                    component_count: words[node.word_offset + 3],
                },
                ..t.traits.numeric
            },
        )
    } else if node.op == OP_TYPE_MATRIX {
        spec_with_numeric(
            spec_flagged(t, ReflectTypeFlags::MATRIX),
            ReflectNumericTraits {
                matrix: ReflectNumericTraitsMatrix {
                    column_count: words[node.word_offset + 3],
                    ..t.traits.numeric.matrix
                },
                ..t.traits.numeric
            },
        )
    } else if node.op == OP_TYPE_SAMPLED_IMAGE {
        spec_flagged(t, ReflectTypeFlags::EXTERNAL_SAMPLED_IMAGE)
    } else if node.op == OP_TYPE_ARRAY {
        let length_at = spec_find_node(nodes, words[node.word_offset + 3]).unwrap();
        spec_with_array(
            spec_flagged(t, ReflectTypeFlags::ARRAY),
            ArrayTraitsView {
                dims: t.traits.array.dims.push(words[nodes[length_at].word_offset + 3]),
                stride: spec_decorations(words, nodes, node.result_id).array_stride,
            },
        )
    } else if node.op == OP_TYPE_RUNTIME_ARRAY {
        spec_with_array(
            t,
            ArrayTraitsView {
                stride: spec_decorations(words, nodes, node.result_id).array_stride,
                ..t.traits.array
            },
        )
    } else {
        TypeDescriptionView {
            storage_class: node.storage_class,
            ..spec_flagged(t, ReflectTypeFlags::STRUCT | ReflectTypeFlags::EXTERNAL_BLOCK)
        }
    }
}

/// The node at the end of the chain of types that node `at` is made of:
/// node `at` itself where it is a struct type or refers to no other type,
/// else the end of the chain of the type that it refers to, as far as
/// `fuel` reaches.
pub open spec fn spec_chain_end(
    words: Seq<u32>,
    nodes: Seq<ParserNode>,
    at: int,
    fuel: nat,
) -> Option<int>
    decreases fuel,
{
    let node = nodes[at];
    if fuel == 0 {
        None
    } else if !spec_is_composite(node.op) || node.op == OP_TYPE_STRUCT {
        Some(at)
    } else {
        let next = if node.op == OP_TYPE_POINTER {
            node.type_id
        } else {
            words[node.word_offset + 2]
        };
        match spec_find_node(nodes, next) {
            None => None,
            Some(next_at) => spec_chain_end(words, nodes, next_at, (fuel - 1) as nat),
        }
    }
}

/// Every description has as many members as the member count of the node
/// at the end of the chain of types that it was resolved from: that of the
/// struct, where the type is a struct or an array of structs or a pointer
/// to one.
pub proof fn lemma_member_count_of_description(
    words: Seq<u32>,
    nodes: Seq<ParserNode>,
    at: int,
    member_of: Option<(usize, u32)>,
    acc: TypeDescriptionView,
    fuel: nat,
)
    requires
        spec_indexed(words, nodes),
        0 <= at < nodes.len(),
        spec_resolve_type(words, nodes, at, member_of, acc, fuel).is_ok(),
    ensures
        spec_chain_end(words, nodes, at, fuel).is_some(),
        0 <= spec_chain_end(words, nodes, at, fuel).unwrap() < nodes.len(),
        spec_resolve_type(words, nodes, at, member_of, acc, fuel).unwrap().members.len()
            == spec_member_count(words, nodes, spec_chain_end(words, nodes, at, fuel).unwrap()),
    decreases fuel,
{
    let node = nodes[at];
    if node.op == OP_TYPE_STRUCT {
        lemma_struct_member_count(words, nodes, at, member_of, acc, fuel);
    } else if spec_is_composite(node.op) {
        let next = spec_refers_to(words, nodes, at);
        let next_at = spec_find_node(nodes, next).unwrap();
        lemma_find_node(nodes, next);
        let t = spec_enter(words, nodes, at, acc);
        let shaped = spec_shape_composite(words, nodes, at, member_of, t, (fuel - 1) as nat);
        assert(shaped.is_ok());
        let inner = spec_handed_on(words, nodes, at, t);
        assert(spec_resolve_type(words, nodes, next_at, None, inner, (fuel - 1) as nat).is_ok());
        lemma_member_count_of_description(words, nodes, next_at, None, inner, (fuel - 1) as nat);
    }
}

/// The description of a vector type whose component type is no composite
/// type has the component count that the vector type declares.
pub proof fn lemma_vector_component_count(
    words: Seq<u32>,
    nodes: Seq<ParserNode>,
    at: int,
    member_of: Option<(usize, u32)>,
    acc: TypeDescriptionView,
    fuel: nat,
)
    requires
        0 <= at < nodes.len(),
        nodes[at].op == OP_TYPE_VECTOR,
        spec_find_node(nodes, words[nodes[at].word_offset + 2]) matches Some(component)
            && !spec_is_composite(nodes[component].op),
        spec_resolve_type(words, nodes, at, member_of, acc, fuel).is_ok(),
    ensures
        spec_resolve_type(
            words,
            nodes,
            at,
            member_of,
            acc,
            fuel,
        ).unwrap().traits.numeric.vector.component_count == words[nodes[at].word_offset + 3],
{
    reveal_with_fuel(spec_resolve_type, 2);
}

/// `count` descriptions into which nothing has been resolved.
fn blank_members(count: u32) -> (members: Vec<ReflectTypeDescription>)
    ensures
        views(members@) == spec_blank_members(count as int),
{
    let mut members: Vec<ReflectTypeDescription> = Vec::new();
    let mut i: u32 = 0;
    while i < count
        invariant
            i <= count,
            members@.len() == i,
            forall|j: int| 0 <= j < i ==>
                (#[trigger] members@[j])@ == TypeDescriptionView::unresolved(),
        decreases count - i,
    {
        members.push(ReflectTypeDescription::default());
        i += 1;
    }
    assert(views(members@) =~= spec_blank_members(count as int));
    members
}

/// `acc` shaped by a type that refers to no other type.
fn shape_plain(
    words: &Vec<u32>,
    node: &ParserNode,
    acc: ReflectTypeDescription,
) -> (shaped: ReflectTypeDescription)
    requires
        words@.len() <= u32::MAX,
        spec_node_ok(words@, *node),
    ensures
        shaped@ == spec_shape_plain(words@, *node, acc@),
{
    proof {
        lemma_node_ok(words@, *node);
    }
    let pos = node.word_offset as usize;
    let mut acc = acc;
    if node.op == OP_TYPE_VOID {
        acc.type_flags = acc.type_flags.with(ReflectTypeFlags::VOID);
    } else if node.op == OP_TYPE_BOOL {
        acc.type_flags = acc.type_flags.with(ReflectTypeFlags::BOOL);
    } else if node.op == OP_TYPE_SAMPLER {
        acc.type_flags = acc.type_flags.with(ReflectTypeFlags::EXTERNAL_SAMPLER);
    } else if node.op == OP_TYPE_INT {
        acc.type_flags = acc.type_flags.with(ReflectTypeFlags::INT);
        acc.traits.numeric.scalar.width = words[pos + 2];
        acc.traits.numeric.scalar.signedness = words[pos + 3];
    } else if node.op == OP_TYPE_FLOAT {
        acc.type_flags = acc.type_flags.with(ReflectTypeFlags::FLOAT);
        acc.traits.numeric.scalar.width = words[pos + 2];
    } else if node.op == OP_TYPE_IMAGE {
        acc.type_flags = acc.type_flags.with(ReflectTypeFlags::EXTERNAL_IMAGE);
        acc.traits.image.dim = node.image_traits.dim;
        acc.traits.image.depth = node.image_traits.depth;
        acc.traits.image.arrayed = node.image_traits.arrayed;
        acc.traits.image.ms = node.image_traits.ms;
        acc.traits.image.sampled = node.image_traits.sampled;
        acc.traits.image.image_format = node.image_traits.image_format;
    }
    acc
}

/// Whether a type with the opcode `op` is built from other types.
fn is_composite(op: u32) -> (composite: bool)
    ensures
        composite == spec_is_composite(op),
{
    op == OP_TYPE_VECTOR || op == OP_TYPE_MATRIX || op == OP_TYPE_SAMPLED_IMAGE || op
        == OP_TYPE_ARRAY || op == OP_TYPE_RUNTIME_ARRAY || op == OP_TYPE_STRUCT || op
        == OP_TYPE_POINTER
}

/// The id of the type that the composite type of node `at` refers to: what
/// a pointer points to, else the type that the instruction's second
/// operand names.
pub open spec fn spec_refers_to(words: Seq<u32>, nodes: Seq<ParserNode>, at: int) -> u32 {
    if nodes[at].op == OP_TYPE_POINTER {
        nodes[at].type_id
    } else {
        words[nodes[at].word_offset + 2]
    }
}

/// A description keeps the id and the opcode that it has; one that has
/// none takes those of the node that it is resolved from first.
pub proof fn lemma_resolved_id(
    words: Seq<u32>,
    nodes: Seq<ParserNode>,
    at: int,
    member_of: Option<(usize, u32)>,
    acc: TypeDescriptionView,
    fuel: nat,
)
    requires
        0 <= at < nodes.len(),
        acc.id != UNRESOLVED_ID || nodes[at].result_id != UNRESOLVED_ID,
        spec_resolve_type(words, nodes, at, member_of, acc, fuel).is_ok(),
    ensures
        ({
            let t = spec_resolve_type(words, nodes, at, member_of, acc, fuel).unwrap();
            if acc.id != UNRESOLVED_ID {
                t.id == acc.id && t.op == acc.op
            } else {
                t.id == nodes[at].result_id && t.op == (ReflectOp { code: nodes[at].op })
            }
        }),
    decreases fuel,
{
    let node = nodes[at];
    let t = spec_enter(words, nodes, at, acc);
    if spec_is_composite(node.op) && node.op != OP_TYPE_STRUCT {
        let shaped = spec_shape_composite(words, nodes, at, member_of, t, (fuel - 1) as nat);
        assert(shaped.is_ok());
        let next_at = spec_find_node(nodes, spec_refers_to(words, nodes, at)).unwrap();
        lemma_find_node(nodes, spec_refers_to(words, nodes, at));
        let inner = spec_handed_on(words, nodes, at, t);
        assert(spec_resolve_type(words, nodes, next_at, None, inner, (fuel - 1) as nat).is_ok());
        lemma_resolved_id(words, nodes, next_at, None, inner, (fuel - 1) as nat);
    }
}

/// The members that were resolved are, one by one, what each member
/// resolves to.
pub proof fn lemma_member_at(
    words: Seq<u32>,
    nodes: Seq<ParserNode>,
    at: int,
    k: int,
    n: int,
    fuel: nat,
)
    requires
        0 <= k < n,
        spec_resolve_members_upto(words, nodes, at, n, fuel).is_ok(),
    ensures
        spec_resolve_member(words, nodes, at, k, fuel).is_ok(),
        spec_resolve_members_upto(words, nodes, at, n, fuel).unwrap().len() == n,
        spec_resolve_members_upto(words, nodes, at, n, fuel).unwrap()[k] == spec_resolve_member(
            words,
            nodes,
            at,
            k,
            fuel,
        ).unwrap(),
    decreases n,
{
    lemma_members_len(words, nodes, at, n, fuel);
    lemma_members_len(words, nodes, at, n - 1, fuel);
    if k < n - 1 {
        lemma_member_at(words, nodes, at, k, n - 1, fuel);
    }
}

/// In the description of a struct type, each member that the struct lists
/// has the id that the struct lists for it, the opcode of the type with
/// that id, and the name that the member has in the struct.
pub proof fn lemma_struct_members(
    words: Seq<u32>,
    nodes: Seq<ParserNode>,
    at: int,
    member_of: Option<(usize, u32)>,
    acc: TypeDescriptionView,
    fuel: nat,
    k: int,
)
    requires
        spec_indexed(words, nodes),
        0 <= at < nodes.len(),
        nodes[at].op == OP_TYPE_STRUCT,
        0 <= k < nodes[at].word_count - 2,
        words[nodes[at].word_offset + 2 + k] != UNRESOLVED_ID,
        spec_resolve_type(words, nodes, at, member_of, acc, fuel).is_ok(),
    ensures
        ({
            let t = spec_resolve_type(words, nodes, at, member_of, acc, fuel).unwrap();
            let id = words[nodes[at].word_offset + 2 + k];
            &&& k < t.members.len()
            &&& t.members[k].id == id
            &&& spec_find_node(nodes, id) matches Some(member_at) && t.members[k].op == (ReflectOp {
                code: nodes[member_at].op,
            })
            &&& spec_member_name(words, nodes, nodes[at].result_id, k as u32) == Ok::<
                Seq<char>,
                ReflectError,
            >(t.members[k].struct_member_name)
        }),
{
    let node = nodes[at];
    let listed = node.word_count - 2;
    let inner = (fuel - 1) as nat;
    lemma_struct_member_count(words, nodes, at, member_of, acc, fuel);
    lemma_member_at(words, nodes, at, k, listed, inner);
    let id = words[node.word_offset + 2 + k];
    lemma_find_node(nodes, id);
    let member_at = spec_find_node(nodes, id).unwrap();
    lemma_resolved_id(
        words,
        nodes,
        member_at,
        Some((at as usize, k as u32)),
        TypeDescriptionView::unresolved(),
        inner,
    );
}

/// The description of a vector of bools, ints or floats, resolved into a
/// fresh description, has the vector flag and the flag of its components,
/// the component count that the vector declares, and the width of its
/// components.
pub proof fn lemma_vector_description(words: Seq<u32>, nodes: Seq<ParserNode>, at: int, fuel: nat)
    requires
        0 <= at < nodes.len(),
        nodes[at].op == OP_TYPE_VECTOR,
        spec_find_node(nodes, words[nodes[at].word_offset + 2]) matches Some(component) && (
        nodes[component].op == OP_TYPE_BOOL || nodes[component].op == OP_TYPE_INT
            || nodes[component].op == OP_TYPE_FLOAT),
        spec_resolve_type(
            words,
            nodes,
            at,
            None,
            TypeDescriptionView::unresolved(),
            fuel,
        ).is_ok(),
    ensures
        ({
            let t = spec_resolve_type(
                words,
                nodes,
                at,
                None,
                TypeDescriptionView::unresolved(),
                fuel,
            ).unwrap();
            let component = nodes[spec_find_node(nodes, words[nodes[at].word_offset + 2]).unwrap()];
            &&& t.traits.numeric.vector.component_count == words[nodes[at].word_offset + 3]
            &&& t.type_flags.spec_contains(ReflectTypeFlags::VECTOR)
            &&& component.op == OP_TYPE_BOOL ==> t.type_flags.spec_contains(ReflectTypeFlags::BOOL)
            &&& component.op == OP_TYPE_INT ==> t.type_flags.spec_contains(ReflectTypeFlags::INT)
                && t.traits.numeric.scalar.width == words[component.word_offset + 2]
                && t.traits.numeric.scalar.signedness == words[component.word_offset + 3]
            &&& component.op == OP_TYPE_FLOAT ==> t.type_flags.spec_contains(
                ReflectTypeFlags::FLOAT,
            ) && t.traits.numeric.scalar.width == words[component.word_offset + 2]
        }),
{
    reveal_with_fuel(spec_resolve_type, 2);
    assert((0u32 | 256u32 | 2u32) & 256u32 == 256u32) by (bit_vector);
    assert((0u32 | 256u32 | 2u32) & 2u32 == 2u32) by (bit_vector);
    assert((0u32 | 256u32 | 4u32) & 256u32 == 256u32) by (bit_vector);
    assert((0u32 | 256u32 | 4u32) & 4u32 == 4u32) by (bit_vector);
    assert((0u32 | 256u32 | 8u32) & 256u32 == 256u32) by (bit_vector);
    assert((0u32 | 256u32 | 8u32) & 8u32 == 8u32) by (bit_vector);
}

/// A vector of bools, ints or floats is resolved wherever every name of
/// the module can be read and the depth allows two steps.
pub proof fn lemma_vector_resolves(
    words: Seq<u32>,
    nodes: Seq<ParserNode>,
    at: int,
    member_of: Option<(usize, u32)>,
    acc: TypeDescriptionView,
    fuel: nat,
)
    requires
        spec_strings_ok(words, nodes),
        0 <= at < nodes.len(),
        nodes[at].op == OP_TYPE_VECTOR,
        spec_find_node(nodes, words[nodes[at].word_offset + 2]) matches Some(component)
            && !spec_is_composite(nodes[component].op),
        fuel >= 2,
    ensures
        spec_resolve_type(words, nodes, at, member_of, acc, fuel).is_ok(),
{
    reveal_with_fuel(spec_resolve_type, 2);
    let component = spec_find_node(nodes, words[nodes[at].word_offset + 2]).unwrap();
    lemma_names_decode(words, nodes, nodes[at].result_id, 0);
    lemma_names_decode(words, nodes, nodes[component].result_id, 0);
}

/// Whether the type that the struct at node `at` lists as member `m` is
/// defined and can be resolved as that member.
pub open spec fn spec_listed_resolves(
    words: Seq<u32>,
    nodes: Seq<ParserNode>,
    at: int,
    m: int,
    fuel: nat,
) -> bool {
    match spec_find_node(nodes, words[nodes[at].word_offset + 2 + m]) {
        None => false,
        Some(member_at) => spec_resolve_type(
            words,
            nodes,
            member_at,
            Some((at as usize, m as u32)),
            TypeDescriptionView::unresolved(),
            fuel,
        ).is_ok(),
    }
}

/// The members of a struct are resolved as far as each of them is and
/// every name of the module can be read.
pub proof fn lemma_members_resolve(
    words: Seq<u32>,
    nodes: Seq<ParserNode>,
    at: int,
    k: int,
    fuel: nat,
)
    requires
        spec_strings_ok(words, nodes),
        0 <= at < nodes.len(),
        0 <= k,
        forall|m: int| 0 <= m < k ==> #[trigger] spec_listed_resolves(words, nodes, at, m, fuel),
    ensures
        spec_resolve_members_upto(words, nodes, at, k, fuel).is_ok(),
    decreases k,
{
    if k > 0 {
        lemma_members_resolve(words, nodes, at, k - 1, fuel);
        assert(spec_listed_resolves(words, nodes, at, k - 1, fuel));
        lemma_names_decode(words, nodes, nodes[at].result_id, (k - 1) as u32);
        assert(spec_resolve_member(words, nodes, at, k - 1, fuel).is_ok());
    }
}

/// A struct type is resolved wherever each member that it lists is, every
/// name of the module can be read, and the depth allows one step.
pub proof fn lemma_struct_resolves(
    words: Seq<u32>,
    nodes: Seq<ParserNode>,
    at: int,
    member_of: Option<(usize, u32)>,
    acc: TypeDescriptionView,
    fuel: nat,
)
    requires
        spec_strings_ok(words, nodes),
        0 <= at < nodes.len(),
        nodes[at].op == OP_TYPE_STRUCT,
        fuel >= 1,
        forall|m: int|
            0 <= m < nodes[at].word_count - 2 ==> #[trigger] spec_listed_resolves(
                words,
                nodes,
                at,
                m,
                (fuel - 1) as nat,
            ),
    ensures
        spec_resolve_type(words, nodes, at, member_of, acc, fuel).is_ok(),
{
    if nodes[at].word_count >= 2 {
        lemma_members_resolve(words, nodes, at, nodes[at].word_count - 2, (fuel - 1) as nat);
    }
    lemma_names_decode(words, nodes, nodes[at].result_id, 0);
}

/// The descriptions of the types among the first `n` nodes, in the order
/// of the stream, each resolved on its own.
pub open spec fn spec_types_upto(words: Seq<u32>, nodes: Seq<ParserNode>, n: int) -> Result<
    Seq<TypeDescriptionView>,
    ReflectError,
>
    decreases n,
{
    if n <= 0 {
        Ok(Seq::empty())
    } else {
        match spec_types_upto(words, nodes, n - 1) {
            Err(e) => Err(e),
            Ok(before) => if nodes[n - 1].is_type {
                match spec_resolve_type(
                    words,
                    nodes,
                    n - 1,
                    None,
                    TypeDescriptionView::unresolved(),
                    nodes.len(),
                ) {
                    Err(e) => Err(e),
                    Ok(t) => Ok(before.push(t)),
                }
            } else {
                Ok(before)
            },
        }
    }
}

/// The descriptions of all types of the module. A type can be nested as
/// deep as there are instructions, and no deeper.
pub open spec fn spec_types(words: Seq<u32>, nodes: Seq<ParserNode>) -> Result<
    Seq<TypeDescriptionView>,
    ReflectError,
> {
    spec_types_upto(words, nodes, nodes.len() as int)
}

/// Once a type cannot be resolved, the types cannot.
pub proof fn lemma_types_fail(words: Seq<u32>, nodes: Seq<ParserNode>, k: int, n: int)
    requires
        0 <= k <= n,
        spec_types_upto(words, nodes, k).is_err(),
    ensures
        spec_types_upto(words, nodes, n) == spec_types_upto(words, nodes, k),
    decreases n - k,
{
    if k < n {
        lemma_types_fail(words, nodes, k, n - 1);
    }
}

/// The place of the first description from `from` on that has the id `id`.
pub open spec fn spec_find_type_from(
    types: Seq<TypeDescriptionView>,
    id: u32,
    from: int,
) -> Option<int>
    decreases types.len() - from,
{
    if from < 0 || from >= types.len() {
        None
    } else if types[from].id == id {
        Some(from)
    } else {
        spec_find_type_from(types, id, from + 1)
    }
}

/// The place of the first description that has the id `id`.
pub open spec fn spec_find_type(types: Seq<TypeDescriptionView>, id: u32) -> Option<int> {
    spec_find_type_from(types, id, 0)
}

/// The place of the first description that has the id `id`.
pub fn find_type(types: &Vec<ReflectTypeDescription>, id: u32) -> (found: Option<usize>)
    ensures
        match found {
            Some(i) => spec_find_type(views(types@), id) == Some(i as int) && i < types@.len()
                && types@[i as int].id == id,
            None => spec_find_type(views(types@), id).is_none(),
        },
{
    let mut i: usize = 0;
    while i < types.len()
        invariant
            i <= types@.len(),
            spec_find_type(views(types@), id) == spec_find_type_from(views(types@), id, i as int),
        decreases types@.len() - i,
    {
        assert(views(types@)[i as int] == types@[i as int]@);
        if types[i].id == id {
            return Some(i);
        }
        i += 1;
    }
    None
}

/// The place of the description of what the variable at node `at` holds:
/// the description that has the variable's type id or, where that is a
/// pointer, the description of what it points to.
pub open spec fn spec_variable_type(
    nodes: Seq<ParserNode>,
    types: Seq<TypeDescriptionView>,
    at: int,
) -> Result<int, ReflectError> {
    match spec_find_type(types, nodes[at].type_id) {
        None => Err(ReflectError::InvalidIdReference),
        Some(declared) => if types[declared].op.code == OP_TYPE_POINTER {
            match spec_find_node(nodes, types[declared].id) {
                None => Err(ReflectError::InvalidIdReference),
                Some(pointer_at) => match spec_find_type(types, nodes[pointer_at].type_id) {
                    None => Err(ReflectError::InvalidIdReference),
                    Some(pointee) => Ok(pointee),
                },
            }
        } else {
            Ok(declared)
        },
    }
}

impl Parser {
    /// `acc` on entry to node `at`.
    fn enter(&self, at: usize, acc: ReflectTypeDescription) -> (entered: ReflectTypeDescription)
        requires
            self.wf(),
            at < self.nodes@.len(),
        ensures
            entered@ == spec_enter(self.words@, self.nodes@, at as int, acc@),
    {
        let node = self.nodes[at];
        let member_count = self.member_count_of(at);
        let decorations = self.decorations_of(node.result_id);
        let mut entered = acc;
        entered.members = blank_members(member_count);
        if entered.id == UNRESOLVED_ID {
            entered.id = node.result_id;
            entered.op = ReflectOp { code: node.op };
            entered.decoration_flags = ReflectDecorationFlags::empty();
        }
        entered.decoration_flags = entered.decoration_flags.with(
            apply_decorations(&decorations).bits,
        );
        proof {
            lemma_type_members_view(entered);
        }
        entered
    }

    /// `acc` with the name of the id `id`, unless it has a name.
    fn named(&self, id: u32, acc: ReflectTypeDescription) -> (out: Result<
        ReflectTypeDescription,
        ReflectError,
    >)
        requires
            self.wf(),
        ensures
            agrees(out, spec_named(self.words@, self.nodes@, id, acc@)),
    {
        let mut acc = acc;
        if acc.name.as_str().is_empty() {
            acc.name = self.name_of(id)?;
        }
        Ok(acc)
    }

    /// The type of node `at` resolved into `acc`.
    pub fn resolve_type(
        &self,
        at: usize,
        member_of: Option<(usize, u32)>,
        acc: ReflectTypeDescription,
        fuel: usize,
    ) -> (resolved: Result<ReflectTypeDescription, ReflectError>)
        requires
            self.wf(),
            at < self.nodes@.len(),
            member_of matches Some((owner, _)) ==> owner < self.nodes@.len(),
        ensures
            agrees(
                resolved,
                spec_resolve_type(
                    self.words@,
                    self.nodes@,
                    at as int,
                    member_of,
                    acc@,
                    fuel as nat,
                ),
            ),
        decreases fuel, 0nat, 0nat,
    {
        if fuel == 0 {
            return Err(ReflectError::Recursion);
        }
        let node = self.nodes[at];
        let entered = self.enter(at, acc);
        let shaped = if is_composite(node.op) {
            self.shape_composite(at, member_of, entered, fuel - 1)?
        } else {
            shape_plain(&self.words, &node, entered)
        };
        self.named(node.result_id, shaped)
    }

    /// `acc` shaped by the composite type of node `at`.
    fn shape_composite(
        &self,
        at: usize,
        member_of: Option<(usize, u32)>,
        acc: ReflectTypeDescription,
        fuel: usize,
    ) -> (shaped: Result<ReflectTypeDescription, ReflectError>)
        requires
            self.wf(),
            at < self.nodes@.len(),
            spec_is_composite(self.nodes@[at as int].op),
            member_of matches Some((owner, _)) ==> owner < self.nodes@.len(),
            acc@.members.len() == spec_member_count(self.words@, self.nodes@, at as int),
        ensures
            agrees(
                shaped,
                spec_shape_composite(
                    self.words@,
                    self.nodes@,
                    at as int,
                    member_of,
                    acc@,
                    fuel as nat,
                ),
            ),
        decreases fuel, 3nat, 0nat,
    {
        let node = self.nodes[at];
        proof {
            lemma_node_ok(self.words@, node);
        }
        let pos = node.word_offset as usize;
        let mut acc = acc;
        if node.op == OP_TYPE_VECTOR {
            acc.type_flags = acc.type_flags.with(ReflectTypeFlags::VECTOR);
            acc.traits.numeric.vector.component_count = self.words[pos + 3];
            self.resolve_next(self.words[pos + 2], acc, fuel)
        } else if node.op == OP_TYPE_MATRIX {
            acc.type_flags = acc.type_flags.with(ReflectTypeFlags::MATRIX);
            acc.traits.numeric.matrix.column_count = self.words[pos + 3];
            let mut column = self.resolve_next(self.words[pos + 2], acc, fuel)?;
            column.traits.numeric.matrix.row_count = column.traits.numeric.vector.component_count;
            column.traits.numeric.matrix.stride = match member_of {
                Some((owner, member)) => self.member_decorations_of(self.nodes[owner].result_id,
                    member,
                ).matrix_stride,
                None => self.decorations_of(node.result_id).matrix_stride,
            };
            Ok(column)
        } else if node.op == OP_TYPE_SAMPLED_IMAGE {
            acc.type_flags = acc.type_flags.with(ReflectTypeFlags::EXTERNAL_SAMPLED_IMAGE);
            self.resolve_next(self.words[pos + 2], acc, fuel)
        } else if node.op == OP_TYPE_ARRAY {
            match self.find_node(self.words[pos + 3]) {
                None => Err(ReflectError::InvalidIdReference),
                Some(length_at) => {
                    let length_node = self.nodes[length_at];
                    proof {
                        lemma_node_ok(self.words@, length_node);
                    }
                    if length_node.word_count < 4 {
                        return Err(ReflectError::InvalidInstruction);
                    }
                    acc.type_flags = acc.type_flags.with(ReflectTypeFlags::ARRAY);
                    acc.traits.array.stride = self.decorations_of(node.result_id).array_stride;
                    acc.traits.array.dims.push(self.words[length_node.word_offset as usize + 3]);
                    self.resolve_next(self.words[pos + 2], acc, fuel)
                },
            }
        } else if node.op == OP_TYPE_RUNTIME_ARRAY {
            acc.traits.array.stride = self.decorations_of(node.result_id).array_stride;
            self.resolve_next(self.words[pos + 2], acc, fuel)
        } else if node.op == OP_TYPE_STRUCT {
            self.shape_struct(at, acc, fuel)
        } else {
            if node.storage_class == ReflectStorageClass::Undefined {
                return Err(ReflectError::InvalidIdReference);
            }
            acc.type_flags = acc.type_flags.with(
                ReflectTypeFlags::STRUCT | ReflectTypeFlags::EXTERNAL_BLOCK,
            );
            acc.storage_class = node.storage_class;
            self.resolve_next(node.type_id, acc, fuel)
        }
    }

    /// `acc` shaped by the struct type of node `at`: the members that the
    /// struct lists are resolved, and blank descriptions stand for the members
    /// beyond them that the member count asks for.
    fn shape_struct(
        &self,
        at: usize,
        acc: ReflectTypeDescription,
        fuel: usize,
    ) -> (shaped: Result<ReflectTypeDescription, ReflectError>)
        requires
            self.wf(),
            at < self.nodes@.len(),
            self.nodes@[at as int].op == OP_TYPE_STRUCT,
            acc@.members.len() == spec_member_count(self.words@, self.nodes@, at as int),
        ensures
            agrees(
                shaped,
                spec_shape_composite(self.words@, self.nodes@, at as int, None, acc@, fuel as nat),
            ),
        decreases fuel, 2nat, 1nat,
    {
        let node = self.nodes[at];
        proof {
            lemma_node_ok(self.words@, node);
        }
        let member_count = self.member_count_of(at);
        let listed: u32 = node.word_count - 2;
        let mut members: Vec<ReflectTypeDescription> = Vec::new();
        let mut k: u32 = 0;
        proof {
            assert(views(members@) =~= Seq::<TypeDescriptionView>::empty());
        }
        while k < listed
            invariant
                self.wf(),
                at < self.nodes@.len(),
                node == self.nodes@[at as int],
                k <= listed,
                listed == node.word_count - 2,
                node.op == OP_TYPE_STRUCT,
                members@.len() == k,
                spec_resolve_members_upto(
                    self.words@,
                    self.nodes@,
                    at as int,
                    k as int,
                    fuel as nat,
                ) == Ok::<
                    Seq<TypeDescriptionView>,
                    ReflectError,
                >(views(members@)),
            decreases listed - k,
        {
            let ghost before = views(members@);
            match self.resolve_member(at, k, fuel) {
                Err(e) => {
                    proof {
                        lemma_members_fail(
                            self.words@,
                            self.nodes@,
                            at as int,
                            k as int + 1,
                            listed as int,
                            fuel as nat,
                        );
                    }
                    return Err(e);
                },
                Ok(member) => {
                    members.push(member);
                    proof {
                        assert(views(members@) =~= before.push(member@));
                    }
                },
            }
            k += 1;
        }
        let ghost listed_views = views(members@);
        let mut rest = blank_members(member_count - listed);
        let ghost rest_views = views(rest@);
        members.append(&mut rest);
        proof {
            assert(views(members@) =~= listed_views + rest_views);
        }
        let mut acc = acc;
        acc.type_flags = acc.type_flags.with(
            ReflectTypeFlags::STRUCT | ReflectTypeFlags::EXTERNAL_BLOCK,
        );
        acc.members = members;
        proof {
            lemma_type_members_view(acc);
        }
        Ok(acc)
    }

    /// The type with the id `id` resolved into `acc`.
    pub fn resolve_next(
        &self,
        id: u32,
        acc: ReflectTypeDescription,
        fuel: usize,
    ) -> (resolved: Result<ReflectTypeDescription, ReflectError>)
        requires
            self.wf(),
        ensures
            agrees(resolved, spec_resolve_next(self.words@, self.nodes@, id, acc@, fuel as nat)),
        decreases fuel, 1nat, 0nat,
    {
        match self.find_node(id) {
            None => Err(ReflectError::InvalidIdReference),
            Some(next) => self.resolve_type(next, None, acc, fuel),
        }
    }

    /// The description of member `m` of the struct at node `at`.
    pub fn resolve_member(
        &self,
        at: usize,
        m: u32,
        fuel: usize,
    ) -> (resolved: Result<ReflectTypeDescription, ReflectError>)
        requires
            self.wf(),
            at < self.nodes@.len(),
            self.nodes@[at as int].op == OP_TYPE_STRUCT,
            m + 2 < self.nodes@[at as int].word_count,
        ensures
            agrees(
                resolved,
                spec_resolve_member(self.words@, self.nodes@, at as int, m as int, fuel as nat),
            ),
        decreases fuel, 1nat, 0nat,
    {
        let node = self.nodes[at];
        proof {
            lemma_node_ok(self.words@, node);
        }
        let member_id = self.words[node.word_offset as usize + 2 + m as usize];
        match self.find_node(member_id) {
            None => Err(ReflectError::InvalidIdReference),
            Some(member_at) => {
                let mut member = self.resolve_type(member_at,
                    Some((at, m)),
                    ReflectTypeDescription::default(),
                    fuel,
                )?;
                member.struct_member_name = self.member_name_of(node.result_id, m)?;
                Ok(member)
            },
        }
    }

    /// The descriptions of all types of the module.
    pub fn parse_types(&self) -> (types: Result<
        Vec<ReflectTypeDescription>,
        ReflectError,
    >)
        requires
            self.wf(),
        ensures
            match types {
                Ok(t) => spec_types(
                    self.words@,
                    self.nodes@,
                ) == Ok::<Seq<TypeDescriptionView>, ReflectError>(
                    views(t@),
                ) && t@.len() <= self.nodes@.len(),
                Err(e) => spec_types(
                    self.words@,
                    self.nodes@,
                ) == Err::<Seq<TypeDescriptionView>, ReflectError>(e),
            },
    {
        let mut types: Vec<ReflectTypeDescription> = Vec::new();
        let mut i: usize = 0;
        proof {
            assert(views(types@) =~= Seq::<TypeDescriptionView>::empty());
        }
        while i < self.nodes.len()
            invariant
                i <= self.nodes@.len(),
                self.wf(),
                types@.len() <= i,
                spec_types_upto(self.words@, self.nodes@, i as int) == Ok::<
                    Seq<TypeDescriptionView>,
                    ReflectError,
                >(views(types@)),
            decreases self.nodes@.len() - i,
        {
            if self.nodes[i].is_type {
                let ghost before = views(types@);
                match self.resolve_type(i,
                    None,
                    ReflectTypeDescription::default(),
                    self.nodes.len(),
                ) {
                    Err(e) => {
                        proof {
                            lemma_types_fail(
                                self.words@,
                                self.nodes@,
                                i as int + 1,
                                self.nodes@.len() as int,
                            );
                        }
                        return Err(e);
                    },
                    Ok(t) => {
                        types.push(t);
                        proof {
                            assert(views(types@) =~= before.push(t@));
                        }
                    },
                }
            }
            i += 1;
        }
        Ok(types)
    }

    /// The place of the description of what the variable at node `at` holds.
    pub fn variable_type(
        &self,
        types: &Vec<ReflectTypeDescription>,
        at: usize,
    ) -> (found: Result<usize, ReflectError>)
        requires
            at < self.nodes@.len(),
        ensures
            match found {
                Ok(i) => spec_variable_type(self.nodes@, views(types@), at as int) == Ok::<
                    int,
                    ReflectError,
                >(i as int) && i < types@.len(),
                Err(e) => spec_variable_type(self.nodes@, views(types@), at as int) == Err::<
                    int,
                    ReflectError,
                >(e),
            },
    {
        match find_type(types, self.nodes[at].type_id) {
            None => Err(ReflectError::InvalidIdReference),
            Some(declared) => {
                assert(views(types@)[declared as int] == types@[declared as int]@);
                if types[declared].op.code == OP_TYPE_POINTER {
                    match self.find_node(types[declared].id) {
                        None => Err(ReflectError::InvalidIdReference),
                        Some(pointer_at) => match find_type(types, self.nodes[pointer_at].type_id) {
                            None => Err(ReflectError::InvalidIdReference),
                            Some(pointee) => Ok(pointee),
                        },
                    }
                } else {
                    Ok(declared)
                }
            },
        }
    }
}

} // verus!
