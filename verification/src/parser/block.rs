//! Block variables: the layout of a uniform, storage or push constant
//! block, read off the description of its type and the decorations of its
//! members.

use crate::error::ReflectError;
use crate::parser::annotation::{apply_decorations, spec_member_decorations};
use crate::parser::node::{spec_find_node, Parser, ParserNode};
use crate::spirv::{OP_TYPE_ARRAY, OP_TYPE_POINTER, OP_TYPE_RUNTIME_ARRAY, OP_TYPE_STRUCT};
use crate::types::flags::{ReflectDecorationFlags, ReflectTypeFlags};
use crate::types::variable::{
    lemma_block_members_view, lemma_type_members_view, BlockVariableView, ReflectBlockVariable,
    ReflectTypeDescription, TypeDescriptionView,
};
use crate::views::{agrees, views};
use vstd::prelude::*;

verus! {

/// The product of `a` and `b`, or `u32::MAX` where it does not fit.
pub open spec fn spec_sat_mul(a: u32, b: u32) -> u32 {
    if a * b > u32::MAX {
        u32::MAX
    } else {
        (a * b) as u32
    }
}

/// The sum of `a` and `b`, or `u32::MAX` where it does not fit.
pub open spec fn spec_sat_add(a: u32, b: u32) -> u32 {
    if a + b > u32::MAX {
        u32::MAX
    } else {
        (a + b) as u32
    }
}

/// `x` rounded up to a multiple of 16, or `x` where that does not fit.
pub open spec fn spec_round_up_16(x: u32) -> u32 {
    if x > u32::MAX - 15 {
        x
    } else {
        ((x + 15) / 16 * 16) as u32
    }
}

/// The product of `a` and `b`, or `u32::MAX` where it does not fit.
pub fn sat_mul(a: u32, b: u32) -> (product: u32)
    ensures
        product == spec_sat_mul(a, b),
{
    match a.checked_mul(b) {
        Some(p) => p,
        None => u32::MAX,
    }
}

/// `x` rounded up to a multiple of 16, or `x` where that does not fit.
pub fn round_up_16(x: u32) -> (rounded: u32)
    ensures
        rounded == spec_round_up_16(x),
        rounded >= x,
{
    if x > u32::MAX - 15 {
        x
    } else {
        (x + 15) / 16 * 16
    }
}

/// The number of elements of an array with the lengths `dims`: their
/// product, 1 where there is none, `u32::MAX` where it does not fit.
pub open spec fn spec_element_count(dims: Seq<u32>) -> u32
    decreases dims.len(),
{
    if dims.len() == 0 {
        1
    } else {
        spec_sat_mul(spec_element_count(dims.drop_last()), dims.last())
    }
}

/// The number of elements of an array with the lengths `dims`.
pub fn element_count(dims: &Vec<u32>) -> (count: u32)
    ensures
        count == spec_element_count(dims@),
{
    let mut count: u32 = 1;
    let mut i: usize = 0;
    while i < dims.len()
        invariant
            i <= dims@.len(),
            count == spec_element_count(dims@.take(i as int)),
        decreases dims@.len() - i,
    {
        assert(dims@.take(i as int + 1).drop_last() =~= dims@.take(i as int));
        count = sat_mul(count, dims[i]);
        i += 1;
    }
    assert(dims@.take(dims@.len() as int) =~= dims@);
    count
}

/// The size in bytes of one value of the type `t`, counted from its
/// numeric traits: the scalar width in bytes; for a vector, times the
/// component count; for a matrix with a stride, the stride times the
/// column count, or times the row count where `flags` say row major; for a
/// matrix without a stride, the scalar size times columns times rows.
pub open spec fn spec_value_size(t: TypeDescriptionView, flags: ReflectDecorationFlags) -> u32 {
    let bytes = t.traits.numeric.scalar.width / 8;
    let matrix = t.traits.numeric.matrix;
    if t.type_flags.spec_contains(ReflectTypeFlags::MATRIX) {
        if matrix.stride != 0 {
            if flags.spec_contains(ReflectDecorationFlags::ROW_MAJOR) {
                spec_sat_mul(matrix.row_count, matrix.stride)
            } else {
                spec_sat_mul(matrix.column_count, matrix.stride)
            }
        } else {
            spec_sat_mul(spec_sat_mul(matrix.column_count, matrix.row_count), bytes)
        }
    } else if t.type_flags.spec_contains(ReflectTypeFlags::VECTOR) {
        spec_sat_mul(t.traits.numeric.vector.component_count, bytes)
    } else {
        bytes
    }
}

/// The size in bytes of a variable of the type `t` whose element has the
/// size `element`: for an array, the element count times the array stride,
/// or times `element` where there is no stride; else `element`.
pub open spec fn spec_array_size(t: TypeDescriptionView, element: u32) -> u32 {
    if t.type_flags.spec_contains(ReflectTypeFlags::ARRAY) {
        if t.traits.array.stride != 0 {
            spec_sat_mul(spec_element_count(t.traits.array.dims), t.traits.array.stride)
        } else {
            spec_sat_mul(spec_element_count(t.traits.array.dims), element)
        }
    } else {
        element
    }
}

/// The size of a variable with its padding: up to the offset of the
/// variable that follows it in the block where that lies behind it, else
/// up to the next multiple of 16 bytes.
pub open spec fn spec_padded_size(offset: u32, size: u32, next: Option<u32>) -> u32 {
    match next {
        Some(n) => if n >= offset {
            (n - offset) as u32
        } else {
            (spec_round_up_16(spec_sat_add(offset, size)) - offset) as u32
        },
        None => (spec_round_up_16(spec_sat_add(offset, size)) - offset) as u32,
    }
}

/// The size in bytes of one value of the type `t`.
fn value_size(t: &ReflectTypeDescription, flags: ReflectDecorationFlags) -> (size: u32)
    ensures
        size == spec_value_size(t@, flags),
{
    let bytes = t.traits.numeric.scalar.width / 8;
    let matrix = t.traits.numeric.matrix;
    if t.type_flags.contains(ReflectTypeFlags::MATRIX) {
        if matrix.stride != 0 {
            if flags.contains(ReflectDecorationFlags::ROW_MAJOR) {
                sat_mul(matrix.row_count, matrix.stride)
            } else {
                sat_mul(matrix.column_count, matrix.stride)
            }
        } else {
            sat_mul(sat_mul(matrix.column_count, matrix.row_count), bytes)
        }
    } else if t.type_flags.contains(ReflectTypeFlags::VECTOR) {
        sat_mul(t.traits.numeric.vector.component_count, bytes)
    } else {
        bytes
    }
}

/// The size in bytes of a variable of the type `t` whose element has the
/// size `element`.
fn array_size(t: &ReflectTypeDescription, element: u32) -> (size: u32)
    ensures
        size == spec_array_size(t@, element),
{
    if t.type_flags.contains(ReflectTypeFlags::ARRAY) {
        if t.traits.array.stride != 0 {
            sat_mul(element_count(&t.traits.array.dims), t.traits.array.stride)
        } else {
            sat_mul(element_count(&t.traits.array.dims), element)
        }
    } else {
        element
    }
}

/// The size of a variable with its padding.
fn padded_size(offset: u32, size: u32, next: Option<u32>) -> (padded: u32)
    ensures
        padded == spec_padded_size(offset, size, next),
{
    match next {
        Some(n) => if n >= offset {
            n - offset
        } else {
            round_up_16(offset.saturating_add(size)) - offset
        },
        None => round_up_16(offset.saturating_add(size)) - offset,
    }
}

/// The place of the struct type behind the type with the id `id`: the type
/// itself, or what an array, a runtime array or a pointer is made of, as
/// far as `fuel` reaches.
pub open spec fn spec_struct_node(nodes: Seq<ParserNode>, id: u32, fuel: nat) -> Option<int>
    decreases fuel,
{
    if fuel == 0 {
        None
    } else {
        match spec_find_node(nodes, id) {
            None => None,
            Some(at) => if nodes[at].op == OP_TYPE_STRUCT {
                Some(at)
            } else if nodes[at].op == OP_TYPE_ARRAY || nodes[at].op == OP_TYPE_RUNTIME_ARRAY {
                spec_struct_node(nodes, nodes[at].array_traits.element_type_id, (fuel - 1) as nat)
            } else if nodes[at].op == OP_TYPE_POINTER {
                spec_struct_node(nodes, nodes[at].type_id, (fuel - 1) as nat)
            } else {
                None
            },
        }
    }
}

/// The number of member `m` as the instructions that name and decorate
/// members write it.
pub open spec fn spec_member_index(m: int) -> u32 {
    if m > u32::MAX {
        u32::MAX
    } else {
        m as u32
    }
}

/// The number of member `m` as the instructions that name and decorate
/// members write it.
pub fn member_index(m: usize) -> (index: u32)
    ensures
        index == spec_member_index(m as int),
{
    if m > u32::MAX as usize {
        u32::MAX
    } else {
        m as u32
    }
}

/// The sum of the sizes of the first `k` of `members`, or `u32::MAX` where
/// it does not fit.
pub open spec fn spec_sum_sizes(members: Seq<BlockVariableView>, k: int) -> u32
    decreases k,
{
    if k <= 0 {
        0
    } else {
        spec_sat_add(spec_sum_sizes(members, k - 1), members[k - 1].size)
    }
}

/// Whether one of the first `k` of `members` is not writable.
pub open spec fn spec_any_non_writable(members: Seq<BlockVariableView>, k: int) -> bool
    decreases k,
{
    if k <= 0 {
        false
    } else {
        spec_any_non_writable(members, k - 1) || members[k - 1].decoration_flags.spec_contains(
            ReflectDecorationFlags::NON_WRITABLE,
        )
    }
}

/// The variable of a block, a member of a block or a member of such a
/// member.
///
/// `t` is the description of its type, `base` the absolute offset of what
/// it is a member of, `next` the offset of the member that follows it. A
/// type with the struct flag and with members gives the variable one
/// member variable for each; its size is then the sum of theirs, and it is
/// not writable where one of them is not.
pub open spec fn spec_block_variable(
    words: Seq<u32>,
    nodes: Seq<ParserNode>,
    t: TypeDescriptionView,
    spirv_id: u32,
    name: Seq<char>,
    offset: u32,
    base: u32,
    flags: ReflectDecorationFlags,
    next: Option<u32>,
) -> Result<BlockVariableView, ReflectError>
    decreases t, 2nat, 0nat,
{
    let absolute = spec_sat_add(base, offset);
    let members: Result<Seq<BlockVariableView>, ReflectError> = if t.type_flags.spec_contains(
        ReflectTypeFlags::STRUCT,
    ) && t.members.len() > 0 {
        match spec_struct_node(nodes, t.id, nodes.len()) {
            None => Err(ReflectError::InvalidIdReference),
            Some(owner) => spec_block_members_upto(
                words,
                nodes,
                t,
                nodes[owner].result_id,
                absolute,
                t.members.len() as int,
            ),
        }
    } else {
        Ok(Seq::empty())
    };
    match members {
        Err(e) => Err(e),
        Ok(ms) => {
            let element = if ms.len() > 0 {
                spec_sum_sizes(ms, ms.len() as int)
            } else {
                spec_value_size(t, flags)
            };
            let size = spec_array_size(t, element);
            Ok(
                BlockVariableView {
                    spirv_id,
                    name,
                    offset,
                    absolute_offset: absolute,
                    size,
                    padded_size: spec_padded_size(offset, size, next),
                    decoration_flags: if spec_any_non_writable(ms, ms.len() as int) {
                        flags.spec_with(ReflectDecorationFlags::NON_WRITABLE)
                    } else {
                        flags
                    },
                    numeric: t.traits.numeric,
                    array: t.traits.array,
                    members: ms,
                    type_description: Some(t),
                },
            )
        },
    }
}

/// The variables of the first `k` members of the type `t`, whose struct
/// has the id `owner`.
pub open spec fn spec_block_members_upto(
    words: Seq<u32>,
    nodes: Seq<ParserNode>,
    t: TypeDescriptionView,
    owner: u32,
    base: u32,
    k: int,
) -> Result<Seq<BlockVariableView>, ReflectError>
    decreases t, 1nat, k,
{
    if k <= 0 || k > t.members.len() {
        Ok(Seq::empty())
    } else {
        match spec_block_members_upto(words, nodes, t, owner, base, k - 1) {
            Err(e) => Err(e),
            Ok(before) => match spec_block_member(words, nodes, t, owner, base, k - 1) {
                Err(e) => Err(e),
                Ok(member) => Ok(before.push(member)),
            },
        }
    }
}

/// The variable of member `m` of the type `t`, whose struct has the id
/// `owner`: named as the member is, placed and flagged as the member's
/// decorations say.
pub open spec fn spec_block_member(
    words: Seq<u32>,
    nodes: Seq<ParserNode>,
    t: TypeDescriptionView,
    owner: u32,
    base: u32,
    m: int,
) -> Result<BlockVariableView, ReflectError>
    decreases t, 0nat, 0nat,
{
    if 0 <= m < t.members.len() {
        let decorations = spec_member_decorations(words, nodes, owner, spec_member_index(m));
        spec_block_variable(
            words,
            nodes,
            t.members[m],
            t.members[m].id,
            t.members[m].struct_member_name,
            decorations.offset.value,
            base,
            decorations.spec_flags(),
            if m + 1 < t.members.len() {
                Some(
                    spec_member_decorations(
                        words,
                        nodes,
                        owner,
                        spec_member_index(m + 1),
                    ).offset.value,
                )
            } else {
                None
            },
        )
    } else {
        Err(ReflectError::InvalidIdReference)
    }
}

/// Once a member variable cannot be built, the member variables cannot.
pub proof fn lemma_block_members_fail(
    words: Seq<u32>,
    nodes: Seq<ParserNode>,
    t: TypeDescriptionView,
    owner: u32,
    base: u32,
    k: int,
    n: int,
)
    requires
        0 <= k <= n <= t.members.len(),
        spec_block_members_upto(words, nodes, t, owner, base, k).is_err(),
    ensures
        spec_block_members_upto(words, nodes, t, owner, base, n) == spec_block_members_upto(
            words,
            nodes,
            t,
            owner,
            base,
            k,
        ),
    decreases n - k,
{
    if k < n {
        lemma_block_members_fail(words, nodes, t, owner, base, k, n - 1);
    }
}

/// The sum of the sizes of `members`.
fn sum_sizes(members: &Vec<ReflectBlockVariable>) -> (sum: u32)
    ensures
        sum == spec_sum_sizes(views(members@), members@.len() as int),
{
    let mut sum: u32 = 0;
    let mut i: usize = 0;
    while i < members.len()
        invariant
            i <= members@.len(),
            sum == spec_sum_sizes(views(members@), i as int),
        decreases members@.len() - i,
    {
        assert(views(members@)[i as int] == members@[i as int]@);
        sum = sum.saturating_add(members[i].size);
        i += 1;
    }
    sum
}

/// Whether one of `members` is not writable.
fn any_non_writable(members: &Vec<ReflectBlockVariable>) -> (any: bool)
    ensures
        any == spec_any_non_writable(views(members@), members@.len() as int),
{
    let mut any = false;
    let mut i: usize = 0;
    while i < members.len()
        invariant
            i <= members@.len(),
            any == spec_any_non_writable(views(members@), i as int),
        decreases members@.len() - i,
    {
        assert(views(members@)[i as int] == members@[i as int]@);
        if members[i].decoration_flags.contains(ReflectDecorationFlags::NON_WRITABLE) {
            any = true;
        }
        i += 1;
    }
    any
}

impl Parser {
    /// The place of the struct type behind the type with the id `id`.
    pub fn struct_node(&self, id: u32, fuel: usize) -> (found: Option<usize>)
        ensures
            match found {
                Some(at) => spec_struct_node(self.nodes@, id, fuel as nat) == Some(at as int) && at
                    < self.nodes@.len(),
                None => spec_struct_node(self.nodes@, id, fuel as nat).is_none(),
            },
        decreases fuel,
    {
        if fuel == 0 {
            return None;
        }
        match self.find_node(id) {
            None => None,
            Some(at) => {
                let op = self.nodes[at].op;
                if op == OP_TYPE_STRUCT {
                    Some(at)
                } else if op == OP_TYPE_ARRAY || op == OP_TYPE_RUNTIME_ARRAY {
                    self.struct_node(self.nodes[at].array_traits.element_type_id, fuel - 1)
                } else if op == OP_TYPE_POINTER {
                    self.struct_node(self.nodes[at].type_id, fuel - 1)
                } else {
                    None
                }
            },
        }
    }

    /// The variable of a block, a member of a block or a member of such a
    /// member.
    pub fn block_variable(
        &self,
        t: &ReflectTypeDescription,
        spirv_id: u32,
        name: String,
        offset: u32,
        base: u32,
        flags: ReflectDecorationFlags,
        next: Option<u32>,
    ) -> (variable: Result<ReflectBlockVariable, ReflectError>)
        requires
            self.wf(),
        ensures
            agrees(
                variable,
                spec_block_variable(
                    self.words@,
                    self.nodes@,
                    t@,
                    spirv_id,
                    name@,
                    offset,
                    base,
                    flags,
                    next,
                ),
            ),
        decreases t,
    {
        let absolute = base.saturating_add(offset);
        let mut members: Vec<ReflectBlockVariable> = Vec::new();
        proof {
            lemma_type_members_view(*t);
            assert(views(members@) =~= Seq::<BlockVariableView>::empty());
        }
        if t.type_flags.contains(ReflectTypeFlags::STRUCT) && t.members.len() > 0 {
            let owner = match self.struct_node(t.id, self.nodes.len()) {
                None => {
                    return Err(ReflectError::InvalidIdReference);
                },
                Some(at) => self.nodes[at].result_id,
            };
            let mut m: usize = 0;
            while m < t.members.len()
                invariant
                    self.wf(),
                    m <= t.members@.len(),
                    t@.members == views(t.members@),
                    t@.type_flags.spec_contains(ReflectTypeFlags::STRUCT),
                    t@.members.len() > 0,
                    spec_struct_node(self.nodes@, t@.id, self.nodes@.len()) matches Some(at)
                        && self.nodes@[at].result_id
                        == owner,
                    absolute == spec_sat_add(base, offset),
                    members@.len() == m,
                    spec_block_members_upto(
                        self.words@,
                        self.nodes@,
                        t@,
                        owner,
                        absolute,
                        m as int,
                    ) == Ok::<
                        Seq<BlockVariableView>,
                        ReflectError,
                    >(views(members@)),
                decreases t.members@.len() - m,
            {
                let ghost before = views(members@);
                let member_type = &t.members[m];
                assert(t@.members[m as int] == member_type@);
                let decorations = self.member_decorations_of(owner, member_index(m));
                let following = if m + 1 < t.members.len() {
                    Some(self.member_decorations_of(owner, member_index(m + 1)).offset.value)
                } else {
                    None
                };
                let member_name = member_type.struct_member_name.clone();
                proof {
                    assert(spec_block_member(
                        self.words@,
                        self.nodes@,
                        t@,
                        owner,
                        absolute,
                        m as int,
                    )
                        == spec_block_variable(
                        self.words@,
                        self.nodes@,
                        member_type@,
                        member_type.id,
                        member_name@,
                        decorations.offset.value,
                        absolute,
                        decorations.spec_flags(),
                        following,
                    ));
                }
                match self.block_variable(member_type,
                    member_type.id,
                    member_name,
                    decorations.offset.value,
                    absolute,
                    apply_decorations(&decorations),
                    following,
                ) {
                    Err(e) => {
                        proof {
                            lemma_block_members_fail(
                                self.words@,
                                self.nodes@,
                                t@,
                                owner,
                                absolute,
                                m as int + 1,
                                t.members@.len() as int,
                            );
                        }
                        return Err(e);
                    },
                    Ok(member) => {
                        members.push(member);
                        proof {
                            assert(views(members@) =~= before.push(member@));
                        }
                    },
                }
                m += 1;
            }
        }
        let element = if members.len() > 0 {
            sum_sizes(&members)
        } else {
            value_size(t, flags)
        };
        let size = array_size(t, element);
        let decoration_flags = if any_non_writable(&members) {
            flags.with(ReflectDecorationFlags::NON_WRITABLE)
        } else {
            flags
        };
        let variable = ReflectBlockVariable {
            spirv_id,
            name,
            offset,
            absolute_offset: absolute,
            size,
            padded_size: padded_size(offset, size, next),
            decoration_flags,
            numeric: t.traits.numeric,
            array: t.traits.array.clone(),
            members,
            type_description: Some(t.clone()),
        };
        proof {
            lemma_block_members_view(variable);
        }
        Ok(variable)
    }
}

} // verus!
