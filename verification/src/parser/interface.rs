//! Interface variables: the inputs and outputs of an entry point, read off
//! the description of their types and their decorations.

use crate::error::ReflectError;
use crate::parser::annotation::{
    apply_decorations, spec_member_decorations, Decorations, StringDecoration,
};
use crate::parser::block::{member_index, spec_member_index, spec_struct_node};
use crate::parser::node::{Parser, ParserNode};
use crate::types::flags::{ReflectDecorationFlags, ReflectTypeFlags};
use crate::types::image::ReflectFormat;
use crate::types::op::ReflectBuiltIn;
use crate::types::variable::{
    lemma_interface_members_view, lemma_type_members_view, InterfaceVariableView,
    ReflectInterfaceVariable, ReflectStorageClass, ReflectTypeDescription, TypeDescriptionView,
};
use crate::views::{agrees, views};
use crate::words::{literal, spec_literal};
use vstd::prelude::*;

verus! {

/// The value format of a type: for a 32-bit scalar, or a vector of two to
/// four of them, the format with as many components, floating for a float,
/// signed or unsigned for an int as its signedness says. A struct and any
/// other type have no format.
pub open spec fn spec_format(t: TypeDescriptionView) -> ReflectFormat {
    let is_float = t.type_flags.spec_contains(ReflectTypeFlags::FLOAT);
    let is_int = t.type_flags.spec_contains(ReflectTypeFlags::INT);
    let is_signed = t.traits.numeric.scalar.signedness != 0;
    let components = if t.type_flags.spec_contains(ReflectTypeFlags::VECTOR) {
        t.traits.numeric.vector.component_count
    } else {
        1
    };
    if t.type_flags.spec_contains(ReflectTypeFlags::STRUCT) || t.traits.numeric.scalar.width != 32 {
        ReflectFormat::Undefined
    } else if components == 1 {
        if is_float {
            ReflectFormat::R32_SFLOAT
        } else if is_int && is_signed {
            ReflectFormat::R32_SINT
        } else if is_int {
            ReflectFormat::R32_UINT
        } else {
            ReflectFormat::Undefined
        }
    } else if components == 2 {
        if is_float {
            ReflectFormat::R32G32_SFLOAT
        } else if is_int && is_signed {
            ReflectFormat::R32G32_SINT
        } else if is_int {
            ReflectFormat::R32G32_UINT
        } else {
            ReflectFormat::Undefined
        }
    } else if components == 3 {
        if is_float {
            ReflectFormat::R32G32B32_SFLOAT
        } else if is_int && is_signed {
            ReflectFormat::R32G32B32_SINT
        } else if is_int {
            ReflectFormat::R32G32B32_UINT
        } else {
            ReflectFormat::Undefined
        }
    } else if components == 4 {
        if is_float {
            ReflectFormat::R32G32B32A32_SFLOAT
        } else if is_int && is_signed {
            ReflectFormat::R32G32B32A32_SINT
        } else if is_int {
            ReflectFormat::R32G32B32A32_UINT
        } else {
            ReflectFormat::Undefined
        }
    } else {
        ReflectFormat::Undefined
    }
}

/// The value format of a type.
pub fn format_of(t: &ReflectTypeDescription) -> (format: ReflectFormat)
    ensures
        format == spec_format(t@),
{
    let is_float = t.type_flags.contains(ReflectTypeFlags::FLOAT);
    let is_int = t.type_flags.contains(ReflectTypeFlags::INT);
    let is_signed = t.traits.numeric.scalar.signedness != 0;
    let components: u32 = if t.type_flags.contains(ReflectTypeFlags::VECTOR) {
        t.traits.numeric.vector.component_count
    } else {
        1
    };
    if t.type_flags.contains(ReflectTypeFlags::STRUCT) || t.traits.numeric.scalar.width != 32 {
        ReflectFormat::Undefined
    } else if components == 1 {
        if is_float {
            ReflectFormat::R32_SFLOAT
        } else if is_int && is_signed {
            ReflectFormat::R32_SINT
        } else if is_int {
            ReflectFormat::R32_UINT
        } else {
            ReflectFormat::Undefined
        }
    } else if components == 2 {
        if is_float {
            ReflectFormat::R32G32_SFLOAT
        } else if is_int && is_signed {
            ReflectFormat::R32G32_SINT
        } else if is_int {
            ReflectFormat::R32G32_UINT
        } else {
            ReflectFormat::Undefined
        }
    } else if components == 3 {
        if is_float {
            ReflectFormat::R32G32B32_SFLOAT
        } else if is_int && is_signed {
            ReflectFormat::R32G32B32_SINT
        } else if is_int {
            ReflectFormat::R32G32B32_UINT
        } else {
            ReflectFormat::Undefined
        }
    } else if components == 4 {
        if is_float {
            ReflectFormat::R32G32B32A32_SFLOAT
        } else if is_int && is_signed {
            ReflectFormat::R32G32B32A32_SINT
        } else if is_int {
            ReflectFormat::R32G32B32A32_UINT
        } else {
            ReflectFormat::Undefined
        }
    } else {
        ReflectFormat::Undefined
    }
}

/// The literal string in the words that `place` names, or the empty
/// string where it names none.
pub open spec fn spec_text_at(
    words: Seq<u32>,
    place: StringDecoration,
) -> Result<Seq<char>, ReflectError> {
    if place.word_offset == 0 {
        Ok(Seq::empty())
    } else if place.word_offset <= place.word_end <= words.len() {
        spec_literal(words, place.word_offset as int, place.word_end as int)
    } else {
        Err(ReflectError::InvalidString)
    }
}

/// The literal string in the words that `place` names.
pub fn text_at(words: &Vec<u32>, place: &StringDecoration) -> (text: Result<String, ReflectError>)
    ensures
        agrees(text, spec_text_at(words@, *place)),
{
    let start = place.word_offset as usize;
    let end = place.word_end as usize;
    if start == 0 {
        Ok(String::new())
    } else if start <= end && end <= words.len() {
        literal(words, start, end)
    } else {
        Err(ReflectError::InvalidString)
    }
}

/// The semantic that `decorations` give: the literal string of the user
/// semantic decoration, or the empty string where there is none.
pub open spec fn spec_semantic(
    words: Seq<u32>,
    decorations: Decorations,
) -> Result<Seq<char>, ReflectError> {
    spec_text_at(words, decorations.semantic)
}

/// The semantic that `decorations` give.
pub fn semantic_of(
    words: &Vec<u32>,
    decorations: &Decorations,
) -> (semantic: Result<String, ReflectError>)
    ensures
        agrees(semantic, spec_semantic(words@, *decorations)),
{
    text_at(words, &decorations.semantic)
}

/// Whether one of the first `k` of `members` is a built-in.
pub open spec fn spec_any_built_in(members: Seq<InterfaceVariableView>, k: int) -> bool
    decreases k,
{
    if k <= 0 {
        false
    } else {
        spec_any_built_in(members, k - 1) || members[k - 1].decoration_flags.spec_contains(
            ReflectDecorationFlags::BUILT_IN,
        )
    }
}

/// An interface variable, or a member of one.
///
/// `t` is the description of its type and `decorations` are its own. A
/// type with the struct flag and with members gives the variable one member
/// variable for each, and the variable counts as a built-in where one of
/// them does.
pub open spec fn spec_interface_variable(
    words: Seq<u32>,
    nodes: Seq<ParserNode>,
    t: TypeDescriptionView,
    spirv_id: u32,
    name: Seq<char>,
    storage_class: ReflectStorageClass,
    decorations: Decorations,
) -> Result<InterfaceVariableView, ReflectError>
    decreases t, 2nat, 0nat,
{
    let members: Result<Seq<InterfaceVariableView>, ReflectError> = if t.type_flags.spec_contains(
        ReflectTypeFlags::STRUCT,
    ) && t.members.len() > 0 {
        match spec_struct_node(nodes, t.id, nodes.len()) {
            None => Err(ReflectError::InvalidIdReference),
            Some(owner) => spec_interface_members_upto(
                words,
                nodes,
                t,
                nodes[owner].result_id,
                storage_class,
                t.members.len() as int,
            ),
        }
    } else {
        Ok(Seq::empty())
    };
    match members {
        Err(e) => Err(e),
        Ok(ms) => match spec_semantic(words, decorations) {
            Err(e) => Err(e),
            Ok(semantic) => Ok(
                InterfaceVariableView {
                    spirv_id,
                    name,
                    location: decorations.location.value,
                    storage_class,
                    semantic,
                    decoration_flags: if spec_any_built_in(ms, ms.len() as int) {
                        decorations.spec_flags().spec_with(ReflectDecorationFlags::BUILT_IN)
                    } else {
                        decorations.spec_flags()
                    },
                    built_in: ReflectBuiltIn {
                        code: match decorations.built_in {
                            Some(code) => code,
                            None => 0,
                        },
                    },
                    numeric: t.traits.numeric,
                    array: t.traits.array,
                    members: ms,
                    format: spec_format(t),
                    type_description: Some(t),
                    word_offset: decorations.location.word_offset,
                },
            ),
        },
    }
}

/// The variables of the first `k` members of the type `t`, whose struct
/// has the id `owner`.
pub open spec fn spec_interface_members_upto(
    words: Seq<u32>,
    nodes: Seq<ParserNode>,
    t: TypeDescriptionView,
    owner: u32,
    storage_class: ReflectStorageClass,
    k: int,
) -> Result<Seq<InterfaceVariableView>, ReflectError>
    decreases t, 1nat, k,
{
    if k <= 0 || k > t.members.len() {
        Ok(Seq::empty())
    } else {
        match spec_interface_members_upto(words, nodes, t, owner, storage_class, k - 1) {
            Err(e) => Err(e),
            Ok(before) => match spec_interface_variable(
                words,
                nodes,
                t.members[k - 1],
                t.members[k - 1].id,
                t.members[k - 1].struct_member_name,
                storage_class,
                spec_member_decorations(words, nodes, owner, spec_member_index(k - 1)),
            ) {
                Err(e) => Err(e),
                Ok(member) => Ok(before.push(member)),
            },
        }
    }
}

/// Once a member variable cannot be built, the member variables cannot.
pub proof fn lemma_interface_members_fail(
    words: Seq<u32>,
    nodes: Seq<ParserNode>,
    t: TypeDescriptionView,
    owner: u32,
    storage_class: ReflectStorageClass,
    k: int,
    n: int,
)
    requires
        0 <= k <= n <= t.members.len(),
        spec_interface_members_upto(words, nodes, t, owner, storage_class, k).is_err(),
    ensures
        spec_interface_members_upto(words, nodes, t, owner, storage_class, n)
            == spec_interface_members_upto(words, nodes, t, owner, storage_class, k),
    decreases n - k,
{
    if k < n {
        lemma_interface_members_fail(words, nodes, t, owner, storage_class, k, n - 1);
    }
}

/// Whether one of `members` is a built-in.
fn any_built_in(members: &Vec<ReflectInterfaceVariable>) -> (any: bool)
    ensures
        any == spec_any_built_in(views(members@), members@.len() as int),
{
    let mut any = false;
    let mut i: usize = 0;
    while i < members.len()
        invariant
            i <= members@.len(),
            any == spec_any_built_in(views(members@), i as int),
        decreases members@.len() - i,
    {
        assert(views(members@)[i as int] == members@[i as int]@);
        if members[i].decoration_flags.contains(ReflectDecorationFlags::BUILT_IN) {
            any = true;
        }
        i += 1;
    }
    any
}

impl Parser {
    /// An interface variable, or a member of one.
    pub fn interface_variable(
        &self,
        t: &ReflectTypeDescription,
        spirv_id: u32,
        name: String,
        storage_class: ReflectStorageClass,
        decorations: &Decorations,
    ) -> (variable: Result<ReflectInterfaceVariable, ReflectError>)
        requires
            self.wf(),
        ensures
            agrees(
                variable,
                spec_interface_variable(
                    self.words@,
                    self.nodes@,
                    t@,
                    spirv_id,
                    name@,
                    storage_class,
                    *decorations,
                ),
            ),
        decreases t,
    {
        let mut members: Vec<ReflectInterfaceVariable> = Vec::new();
        proof {
            lemma_type_members_view(*t);
            assert(views(members@) =~= Seq::<InterfaceVariableView>::empty());
        }
        if t.type_flags.contains(ReflectTypeFlags::STRUCT) && t.members.len() > 0 {
            let owner = match self.struct_node(t.id, self.nodes.len()) {
                None => {
                    return Err(ReflectError::InvalidIdReference);
                },
                Some(at) => self.nodes[at].result_id,
            };
            let mut m: usize = 0;
            while m < t.members.len()
                invariant
                    self.wf(),
                    m <= t.members@.len(),
                    t@.members == views(t.members@),
                    t@.type_flags.spec_contains(ReflectTypeFlags::STRUCT),
                    t@.members.len() > 0,
                    spec_struct_node(self.nodes@, t@.id, self.nodes@.len()) matches Some(at)
                        && self.nodes@[at].result_id
                        == owner,
                    members@.len() == m,
                    spec_interface_members_upto(
                        self.words@,
                        self.nodes@,
                        t@,
                        owner,
                        storage_class,
                        m as int,
                    )
                        == Ok::<Seq<InterfaceVariableView>, ReflectError>(views(members@)),
                decreases t.members@.len() - m,
            {
                let ghost before = views(members@);
                let member_type = &t.members[m];
                assert(t@.members[m as int] == member_type@);
                let member_decorations = self.member_decorations_of(owner, member_index(m));
                let member_name = member_type.struct_member_name.clone();
                match self.interface_variable(member_type,
                    member_type.id,
                    member_name,
                    storage_class,
                    &member_decorations,
                ) {
                    Err(e) => {
                        proof {
                            lemma_interface_members_fail(
                                self.words@,
                                self.nodes@,
                                t@,
                                owner,
                                storage_class,
                                m as int + 1,
                                t.members@.len() as int,
                            );
                        }
                        return Err(e);
                    },
                    Ok(member) => {
                        members.push(member);
                        proof {
                            assert(views(members@) =~= before.push(member@));
                        }
                    },
                }
                m += 1;
            }
        }
        let semantic = semantic_of(&self.words, decorations)?;
        let flags = apply_decorations(decorations);
        let decoration_flags = if any_built_in(&members) {
            flags.with(ReflectDecorationFlags::BUILT_IN)
        } else {
            flags
        };
        let variable = ReflectInterfaceVariable {
            spirv_id,
            name,
            location: decorations.location.value,
            storage_class,
            semantic,
            decoration_flags,
            built_in: ReflectBuiltIn {
                code: match decorations.built_in {
                    Some(code) => code,
                    None => 0,
                },
            },
            numeric: t.traits.numeric,
            array: t.traits.array.clone(),
            members,
            format: format_of(t),
            type_description: Some(t.clone()),
            word_offset: decorations.location.word_offset,
        };
        proof {
            lemma_interface_members_view(variable);
        }
        Ok(variable)
    }
}

} // verus!
