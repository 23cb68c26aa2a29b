//! Type descriptions, block variables, interface variables and entry points.

use crate::spirv::dim_defined;
use crate::types::descriptor::{DescriptorSetView, ReflectDescriptorSet};
use crate::types::flags::{ReflectDecorationFlags, ReflectTypeFlags};
use crate::types::image::ReflectFormat;
use crate::types::op::{ReflectBuiltIn, ReflectOp};
use crate::types::traits::{
    ArrayTraitsView, ReflectArrayTraits, ReflectNumericTraits, ReflectTypeDescriptionTraits,
    TypeDescriptionTraitsView,
};
use crate::views::{clone_all, views};
use vstd::prelude::*;

verus! {

/// The dimensionality of an image type.
#[derive(Clone, Copy, Debug, PartialEq, Eq, Structural)]
pub enum ReflectDimension {
    Undefined,
    Type1d,
    Type2d,
    Type3d,
    Cube,
    Rect,
    Buffer,
    SubPassData,
}

impl ReflectDimension {
    /// The dimensionality with the SPIR-V number `code`; `Undefined` for
    /// every number above 6.
    pub open spec fn spec_from_code(code: u32) -> ReflectDimension {
        if code == 0 {
            ReflectDimension::Type1d
        } else if code == 1 {
            ReflectDimension::Type2d
        } else if code == 2 {
            ReflectDimension::Type3d
        } else if code == 3 {
            ReflectDimension::Cube
        } else if code == 4 {
            ReflectDimension::Rect
        } else if code == 5 {
            ReflectDimension::Buffer
        } else if code == 6 {
            ReflectDimension::SubPassData
        } else {
            ReflectDimension::Undefined
        }
    }

    /// The dimensionality that the word `code` of an image type instruction
    /// names. A number that `spirv_headers::Dim` does not define gives
    /// `Undefined`.
    pub fn from_code(code: u32) -> (dim: ReflectDimension)
        ensures
            dim == Self::spec_from_code(code),
    {
        if !dim_defined(code) {
            return ReflectDimension::Undefined;
        }
        match code {
            0 => ReflectDimension::Type1d,
            1 => ReflectDimension::Type2d,
            2 => ReflectDimension::Type3d,
            3 => ReflectDimension::Cube,
            4 => ReflectDimension::Rect,
            5 => ReflectDimension::Buffer,
            6 => ReflectDimension::SubPassData,
            _ => ReflectDimension::Undefined,
        }
    }
}

impl Default for ReflectDimension {
    fn default() -> (dim: Self)
        ensures
            dim == ReflectDimension::Undefined,
    {
        ReflectDimension::Undefined
    }
}

/// The memory space of a variable or of what a pointer points to.
#[derive(Clone, Copy, Debug, PartialEq, Eq, Structural)]
pub enum ReflectStorageClass {
    Undefined,
    UniformConstant,
    Input,
    Uniform,
    Output,
    WorkGroup,
    CrossWorkGroup,
    Private,
    Function,
    Generic,
    PushConstant,
    AtomicCounter,
    Image,
    StorageBuffer,
}

impl ReflectStorageClass {
    /// The storage class with the SPIR-V number `code`; `Undefined` for
    /// every number above 12.
    pub open spec fn spec_from_code(code: u32) -> ReflectStorageClass {
        if code == 0 {
            ReflectStorageClass::UniformConstant
        } else if code == 1 {
            ReflectStorageClass::Input
        } else if code == 2 {
            ReflectStorageClass::Uniform
        } else if code == 3 {
            ReflectStorageClass::Output
        } else if code == 4 {
            ReflectStorageClass::WorkGroup
        } else if code == 5 {
            ReflectStorageClass::CrossWorkGroup
        } else if code == 6 {
            ReflectStorageClass::Private
        } else if code == 7 {
            ReflectStorageClass::Function
        } else if code == 8 {
            ReflectStorageClass::Generic
        } else if code == 9 {
            ReflectStorageClass::PushConstant
        } else if code == 10 {
            ReflectStorageClass::AtomicCounter
        } else if code == 11 {
            ReflectStorageClass::Image
        } else if code == 12 {
            ReflectStorageClass::StorageBuffer
        } else {
            ReflectStorageClass::Undefined
        }
    }

    /// The storage class with the SPIR-V number `code`.
    pub fn from_code(code: u32) -> (class: ReflectStorageClass)
        ensures
            class == Self::spec_from_code(code),
    {
        match code {
            0 => ReflectStorageClass::UniformConstant,
            1 => ReflectStorageClass::Input,
            2 => ReflectStorageClass::Uniform,
            3 => ReflectStorageClass::Output,
            4 => ReflectStorageClass::WorkGroup,
            5 => ReflectStorageClass::CrossWorkGroup,
            6 => ReflectStorageClass::Private,
            7 => ReflectStorageClass::Function,
            8 => ReflectStorageClass::Generic,
            9 => ReflectStorageClass::PushConstant,
            10 => ReflectStorageClass::AtomicCounter,
            11 => ReflectStorageClass::Image,
            12 => ReflectStorageClass::StorageBuffer,
            _ => ReflectStorageClass::Undefined,
        }
    }
}

impl Default for ReflectStorageClass {
    fn default() -> (class: Self)
        ensures
            class == ReflectStorageClass::Undefined,
    {
        ReflectStorageClass::Undefined
    }
}

/// The pipeline stage of an entry point.
#[derive(Clone, Copy, Debug, PartialEq, Eq, Structural)]
pub enum ReflectShaderStage {
    Undefined,
    Vertex,
    TessellationControl,
    TessellationEvaluation,
    Geometry,
    Fragment,
    Compute,
    Kernel,
    TaskNV,
    MeshNV,
    RayGenerationNV,
    IntersectionNV,
    AnyHitNV,
    ClosestHitNV,
    MissNV,
    CallableNV,
}

impl ReflectShaderStage {
    /// The stage of the execution model with the SPIR-V number `model`.
    pub open spec fn spec_from_execution_model(model: u32) -> ReflectShaderStage {
        if model == 0 {
            ReflectShaderStage::Vertex
        } else if model == 1 {
            ReflectShaderStage::TessellationControl
        } else if model == 2 {
            ReflectShaderStage::TessellationEvaluation
        } else if model == 3 {
            ReflectShaderStage::Geometry
        } else if model == 4 {
            ReflectShaderStage::Fragment
        } else if model == 5 {
            ReflectShaderStage::Compute
        } else if model == 6 {
            ReflectShaderStage::Kernel
        } else if model == 5267 {
            ReflectShaderStage::TaskNV
        } else if model == 5268 {
            ReflectShaderStage::MeshNV
        } else if model == 5313 {
            ReflectShaderStage::RayGenerationNV
        } else if model == 5314 {
            ReflectShaderStage::IntersectionNV
        } else if model == 5315 {
            ReflectShaderStage::AnyHitNV
        } else if model == 5316 {
            ReflectShaderStage::ClosestHitNV
        } else if model == 5317 {
            ReflectShaderStage::MissNV
        } else if model == 5318 {
            ReflectShaderStage::CallableNV
        } else {
            ReflectShaderStage::Undefined
        }
    }

    /// The stage of the execution model with the SPIR-V number `model`.
    pub fn from_execution_model(model: u32) -> (stage: ReflectShaderStage)
        ensures
            stage == Self::spec_from_execution_model(model),
    {
        match model {
            0 => ReflectShaderStage::Vertex,
            1 => ReflectShaderStage::TessellationControl,
            2 => ReflectShaderStage::TessellationEvaluation,
            3 => ReflectShaderStage::Geometry,
            4 => ReflectShaderStage::Fragment,
            5 => ReflectShaderStage::Compute,
            6 => ReflectShaderStage::Kernel,
            5267 => ReflectShaderStage::TaskNV,
            5268 => ReflectShaderStage::MeshNV,
            5313 => ReflectShaderStage::RayGenerationNV,
            5314 => ReflectShaderStage::IntersectionNV,
            5315 => ReflectShaderStage::AnyHitNV,
            5316 => ReflectShaderStage::ClosestHitNV,
            5317 => ReflectShaderStage::MissNV,
            5318 => ReflectShaderStage::CallableNV,
            _ => ReflectShaderStage::Undefined,
        }
    }

    /// The bit that stands for the stage in a set of stages.
    pub open spec fn spec_flag_bits(self) -> u32 {
        match self {
            ReflectShaderStage::Undefined => 0,
            ReflectShaderStage::Vertex => 0x01,
            ReflectShaderStage::TessellationControl => 0x02,
            ReflectShaderStage::TessellationEvaluation => 0x04,
            ReflectShaderStage::Geometry => 0x08,
            ReflectShaderStage::Fragment => 0x10,
            ReflectShaderStage::Compute => 0x20,
            ReflectShaderStage::Kernel => 0,
            ReflectShaderStage::TaskNV => 0x40,
            ReflectShaderStage::MeshNV => 0x80,
            ReflectShaderStage::RayGenerationNV => 256,
            ReflectShaderStage::AnyHitNV => 512,
            ReflectShaderStage::ClosestHitNV => 1024,
            ReflectShaderStage::MissNV => 2048,
            ReflectShaderStage::IntersectionNV => 4096,
            ReflectShaderStage::CallableNV => 8192,
        }
    }

    /// The bit that stands for the stage in a set of stages; no bit for a
    /// kernel or an undefined stage.
    pub fn flag_bits(&self) -> (bits: u32)
        ensures
            bits == self.spec_flag_bits(),
    {
        match self {
            ReflectShaderStage::Undefined => 0,
            ReflectShaderStage::Vertex => 0x01,
            ReflectShaderStage::TessellationControl => 0x02,
            ReflectShaderStage::TessellationEvaluation => 0x04,
            ReflectShaderStage::Geometry => 0x08,
            ReflectShaderStage::Fragment => 0x10,
            ReflectShaderStage::Compute => 0x20,
            ReflectShaderStage::Kernel => 0,
            ReflectShaderStage::TaskNV => 0x40,
            ReflectShaderStage::MeshNV => 0x80,
            ReflectShaderStage::RayGenerationNV => 256,
            ReflectShaderStage::AnyHitNV => 512,
            ReflectShaderStage::ClosestHitNV => 1024,
            ReflectShaderStage::MissNV => 2048,
            ReflectShaderStage::IntersectionNV => 4096,
            ReflectShaderStage::CallableNV => 8192,
        }
    }
}

impl Default for ReflectShaderStage {
    fn default() -> (stage: Self)
        ensures
            stage == ReflectShaderStage::Undefined,
    {
        ReflectShaderStage::Undefined
    }
}

/// The id that a type description holds until a type is resolved into it.
pub const UNRESOLVED_ID: u32 = 0xFFFF_FFFF;

/// A type, with the types of its members below it.
#[derive(Debug)]
pub struct ReflectTypeDescription {
    pub id: u32,
    pub op: ReflectOp,
    pub name: String,
    pub struct_member_name: String,
    pub storage_class: ReflectStorageClass,
    pub type_flags: ReflectTypeFlags,
    pub decoration_flags: ReflectDecorationFlags,
    pub traits: ReflectTypeDescriptionTraits,
    pub members: Vec<ReflectTypeDescription>,
}

/// What a `ReflectTypeDescription` stands for.
pub struct TypeDescriptionView {
    pub id: u32,
    pub op: ReflectOp,
    pub name: Seq<char>,
    pub struct_member_name: Seq<char>,
    pub storage_class: ReflectStorageClass,
    pub type_flags: ReflectTypeFlags,
    pub decoration_flags: ReflectDecorationFlags,
    pub traits: TypeDescriptionTraitsView,
    pub members: Seq<TypeDescriptionView>,
}

impl TypeDescriptionView {
    /// The description into which nothing has been resolved yet.
    pub open spec fn unresolved() -> TypeDescriptionView {
        TypeDescriptionView {
            id: UNRESOLVED_ID,
            op: ReflectOp { code: 0 },
            name: Seq::empty(),
            struct_member_name: Seq::empty(),
            storage_class: ReflectStorageClass::Undefined,
            type_flags: ReflectTypeFlags { bits: 0 },
            decoration_flags: ReflectDecorationFlags { bits: 0 },
            traits: TypeDescriptionTraitsView::none(),
            members: Seq::empty(),
        }
    }
}

/// What `description` stands for.
pub open spec fn type_description_view(description: ReflectTypeDescription) -> TypeDescriptionView
    decreases description,
{
    TypeDescriptionView {
        id: description.id,
        op: description.op,
        name: description.name@,
        struct_member_name: description.struct_member_name@,
        storage_class: description.storage_class,
        type_flags: description.type_flags,
        decoration_flags: description.decoration_flags,
        traits: description.traits@,
        members: Seq::new(
            description.members@.len(),
            |i: int|
                if 0 <= i < description.members@.len() {
                    type_description_view(description.members@[i])
                } else {
                    arbitrary()
                },
        ),
    }
}

impl View for ReflectTypeDescription {
    type V = TypeDescriptionView;

    open spec fn view(&self) -> TypeDescriptionView {
        type_description_view(*self)
    }
}

/// The members of a description's view are the views of its members.
pub proof fn lemma_type_members_view(description: ReflectTypeDescription)
    ensures
        description@.members == views(description.members@),
{
    assert(description@.members =~= views(description.members@));
}

impl Clone for ReflectTypeDescription {
    fn clone(&self) -> (copy: Self)
        ensures
            copy@ == self@,
        decreases self,
    {
        let mut members: Vec<ReflectTypeDescription> = Vec::new();
        let mut i: usize = 0;
        while i < self.members.len()
            invariant
                i <= self.members@.len(),
                members@.len() == i,
                forall|j: int| 0 <= j < i ==> members@[j]@ == self.members@[j]@,
            decreases self.members@.len() - i,
        {
            let member = self.members[i].clone();
            members.push(member);
            i += 1;
        }
        let copy = ReflectTypeDescription {
            id: self.id,
            op: self.op,
            name: self.name.clone(),
            struct_member_name: self.struct_member_name.clone(),
            storage_class: self.storage_class,
            type_flags: self.type_flags,
            decoration_flags: self.decoration_flags,
            traits: self.traits.clone(),
            members,
        };
        assert(copy@.members =~= self@.members);
        copy
    }
}

impl Default for ReflectTypeDescription {
    fn default() -> (description: Self)
        ensures
            description@ == TypeDescriptionView::unresolved(),
    {
        let description = ReflectTypeDescription {
            id: UNRESOLVED_ID,
            op: ReflectOp { code: 0 },
            name: String::new(),
            struct_member_name: String::new(),
            storage_class: ReflectStorageClass::Undefined,
            type_flags: ReflectTypeFlags { bits: 0 },
            decoration_flags: ReflectDecorationFlags { bits: 0 },
            traits: ReflectTypeDescriptionTraits::default(),
            members: Vec::new(),
        };
        assert(description@.members =~= Seq::empty());
        description
    }
}

/// A variable of a block, with its place and size in the block and the
/// variables of its members below it.
#[derive(Debug)]
pub struct ReflectBlockVariable {
    pub spirv_id: u32,
    pub name: String,
    pub offset: u32,
    pub absolute_offset: u32,
    pub size: u32,
    pub padded_size: u32,
    pub decoration_flags: ReflectDecorationFlags,
    pub numeric: ReflectNumericTraits,
    pub array: ReflectArrayTraits,
    pub members: Vec<ReflectBlockVariable>,
    pub type_description: Option<ReflectTypeDescription>,
}

/// What a `ReflectBlockVariable` stands for.
pub struct BlockVariableView {
    pub spirv_id: u32,
    pub name: Seq<char>,
    pub offset: u32,
    pub absolute_offset: u32,
    pub size: u32,
    pub padded_size: u32,
    pub decoration_flags: ReflectDecorationFlags,
    pub numeric: ReflectNumericTraits,
    pub array: ArrayTraitsView,
    pub members: Seq<BlockVariableView>,
    pub type_description: Option<TypeDescriptionView>,
}

impl BlockVariableView {
    /// The variable of a binding that has no block behind it.
    pub open spec fn none() -> BlockVariableView {
        BlockVariableView {
            spirv_id: 0,
            name: Seq::empty(),
            offset: 0,
            absolute_offset: 0,
            size: 0,
            padded_size: 0,
            decoration_flags: ReflectDecorationFlags { bits: 0 },
            numeric: ReflectNumericTraits::spec_zero(),
            array: ArrayTraitsView::none(),
            members: Seq::empty(),
            type_description: None,
        }
    }
}

/// What `variable` stands for.
pub open spec fn block_variable_view(variable: ReflectBlockVariable) -> BlockVariableView
    decreases variable,
{
    BlockVariableView {
        spirv_id: variable.spirv_id,
        name: variable.name@,
        offset: variable.offset,
        absolute_offset: variable.absolute_offset,
        size: variable.size,
        padded_size: variable.padded_size,
        decoration_flags: variable.decoration_flags,
        numeric: variable.numeric,
        array: variable.array@,
        members: Seq::new(
            variable.members@.len(),
            |i: int|
                if 0 <= i < variable.members@.len() {
                    block_variable_view(variable.members@[i])
                } else {
                    arbitrary()
                },
        ),
        type_description: match variable.type_description {
            Some(description) => Some(description@),
            None => None,
        },
    }
}

impl View for ReflectBlockVariable {
    type V = BlockVariableView;

    open spec fn view(&self) -> BlockVariableView {
        block_variable_view(*self)
    }
}

/// The members of a variable's view are the views of its members.
pub proof fn lemma_block_members_view(variable: ReflectBlockVariable)
    ensures
        variable@.members == views(variable.members@),
{
    assert(variable@.members =~= views(variable.members@));
}

impl Clone for ReflectBlockVariable {
    fn clone(&self) -> (copy: Self)
        ensures
            copy@ == self@,
        decreases self,
    {
        let mut members: Vec<ReflectBlockVariable> = Vec::new();
        let mut i: usize = 0;
        while i < self.members.len()
            invariant
                i <= self.members@.len(),
                members@.len() == i,
                forall|j: int| 0 <= j < i ==> members@[j]@ == self.members@[j]@,
            decreases self.members@.len() - i,
        {
            let member = self.members[i].clone();
            members.push(member);
            i += 1;
        }
        let type_description = match &self.type_description {
            Some(description) => Some(description.clone()),
            None => None,
        };
        let copy = ReflectBlockVariable {
            spirv_id: self.spirv_id,
            name: self.name.clone(),
            offset: self.offset,
            absolute_offset: self.absolute_offset,
            size: self.size,
            padded_size: self.padded_size,
            decoration_flags: self.decoration_flags,
            numeric: self.numeric,
            array: self.array.clone(),
            members,
            type_description,
        };
        assert(copy@.members =~= self@.members);
        copy
    }
}

impl Default for ReflectBlockVariable {
    fn default() -> (variable: Self)
        ensures
            variable@ == BlockVariableView::none(),
    {
        let variable = ReflectBlockVariable {
            spirv_id: 0,
            name: String::new(),
            offset: 0,
            absolute_offset: 0,
            size: 0,
            padded_size: 0,
            decoration_flags: ReflectDecorationFlags { bits: 0 },
            numeric: ReflectNumericTraits::default(),
            array: ReflectArrayTraits::default(),
            members: Vec::new(),
            type_description: None,
        };
        assert(variable@.members =~= Seq::empty());
        variable
    }
}

/// An input or output of an entry point.
#[derive(Debug)]
pub struct ReflectInterfaceVariable {
    pub spirv_id: u32,
    pub name: String,
    pub location: u32,
    pub storage_class: ReflectStorageClass,
    pub semantic: String,
    pub decoration_flags: ReflectDecorationFlags,
    pub built_in: ReflectBuiltIn,
    pub numeric: ReflectNumericTraits,
    pub array: ReflectArrayTraits,
    pub members: Vec<ReflectInterfaceVariable>,
    pub format: ReflectFormat,
    pub type_description: Option<ReflectTypeDescription>,
    pub word_offset: u32,
}

/// What a `ReflectInterfaceVariable` stands for.
pub struct InterfaceVariableView {
    pub spirv_id: u32,
    pub name: Seq<char>,
    pub location: u32,
    pub storage_class: ReflectStorageClass,
    pub semantic: Seq<char>,
    pub decoration_flags: ReflectDecorationFlags,
    pub built_in: ReflectBuiltIn,
    pub numeric: ReflectNumericTraits,
    pub array: ArrayTraitsView,
    pub members: Seq<InterfaceVariableView>,
    pub format: ReflectFormat,
    pub type_description: Option<TypeDescriptionView>,
    pub word_offset: u32,
}

/// What `variable` stands for.
pub open spec fn interface_variable_view(
    variable: ReflectInterfaceVariable,
) -> InterfaceVariableView
    decreases variable,
{
    InterfaceVariableView {
        spirv_id: variable.spirv_id,
        name: variable.name@,
        location: variable.location,
        storage_class: variable.storage_class,
        semantic: variable.semantic@,
        decoration_flags: variable.decoration_flags,
        built_in: variable.built_in,
        numeric: variable.numeric,
        array: variable.array@,
        members: Seq::new(
            variable.members@.len(),
            |i: int|
                if 0 <= i < variable.members@.len() {
                    interface_variable_view(variable.members@[i])
                } else {
                    arbitrary()
                },
        ),
        format: variable.format,
        type_description: match variable.type_description {
            Some(description) => Some(description@),
            None => None,
        },
        word_offset: variable.word_offset,
    }
}

impl View for ReflectInterfaceVariable {
    type V = InterfaceVariableView;

    open spec fn view(&self) -> InterfaceVariableView {
        interface_variable_view(*self)
    }
}

/// The members of a variable's view are the views of its members.
pub proof fn lemma_interface_members_view(variable: ReflectInterfaceVariable)
    ensures
        variable@.members == views(variable.members@),
{
    assert(variable@.members =~= views(variable.members@));
}

impl Clone for ReflectInterfaceVariable {
    fn clone(&self) -> (copy: Self)
        ensures
            copy@ == self@,
        decreases self,
    {
        let mut members: Vec<ReflectInterfaceVariable> = Vec::new();
        let mut i: usize = 0;
        while i < self.members.len()
            invariant
                i <= self.members@.len(),
                members@.len() == i,
                forall|j: int| 0 <= j < i ==> members@[j]@ == self.members@[j]@,
            decreases self.members@.len() - i,
        {
            let member = self.members[i].clone();
            members.push(member);
            i += 1;
        }
        let type_description = match &self.type_description {
            Some(description) => Some(description.clone()),
            None => None,
        };
        let copy = ReflectInterfaceVariable {
            spirv_id: self.spirv_id,
            name: self.name.clone(),
            location: self.location,
            storage_class: self.storage_class,
            semantic: self.semantic.clone(),
            decoration_flags: self.decoration_flags,
            built_in: self.built_in,
            numeric: self.numeric,
            array: self.array.clone(),
            members,
            format: self.format,
            type_description,
            word_offset: self.word_offset,
        };
        assert(copy@.members =~= self@.members);
        copy
    }
}

/// The workgroup size that a compute entry point declares.
#[derive(Clone, Copy, Debug, PartialEq, Eq, Structural)]
pub struct ReflectEntryPointLocalSize {
    pub x: u32,
    pub y: u32,
    pub z: u32,
}

/// An entry point with its interface and the resources it uses.
#[derive(Debug)]
pub struct ReflectEntryPoint {
    pub name: String,
    pub id: u32,
    /// The number of the execution model, where `spirv_headers` defines it.
    pub spirv_execution_model: Option<u32>,
    pub shader_stage: ReflectShaderStage,
    pub input_variables: Vec<ReflectInterfaceVariable>,
    pub output_variables: Vec<ReflectInterfaceVariable>,
    pub descriptor_sets: Vec<ReflectDescriptorSet>,
    pub used_uniforms: Vec<u32>,
    pub used_push_constants: Vec<u32>,
    pub local_size: ReflectEntryPointLocalSize,
}

/// What a `ReflectEntryPoint` stands for.
pub struct EntryPointView {
    pub name: Seq<char>,
    pub id: u32,
    pub spirv_execution_model: Option<u32>,
    pub shader_stage: ReflectShaderStage,
    pub input_variables: Seq<InterfaceVariableView>,
    pub output_variables: Seq<InterfaceVariableView>,
    pub descriptor_sets: Seq<DescriptorSetView>,
    pub used_uniforms: Seq<u32>,
    pub used_push_constants: Seq<u32>,
    pub local_size: ReflectEntryPointLocalSize,
}

impl View for ReflectEntryPoint {
    type V = EntryPointView;

    open spec fn view(&self) -> EntryPointView {
        EntryPointView {
            name: self.name@,
            id: self.id,
            spirv_execution_model: self.spirv_execution_model,
            shader_stage: self.shader_stage,
            input_variables: views(self.input_variables@),
            output_variables: views(self.output_variables@),
            descriptor_sets: views(self.descriptor_sets@),
            used_uniforms: self.used_uniforms@,
            used_push_constants: self.used_push_constants@,
            local_size: self.local_size,
        }
    }
}

impl Clone for ReflectEntryPoint {
    fn clone(&self) -> (copy: Self)
        ensures
            copy@ == self@,
    {
        ReflectEntryPoint {
            name: self.name.clone(),
            id: self.id,
            spirv_execution_model: self.spirv_execution_model,
            shader_stage: self.shader_stage,
            input_variables: clone_all(&self.input_variables),
            output_variables: clone_all(&self.output_variables),
            descriptor_sets: clone_all(&self.descriptor_sets),
            used_uniforms: self.used_uniforms.clone(),
            used_push_constants: self.used_push_constants.clone(),
            local_size: self.local_size,
        }
    }
}

} // verus!
