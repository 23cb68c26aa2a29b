//! Descriptor bindings and the sets they are grouped into.

use crate::types::resource::ReflectResourceType;
use crate::types::traits::{BindingArrayTraitsView, ReflectBindingArrayTraits, ReflectImageTraits};
use crate::types::variable::{BlockVariableView, ReflectBlockVariable};
use crate::views::{clone_all, views};
use vstd::prelude::*;

verus! {

/// The kind of descriptor that a binding asks for.
#[derive(Clone, Copy, Debug, PartialEq, Eq, Structural)]
pub enum ReflectDescriptorType {
    Undefined,
    Sampler,
    CombinedImageSampler,
    SampledImage,
    StorageImage,
    UniformTexelBuffer,
    StorageTexelBuffer,
    UniformBuffer,
    StorageBuffer,
    UniformBufferDynamic,
    StorageBufferDynamic,
    InputAttachment,
    AccelerationStructureNV,
}

impl ReflectDescriptorType {
    /// The kind of descriptor with the Vulkan number `code`, which is at
    /// most 10.
    pub open spec fn spec_from_code(code: u32) -> ReflectDescriptorType {
        if code == 0 {
            ReflectDescriptorType::Sampler
        } else if code == 1 {
            ReflectDescriptorType::CombinedImageSampler
        } else if code == 2 {
            ReflectDescriptorType::SampledImage
        } else if code == 3 {
            ReflectDescriptorType::StorageImage
        } else if code == 4 {
            ReflectDescriptorType::UniformTexelBuffer
        } else if code == 5 {
            ReflectDescriptorType::StorageTexelBuffer
        } else if code == 6 {
            ReflectDescriptorType::UniformBuffer
        } else if code == 7 {
            ReflectDescriptorType::StorageBuffer
        } else if code == 8 {
            ReflectDescriptorType::UniformBufferDynamic
        } else if code == 9 {
            ReflectDescriptorType::StorageBufferDynamic
        } else {
            ReflectDescriptorType::InputAttachment
        }
    }

    /// The kind of descriptor with the Vulkan number `code`.
    pub fn from_code(code: u32) -> (descriptor: ReflectDescriptorType)
        requires
            code <= 10,
        ensures
            descriptor == Self::spec_from_code(code),
    {
        match code {
            0 => ReflectDescriptorType::Sampler,
            1 => ReflectDescriptorType::CombinedImageSampler,
            2 => ReflectDescriptorType::SampledImage,
            3 => ReflectDescriptorType::StorageImage,
            4 => ReflectDescriptorType::UniformTexelBuffer,
            5 => ReflectDescriptorType::StorageTexelBuffer,
            6 => ReflectDescriptorType::UniformBuffer,
            7 => ReflectDescriptorType::StorageBuffer,
            8 => ReflectDescriptorType::UniformBufferDynamic,
            9 => ReflectDescriptorType::StorageBufferDynamic,
            _ => ReflectDescriptorType::InputAttachment,
        }
    }
}

impl Default for ReflectDescriptorType {
    fn default() -> (descriptor: Self)
        ensures
            descriptor == ReflectDescriptorType::Undefined,
    {
        ReflectDescriptorType::Undefined
    }
}

/// The word offset of a binding number.
pub type ReflectOrdinalBinding = u32;

/// The word offset of a set number.
pub type ReflectOrdinalSet = u32;

/// The word offsets of a binding's binding number and set number.
pub type ReflectDescriptorBindingSet = (ReflectOrdinalBinding, ReflectOrdinalSet);

/// A resource that the shader reaches through a descriptor.
#[derive(Debug)]
pub struct ReflectDescriptorBinding {
    pub spirv_id: u32,
    pub name: String,
    pub binding: u32,
    pub input_attachment_index: u32,
    pub set: u32,
    pub descriptor_type: ReflectDescriptorType,
    pub resource_type: ReflectResourceType,
    pub image: ReflectImageTraits,
    pub block: ReflectBlockVariable,
    pub array: ReflectBindingArrayTraits,
    pub count: u32,
    pub uav_counter_id: u32,
    /// The place, in the module's bindings, of the binding that counts for
    /// this one.
    pub uav_counter_index: Option<usize>,
    /// The place, in the module's type descriptions, of the binding's type.
    pub type_index: Option<usize>,
    pub word_offset: ReflectDescriptorBindingSet,
}

/// What a `ReflectDescriptorBinding` stands for.
pub struct DescriptorBindingView {
    pub spirv_id: u32,
    pub name: Seq<char>,
    pub binding: u32,
    pub input_attachment_index: u32,
    pub set: u32,
    pub descriptor_type: ReflectDescriptorType,
    pub resource_type: ReflectResourceType,
    pub image: ReflectImageTraits,
    pub block: BlockVariableView,
    pub array: BindingArrayTraitsView,
    pub count: u32,
    pub uav_counter_id: u32,
    pub uav_counter_index: Option<usize>,
    pub type_index: Option<usize>,
    pub word_offset: (u32, u32),
}

impl View for ReflectDescriptorBinding {
    type V = DescriptorBindingView;

    open spec fn view(&self) -> DescriptorBindingView {
        DescriptorBindingView {
            spirv_id: self.spirv_id,
            name: self.name@,
            binding: self.binding,
            input_attachment_index: self.input_attachment_index,
            set: self.set,
            descriptor_type: self.descriptor_type,
            resource_type: self.resource_type,
            image: self.image,
            block: self.block@,
            array: self.array@,
            count: self.count,
            uav_counter_id: self.uav_counter_id,
            uav_counter_index: self.uav_counter_index,
            type_index: self.type_index,
            word_offset: self.word_offset,
        }
    }
}

impl Clone for ReflectDescriptorBinding {
    fn clone(&self) -> (copy: Self)
        ensures
            copy@ == self@,
    {
        ReflectDescriptorBinding {
            spirv_id: self.spirv_id,
            name: self.name.clone(),
            binding: self.binding,
            input_attachment_index: self.input_attachment_index,
            set: self.set,
            descriptor_type: self.descriptor_type,
            resource_type: self.resource_type,
            image: self.image,
            block: self.block.clone(),
            array: self.array.clone(),
            count: self.count,
            uav_counter_id: self.uav_counter_id,
            uav_counter_index: self.uav_counter_index,
            type_index: self.type_index,
            word_offset: self.word_offset,
        }
    }
}

/// A descriptor binding as a query hands it out: where it stands in the
/// module's bindings, for which entry point it was asked, and its value at
/// the time of the query.
#[derive(Debug)]
pub struct DescriptorBindingRef {
    pub ref_id: Option<usize>,
    pub entry_point_id: Option<usize>,
    pub value: ReflectDescriptorBinding,
}

/// What a `DescriptorBindingRef` stands for.
pub struct DescriptorBindingRefView {
    pub ref_id: Option<usize>,
    pub entry_point_id: Option<usize>,
    pub value: DescriptorBindingView,
}

impl View for DescriptorBindingRef {
    type V = DescriptorBindingRefView;

    open spec fn view(&self) -> DescriptorBindingRefView {
        DescriptorBindingRefView {
            ref_id: self.ref_id,
            entry_point_id: self.entry_point_id,
            value: self.value@,
        }
    }
}

impl Clone for DescriptorBindingRef {
    fn clone(&self) -> (copy: Self)
        ensures
            copy@ == self@,
    {
        DescriptorBindingRef {
            ref_id: self.ref_id,
            entry_point_id: self.entry_point_id,
            value: self.value.clone(),
        }
    }
}

/// The bindings that share a set number, in the order of the module's
/// bindings.
#[derive(Debug)]
pub struct ReflectDescriptorSet {
    pub set: u32,
    pub binding_refs: Vec<DescriptorBindingRef>,
}

/// What a `ReflectDescriptorSet` stands for.
pub struct DescriptorSetView {
    pub set: u32,
    pub binding_refs: Seq<DescriptorBindingRefView>,
}

impl View for ReflectDescriptorSet {
    type V = DescriptorSetView;

    open spec fn view(&self) -> DescriptorSetView {
        DescriptorSetView { set: self.set, binding_refs: views(self.binding_refs@) }
    }
}

impl Clone for ReflectDescriptorSet {
    fn clone(&self) -> (copy: Self)
        ensures
            copy@ == self@,
    {
        ReflectDescriptorSet { set: self.set, binding_refs: clone_all(&self.binding_refs) }
    }
}

/// A descriptor set as a query hands it out.
#[derive(Debug)]
pub struct DescriptorSetRef {
    pub ref_id: Option<usize>,
    pub entry_point_id: Option<usize>,
    pub value: ReflectDescriptorSet,
}

/// What a `DescriptorSetRef` stands for.
pub struct DescriptorSetRefView {
    pub ref_id: Option<usize>,
    pub entry_point_id: Option<usize>,
    pub value: DescriptorSetView,
}

impl View for DescriptorSetRef {
    type V = DescriptorSetRefView;

    open spec fn view(&self) -> DescriptorSetRefView {
        DescriptorSetRefView {
            ref_id: self.ref_id,
            entry_point_id: self.entry_point_id,
            value: self.value@,
        }
    }
}

/// A push constant block as a query hands it out.
#[derive(Debug)]
pub struct PushConstantBlockRef {
    pub ref_id: Option<usize>,
    pub entry_point_id: Option<usize>,
    pub value: ReflectBlockVariable,
}

/// What a `PushConstantBlockRef` stands for.
pub struct PushConstantBlockRefView {
    pub ref_id: Option<usize>,
    pub entry_point_id: Option<usize>,
    pub value: BlockVariableView,
}

impl View for PushConstantBlockRef {
    type V = PushConstantBlockRefView;

    open spec fn view(&self) -> PushConstantBlockRefView {
        PushConstantBlockRefView {
            ref_id: self.ref_id,
            entry_point_id: self.entry_point_id,
            value: self.value@,
        }
    }
}

} // verus!
