//! The resource extractor: descriptor bindings and push constant blocks,
//! one for each variable whose storage class makes it a resource.

use crate::error::ReflectError;
use crate::parser::annotation::{
    lemma_decorations_recorded, spec_decorations, spec_name, Decorations,
};
use crate::parser::block::{element_count, spec_block_variable, spec_element_count};
use crate::parser::node::{spec_indexed, Parser, ParserNode};
use crate::parser::resolve::spec_variable_type;
use crate::spirv::OP_VARIABLE;
use crate::types::descriptor::{
    DescriptorBindingView, ReflectDescriptorBinding, ReflectDescriptorType,
};
use crate::types::flags::{ReflectDecorationFlags, ReflectTypeFlags};
use crate::types::resource::ReflectResourceType;
use crate::types::traits::{BindingArrayTraitsView, ReflectBindingArrayTraits, ReflectImageTraits};
use crate::types::variable::{
    BlockVariableView, ReflectBlockVariable, ReflectDimension, ReflectStorageClass,
    ReflectTypeDescription, TypeDescriptionView,
};
use crate::views::{agrees, agrees_all, views};
use vstd::prelude::*;

verus! {

/// The kind of descriptor of an image type, from its dimensionality and
/// from whether it is sampled (1) or read and written (2).
pub open spec fn spec_image_descriptor_type(image: ReflectImageTraits) -> ReflectDescriptorType {
    if image.dim == ReflectDimension::Buffer {
        if image.sampled == 1 {
            ReflectDescriptorType::UniformTexelBuffer
        } else if image.sampled == 2 {
            ReflectDescriptorType::StorageTexelBuffer
        } else {
            ReflectDescriptorType::Undefined
        }
    } else if image.dim == ReflectDimension::SubPassData {
        ReflectDescriptorType::InputAttachment
    } else if image.sampled == 1 {
        ReflectDescriptorType::SampledImage
    } else if image.sampled == 2 {
        ReflectDescriptorType::StorageImage
    } else {
        ReflectDescriptorType::Undefined
    }
}

/// The kind of descriptor that a variable of the storage class `storage`
/// and the type `t` asks for.
///
/// A variable in the storage buffer class is a storage buffer. Else the
/// external bits of the type flags decide: a block is a storage buffer
/// where its type is decorated as a buffer block and a uniform buffer
/// where it is not; an image goes by its traits; a sampler is a sampler; a
/// sampled image is a combined image sampler, or a uniform texel buffer
/// where its image is a buffer.
pub open spec fn spec_descriptor_type(
    storage: ReflectStorageClass,
    t: TypeDescriptionView,
) -> ReflectDescriptorType {
    let external = t.type_flags.bits & ReflectTypeFlags::EXTERNAL_MASK;
    if storage == ReflectStorageClass::StorageBuffer {
        ReflectDescriptorType::StorageBuffer
    } else if external == ReflectTypeFlags::EXTERNAL_BLOCK {
        if t.decoration_flags.spec_contains(ReflectDecorationFlags::BUFFER_BLOCK) {
            ReflectDescriptorType::StorageBuffer
        } else {
            ReflectDescriptorType::UniformBuffer
        }
    } else if external == ReflectTypeFlags::EXTERNAL_IMAGE {
        spec_image_descriptor_type(t.traits.image)
    } else if external == ReflectTypeFlags::EXTERNAL_SAMPLER {
        ReflectDescriptorType::Sampler
    } else if external == ReflectTypeFlags::EXTERNAL_SAMPLED_IMAGE
        | ReflectTypeFlags::EXTERNAL_IMAGE {
        if t.traits.image.dim == ReflectDimension::Buffer {
            ReflectDescriptorType::UniformTexelBuffer
        } else {
            ReflectDescriptorType::CombinedImageSampler
        }
    } else if external == ReflectTypeFlags::EXTERNAL_ACCELERATION_STRUCTURE_NV {
        ReflectDescriptorType::AccelerationStructureNV
    } else {
        ReflectDescriptorType::Undefined
    }
}

/// How the shader sees a resource with a descriptor of the kind
/// `descriptor`. A storage buffer is a shader resource view where its
/// block is not writable, and an unordered access view where it is.
pub open spec fn spec_resource_type(
    descriptor: ReflectDescriptorType,
    block_flags: ReflectDecorationFlags,
) -> ReflectResourceType {
    match descriptor {
        ReflectDescriptorType::Sampler => ReflectResourceType::Sampler,
        ReflectDescriptorType::CombinedImageSampler => ReflectResourceType::CombinedImageSampler,
        ReflectDescriptorType::SampledImage => ReflectResourceType::ShaderResourceView,
        ReflectDescriptorType::UniformTexelBuffer => ReflectResourceType::ShaderResourceView,
        ReflectDescriptorType::StorageImage => ReflectResourceType::UnorderedAccessView,
        ReflectDescriptorType::StorageTexelBuffer => ReflectResourceType::UnorderedAccessView,
        ReflectDescriptorType::UniformBuffer => ReflectResourceType::ConstantBufferView,
        ReflectDescriptorType::UniformBufferDynamic => ReflectResourceType::ConstantBufferView,
        ReflectDescriptorType::StorageBuffer
        | ReflectDescriptorType::StorageBufferDynamic => if block_flags.spec_contains(
            ReflectDecorationFlags::NON_WRITABLE,
        ) {
            ReflectResourceType::ShaderResourceView
        } else {
            ReflectResourceType::UnorderedAccessView
        },
        ReflectDescriptorType::AccelerationStructureNV => ReflectResourceType::ShaderResourceView,
        ReflectDescriptorType::InputAttachment => ReflectResourceType::Undefined,
        ReflectDescriptorType::Undefined => ReflectResourceType::Undefined,
    }
}

/// Whether a descriptor of the kind `descriptor` has a block behind it.
pub open spec fn spec_is_buffer(descriptor: ReflectDescriptorType) -> bool {
    descriptor == ReflectDescriptorType::UniformBuffer || descriptor
        == ReflectDescriptorType::StorageBuffer
}

/// Whether the type flags `flags` are those of an image, sampled or not.
pub open spec fn spec_has_image(flags: ReflectTypeFlags) -> bool {
    ||| flags.bits & ReflectTypeFlags::EXTERNAL_MASK == ReflectTypeFlags::EXTERNAL_IMAGE
    ||| flags.spec_contains(
        ReflectTypeFlags::EXTERNAL_SAMPLED_IMAGE | ReflectTypeFlags::EXTERNAL_IMAGE,
    )
}

/// The kind of descriptor of an image type.
fn image_descriptor_type(image: &ReflectImageTraits) -> (descriptor: ReflectDescriptorType)
    ensures
        descriptor == spec_image_descriptor_type(*image),
{
    if image.dim == ReflectDimension::Buffer {
        if image.sampled == 1 {
            ReflectDescriptorType::UniformTexelBuffer
        } else if image.sampled == 2 {
            ReflectDescriptorType::StorageTexelBuffer
        } else {
            ReflectDescriptorType::Undefined
        }
    } else if image.dim == ReflectDimension::SubPassData {
        ReflectDescriptorType::InputAttachment
    } else if image.sampled == 1 {
        ReflectDescriptorType::SampledImage
    } else if image.sampled == 2 {
        ReflectDescriptorType::StorageImage
    } else {
        ReflectDescriptorType::Undefined
    }
}

/// The kind of descriptor that a variable of the storage class `storage`
/// and the type `t` asks for.
pub fn descriptor_type_of(
    storage: ReflectStorageClass,
    t: &ReflectTypeDescription,
) -> (descriptor: ReflectDescriptorType)
    ensures
        descriptor == spec_descriptor_type(storage, t@),
{
    let external = t.type_flags.bits & ReflectTypeFlags::EXTERNAL_MASK;
    if storage == ReflectStorageClass::StorageBuffer {
        ReflectDescriptorType::StorageBuffer
    } else if external == ReflectTypeFlags::EXTERNAL_BLOCK {
        if t.decoration_flags.contains(ReflectDecorationFlags::BUFFER_BLOCK) {
            ReflectDescriptorType::StorageBuffer
        } else {
            ReflectDescriptorType::UniformBuffer
        }
    } else if external == ReflectTypeFlags::EXTERNAL_IMAGE {
        image_descriptor_type(&t.traits.image)
    } else if external == ReflectTypeFlags::EXTERNAL_SAMPLER {
        ReflectDescriptorType::Sampler
    } else if external == ReflectTypeFlags::EXTERNAL_SAMPLED_IMAGE
        | ReflectTypeFlags::EXTERNAL_IMAGE {
        if t.traits.image.dim == ReflectDimension::Buffer {
            ReflectDescriptorType::UniformTexelBuffer
        } else {
            ReflectDescriptorType::CombinedImageSampler
        }
    } else if external == ReflectTypeFlags::EXTERNAL_ACCELERATION_STRUCTURE_NV {
        ReflectDescriptorType::AccelerationStructureNV
    } else {
        ReflectDescriptorType::Undefined
    }
}

/// How the shader sees a resource with a descriptor of the kind
/// `descriptor`.
pub fn resource_type_of(
    descriptor: ReflectDescriptorType,
    block_flags: ReflectDecorationFlags,
) -> (resource: ReflectResourceType)
    ensures
        resource == spec_resource_type(descriptor, block_flags),
{
    match descriptor {
        ReflectDescriptorType::Sampler => ReflectResourceType::Sampler,
        ReflectDescriptorType::CombinedImageSampler => ReflectResourceType::CombinedImageSampler,
        ReflectDescriptorType::SampledImage => ReflectResourceType::ShaderResourceView,
        ReflectDescriptorType::UniformTexelBuffer => ReflectResourceType::ShaderResourceView,
        ReflectDescriptorType::StorageImage => ReflectResourceType::UnorderedAccessView,
        ReflectDescriptorType::StorageTexelBuffer => ReflectResourceType::UnorderedAccessView,
        ReflectDescriptorType::UniformBuffer => ReflectResourceType::ConstantBufferView,
        ReflectDescriptorType::UniformBufferDynamic => ReflectResourceType::ConstantBufferView,
        ReflectDescriptorType::StorageBuffer | ReflectDescriptorType::StorageBufferDynamic => {
            if block_flags.contains(ReflectDecorationFlags::NON_WRITABLE) {
                ReflectResourceType::ShaderResourceView
            } else {
                ReflectResourceType::UnorderedAccessView
            }
        },
        ReflectDescriptorType::AccelerationStructureNV => ReflectResourceType::ShaderResourceView,
        ReflectDescriptorType::InputAttachment => ReflectResourceType::Undefined,
        ReflectDescriptorType::Undefined => ReflectResourceType::Undefined,
    }
}

/// Whether node `at` is a variable that is reached through a descriptor:
/// one in the uniform constant, uniform or storage buffer class that is
/// decorated with a set and with a binding.
pub open spec fn spec_is_binding(words: Seq<u32>, nodes: Seq<ParserNode>, at: int) -> bool {
    let node = nodes[at];
    let decorations = spec_decorations(words, nodes, node.result_id);
    &&& node.op == OP_VARIABLE
    &&& node.storage_class == ReflectStorageClass::UniformConstant || node.storage_class
        == ReflectStorageClass::Uniform || node.storage_class == ReflectStorageClass::StorageBuffer
    &&& decorations.set.spec_is_present()
    &&& decorations.binding.spec_is_present()
}

/// The descriptor binding of the variable at node `at`, before it is
/// linked to the binding that counts for it.
pub open spec fn spec_binding(
    words: Seq<u32>,
    nodes: Seq<ParserNode>,
    types: Seq<TypeDescriptionView>,
    at: int,
) -> Result<DescriptorBindingView, ReflectError> {
    let node = nodes[at];
    let decorations = spec_decorations(words, nodes, node.result_id);
    match spec_variable_type(nodes, types, at) {
        Err(e) => Err(e),
        Ok(type_index) => {
            let t = types[type_index];
            let descriptor = spec_descriptor_type(node.storage_class, t);
            match spec_name(words, nodes, node.result_id) {
                Err(e) => Err(e),
                Ok(name) => {
                    let block = if spec_is_buffer(descriptor) {
                        spec_block_variable(
                            words,
                            nodes,
                            t,
                            node.result_id,
                            t.name,
                            0,
                            0,
                            t.decoration_flags,
                            None,
                        )
                    } else {
                        Ok(BlockVariableView::none())
                    };
                    match block {
                        Err(e) => Err(e),
                        Ok(block) => Ok(
                            DescriptorBindingView {
                                spirv_id: node.result_id,
                                name,
                                binding: decorations.binding.value,
                                input_attachment_index: decorations.input_attachment_index.value,
                                set: decorations.set.value,
                                descriptor_type: descriptor,
                                resource_type: spec_resource_type(
                                    descriptor,
                                    block.decoration_flags,
                                ),
                                image: if spec_has_image(t.type_flags) {
                                    t.traits.image
                                } else {
                                    ReflectImageTraits::spec_none()
                                },
                                block,
                                array: BindingArrayTraitsView { dims: t.traits.array.dims },
                                count: spec_element_count(t.traits.array.dims),
                                uav_counter_id: decorations.uav_counter_buffer.value,
                                uav_counter_index: None,
                                type_index: Some(type_index as usize),
                                word_offset: (
                                    decorations.binding.word_offset,
                                    decorations.set.word_offset,
                                ),
                            },
                        ),
                    }
                },
            }
        },
    }
}

/// The descriptor bindings of the variables among the first `n` nodes, in
/// the order of the stream, before any is linked to its counter.
pub open spec fn spec_bindings_upto(
    words: Seq<u32>,
    nodes: Seq<ParserNode>,
    types: Seq<TypeDescriptionView>,
    n: int,
) -> Result<Seq<DescriptorBindingView>, ReflectError>
    decreases n,
{
    if n <= 0 {
        Ok(Seq::empty())
    } else {
        match spec_bindings_upto(words, nodes, types, n - 1) {
            Err(e) => Err(e),
            Ok(before) => if spec_is_binding(words, nodes, n - 1) {
                match spec_binding(words, nodes, types, n - 1) {
                    Err(e) => Err(e),
                    Ok(binding) => Ok(before.push(binding)),
                }
            } else {
                Ok(before)
            },
        }
    }
}

/// Once a binding cannot be built, the bindings cannot.
pub proof fn lemma_bindings_fail(
    words: Seq<u32>,
    nodes: Seq<ParserNode>,
    types: Seq<TypeDescriptionView>,
    k: int,
    n: int,
)
    requires
        0 <= k <= n,
        spec_bindings_upto(words, nodes, types, k).is_err(),
    ensures
        spec_bindings_upto(words, nodes, types, n) == spec_bindings_upto(words, nodes, types, k),
    decreases n - k,
{
    if k < n {
        lemma_bindings_fail(words, nodes, types, k, n - 1);
    }
}

/// Whether the words hold the binding number and the set number of
/// `binding` at the offsets that it records, which differ.
pub open spec fn spec_binding_recorded(words: Seq<u32>, binding: DescriptorBindingView) -> bool {
    &&& binding.word_offset.0 < words.len()
    &&& binding.word_offset.1 < words.len()
    &&& binding.word_offset.0 != binding.word_offset.1
    &&& words[binding.word_offset.0 as int] == binding.binding
    &&& words[binding.word_offset.1 as int] == binding.set
}

/// Every binding that is read from a module records the offsets of the
/// words that hold its binding number and its set number.
pub proof fn lemma_bindings_recorded(
    words: Seq<u32>,
    nodes: Seq<ParserNode>,
    types: Seq<TypeDescriptionView>,
    n: int,
)
    requires
        spec_indexed(words, nodes),
        0 <= n <= nodes.len(),
        spec_bindings_upto(words, nodes, types, n).is_ok(),
    ensures
        forall|i: int|
            0 <= i < spec_bindings_upto(words, nodes, types, n).unwrap().len()
                ==> spec_binding_recorded(
                words,
                #[trigger] spec_bindings_upto(words, nodes, types, n).unwrap()[i],
            ),
    decreases n,
{
    if n > 0 {
        lemma_bindings_recorded(words, nodes, types, n - 1);
        let before = spec_bindings_upto(words, nodes, types, n - 1).unwrap();
        let after = spec_bindings_upto(words, nodes, types, n).unwrap();
        if spec_is_binding(words, nodes, n - 1) {
            lemma_decorations_recorded(
                words,
                nodes,
                nodes[n - 1].result_id,
                nodes.len() as int,
            );
            let binding = spec_binding(words, nodes, types, n - 1).unwrap();
            assert(spec_binding_recorded(words, binding));
            assert forall|i: int| 0 <= i < after.len() implies spec_binding_recorded(
                words,
                #[trigger] after[i],
            ) by {
                if i < before.len() {
                    assert(after[i] == before[i]);
                }
            }
        }
    }
}

/// The place of the first of `bindings` from `from` on that has the id
/// `id`.
pub open spec fn spec_find_binding_from(
    bindings: Seq<DescriptorBindingView>,
    id: u32,
    from: int,
) -> Option<usize>
    decreases bindings.len() - from,
{
    if from < 0 || from >= bindings.len() {
        None
    } else if bindings[from].spirv_id == id {
        Some(from as usize)
    } else {
        spec_find_binding_from(bindings, id, from + 1)
    }
}

/// `binding` linked to the binding that counts for it: where it names a
/// counter buffer, the first of `bindings` with that id.
pub open spec fn spec_link(
    bindings: Seq<DescriptorBindingView>,
    binding: DescriptorBindingView,
) -> DescriptorBindingView {
    DescriptorBindingView {
        uav_counter_index: if binding.uav_counter_id == 0 {
            None
        } else {
            spec_find_binding_from(bindings, binding.uav_counter_id, 0)
        },
        ..binding
    }
}

/// `bindings`, each linked to the binding that counts for it.
pub open spec fn spec_link_all(bindings: Seq<DescriptorBindingView>) -> Seq<DescriptorBindingView> {
    Seq::new(bindings.len(), |i: int| spec_link(bindings, bindings[i]))
}

/// The descriptor bindings of the module: one for each variable that is
/// reached through a descriptor, in the order in which the variables are
/// declared.
pub open spec fn spec_bindings(
    words: Seq<u32>,
    nodes: Seq<ParserNode>,
    types: Seq<TypeDescriptionView>,
) -> Result<Seq<DescriptorBindingView>, ReflectError> {
    match spec_bindings_upto(words, nodes, types, nodes.len() as int) {
        Err(e) => Err(e),
        Ok(bindings) => Ok(spec_link_all(bindings)),
    }
}

/// The place of the first of `ids` from `from` on that is `id`.
fn find_id(
    ids: &Vec<u32>,
    id: u32,
    bindings: Ghost<Seq<DescriptorBindingView>>,
) -> (found: Option<usize>)
    requires
        ids@.len() == bindings@.len(),
        forall|i: int| 0 <= i < ids@.len() ==> ids@[i] == (#[trigger] bindings@[i]).spirv_id,
    ensures
        found == spec_find_binding_from(bindings@, id, 0),
{
    let mut i: usize = 0;
    while i < ids.len()
        invariant
            i <= ids@.len(),
            ids@.len() == bindings@.len(),
            forall|i: int| 0 <= i < ids@.len() ==> ids@[i] == (#[trigger] bindings@[i]).spirv_id,
            spec_find_binding_from(bindings@, id, 0) == spec_find_binding_from(
                bindings@,
                id,
                i as int,
            ),
        decreases ids@.len() - i,
    {
        if ids[i] == id {
            return Some(i);
        }
        i += 1;
    }
    None
}

/// Whether node `at` is a variable in the push constant class.
pub open spec fn spec_is_push_constant(nodes: Seq<ParserNode>, at: int) -> bool {
    nodes[at].op == OP_VARIABLE && nodes[at].storage_class == ReflectStorageClass::PushConstant
}

/// The block of the push constant variable at node `at`.
pub open spec fn spec_push_constant(
    words: Seq<u32>,
    nodes: Seq<ParserNode>,
    types: Seq<TypeDescriptionView>,
    at: int,
) -> Result<BlockVariableView, ReflectError> {
    match spec_variable_type(nodes, types, at) {
        Err(e) => Err(e),
        Ok(type_index) => spec_block_variable(
            words,
            nodes,
            types[type_index],
            nodes[at].result_id,
            types[type_index].name,
            0,
            0,
            types[type_index].decoration_flags,
            None,
        ),
    }
}

/// The blocks of the push constant variables among the first `n` nodes.
pub open spec fn spec_push_constants_upto(
    words: Seq<u32>,
    nodes: Seq<ParserNode>,
    types: Seq<TypeDescriptionView>,
    n: int,
) -> Result<Seq<BlockVariableView>, ReflectError>
    decreases n,
{
    if n <= 0 {
        Ok(Seq::empty())
    } else {
        match spec_push_constants_upto(words, nodes, types, n - 1) {
            Err(e) => Err(e),
            Ok(before) => if spec_is_push_constant(nodes, n - 1) {
                match spec_push_constant(words, nodes, types, n - 1) {
                    Err(e) => Err(e),
                    Ok(block) => Ok(before.push(block)),
                }
            } else {
                Ok(before)
            },
        }
    }
}

/// The push constant blocks of the module: one for each variable in the
/// push constant class, in the order in which the variables are declared.
pub open spec fn spec_push_constants(
    words: Seq<u32>,
    nodes: Seq<ParserNode>,
    types: Seq<TypeDescriptionView>,
) -> Result<Seq<BlockVariableView>, ReflectError> {
    spec_push_constants_upto(words, nodes, types, nodes.len() as int)
}

/// Once a push constant block cannot be built, the blocks cannot.
pub proof fn lemma_push_constants_fail(
    words: Seq<u32>,
    nodes: Seq<ParserNode>,
    types: Seq<TypeDescriptionView>,
    k: int,
    n: int,
)
    requires
        0 <= k <= n,
        spec_push_constants_upto(words, nodes, types, k).is_err(),
    ensures
        spec_push_constants_upto(words, nodes, types, n) == spec_push_constants_upto(
            words,
            nodes,
            types,
            k,
        ),
    decreases n - k,
{
    if k < n {
        lemma_push_constants_fail(words, nodes, types, k, n - 1);
    }
}

impl Parser {
    /// The descriptor binding of the variable at node `at`.
    pub fn binding_of(
        &self,
        types: &Vec<ReflectTypeDescription>,
        at: usize,
        decorations: &Decorations,
    ) -> (binding: Result<ReflectDescriptorBinding, ReflectError>)
        requires
            self.wf(),
            at < self.nodes@.len(),
            *decorations == spec_decorations(
                self.words@,
                self.nodes@,
                self.nodes@[at as int].result_id,
            ),
        ensures
            agrees(binding, spec_binding(self.words@, self.nodes@, views(types@), at as int)),
    {
        let node = self.nodes[at];
        let type_index = self.variable_type(types, at)?;
        let t = &types[type_index];
        assert(views(types@)[type_index as int] == t@);
        let descriptor = descriptor_type_of(node.storage_class, t);
        let name = self.name_of(node.result_id)?;
        let block = if descriptor == ReflectDescriptorType::UniformBuffer || descriptor
            == ReflectDescriptorType::StorageBuffer {
            self.block_variable(t,
                node.result_id,
                t.name.clone(),
                0,
                0,
                t.decoration_flags,
                None,
            )?
        } else {
            ReflectBlockVariable::default()
        };
        let image = if t.type_flags.bits & ReflectTypeFlags::EXTERNAL_MASK
            == ReflectTypeFlags::EXTERNAL_IMAGE || t.type_flags.contains(
            ReflectTypeFlags::EXTERNAL_SAMPLED_IMAGE | ReflectTypeFlags::EXTERNAL_IMAGE,
        ) {
            t.traits.image
        } else {
            ReflectImageTraits::default()
        };
        Ok(
            ReflectDescriptorBinding {
                spirv_id: node.result_id,
                name,
                binding: decorations.binding.value,
                input_attachment_index: decorations.input_attachment_index.value,
                set: decorations.set.value,
                descriptor_type: descriptor,
                resource_type: resource_type_of(descriptor, block.decoration_flags),
                image,
                block,
                array: ReflectBindingArrayTraits { dims: t.traits.array.dims.clone() },
                count: element_count(&t.traits.array.dims),
                uav_counter_id: decorations.uav_counter_buffer.value,
                uav_counter_index: None,
                type_index: Some(type_index),
                word_offset: (decorations.binding.word_offset, decorations.set.word_offset),
            },
        )
    }

    /// The descriptor bindings of the module.
    pub fn parse_descriptor_bindings(
        &self,
        types: &Vec<ReflectTypeDescription>,
    ) -> (bindings: Result<Vec<ReflectDescriptorBinding>, ReflectError>)
        requires
            self.wf(),
        ensures
            agrees_all(bindings, spec_bindings(self.words@, self.nodes@, views(types@))),
    {
        let mut bindings: Vec<ReflectDescriptorBinding> = Vec::new();
        let mut ids: Vec<u32> = Vec::new();
        let mut i: usize = 0;
        proof {
            assert(views(bindings@) =~= Seq::<DescriptorBindingView>::empty());
        }
        while i < self.nodes.len()
            invariant
                i <= self.nodes@.len(),
                self.wf(),
                ids@.len() == bindings@.len(),
                forall|j: int|
                    0 <= j < ids@.len() ==> ids@[j] == (#[trigger] bindings@[j]).spirv_id,
                spec_bindings_upto(self.words@, self.nodes@, views(types@), i as int) == Ok::<
                    Seq<DescriptorBindingView>,
                    ReflectError,
                >(views(bindings@)),
            decreases self.nodes@.len() - i,
        {
            let node = self.nodes[i];
            if node.op == OP_VARIABLE && (node.storage_class == ReflectStorageClass::UniformConstant
                || node.storage_class == ReflectStorageClass::Uniform || node.storage_class
                == ReflectStorageClass::StorageBuffer) {
                let decorations = self.decorations_of(node.result_id);
                if decorations.set.is_present() && decorations.binding.is_present() {
                    let ghost before = views(bindings@);
                    match self.binding_of(types, i, &decorations) {
                        Err(e) => {
                            proof {
                                lemma_bindings_fail(
                                    self.words@,
                                    self.nodes@,
                                    views(types@),
                                    i as int + 1,
                                    self.nodes@.len() as int,
                                );
                            }
                            return Err(e);
                        },
                        Ok(binding) => {
                            ids.push(binding.spirv_id);
                            bindings.push(binding);
                            proof {
                                assert(views(bindings@) =~= before.push(binding@));
                            }
                        },
                    }
                }
            }
            i += 1;
        }
        let ghost unlinked = views(bindings@);
        let mut k: usize = 0;
        while k < bindings.len()
            invariant
                k <= bindings@.len(),
                bindings@.len() == unlinked.len(),
                ids@.len() == unlinked.len(),
                forall|j: int| 0 <= j < ids@.len() ==> ids@[j] == (#[trigger] unlinked[j]).spirv_id,
                forall|j: int| 0 <= j < k ==> (#[trigger] bindings@[j])@ == spec_link(
                    unlinked,
                    unlinked[j],
                ),
                forall|j: int|
                    k <= j < bindings@.len() ==> (#[trigger] bindings@[j])@ == unlinked[j],
            decreases bindings@.len() - k,
        {
            let counter_id = bindings[k].uav_counter_id;
            let link = if counter_id == 0 {
                None
            } else {
                find_id(&ids, counter_id, Ghost(unlinked))
            };
            bindings[k].uav_counter_index = link;
            k += 1;
        }
        proof {
            assert(views(bindings@) =~= spec_link_all(unlinked));
        }
        Ok(bindings)
    }

    /// The push constant blocks of the module.
    pub fn parse_push_constant_blocks(
        &self,
        types: &Vec<ReflectTypeDescription>,
    ) -> (blocks: Result<Vec<ReflectBlockVariable>, ReflectError>)
        requires
            self.wf(),
        ensures
            agrees_all(blocks, spec_push_constants(self.words@, self.nodes@, views(types@))),
    {
        let mut blocks: Vec<ReflectBlockVariable> = Vec::new();
        let mut i: usize = 0;
        proof {
            assert(views(blocks@) =~= Seq::<BlockVariableView>::empty());
        }
        while i < self.nodes.len()
            invariant
                i <= self.nodes@.len(),
                self.wf(),
                spec_push_constants_upto(self.words@, self.nodes@, views(types@), i as int) == Ok::<
                    Seq<BlockVariableView>,
                    ReflectError,
                >(views(blocks@)),
            decreases self.nodes@.len() - i,
        {
            let node = self.nodes[i];
            if node.op == OP_VARIABLE && node.storage_class == ReflectStorageClass::PushConstant {
                let ghost before = views(blocks@);
                let built = match self.variable_type(types, i) {
                    Err(e) => Err(e),
                    Ok(type_index) => {
                        let t = &types[type_index];
                        assert(views(types@)[type_index as int] == t@);
                        self.block_variable(t,
                            node.result_id,
                            t.name.clone(),
                            0,
                            0,
                            t.decoration_flags,
                            None,
                        )
                    },
                };
                match built {
                    Err(e) => {
                        proof {
                            lemma_push_constants_fail(
                                self.words@,
                                self.nodes@,
                                views(types@),
                                i as int + 1,
                                self.nodes@.len() as int,
                            );
                        }
                        return Err(e);
                    },
                    Ok(block) => {
                        blocks.push(block);
                        proof {
                            assert(views(blocks@) =~= before.push(block@));
                        }
                    },
                }
            }
            i += 1;
        }
        Ok(blocks)
    }
}

} // verus!
