//! The reflection model of a whole module.

use crate::error::ReflectError;
use crate::parser::resolve::{find_type, spec_find_type};
use crate::sets::{
    collect_sets, lemma_binding_in_one_set, set_numbers, spec_descriptor_sets, spec_sets_upto,
    spec_slots, UNASSIGNED_SET,
};
use crate::types::descriptor::{
    DescriptorBindingView, DescriptorSetView, ReflectDescriptorBinding, ReflectDescriptorSet,
};
use crate::types::generator::ReflectGenerator;
use crate::types::variable::{
    BlockVariableView, EntryPointView, InterfaceVariableView, ReflectBlockVariable,
    ReflectEntryPoint, ReflectInterfaceVariable, ReflectShaderStage, ReflectTypeDescription,
    TypeDescriptionView,
};
use crate::views::{clone_all, views};
use vstd::prelude::*;

verus! {

/// Everything that reflection knows of a module, and the words it was read
/// from.
#[derive(Debug)]
pub struct ReflectShaderModule {
    pub generator: ReflectGenerator,
    /// Name and id of the first entry point.
    pub entry_point_name: String,
    pub entry_point_id: u32,
    pub entry_points: Vec<ReflectEntryPoint>,
    /// The number of the source language, where `spirv_headers` defines it.
    pub source_language: Option<u32>,
    pub source_language_version: u32,
    pub source_file_id: u32,
    pub source_file: String,
    pub source_text: String,
    /// Execution model and stage of the first entry point.
    pub spirv_execution_model: Option<u32>,
    pub shader_stage: ReflectShaderStage,
    pub descriptor_bindings: Vec<ReflectDescriptorBinding>,
    pub descriptor_sets: Vec<ReflectDescriptorSet>,
    /// Inputs and outputs of the first entry point.
    pub input_variables: Vec<ReflectInterfaceVariable>,
    pub output_variables: Vec<ReflectInterfaceVariable>,
    pub push_constant_blocks: Vec<ReflectBlockVariable>,
    pub spirv_code: Vec<u32>,
    pub type_descriptions: Vec<ReflectTypeDescription>,
}

/// What a `ReflectShaderModule` stands for.
pub struct ModuleView {
    pub generator: ReflectGenerator,
    pub entry_point_name: Seq<char>,
    pub entry_point_id: u32,
    pub entry_points: Seq<EntryPointView>,
    pub source_language: Option<u32>,
    pub source_language_version: u32,
    pub source_file_id: u32,
    pub source_file: Seq<char>,
    pub source_text: Seq<char>,
    pub spirv_execution_model: Option<u32>,
    pub shader_stage: ReflectShaderStage,
    pub descriptor_bindings: Seq<DescriptorBindingView>,
    pub descriptor_sets: Seq<DescriptorSetView>,
    pub input_variables: Seq<InterfaceVariableView>,
    pub output_variables: Seq<InterfaceVariableView>,
    pub push_constant_blocks: Seq<BlockVariableView>,
    pub spirv_code: Seq<u32>,
    pub type_descriptions: Seq<TypeDescriptionView>,
}

impl ModuleView {
    /// The module that nothing has been loaded into.
    pub open spec fn empty() -> ModuleView {
        ModuleView {
            generator: ReflectGenerator::Unknown,
            entry_point_name: Seq::empty(),
            entry_point_id: 0,
            entry_points: Seq::empty(),
            source_language: None,
            source_language_version: 0,
            source_file_id: 0,
            source_file: Seq::empty(),
            source_text: Seq::empty(),
            spirv_execution_model: None,
            shader_stage: ReflectShaderStage::Undefined,
            descriptor_bindings: Seq::empty(),
            descriptor_sets: Seq::empty(),
            input_variables: Seq::empty(),
            output_variables: Seq::empty(),
            push_constant_blocks: Seq::empty(),
            spirv_code: Seq::empty(),
            type_descriptions: Seq::empty(),
        }
    }
}

impl View for ReflectShaderModule {
    type V = ModuleView;

    open spec fn view(&self) -> ModuleView {
        ModuleView {
            generator: self.generator,
            entry_point_name: self.entry_point_name@,
            entry_point_id: self.entry_point_id,
            entry_points: views(self.entry_points@),
            source_language: self.source_language,
            source_language_version: self.source_language_version,
            source_file_id: self.source_file_id,
            source_file: self.source_file@,
            source_text: self.source_text@,
            spirv_execution_model: self.spirv_execution_model,
            shader_stage: self.shader_stage,
            descriptor_bindings: views(self.descriptor_bindings@),
            descriptor_sets: views(self.descriptor_sets@),
            input_variables: views(self.input_variables@),
            output_variables: views(self.output_variables@),
            push_constant_blocks: views(self.push_constant_blocks@),
            spirv_code: self.spirv_code@,
            type_descriptions: views(self.type_descriptions@),
        }
    }
}

/// `entry` with the descriptor sets that it sees of the claimed set
/// numbers `slots`, as entry point `index` of a module with the bindings
/// `bindings`.
pub open spec fn spec_entry_with_sets(
    bindings: Seq<DescriptorBindingView>,
    slots: Seq<u32>,
    index: int,
    entry: EntryPointView,
) -> EntryPointView {
    EntryPointView {
        descriptor_sets: spec_sets_upto(
            bindings,
            slots,
            Some(index as usize),
            Some(entry.used_uniforms),
            slots.len() as int,
        ),
        ..entry
    }
}

/// `module` with its descriptor sets, and those that each entry point
/// sees, built from its bindings. Nothing else of the module is read or
/// changed.
pub open spec fn spec_synthesized(module: ModuleView) -> Result<ModuleView, ReflectError> {
    match spec_slots(module.descriptor_bindings) {
        Err(e) => Err(e),
        Ok(slots) => Ok(
            ModuleView {
                descriptor_sets: spec_sets_upto(
                    module.descriptor_bindings,
                    slots,
                    None,
                    None,
                    slots.len() as int,
                ),
                entry_points: Seq::new(
                    module.entry_points.len(),
                    |i: int|
                        spec_entry_with_sets(
                            module.descriptor_bindings,
                            slots,
                            i,
                            module.entry_points[i],
                        ),
                ),
                ..module
            },
        ),
    }
}

/// To build the descriptor sets a second time changes nothing: the sets
/// are built from the bindings and from the ids that the entry points
/// use, and building them changes neither.
pub proof fn lemma_synthesis_is_idempotent(module: ModuleView)
    requires
        spec_synthesized(module).is_ok(),
    ensures
        spec_synthesized(spec_synthesized(module).unwrap()) == spec_synthesized(module),
{
    let once = spec_synthesized(module).unwrap();
    let twice = spec_synthesized(once).unwrap();
    assert(twice.entry_points =~= once.entry_points);
}

/// Whether the descriptor sets of `module`, and those that each of its
/// entry points sees, are the ones that its bindings give.
pub open spec fn spec_is_synthesized(module: ModuleView) -> bool {
    spec_synthesized(module) == Ok::<ModuleView, ReflectError>(module)
}

/// A module whose descriptor sets were just built has the sets that its
/// bindings give.
pub proof fn lemma_synthesized_is_synthesized(module: ModuleView)
    requires
        spec_synthesized(module).is_ok(),
    ensures
        spec_is_synthesized(spec_synthesized(module).unwrap()),
{
    lemma_synthesis_is_idempotent(module);
}

/// In a module that has the sets that its bindings give, every binding
/// whose set number is not that of a free slot has its set number in
/// exactly one descriptor set, and is referred to exactly once, by that
/// set.
pub proof fn lemma_module_binding_in_one_set(module: ModuleView, i: int)
    requires
        spec_is_synthesized(module),
        module.descriptor_bindings.len() <= usize::MAX,
        0 <= i < module.descriptor_bindings.len(),
        module.descriptor_bindings[i].set != UNASSIGNED_SET,
    ensures
        exists|j: int, p: int|
            {
                &&& 0 <= j < module.descriptor_sets.len()
                &&& 0 <= p < module.descriptor_sets[j].binding_refs.len()
                &&& module.descriptor_sets[j].set == module.descriptor_bindings[i].set
                &&& #[trigger] module.descriptor_sets[j].binding_refs[p].ref_id == Some(i as usize)
                &&& forall|j2: int|
                    0 <= j2 < module.descriptor_sets.len() && (
                    #[trigger] module.descriptor_sets[j2]).set == module.descriptor_bindings[i].set
                        ==> j2 == j
                &&& forall|j2: int, p2: int|
                    0 <= j2 < module.descriptor_sets.len() && 0 <= p2
                        < module.descriptor_sets[j2].binding_refs.len()
                        && #[trigger] module.descriptor_sets[j2].binding_refs[p2].ref_id == Some(
                        i as usize,
                    ) ==> j2 == j && p2 == p
            },
{
    lemma_binding_in_one_set(module.descriptor_bindings, i);
    assert(spec_descriptor_sets(module.descriptor_bindings).unwrap() == module.descriptor_sets);
}

impl ReflectShaderModule {
    /// The place of the first type description that has the id `type_id`.
    pub fn find_type(&self, type_id: u32) -> (found: Option<usize>)
        ensures
            match found {
                Some(i) => spec_find_type(self@.type_descriptions, type_id)
                    == Some(i as int) && i < self@.type_descriptions.len(),
                None => spec_find_type(self@.type_descriptions, type_id).is_none(),
            },
    {
        match find_type(&self.type_descriptions, type_id) {
            Some(i) => Some(i),
            None => None,
        }
    }

    /// Builds the descriptor sets of the module, and those that each entry
    /// point sees, from the bindings. Where the bindings claim more set
    /// numbers than there are slots, nothing is changed.
    pub fn build_descriptor_sets(&mut self) -> (built: Result<(), ReflectError>)
        ensures
            match built {
                Ok(()) => spec_synthesized(old(self)@) == Ok::<ModuleView, ReflectError>(
                    final(self)@,
                ),
                Err(e) => spec_synthesized(old(self)@) == Err::<ModuleView, ReflectError>(e)
                    && *final(self) == *old(self),
            },
    {
        let slots = set_numbers(&self.descriptor_bindings)?;
        let sets = collect_sets(&self.descriptor_bindings, &slots, None, None);
        self.descriptor_sets = sets;
        let ghost before = views(old(self).entry_points@);
        let ghost bindings = views(old(self).descriptor_bindings@);
        let mut i: usize = 0;
        while i < self.entry_points.len()
            invariant
                i <= self.entry_points@.len(),
                self.entry_points@.len() == before.len(),
                bindings == views(self.descriptor_bindings@),
                forall|j: int|
                    0 <= j < i ==> (#[trigger] self.entry_points@[j])@ == spec_entry_with_sets(
                        bindings,
                        slots@,
                        j,
                        before[j],
                    ),
                forall|j: int|
                    i <= j < before.len() ==> (#[trigger] self.entry_points@[j])@ == before[j],
                self.generator == old(self).generator,
                self.entry_point_name == old(self).entry_point_name,
                self.entry_point_id == old(self).entry_point_id,
                self.source_language == old(self).source_language,
                self.source_language_version == old(self).source_language_version,
                self.source_file_id == old(self).source_file_id,
                self.source_file == old(self).source_file,
                self.source_text == old(self).source_text,
                self.spirv_execution_model == old(self).spirv_execution_model,
                self.shader_stage == old(self).shader_stage,
                self.descriptor_bindings == old(self).descriptor_bindings,
                views(self.descriptor_sets@) == spec_sets_upto(
                    bindings,
                    slots@,
                    None,
                    None,
                    slots@.len() as int,
                ),
                self.input_variables == old(self).input_variables,
                self.output_variables == old(self).output_variables,
                self.push_constant_blocks == old(self).push_constant_blocks,
                self.spirv_code == old(self).spirv_code,
                self.type_descriptions == old(self).type_descriptions,
            decreases self.entry_points@.len() - i,
        {
            let seen = collect_sets(
                &self.descriptor_bindings,
                &slots,
                Some(i),
                Some(&self.entry_points[i].used_uniforms),
            );
            self.entry_points[i].descriptor_sets = seen;
            i += 1;
        }
        proof {
            assert(
                views(self.entry_points@) =~= spec_synthesized(old(self)@).unwrap().entry_points
            );
        }
        Ok(())
    }
}

impl Clone for ReflectShaderModule {
    fn clone(&self) -> (copy: Self)
        ensures
            copy@ == self@,
    {
        ReflectShaderModule {
            generator: self.generator,
            entry_point_name: self.entry_point_name.clone(),
            entry_point_id: self.entry_point_id,
            entry_points: clone_all(&self.entry_points),
            source_language: self.source_language,
            source_language_version: self.source_language_version,
            source_file_id: self.source_file_id,
            source_file: self.source_file.clone(),
            source_text: self.source_text.clone(),
            spirv_execution_model: self.spirv_execution_model,
            shader_stage: self.shader_stage,
            descriptor_bindings: clone_all(&self.descriptor_bindings),
            descriptor_sets: clone_all(&self.descriptor_sets),
            input_variables: clone_all(&self.input_variables),
            output_variables: clone_all(&self.output_variables),
            push_constant_blocks: clone_all(&self.push_constant_blocks),
            spirv_code: self.spirv_code.clone(),
            type_descriptions: clone_all(&self.type_descriptions),
        }
    }
}

impl Default for ReflectShaderModule {
    fn default() -> (module: Self)
        ensures
            module@ == ModuleView::empty(),
    {
        let module = ReflectShaderModule {
            generator: ReflectGenerator::Unknown,
            entry_point_name: String::new(),
            entry_point_id: 0,
            entry_points: Vec::new(),
            source_language: None,
            source_language_version: 0,
            source_file_id: 0,
            source_file: String::new(),
            source_text: String::new(),
            spirv_execution_model: None,
            shader_stage: ReflectShaderStage::Undefined,
            descriptor_bindings: Vec::new(),
            descriptor_sets: Vec::new(),
            input_variables: Vec::new(),
            output_variables: Vec::new(),
            push_constant_blocks: Vec::new(),
            spirv_code: Vec::new(),
            type_descriptions: Vec::new(),
        };
        proof {
            assert(module@.entry_points =~= Seq::empty());
            assert(module@.descriptor_bindings =~= Seq::empty());
            assert(module@.descriptor_sets =~= Seq::empty());
            assert(module@.input_variables =~= Seq::empty());
            assert(module@.output_variables =~= Seq::empty());
            assert(module@.push_constant_blocks =~= Seq::empty());
            assert(module@.type_descriptions =~= Seq::empty());
        }
        module
    }
}

} // verus!
