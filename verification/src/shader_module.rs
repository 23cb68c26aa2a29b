//! A loaded module: queries over its reflection model, and patches of its
//! binding numbers, set numbers and locations.

use crate::error::{error_text, ReflectError};
use crate::parser::node::Parser;
use crate::parser::parse::{spec_parse, spec_parse_with};
use crate::parser::usage::StaticUse;
use crate::patch::{spec_relocated, spec_renumbered, spec_set_renumbered};
use crate::sets::{contains_id, spec_used};
use crate::types::descriptor::{
    DescriptorBindingRef, DescriptorBindingRefView, DescriptorBindingView, DescriptorSetRef,
    DescriptorSetRefView, DescriptorSetView, PushConstantBlockRef, PushConstantBlockRefView,
    ReflectDescriptorBinding, ReflectDescriptorSet,
};
use crate::types::generator::ReflectGenerator;
use crate::types::module::{ModuleView, ReflectShaderModule};
use crate::types::variable::{
    BlockVariableView, EntryPointView, ReflectBlockVariable, ReflectEntryPoint,
    ReflectInterfaceVariable, ReflectShaderStage,
};
use crate::views::{clone_all, views};
use crate::words::{spec_words_of, words_in_host_order, SPIRV_WORD_SIZE};
use vstd::prelude::*;
use vstd::slice::slice_to_vec;

verus! {

/// A shader module with its reflection model.
pub struct ShaderModule {
    internal: ReflectShaderModule,
}

impl View for ShaderModule {
    type V = ModuleView;

    closed spec fn view(&self) -> ModuleView {
        self.internal@
    }
}

/// Whether `result` is what `model` says: the value that `model` gives a
/// view of, or the text of the failure that it names.
pub open spec fn reported<T: View>(
    result: Result<T, String>,
    model: Result<T::V, ReflectError>,
) -> bool {
    match result {
        Ok(value) => model == Ok::<T::V, ReflectError>(value@),
        Err(message) => model matches Err(e) && message@ == error_text(e),
    }
}

/// Whether a patch that `model` describes did to a module what `result`
/// says: left it as `model` gives it, or failed with the text of the
/// failure that `model` names and left it as it was.
pub open spec fn patched(
    result: Result<(), String>,
    before: ModuleView,
    after: ModuleView,
    model: Result<ModuleView, ReflectError>,
) -> bool {
    match result {
        Ok(()) => model == Ok::<ModuleView, ReflectError>(after),
        Err(message) => model matches Err(e) && message@ == error_text(e) && after == before,
    }
}

/// The place of the first of `entries` from `from` on that has the name
/// `name`.
pub open spec fn spec_find_entry_from(
    entries: Seq<EntryPointView>,
    name: Seq<char>,
    from: int,
) -> Option<int>
    decreases entries.len() - from,
{
    if from < 0 || from >= entries.len() {
        None
    } else if entries[from].name == name {
        Some(from)
    } else {
        spec_find_entry_from(entries, name, from + 1)
    }
}

/// The place of the first of `entries` that has the name `name`.
pub open spec fn spec_find_entry(entries: Seq<EntryPointView>, name: Seq<char>) -> Option<int> {
    spec_find_entry_from(entries, name, 0)
}

/// The place of the first of `entries` that has the name `name`.
fn find_entry(entries: &Vec<ReflectEntryPoint>, name: &str) -> (found: Option<usize>)
    ensures
        match found {
            Some(i) => spec_find_entry(views(entries@), name@) == Some(i as int) && i
                < entries@.len(),
            None => spec_find_entry(views(entries@), name@).is_none(),
        },
{
    let wanted = name.to_owned();
    let mut i: usize = 0;
    while i < entries.len()
        invariant
            i <= entries@.len(),
            wanted@ == name@,
            spec_find_entry(views(entries@), name@) == spec_find_entry_from(
                views(entries@),
                name@,
                i as int,
            ),
        decreases entries@.len() - i,
    {
        assert(views(entries@)[i as int] == entries@[i as int]@);
        if entries[i].name == wanted {
            return Some(i);
        }
        i += 1;
    }
    None
}

/// The references to those of the first `k` of `bindings` that an entry
/// point with the ids `used` uses, or to all of them where `used` is
/// `None`.
pub open spec fn spec_binding_refs_upto(
    bindings: Seq<DescriptorBindingView>,
    entry: Option<usize>,
    used: Option<Seq<u32>>,
    k: int,
) -> Seq<DescriptorBindingRefView>
    decreases k,
{
    if k <= 0 {
        Seq::empty()
    } else {
        let before = spec_binding_refs_upto(bindings, entry, used, k - 1);
        let taken = match used {
            Some(ids) => ids.contains(bindings[k - 1].spirv_id),
            None => true,
        };
        if taken {
            before.push(
                DescriptorBindingRefView {
                    ref_id: Some((k - 1) as usize),
                    entry_point_id: entry,
                    value: bindings[k - 1],
                },
            )
        } else {
            before
        }
    }
}

/// The references to those of the first `k` of `blocks` that an entry
/// point with the ids `used` uses, or to all of them where `used` is
/// `None`.
pub open spec fn spec_block_refs_upto(
    blocks: Seq<BlockVariableView>,
    entry: Option<usize>,
    used: Option<Seq<u32>>,
    k: int,
) -> Seq<PushConstantBlockRefView>
    decreases k,
{
    if k <= 0 {
        Seq::empty()
    } else {
        let before = spec_block_refs_upto(blocks, entry, used, k - 1);
        let taken = match used {
            Some(ids) => ids.contains(blocks[k - 1].spirv_id),
            None => true,
        };
        if taken {
            before.push(
                PushConstantBlockRefView {
                    ref_id: Some((k - 1) as usize),
                    entry_point_id: entry,
                    value: blocks[k - 1],
                },
            )
        } else {
            before
        }
    }
}

/// A reference to each of `sets`, in the same order.
pub open spec fn spec_set_refs(
    sets: Seq<DescriptorSetView>,
    entry: Option<usize>,
) -> Seq<DescriptorSetRefView> {
    Seq::new(
        sets.len(),
        |i: int|
            DescriptorSetRefView {
                ref_id: Some(i as usize),
                entry_point_id: entry,
                value: sets[i],
            },
    )
}

/// The references to the bindings that an entry point uses, or to all.
fn binding_refs(
    bindings: &Vec<ReflectDescriptorBinding>,
    entry: Option<usize>,
    used: Option<&Vec<u32>>,
) -> (refs: Vec<DescriptorBindingRef>)
    ensures
        views(refs@) == spec_binding_refs_upto(
            views(bindings@),
            entry,
            spec_used(used),
            bindings@.len() as int,
        ),
{
    let mut refs: Vec<DescriptorBindingRef> = Vec::new();
    let mut k: usize = 0;
    proof {
        assert(views(refs@) =~= Seq::<DescriptorBindingRefView>::empty());
    }
    while k < bindings.len()
        invariant
            k <= bindings@.len(),
            views(refs@) == spec_binding_refs_upto(
                views(bindings@),
                entry,
                spec_used(used),
                k as int,
            ),
        decreases bindings@.len() - k,
    {
        assert(views(bindings@)[k as int] == bindings@[k as int]@);
        let binding = &bindings[k];
        let taken = match used {
            Some(ids) => contains_id(ids, binding.spirv_id),
            None => true,
        };
        if taken {
            let ghost before = views(refs@);
            let binding_ref = DescriptorBindingRef {
                ref_id: Some(k),
                entry_point_id: entry,
                value: binding.clone(),
            };
            refs.push(binding_ref);
            proof {
                assert(views(refs@) =~= before.push(binding_ref@));
            }
        }
        k += 1;
    }
    refs
}

/// The references to the push constant blocks that an entry point uses, or
/// to all.
fn block_refs(
    blocks: &Vec<ReflectBlockVariable>,
    entry: Option<usize>,
    used: Option<&Vec<u32>>,
) -> (refs: Vec<PushConstantBlockRef>)
    ensures
        views(refs@) == spec_block_refs_upto(
            views(blocks@),
            entry,
            spec_used(used),
            blocks@.len() as int,
        ),
{
    let mut refs: Vec<PushConstantBlockRef> = Vec::new();
    let mut k: usize = 0;
    proof {
        assert(views(refs@) =~= Seq::<PushConstantBlockRefView>::empty());
    }
    while k < blocks.len()
        invariant
            k <= blocks@.len(),
            views(refs@) == spec_block_refs_upto(
                views(blocks@),
                entry,
                spec_used(used),
                k as int,
            ),
        decreases blocks@.len() - k,
    {
        assert(views(blocks@)[k as int] == blocks@[k as int]@);
        let block = &blocks[k];
        let taken = match used {
            Some(ids) => contains_id(ids, block.spirv_id),
            None => true,
        };
        if taken {
            let ghost before = views(refs@);
            let block_ref = PushConstantBlockRef {
                ref_id: Some(k),
                entry_point_id: entry,
                value: block.clone(),
            };
            refs.push(block_ref);
            proof {
                assert(views(refs@) =~= before.push(block_ref@));
            }
        }
        k += 1;
    }
    refs
}

/// A reference to each of `sets`.
fn set_refs(sets: &Vec<ReflectDescriptorSet>, entry: Option<usize>) -> (refs: Vec<DescriptorSetRef>)
    ensures
        views(refs@) == spec_set_refs(views(sets@), entry),
{
    let mut refs: Vec<DescriptorSetRef> = Vec::new();
    let mut i: usize = 0;
    while i < sets.len()
        invariant
            i <= sets@.len(),
            refs@.len() == i,
            forall|j: int|
                0 <= j < i ==> (#[trigger] refs@[j])@ == (DescriptorSetRefView {
                    ref_id: Some(j as usize),
                    entry_point_id: entry,
                    value: sets@[j]@,
                }),
        decreases sets@.len() - i,
    {
        refs.push(
            DescriptorSetRef { ref_id: Some(i), entry_point_id: entry, value: sets[i].clone() },
        );
        i += 1;
    }
    assert(views(refs@) =~= spec_set_refs(views(sets@), entry));
    refs
}

impl ShaderModule {
    /// The module that the bytes `spv_data` hold. Their number must be a
    /// multiple of the word size; they are read in the byte order of the
    /// host, as the host reads words from memory, with no bytes swapped.
    pub fn load_u8_data(spv_data: &[u8]) -> (loaded: Result<ShaderModule, String>)
        ensures
            spv_data@.len() % 4 != 0 ==> (loaded matches Err(message) && message@ == error_text(
                ReflectError::InvalidCodeSize,
            )),
            spv_data@.len() % 4 == 0 ==> exists|little: bool|
                reported(loaded, #[trigger] spec_parse(spec_words_of(spv_data@, little)))
                    && (loaded matches Ok(module) ==> module@.spirv_code == spec_words_of(
                    spv_data@,
                    little,
                )),
    {
        if spv_data.len() % SPIRV_WORD_SIZE != 0 {
            return Err(ReflectError::InvalidCodeSize.message());
        }
        let words = words_in_host_order(spv_data);
        let loaded = create_shader_module(words.as_slice());
        proof {
            let little = words@ == spec_words_of(spv_data@, true);
            assert(words@ == spec_words_of(spv_data@, little));
        }
        loaded
    }

    /// The module that `spv_words` hold.
    pub fn load_u32_data(spv_words: &[u32]) -> (loaded: Result<ShaderModule, String>)
        ensures
            reported(loaded, spec_parse(spv_words@)),
            loaded matches Ok(module) ==> module@.spirv_code == spv_words@,
    {
        create_shader_module(spv_words)
    }

    /// The words of the module, with every patch that was made.
    pub fn get_code(&self) -> (code: &[u32])
        ensures
            code@ == self@.spirv_code,
    {
        self.internal.spirv_code.as_slice()
    }

    /// The tool that produced the module.
    pub fn get_generator(&self) -> (generator: ReflectGenerator)
        ensures
            generator == self@.generator,
    {
        self.internal.generator
    }

    /// The stage of the first entry point.
    pub fn get_shader_stage(&self) -> (stage: ReflectShaderStage)
        ensures
            stage == self@.shader_stage,
    {
        self.internal.shader_stage
    }

    /// The number of the source language, where the module names one that
    /// `spirv_headers` defines.
    pub fn get_source_language(&self) -> (language: Option<u32>)
        ensures
            language == self@.source_language,
    {
        self.internal.source_language
    }

    /// The version of the source language.
    pub fn get_source_language_version(&self) -> (version: u32)
        ensures
            version == self@.source_language_version,
    {
        self.internal.source_language_version
    }

    /// The name of the source file.
    pub fn get_source_file(&self) -> (file: &str)
        ensures
            file@ == self@.source_file,
    {
        self.internal.source_file.as_str()
    }

    /// The source text, where the module carries it.
    pub fn get_source_text(&self) -> (text: &str)
        ensures
            text@ == self@.source_text,
    {
        self.internal.source_text.as_str()
    }

    /// The number of the execution model of the first entry point, where
    /// `spirv_headers` defines it.
    pub fn get_spirv_execution_model(&self) -> (model: Option<u32>)
        ensures
            model == self@.spirv_execution_model,
    {
        self.internal.spirv_execution_model
    }

    /// The name of the first entry point.
    pub fn get_entry_point_name(&self) -> (name: &str)
        ensures
            name@ == self@.entry_point_name,
    {
        self.internal.entry_point_name.as_str()
    }

    /// The inputs of the entry point with the given name, or of the first
    /// entry point where no name is given.
    pub fn enumerate_input_variables(&self, entry_point_name: Option<&str>) -> (variables: Result<
        Vec<ReflectInterfaceVariable>,
        &'static str,
    >)
        ensures
            match entry_point_name {
                None => variables matches Ok(v) && views(v@) == self@.input_variables,
                Some(name) => match spec_find_entry(self@.entry_points, name@) {
                    Some(i) => variables matches Ok(v) && views(v@)
                        == self@.entry_points[i].input_variables,
                    None => variables matches Err(e) && e@
                        == "Error enumerating input variables - entry point not found"@,
                },
            },
    {
        match entry_point_name {
            Some(name) => match find_entry(&self.internal.entry_points, name) {
                Some(i) => {
                    assert(views(self.internal.entry_points@)[i as int]
                        == self.internal.entry_points@[i as int]@);
                    Ok(clone_all(&self.internal.entry_points[i].input_variables))
                },
                None => Err("Error enumerating input variables - entry point not found"),
            },
            None => Ok(clone_all(&self.internal.input_variables)),
        }
    }

    /// The outputs of the entry point with the given name, or of the first
    /// entry point where no name is given.
    pub fn enumerate_output_variables(&self, entry_point_name: Option<&str>) -> (variables: Result<
        Vec<ReflectInterfaceVariable>,
        &'static str,
    >)
        ensures
            match entry_point_name {
                None => variables matches Ok(v) && views(v@) == self@.output_variables,
                Some(name) => match spec_find_entry(self@.entry_points, name@) {
                    Some(i) => variables matches Ok(v) && views(v@)
                        == self@.entry_points[i].output_variables,
                    None => variables matches Err(e) && e@
                        == "Error enumerating output variables - entry point not found"@,
                },
            },
    {
        match entry_point_name {
            Some(name) => match find_entry(&self.internal.entry_points, name) {
                Some(i) => {
                    assert(views(self.internal.entry_points@)[i as int]
                        == self.internal.entry_points@[i as int]@);
                    Ok(clone_all(&self.internal.entry_points[i].output_variables))
                },
                None => Err("Error enumerating output variables - entry point not found"),
            },
            None => Ok(clone_all(&self.internal.output_variables)),
        }
    }

    /// The descriptor bindings that the entry point with the given name
    /// uses, or all of the module where no name is given. Each comes with
    /// its place in the module's bindings.
    pub fn enumerate_descriptor_bindings(
        &self,
        entry_point_name: Option<&str>,
    ) -> (bindings: Result<
        Vec<DescriptorBindingRef>,
        &'static str,
    >)
        ensures
            match entry_point_name {
                None => bindings matches Ok(b) && views(b@) == spec_binding_refs_upto(
                    self@.descriptor_bindings,
                    None,
                    None,
                    self@.descriptor_bindings.len() as int,
                ),
                Some(name) => match spec_find_entry(self@.entry_points, name@) {
                    Some(i) => bindings matches Ok(b) && views(b@) == spec_binding_refs_upto(
                        self@.descriptor_bindings,
                        Some(i as usize),
                        Some(self@.entry_points[i].used_uniforms),
                        self@.descriptor_bindings.len() as int,
                    ),
                    None => bindings matches Err(e) && e@
                        == "Error enumerating descriptor bindings - entry point not found"@,
                },
            },
    {
        match entry_point_name {
            Some(name) => match find_entry(&self.internal.entry_points, name) {
                Some(i) => {
                    assert(views(self.internal.entry_points@)[i as int]
                        == self.internal.entry_points@[i as int]@);
                    Ok(
                        binding_refs(
                            &self.internal.descriptor_bindings,
                            Some(i),
                            Some(&self.internal.entry_points[i].used_uniforms),
                        ),
                    )
                },
                None => Err("Error enumerating descriptor bindings - entry point not found"),
            },
            None => Ok(binding_refs(&self.internal.descriptor_bindings, None, None)),
        }
    }

    /// The descriptor sets that the entry point with the given name sees,
    /// or all of the module where no name is given.
    pub fn enumerate_descriptor_sets(&self, entry_point_name: Option<&str>) -> (sets: Result<
        Vec<DescriptorSetRef>,
        &'static str,
    >)
        ensures
            match entry_point_name {
                None => sets matches Ok(s) && views(s@) == spec_set_refs(
                    self@.descriptor_sets,
                    None,
                ),
                Some(name) => match spec_find_entry(self@.entry_points, name@) {
                    Some(i) => sets matches Ok(s) && views(s@) == spec_set_refs(
                        self@.entry_points[i].descriptor_sets,
                        Some(i as usize),
                    ),
                    None => sets matches Err(e) && e@
                        == "Error enumerating descriptor sets - entry point not found"@,
                },
            },
    {
        match entry_point_name {
            Some(name) => match find_entry(&self.internal.entry_points, name) {
                Some(i) => {
                    assert(views(self.internal.entry_points@)[i as int]
                        == self.internal.entry_points@[i as int]@);
                    Ok(set_refs(&self.internal.entry_points[i].descriptor_sets, Some(i)))
                },
                None => Err("Error enumerating descriptor sets - entry point not found"),
            },
            None => Ok(set_refs(&self.internal.descriptor_sets, None)),
        }
    }

    /// The push constant blocks that the entry point with the given name
    /// uses, or all of the module where no name is given.
    pub fn enumerate_push_constant_blocks(&self, entry_point_name: Option<&str>) -> (blocks: Result<
        Vec<PushConstantBlockRef>,
        &'static str,
    >)
        ensures
            match entry_point_name {
                None => blocks matches Ok(b) && views(b@) == spec_block_refs_upto(
                    self@.push_constant_blocks,
                    None,
                    None,
                    self@.push_constant_blocks.len() as int,
                ),
                Some(name) => match spec_find_entry(self@.entry_points, name@) {
                    Some(i) => blocks matches Ok(b) && views(b@) == spec_block_refs_upto(
                        self@.push_constant_blocks,
                        Some(i as usize),
                        Some(self@.entry_points[i].used_push_constants),
                        self@.push_constant_blocks.len() as int,
                    ),
                    None => blocks matches Err(e) && e@
                        == "Error enumerating push constant blocks - entry point not found"@,
                },
            },
    {
        match entry_point_name {
            Some(name) => match find_entry(&self.internal.entry_points, name) {
                Some(i) => {
                    assert(views(self.internal.entry_points@)[i as int]
                        == self.internal.entry_points@[i as int]@);
                    Ok(
                        block_refs(
                            &self.internal.push_constant_blocks,
                            Some(i),
                            Some(&self.internal.entry_points[i].used_push_constants),
                        ),
                    )
                },
                None => Err("Error enumerating push constant blocks - entry point not found"),
            },
            None => Ok(block_refs(&self.internal.push_constant_blocks, None, None)),
        }
    }

    /// The entry points of the module.
    pub fn enumerate_entry_points(&self) -> (entry_points: Result<
        Vec<ReflectEntryPoint>,
        &'static str,
    >)
        ensures
            entry_points matches Ok(e) && views(e@) == self@.entry_points,
    {
        Ok(clone_all(&self.internal.entry_points))
    }

    /// Gives binding `binding_index` another binding number, another set
    /// number or both, in the model and in the words, and builds the
    /// descriptor sets anew. Where that fails, nothing is changed.
    pub fn change_descriptor_binding_numbers(
        &mut self,
        binding_index: usize,
        new_binding: Option<u32>,
        new_set: Option<u32>,
    ) -> (changed: Result<(), String>)
        ensures
            patched(
                changed,
                old(self)@,
                final(self)@,
                spec_renumbered(old(self)@, binding_index as int, new_binding, new_set),
            ),
    {
        match self.internal.renumber_binding(binding_index, new_binding, new_set) {
            Ok(()) => Ok(()),
            Err(e) => Err(e.message()),
        }
    }

    /// Moves every binding of the set with the number of `set` to the set
    /// `new_set`, in the model and in the words, and builds the descriptor
    /// sets anew. Where that fails, nothing is changed.
    pub fn change_descriptor_set_number(
        &mut self,
        set: &ReflectDescriptorSet,
        new_set: u32,
    ) -> (changed: Result<(), String>)
        ensures
            patched(
                changed,
                old(self)@,
                final(self)@,
                spec_set_renumbered(old(self)@, set.set, new_set),
            ),
    {
        match self.internal.renumber_set(set.set, new_set) {
            Ok(()) => Ok(()),
            Err(e) => Err(e.message()),
        }
    }

    /// Gives the input with the id of `variable` the location
    /// `new_location`, in the model and in the words. Where that fails,
    /// nothing is changed.
    pub fn change_input_variable_location(
        &mut self,
        variable: &ReflectInterfaceVariable,
        new_location: u32,
    ) -> (changed: Result<(), String>)
        ensures
            patched(
                changed,
                old(self)@,
                final(self)@,
                spec_relocated(old(self)@, variable.spirv_id, new_location, true),
            ),
    {
        match self.internal.relocate(variable.spirv_id, new_location, true) {
            Ok(()) => Ok(()),
            Err(e) => Err(e.message()),
        }
    }

    /// Gives the output with the id of `variable` the location
    /// `new_location`, in the model and in the words. Where that fails,
    /// nothing is changed.
    pub fn change_output_variable_location(
        &mut self,
        variable: &ReflectInterfaceVariable,
        new_location: u32,
    ) -> (changed: Result<(), String>)
        ensures
            patched(
                changed,
                old(self)@,
                final(self)@,
                spec_relocated(old(self)@, variable.spirv_id, new_location, false),
            ),
    {
        match self.internal.relocate(variable.spirv_id, new_location, false) {
            Ok(()) => Ok(()),
            Err(e) => Err(e.message()),
        }
    }
}

impl Clone for ShaderModule {
    fn clone(&self) -> (copy: Self)
        ensures
            copy@ == self@,
    {
        ShaderModule { internal: self.internal.clone() }
    }
}

impl Default for ShaderModule {
    fn default() -> (module: Self)
        ensures
            module@ == ModuleView::empty(),
    {
        ShaderModule { internal: ReflectShaderModule::default() }
    }
}

/// The module that `spv_words` hold: the reflection model of the words,
/// with the words themselves. The entry point of a module that has a
/// single one is taken to use every resource.
pub fn create_shader_module(spv_words: &[u32]) -> (created: Result<ShaderModule, String>)
    ensures
        reported(created, spec_parse(spv_words@)),
        created matches Ok(module) ==> module@.spirv_code == spv_words@,
{
    create_shader_module_with(spv_words, StaticUse::Conservative)
}

/// The module that `spv_words` hold, with the resources that each entry
/// point uses found as `policy` says.
pub fn create_shader_module_with(spv_words: &[u32], policy: StaticUse) -> (created: Result<
    ShaderModule,
    String,
>)
    ensures
        reported(created, spec_parse_with(spv_words@, policy)),
        created matches Ok(module) ==> module@.spirv_code == spv_words@,
{
    match Parser::parse(slice_to_vec(spv_words), policy) {
        Ok(internal) => Ok(ShaderModule { internal }),
        Err(e) => Err(e.message()),
    }
}

} // verus!
