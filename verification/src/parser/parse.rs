//! The whole pipeline: from the word stream to the reflection model.

use crate::error::ReflectError;
use crate::parser::annotation::{spec_source, spec_string, spec_strings_ok};
use crate::parser::entry::spec_entry_points;
use crate::parser::interface::{spec_text_at, text_at};
use crate::parser::node::{lemma_index_indexed, spec_index, Parser, ParserNode};
use crate::parser::resolve::spec_types;
use crate::parser::usage::StaticUse;
use crate::patch::{lemma_renumbered, spec_renumbered};
use crate::sets::{lemma_slots_error, spec_set_numbers};
use crate::parser::resource::{
    lemma_bindings_recorded, spec_binding_recorded, spec_bindings, spec_bindings_upto,
    spec_push_constants,
};
use crate::types::descriptor::{DescriptorBindingView, ReflectDescriptorBinding};
use crate::types::generator::ReflectGenerator;
use crate::types::module::{
    lemma_synthesized_is_synthesized, spec_is_synthesized, spec_synthesized, ModuleView,
    ReflectShaderModule,
};
use crate::types::variable::{
    BlockVariableView, EntryPointView, ReflectBlockVariable, ReflectShaderStage,
    TypeDescriptionView,
};
use crate::views::{agrees, clone_all, views};
use crate::words::{MAGIC_NUMBER, STARTING_WORD};
use vstd::prelude::*;

verus! {

/// The ids of `bindings`, in the same order.
pub open spec fn spec_binding_ids(bindings: Seq<DescriptorBindingView>) -> Seq<u32> {
    Seq::new(bindings.len(), |i: int| bindings[i].spirv_id)
}

/// The ids of `blocks`, in the same order.
pub open spec fn spec_block_ids(blocks: Seq<BlockVariableView>) -> Seq<u32> {
    Seq::new(blocks.len(), |i: int| blocks[i].spirv_id)
}

/// The ids of `bindings`, in the same order.
fn binding_ids(bindings: &Vec<ReflectDescriptorBinding>) -> (ids: Vec<u32>)
    ensures
        ids@ == spec_binding_ids(views(bindings@)),
{
    let mut ids: Vec<u32> = Vec::new();
    let mut i: usize = 0;
    while i < bindings.len()
        invariant
            i <= bindings@.len(),
            ids@.len() == i,
            forall|j: int| 0 <= j < i ==> ids@[j] == (#[trigger] bindings@[j]).spirv_id,
        decreases bindings@.len() - i,
    {
        ids.push(bindings[i].spirv_id);
        i += 1;
    }
    assert(ids@ =~= spec_binding_ids(views(bindings@)));
    ids
}

/// The ids of `blocks`, in the same order.
fn block_ids(blocks: &Vec<ReflectBlockVariable>) -> (ids: Vec<u32>)
    ensures
        ids@ == spec_block_ids(views(blocks@)),
{
    let mut ids: Vec<u32> = Vec::new();
    let mut i: usize = 0;
    while i < blocks.len()
        invariant
            i <= blocks@.len(),
            ids@.len() == i,
            forall|j: int| 0 <= j < i ==> ids@[j] == (#[trigger] blocks@[j]).spirv_id,
        decreases blocks@.len() - i,
    {
        ids.push(blocks[i].spirv_id);
        i += 1;
    }
    assert(ids@ =~= spec_block_ids(views(blocks@)));
    ids
}

/// The module put together from its parts, before its descriptor sets are
/// built. Name, id, execution model, stage, inputs and outputs of the
/// first entry point stand for the module's.
pub open spec fn spec_assembled(
    words: Seq<u32>,
    nodes: Seq<ParserNode>,
    types: Seq<TypeDescriptionView>,
    bindings: Seq<DescriptorBindingView>,
    blocks: Seq<BlockVariableView>,
    entries: Seq<EntryPointView>,
    source_file: Seq<char>,
    source_text: Seq<char>,
) -> ModuleView {
    let source = spec_source(words, nodes);
    ModuleView {
        generator: ReflectGenerator::spec_from_word(words[2]),
        entry_point_name: if entries.len() > 0 {
            entries[0].name
        } else {
            Seq::empty()
        },
        entry_point_id: if entries.len() > 0 {
            entries[0].id
        } else {
            0
        },
        entry_points: entries,
        source_language: source.language,
        source_language_version: source.version,
        source_file_id: source.file_id,
        source_file,
        source_text,
        spirv_execution_model: if entries.len() > 0 {
            entries[0].spirv_execution_model
        } else {
            None
        },
        shader_stage: if entries.len() > 0 {
            entries[0].shader_stage
        } else {
            ReflectShaderStage::Undefined
        },
        descriptor_bindings: bindings,
        descriptor_sets: Seq::empty(),
        input_variables: if entries.len() > 0 {
            entries[0].input_variables
        } else {
            Seq::empty()
        },
        output_variables: if entries.len() > 0 {
            entries[0].output_variables
        } else {
            Seq::empty()
        },
        push_constant_blocks: blocks,
        spirv_code: words,
        type_descriptions: types,
    }
}

/// The reflection model of the indexed word stream: types, bindings, push
/// constant blocks, entry points, source strings and descriptor sets, in
/// this order, up to the first that fails.
pub open spec fn spec_reflect(
    words: Seq<u32>,
    nodes: Seq<ParserNode>,
    policy: StaticUse,
) -> Result<ModuleView, ReflectError> {
    match spec_types(words, nodes) {
        Err(e) => Err(e),
        Ok(types) => match spec_bindings(words, nodes, types) {
            Err(e) => Err(e),
            Ok(bindings) => match spec_push_constants(words, nodes, types) {
                Err(e) => Err(e),
                Ok(blocks) => match spec_entry_points(
                    words,
                    nodes,
                    types,
                    spec_binding_ids(bindings),
                    spec_block_ids(blocks),
                    policy,
                ) {
                    Err(e) => Err(e),
                    Ok(entries) => match spec_string(
                        words,
                        nodes,
                        spec_source(words, nodes).file_id,
                    ) {
                        Err(e) => Err(e),
                        Ok(source_file) => match spec_text_at(
                            words,
                            spec_source(words, nodes).text,
                        ) {
                            Err(e) => Err(e),
                            Ok(source_text) => spec_synthesized(
                                spec_assembled(
                                    words,
                                    nodes,
                                    types,
                                    bindings,
                                    blocks,
                                    entries,
                                    source_file,
                                    source_text,
                                ),
                            ),
                        },
                    },
                },
            },
        },
    }
}

/// The reflection model of a word stream.
///
/// The stream must not be empty, must begin with the magic number and
/// must hold the five words of the header. Its instructions are indexed,
/// every name and string is read, and the model is built from the index.
pub open spec fn spec_parse_with(
    words: Seq<u32>,
    policy: StaticUse,
) -> Result<ModuleView, ReflectError> {
    if words.len() == 0 {
        Err(ReflectError::NoInput)
    } else if words[0] != MAGIC_NUMBER {
        Err(ReflectError::InvalidMagicNumber)
    } else if words.len() < STARTING_WORD {
        Err(ReflectError::UnexpectedEof)
    } else {
        match spec_index(words) {
            Err(e) => Err(e),
            Ok(nodes) => if !spec_strings_ok(words, nodes) {
                Err(ReflectError::InvalidString)
            } else {
                spec_reflect(words, nodes, policy)
            },
        }
    }
}

/// The reflection model of a word stream, with the entry point of a
/// module that has a single one taken to use every resource.
pub open spec fn spec_parse(words: Seq<u32>) -> Result<ModuleView, ReflectError> {
    spec_parse_with(words, StaticUse::Conservative)
}

/// A module that was parsed holds the words it was parsed from.
pub proof fn lemma_parse_keeps_words(words: Seq<u32>, policy: StaticUse)
    requires
        spec_parse_with(words, policy).is_ok(),
    ensures
        spec_parse_with(words, policy).unwrap().spirv_code == words,
{
}

/// A module that was parsed has the descriptor sets that its bindings
/// give.
pub proof fn lemma_parse_synthesizes(words: Seq<u32>, policy: StaticUse)
    requires
        spec_parse_with(words, policy).is_ok(),
    ensures
        spec_is_synthesized(spec_parse_with(words, policy).unwrap()),
{
    let nodes = spec_index(words).unwrap();
    let types = spec_types(words, nodes).unwrap();
    let bindings = spec_bindings(words, nodes, types).unwrap();
    let blocks = spec_push_constants(words, nodes, types).unwrap();
    let entries = spec_entry_points(
        words,
        nodes,
        types,
        spec_binding_ids(bindings),
        spec_block_ids(blocks),
        policy,
    ).unwrap();
    let source_file = spec_string(words, nodes, spec_source(words, nodes).file_id).unwrap();
    let source_text = spec_text_at(words, spec_source(words, nodes).text).unwrap();
    lemma_synthesized_is_synthesized(
        spec_assembled(words, nodes, types, bindings, blocks, entries, source_file, source_text),
    );
}

/// In a module that was parsed, the words hold the binding number and
/// the set number of every binding at the offsets that the binding
/// records.
pub proof fn lemma_parsed_bindings_recorded(words: Seq<u32>, policy: StaticUse, i: int)
    requires
        spec_parse_with(words, policy).is_ok(),
        0 <= i < spec_parse_with(words, policy).unwrap().descriptor_bindings.len(),
    ensures
        spec_binding_recorded(
            spec_parse_with(words, policy).unwrap().spirv_code,
            spec_parse_with(words, policy).unwrap().descriptor_bindings[i],
        ),
{
    let nodes = spec_index(words).unwrap();
    let types = spec_types(words, nodes).unwrap();
    lemma_index_indexed(words);
    lemma_bindings_recorded(words, nodes, types, nodes.len() as int);
    let unlinked = spec_bindings_upto(words, nodes, types, nodes.len() as int).unwrap();
    assert(spec_binding_recorded(words, unlinked[i]));
}

/// In a module that was parsed, a change of the numbers of a binding
/// fails only where the bindings would then claim more set numbers than
/// there are slots: the index being in range, the recorded offsets lie
/// inside the words.
pub proof fn lemma_parsed_renumber_succeeds(
    words: Seq<u32>,
    policy: StaticUse,
    index: int,
    new_binding: Option<u32>,
    new_set: Option<u32>,
)
    requires
        spec_parse_with(words, policy).is_ok(),
        0 <= index < spec_parse_with(words, policy).unwrap().descriptor_bindings.len(),
    ensures
        ({
            let module = spec_parse_with(words, policy).unwrap();
            match spec_renumbered(module, index, new_binding, new_set) {
                Ok(_) => true,
                Err(e) => e == ReflectError::SetNumberOverflow,
            }
        }),
{
    let module = spec_parse_with(words, policy).unwrap();
    let before = module.descriptor_bindings[index];
    let renumbered = DescriptorBindingView {
        binding: match new_binding {
            Some(number) => number,
            None => before.binding,
        },
        set: match new_set {
            Some(number) => number,
            None => before.set,
        },
        ..before
    };
    let bindings = module.descriptor_bindings.update(index, renumbered);
    lemma_parsed_bindings_recorded(words, policy, index);
    lemma_slots_error(spec_set_numbers(bindings), bindings.len() as int);
}

/// In a module that was parsed, a change of both numbers of a binding
/// leaves the new numbers in the binding and in the words, at the offsets
/// that the binding recorded; the words are as many as before.
pub proof fn lemma_parsed_renumbered(
    words: Seq<u32>,
    policy: StaticUse,
    index: int,
    binding: u32,
    set: u32,
)
    requires
        spec_parse_with(words, policy).is_ok(),
        spec_renumbered(
            spec_parse_with(words, policy).unwrap(),
            index,
            Some(binding),
            Some(set),
        ).is_ok(),
    ensures
        ({
            let module = spec_parse_with(words, policy).unwrap();
            let after = spec_renumbered(module, index, Some(binding), Some(set)).unwrap();
            let recorded = module.descriptor_bindings[index].word_offset;
            &&& after.spirv_code.len() == words.len()
            &&& after.spirv_code[recorded.0 as int] == binding
            &&& after.spirv_code[recorded.1 as int] == set
            &&& after.descriptor_bindings[index].binding == binding
            &&& after.descriptor_bindings[index].set == set
            &&& after.descriptor_bindings[index].word_offset == recorded
        }),
{
    let module = spec_parse_with(words, policy).unwrap();
    lemma_parsed_bindings_recorded(words, policy, index);
    lemma_renumbered(module, index, Some(binding), Some(set));
}

impl Parser {
    /// The reflection model of the indexed word stream.
    pub fn reflect(self, policy: StaticUse) -> (module: Result<ReflectShaderModule, ReflectError>)
        requires
            self.wf(),
            self.words@.len() >= STARTING_WORD,
        ensures
            agrees(module, spec_reflect(self.words@, self.nodes@, policy)),
    {
        let types = self.parse_types()?;
        let bindings = self.parse_descriptor_bindings(&types)?;
        let blocks = self.parse_push_constant_blocks(&types)?;
        let uniforms = binding_ids(&bindings);
        let push_constants = block_ids(&blocks);
        let entries = self.parse_entry_points(&types, &uniforms, &push_constants, policy)?;
        let source = self.source_of();
        let source_file = self.string_of(source.file_id)?;
        let source_text = text_at(&self.words, &source.text)?;
        let generator = ReflectGenerator::from_word(self.words[2]);
        let ghost entry_views = views(entries@);
        let mut module = if entries.len() > 0 {
            let first = &entries[0];
            assert(entry_views[0] == first@);
            let entry_point_name = first.name.clone();
            let entry_point_id = first.id;
            let spirv_execution_model = first.spirv_execution_model;
            let shader_stage = first.shader_stage;
            let input_variables = clone_all(&first.input_variables);
            let output_variables = clone_all(&first.output_variables);
            ReflectShaderModule {
                generator,
                entry_point_name,
                entry_point_id,
                entry_points: entries,
                source_language: source.language,
                source_language_version: source.version,
                source_file_id: source.file_id,
                source_file,
                source_text,
                spirv_execution_model,
                shader_stage,
                descriptor_bindings: bindings,
                descriptor_sets: Vec::new(),
                input_variables,
                output_variables,
                push_constant_blocks: blocks,
                spirv_code: self.words,
                type_descriptions: types,
            }
        } else {
            ReflectShaderModule {
                generator,
                entry_point_name: String::new(),
                entry_point_id: 0,
                entry_points: entries,
                source_language: source.language,
                source_language_version: source.version,
                source_file_id: source.file_id,
                source_file,
                source_text,
                spirv_execution_model: None,
                shader_stage: ReflectShaderStage::Undefined,
                descriptor_bindings: bindings,
                descriptor_sets: Vec::new(),
                input_variables: Vec::new(),
                output_variables: Vec::new(),
                push_constant_blocks: blocks,
                spirv_code: self.words,
                type_descriptions: types,
            }
        };
        proof {
            assert(module@.descriptor_sets =~= Seq::empty());
            assert(entry_views.len() == 0 ==> module@.input_variables =~= Seq::empty());
            assert(entry_views.len() == 0 ==> module@.output_variables =~= Seq::empty());
        }
        module.build_descriptor_sets()?;
        Ok(module)
    }

    /// The reflection model of a word stream.
    pub fn parse(words: Vec<u32>, policy: StaticUse) -> (module: Result<
        ReflectShaderModule,
        ReflectError,
    >)
        ensures
            match module {
                Ok(m) => spec_parse_with(words@, policy) == Ok::<ModuleView, ReflectError>(m@)
                    && m@.spirv_code == words@,
                Err(e) => spec_parse_with(words@, policy) == Err::<ModuleView, ReflectError>(e),
            },
    {
        if words.len() == 0 {
            return Err(ReflectError::NoInput);
        }
        if words[0] != MAGIC_NUMBER {
            return Err(ReflectError::InvalidMagicNumber);
        }
        if words.len() < STARTING_WORD {
            return Err(ReflectError::UnexpectedEof);
        }
        let parser = Parser::new(words)?;
        parser.check_strings()?;
        parser.reflect(policy)
    }
}

} // verus!
