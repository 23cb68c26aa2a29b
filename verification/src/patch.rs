//! Patches: other binding numbers, set numbers and locations, written to
//! the model and to the words at the offsets that the model records.
//!
//! A patch that fails changes nothing: every check is made before the
//! first write.

use crate::error::ReflectError;
use crate::sets::{claim_all, set_numbers_of, spec_set_numbers};
use crate::types::descriptor::DescriptorBindingView;
use crate::types::module::{
    lemma_synthesized_is_synthesized, spec_is_synthesized, spec_synthesized, ModuleView,
    ReflectShaderModule,
};
use crate::types::variable::{EntryPointView, InterfaceVariableView, ReflectInterfaceVariable};
use crate::views::views;
use vstd::prelude::*;

verus! {

/// `module` with binding `index` given the binding number `new_binding`
/// and the set number `new_set`, where they are given: in the binding, and
/// in the words at the offsets that the binding records. The descriptor
/// sets are built anew.
pub open spec fn spec_renumbered(
    module: ModuleView,
    index: int,
    new_binding: Option<u32>,
    new_set: Option<u32>,
) -> Result<ModuleView, ReflectError> {
    if index < 0 || index >= module.descriptor_bindings.len() {
        Err(ReflectError::BindingIndexOutOfRange)
    } else {
        let binding = module.descriptor_bindings[index];
        let binding_at = binding.word_offset.0 as int;
        let set_at = binding.word_offset.1 as int;
        if binding_at >= module.spirv_code.len() {
            Err(ReflectError::BindingOffsetExceeded)
        } else if set_at >= module.spirv_code.len() {
            Err(ReflectError::SetOffsetExceeded)
        } else {
            let renumbered = DescriptorBindingView {
                binding: match new_binding {
                    Some(number) => number,
                    None => binding.binding,
                },
                set: match new_set {
                    Some(number) => number,
                    None => binding.set,
                },
                ..binding
            };
            let with_binding = match new_binding {
                Some(number) => module.spirv_code.update(binding_at, number),
                None => module.spirv_code,
            };
            let with_set = match new_set {
                Some(number) => with_binding.update(set_at, number),
                None => with_binding,
            };
            spec_synthesized(
                ModuleView {
                    descriptor_bindings: module.descriptor_bindings.update(index, renumbered),
                    spirv_code: with_set,
                    ..module
                },
            )
        }
    }
}

/// After a change of numbers the binding has the new numbers, and so have
/// the words at the offsets that it records; no other binding and no
/// other word has changed. The two offsets must differ, as those of a
/// binding that was read from a module do.
pub proof fn lemma_renumbered(
    module: ModuleView,
    index: int,
    new_binding: Option<u32>,
    new_set: Option<u32>,
)
    requires
        spec_renumbered(module, index, new_binding, new_set).is_ok(),
        module.descriptor_bindings[index].word_offset.0
            != module.descriptor_bindings[index].word_offset.1,
    ensures
        ({
            let after = spec_renumbered(module, index, new_binding, new_set).unwrap();
            let before = module.descriptor_bindings[index];
            let binding_at = before.word_offset.0 as int;
            let set_at = before.word_offset.1 as int;
            &&& after.descriptor_bindings.len() == module.descriptor_bindings.len()
            &&& after.spirv_code.len() == module.spirv_code.len()
            &&& new_binding matches Some(number) ==> after.descriptor_bindings[index].binding
                == number && after.spirv_code[binding_at] == number
            &&& new_set matches Some(number) ==> after.descriptor_bindings[index].set == number
                && after.spirv_code[set_at] == number
            &&& forall|i: int|
                0 <= i < module.descriptor_bindings.len() && i != index
                    ==> #[trigger] after.descriptor_bindings[i] == module.descriptor_bindings[i]
            &&& forall|w: int|
                0 <= w < module.spirv_code.len() && w != binding_at && w != set_at
                    ==> #[trigger] after.spirv_code[w] == module.spirv_code[w]
        }),
{
}

/// A module whose numbers were changed has the descriptor sets that its
/// bindings give.
pub proof fn lemma_renumbered_is_synthesized(
    module: ModuleView,
    index: int,
    new_binding: Option<u32>,
    new_set: Option<u32>,
)
    requires
        spec_renumbered(module, index, new_binding, new_set).is_ok(),
    ensures
        spec_is_synthesized(spec_renumbered(module, index, new_binding, new_set).unwrap()),
{
    let binding = module.descriptor_bindings[index];
    let renumbered = DescriptorBindingView {
        binding: match new_binding {
            Some(number) => number,
            None => binding.binding,
        },
        set: match new_set {
            Some(number) => number,
            None => binding.set,
        },
        ..binding
    };
    let with_binding = match new_binding {
        Some(number) => module.spirv_code.update(binding.word_offset.0 as int, number),
        None => module.spirv_code,
    };
    let with_set = match new_set {
        Some(number) => with_binding.update(binding.word_offset.1 as int, number),
        None => with_binding,
    };
    lemma_synthesized_is_synthesized(
        ModuleView {
            descriptor_bindings: module.descriptor_bindings.update(index, renumbered),
            spirv_code: with_set,
            ..module
        },
    );
}

/// Whether a patch that `model` describes did to a module what `result`
/// says: left it as `model` gives it, or failed as `model` says and left
/// it as it was.
pub open spec fn applied(
    result: Result<(), ReflectError>,
    before: ReflectShaderModule,
    after: ReflectShaderModule,
    model: Result<ModuleView, ReflectError>,
) -> bool {
    match result {
        Ok(()) => model == Ok::<ModuleView, ReflectError>(after@),
        Err(e) => model == Err::<ModuleView, ReflectError>(e) && after == before,
    }
}

/// Whether one of the first `k` of `bindings` has the set number `set`.
pub open spec fn spec_has_set(bindings: Seq<DescriptorBindingView>, set: u32, k: int) -> bool
    decreases k,
{
    if k <= 0 {
        false
    } else {
        spec_has_set(bindings, set, k - 1) || bindings[k - 1].set == set
    }
}

/// Whether each of the first `k` of `bindings` that has the set number
/// `set` records for it an offset inside `length` words.
pub open spec fn spec_set_offsets_ok(
    bindings: Seq<DescriptorBindingView>,
    set: u32,
    length: int,
    k: int,
) -> bool
    decreases k,
{
    if k <= 0 {
        true
    } else {
        spec_set_offsets_ok(bindings, set, length, k - 1) && (bindings[k - 1].set == set
            ==> bindings[k - 1].word_offset.1 < length)
    }
}

/// `binding` with the set number `new_set` if it has the set number `set`.
pub open spec fn spec_moved(
    binding: DescriptorBindingView,
    set: u32,
    new_set: u32,
) -> DescriptorBindingView {
    if binding.set == set {
        DescriptorBindingView { set: new_set, ..binding }
    } else {
        binding
    }
}

/// `code` with `new_set` written where the first `k` of `bindings` that
/// have the set number `set` record their set numbers.
pub open spec fn spec_moved_code(
    bindings: Seq<DescriptorBindingView>,
    code: Seq<u32>,
    set: u32,
    new_set: u32,
    k: int,
) -> Seq<u32>
    decreases k,
{
    if k <= 0 {
        code
    } else {
        let before = spec_moved_code(bindings, code, set, new_set, k - 1);
        if bindings[k - 1].set == set {
            before.update(bindings[k - 1].word_offset.1 as int, new_set)
        } else {
            before
        }
    }
}

/// `module` with every binding of the set `set` moved to the set
/// `new_set`: in the bindings, and in the words at the offsets that they
/// record. The descriptor sets are built anew.
pub open spec fn spec_set_renumbered(
    module: ModuleView,
    set: u32,
    new_set: u32,
) -> Result<ModuleView, ReflectError> {
    let bindings = module.descriptor_bindings;
    let n = bindings.len() as int;
    if !spec_has_set(bindings, set, n) {
        Err(ReflectError::SetNotFound)
    } else if !spec_set_offsets_ok(bindings, set, module.spirv_code.len() as int, n) {
        Err(ReflectError::SetOffsetExceeded)
    } else {
        spec_synthesized(
            ModuleView {
                descriptor_bindings: Seq::new(
                    bindings.len(),
                    |i: int| spec_moved(bindings[i], set, new_set),
                ),
                spirv_code: spec_moved_code(bindings, module.spirv_code, set, new_set, n),
                ..module
            },
        )
    }
}

/// `variables` with the location `location` given to each that has the id
/// `id`.
pub open spec fn spec_relocated_variables(
    variables: Seq<InterfaceVariableView>,
    id: u32,
    location: u32,
) -> Seq<InterfaceVariableView> {
    Seq::new(
        variables.len(),
        |i: int|
            if variables[i].spirv_id == id {
                InterfaceVariableView { location, ..variables[i] }
            } else {
                variables[i]
            },
    )
}

/// The place of the first of `variables` from `from` on that has the id
/// `id`.
pub open spec fn spec_find_variable_from(
    variables: Seq<InterfaceVariableView>,
    id: u32,
    from: int,
) -> Option<int>
    decreases variables.len() - from,
{
    if from < 0 || from >= variables.len() {
        None
    } else if variables[from].spirv_id == id {
        Some(from)
    } else {
        spec_find_variable_from(variables, id, from + 1)
    }
}

/// The inputs of `entry` where `input` is true, else its outputs.
pub open spec fn spec_interface_of(
    entry: EntryPointView,
    input: bool,
) -> Seq<InterfaceVariableView> {
    if input {
        entry.input_variables
    } else {
        entry.output_variables
    }
}

/// The word offset of the location of the variable with the id `id`, as
/// the first of the entry points from `from` on records it that has such a
/// variable.
pub open spec fn spec_location_offset_from(
    entries: Seq<EntryPointView>,
    id: u32,
    input: bool,
    from: int,
) -> Option<u32>
    decreases entries.len() - from,
{
    if from < 0 || from >= entries.len() {
        None
    } else {
        match spec_find_variable_from(spec_interface_of(entries[from], input), id, 0) {
            Some(i) => Some(spec_interface_of(entries[from], input)[i].word_offset),
            None => spec_location_offset_from(entries, id, input, from + 1),
        }
    }
}

/// `entry` with the location `location` given to each of its inputs, or of
/// its outputs, that has the id `id`.
pub open spec fn spec_relocated_entry(
    entry: EntryPointView,
    id: u32,
    location: u32,
    input: bool,
) -> EntryPointView {
    if input {
        EntryPointView {
            input_variables: spec_relocated_variables(entry.input_variables, id, location),
            ..entry
        }
    } else {
        EntryPointView {
            output_variables: spec_relocated_variables(entry.output_variables, id, location),
            ..entry
        }
    }
}

/// `module` with the location `location` given to the input, or to the
/// output, that has the id `id`: in the module's variables, in those of
/// every entry point, and in the word at the offset that is recorded for
/// the variable's location.
pub open spec fn spec_relocated(
    module: ModuleView,
    id: u32,
    location: u32,
    input: bool,
) -> Result<ModuleView, ReflectError> {
    match spec_location_offset_from(module.entry_points, id, input, 0) {
        None => Err(ReflectError::VariableNotFound),
        Some(at) => if at == 0 || at >= module.spirv_code.len() {
            Err(ReflectError::LocationOffsetExceeded)
        } else {
            let entry_points = Seq::new(
                module.entry_points.len(),
                |i: int| spec_relocated_entry(module.entry_points[i], id, location, input),
            );
            let spirv_code = module.spirv_code.update(at as int, location);
            if input {
                Ok(
                    ModuleView {
                        input_variables: spec_relocated_variables(
                            module.input_variables,
                            id,
                            location,
                        ),
                        entry_points,
                        spirv_code,
                        ..module
                    },
                )
            } else {
                Ok(
                    ModuleView {
                        output_variables: spec_relocated_variables(
                            module.output_variables,
                            id,
                            location,
                        ),
                        entry_points,
                        spirv_code,
                        ..module
                    },
                )
            }
        },
    }
}

/// The place of the first of `variables` that has the id `id`.
fn find_variable(variables: &Vec<ReflectInterfaceVariable>, id: u32) -> (found: Option<usize>)
    ensures
        match found {
            Some(i) => spec_find_variable_from(views(variables@), id, 0) == Some(i as int) && i
                < variables@.len(),
            None => spec_find_variable_from(views(variables@), id, 0).is_none(),
        },
{
    let mut i: usize = 0;
    while i < variables.len()
        invariant
            i <= variables@.len(),
            spec_find_variable_from(views(variables@), id, 0) == spec_find_variable_from(
                views(variables@),
                id,
                i as int,
            ),
        decreases variables@.len() - i,
    {
        assert(views(variables@)[i as int] == variables@[i as int]@);
        if variables[i].spirv_id == id {
            return Some(i);
        }
        i += 1;
    }
    None
}

/// Gives the location `location` to each of `variables` that has the id
/// `id`.
fn relocate_variables(variables: &mut Vec<ReflectInterfaceVariable>, id: u32, location: u32)
    ensures
        views(final(variables)@) == spec_relocated_variables(views(old(variables)@), id, location),
{
    let ghost before = views(variables@);
    let mut i: usize = 0;
    while i < variables.len()
        invariant
            i <= variables@.len(),
            variables@.len() == before.len(),
            forall|j: int|
                0 <= j < i ==> (#[trigger] variables@[j])@ == spec_relocated_variables(
                    before,
                    id,
                    location,
                )[j],
            forall|j: int| i <= j < before.len() ==> (#[trigger] variables@[j])@ == before[j],
        decreases variables@.len() - i,
    {
        if variables[i].spirv_id == id {
            variables[i].location = location;
        }
        i += 1;
    }
    assert(views(variables@) =~= spec_relocated_variables(before, id, location));
}

impl ReflectShaderModule {
    /// Gives binding `index` another binding number, another set number or
    /// both, and builds the descriptor sets anew.
    pub fn renumber_binding(
        &mut self,
        index: usize,
        new_binding: Option<u32>,
        new_set: Option<u32>,
    ) -> (changed: Result<(), ReflectError>)
        ensures
            applied(
                changed,
                *old(self),
                *final(self),
                spec_renumbered(old(self)@, index as int, new_binding, new_set),
            ),
    {
        if index >= self.descriptor_bindings.len() {
            return Err(ReflectError::BindingIndexOutOfRange);
        }
        let ghost before = views(self.descriptor_bindings@);
        assert(before[index as int] == self.descriptor_bindings@[index as int]@);
        let (binding_offset, set_offset) = self.descriptor_bindings[index].word_offset;
        let binding_at = binding_offset as usize;
        let set_at = set_offset as usize;
        if binding_at >= self.spirv_code.len() {
            return Err(ReflectError::BindingOffsetExceeded);
        }
        if set_at >= self.spirv_code.len() {
            return Err(ReflectError::SetOffsetExceeded);
        }
        let ghost renumbered = DescriptorBindingView {
            binding: match new_binding {
                Some(number) => number,
                None => before[index as int].binding,
            },
            set: match new_set {
                Some(number) => number,
                None => before[index as int].set,
            },
            ..before[index as int]
        };
        let mut numbers = set_numbers_of(&self.descriptor_bindings);
        if let Some(number) = new_set {
            numbers[index] = number;
        }
        proof {
            assert(numbers@ =~= spec_set_numbers(before.update(index as int, renumbered)));
        }
        let _ = claim_all(&numbers)?;
        if let Some(number) = new_binding {
            self.descriptor_bindings[index].binding = number;
            self.spirv_code[binding_at] = number;
        }
        if let Some(number) = new_set {
            self.descriptor_bindings[index].set = number;
            self.spirv_code[set_at] = number;
        }
        proof {
            assert(views(self.descriptor_bindings@) =~= before.update(index as int, renumbered));
        }
        self.build_descriptor_sets()
    }

    /// Moves every binding of the set `set` to the set `new_set`, and
    /// builds the descriptor sets anew.
    pub fn renumber_set(&mut self, set: u32, new_set: u32) -> (changed: Result<(), ReflectError>)
        ensures
            applied(
                changed,
                *old(self),
                *final(self),
                spec_set_renumbered(old(self)@, set, new_set),
            ),
    {
        let ghost before = views(self.descriptor_bindings@);
        let ghost code = self.spirv_code@;
        let count = self.descriptor_bindings.len();
        let length = self.spirv_code.len();
        let mut found = false;
        let mut inside = true;
        let mut numbers: Vec<u32> = Vec::new();
        let mut k: usize = 0;
        while k < count
            invariant
                k <= count,
                count == self.descriptor_bindings@.len(),
                length == self.spirv_code@.len(),
                before == views(self.descriptor_bindings@),
                found == spec_has_set(before, set, k as int),
                inside == spec_set_offsets_ok(before, set, length as int, k as int),
                numbers@.len() == k,
                forall|j: int|
                    0 <= j < k ==> numbers@[j] == spec_moved(before[j], set, new_set).set,
            decreases count - k,
        {
            assert(before[k as int] == self.descriptor_bindings@[k as int]@);
            let binding = &self.descriptor_bindings[k];
            if binding.set == set {
                found = true;
                if binding.word_offset.1 as usize >= length {
                    inside = false;
                }
                numbers.push(new_set);
            } else {
                numbers.push(binding.set);
            }
            k += 1;
        }
        if !found {
            return Err(ReflectError::SetNotFound);
        }
        if !inside {
            return Err(ReflectError::SetOffsetExceeded);
        }
        let ghost moved = Seq::new(before.len(), |i: int| spec_moved(before[i], set, new_set));
        proof {
            assert(numbers@ =~= spec_set_numbers(moved));
        }
        let _ = claim_all(&numbers)?;
        let mut i: usize = 0;
        while i < count
            invariant
                i <= count,
                count == self.descriptor_bindings@.len(),
                count == before.len(),
                length == self.spirv_code@.len(),
                length == code.len(),
                spec_set_offsets_ok(before, set, length as int, count as int),
                forall|j: int|
                    0 <= j < i ==> (#[trigger] self.descriptor_bindings@[j])@ == spec_moved(
                        before[j],
                        set,
                        new_set,
                    ),
                forall|j: int|
                    i <= j < count ==> (#[trigger] self.descriptor_bindings@[j])@ == before[j],
                self.spirv_code@ == spec_moved_code(before, code, set, new_set, i as int),
                self.generator == old(self).generator,
                self.entry_point_name == old(self).entry_point_name,
                self.entry_point_id == old(self).entry_point_id,
                self.entry_points == old(self).entry_points,
                self.source_language == old(self).source_language,
                self.source_language_version == old(self).source_language_version,
                self.source_file_id == old(self).source_file_id,
                self.source_file == old(self).source_file,
                self.source_text == old(self).source_text,
                self.spirv_execution_model == old(self).spirv_execution_model,
                self.shader_stage == old(self).shader_stage,
                self.descriptor_sets == old(self).descriptor_sets,
                self.input_variables == old(self).input_variables,
                self.output_variables == old(self).output_variables,
                self.push_constant_blocks == old(self).push_constant_blocks,
                self.type_descriptions == old(self).type_descriptions,
            decreases count - i,
        {
            proof {
                lemma_set_offsets(before, set, length as int, count as int, i as int);
            }
            if self.descriptor_bindings[i].set == set {
                let at = self.descriptor_bindings[i].word_offset.1 as usize;
                self.descriptor_bindings[i].set = new_set;
                self.spirv_code[at] = new_set;
            }
            i += 1;
        }
        proof {
            assert(views(self.descriptor_bindings@) =~= moved);
        }
        self.build_descriptor_sets()
    }

    /// Gives the location `location` to the input, or to the output, that
    /// has the id `id`.
    pub fn relocate(&mut self, id: u32, location: u32, input: bool) -> (changed: Result<
        (),
        ReflectError,
    >)
        ensures
            applied(
                changed,
                *old(self),
                *final(self),
                spec_relocated(old(self)@, id, location, input),
            ),
    {
        let ghost before = views(self.entry_points@);
        let mut offset: Option<u32> = None;
        let mut k: usize = 0;
        while k < self.entry_points.len() && offset.is_none()
            invariant
                k <= self.entry_points@.len(),
                *self == *old(self),
                before == views(self.entry_points@),
                match offset {
                    Some(at) => spec_location_offset_from(before, id, input, 0) == Some(at),
                    None => spec_location_offset_from(before, id, input, 0)
                        == spec_location_offset_from(before, id, input, k as int),
                },
            decreases self.entry_points@.len() - k,
        {
            assert(before[k as int] == self.entry_points@[k as int]@);
            let variables = if input {
                &self.entry_points[k].input_variables
            } else {
                &self.entry_points[k].output_variables
            };
            match find_variable(variables, id) {
                Some(i) => {
                    assert(views(variables@)[i as int] == variables@[i as int]@);
                    offset = Some(variables[i].word_offset);
                },
                None => {},
            }
            k += 1;
        }
        let at = match offset {
            None => {
                return Err(ReflectError::VariableNotFound);
            },
            Some(at) => at as usize,
        };
        if at == 0 || at >= self.spirv_code.len() {
            return Err(ReflectError::LocationOffsetExceeded);
        }
        self.spirv_code[at] = location;
        if input {
            relocate_variables(&mut self.input_variables, id, location);
        } else {
            relocate_variables(&mut self.output_variables, id, location);
        }
        let mut e: usize = 0;
        while e < self.entry_points.len()
            invariant
                e <= self.entry_points@.len(),
                self.entry_points@.len() == before.len(),
                forall|j: int|
                    0 <= j < e ==> (#[trigger] self.entry_points@[j])@ == spec_relocated_entry(
                        before[j],
                        id,
                        location,
                        input,
                    ),
                forall|j: int| e <= j < before.len() ==>
                    (#[trigger] self.entry_points@[j])@ == before[j],
                self.spirv_code@ == old(self).spirv_code@.update(at as int, location),
                input ==> views(self.input_variables@) == spec_relocated_variables(
                    views(old(self).input_variables@),
                    id,
                    location,
                ) && self.output_variables == old(self).output_variables,
                !input ==> views(self.output_variables@) == spec_relocated_variables(
                    views(old(self).output_variables@),
                    id,
                    location,
                ) && self.input_variables == old(self).input_variables,
                self.generator == old(self).generator,
                self.entry_point_name == old(self).entry_point_name,
                self.entry_point_id == old(self).entry_point_id,
                self.source_language == old(self).source_language,
                self.source_language_version == old(self).source_language_version,
                self.source_file_id == old(self).source_file_id,
                self.source_file == old(self).source_file,
                self.source_text == old(self).source_text,
                self.spirv_execution_model == old(self).spirv_execution_model,
                self.shader_stage == old(self).shader_stage,
                self.descriptor_bindings == old(self).descriptor_bindings,
                self.descriptor_sets == old(self).descriptor_sets,
                self.push_constant_blocks == old(self).push_constant_blocks,
                self.type_descriptions == old(self).type_descriptions,
            decreases self.entry_points@.len() - e,
        {
            if input {
                relocate_variables(&mut self.entry_points[e].input_variables, id, location);
            } else {
                relocate_variables(&mut self.entry_points[e].output_variables, id, location);
            }
            e += 1;
        }
        proof {
            assert(views(self.entry_points@) =~= Seq::new(
                before.len(),
                |i: int| spec_relocated_entry(before[i], id, location, input),
            ));
        }
        Ok(())
    }
}

/// Where the offsets of the first `n` bindings are inside, so is that of
/// binding `i` among them.
pub proof fn lemma_set_offsets(
    bindings: Seq<DescriptorBindingView>,
    set: u32,
    length: int,
    n: int,
    i: int,
)
    requires
        0 <= i < n,
        spec_set_offsets_ok(bindings, set, length, n),
    ensures
        bindings[i].set == set ==> bindings[i].word_offset.1 < length,
    decreases n,
{
    if i < n - 1 {
        lemma_set_offsets(bindings, set, length, n - 1, i);
    }
}

} // verus!
