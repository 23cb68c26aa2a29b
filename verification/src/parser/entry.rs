//! The entry point builder: each entry point with its interface variables,
//! its workgroup size and the resources it uses.
//!
//! How the resources that an entry point uses are found is a choice that
//! the caller makes.

use crate::error::ReflectError;
use crate::parser::annotation::{
    lemma_decorations_recorded, lemma_node_ok, spec_decorations, spec_name,
};
use crate::parser::interface::spec_interface_variable;
use crate::parser::node::{spec_find_node, spec_indexed, Parser, ParserNode};
use crate::parser::resolve::spec_variable_type;
use crate::parser::usage::{spec_owners, spec_used_ids, StaticUse};
use crate::sets::{lemma_insert_at, spec_insert_at};
use crate::spirv::{
    execution_model_defined, spirv_execution_model_defined, EXECUTION_MODE_LOCAL_SIZE,
    OP_ENTRY_POINT, OP_EXECUTION_MODE,
};
use crate::types::variable::{
    EntryPointView, InterfaceVariableView, ReflectEntryPoint, ReflectEntryPointLocalSize,
    ReflectInterfaceVariable, ReflectShaderStage, ReflectStorageClass, ReflectTypeDescription,
    TypeDescriptionView,
};
use crate::views::{agrees, agrees_all, agrees_both, views};
use crate::words::{
    lemma_literal_words, literal_with_length, literal_words, spec_literal, spec_literal_bytes,
    spec_literal_words,
};
use vstd::prelude::*;
use vstd::seq_lib::{to_multiset_build, to_multiset_remove};

verus! {

/// The first `k` of `ids` in ascending order, equal ones in the order in
/// which they stand in `ids`.
pub open spec fn spec_sorted_upto(ids: Seq<u32>, k: int) -> Seq<u32>
    decreases k,
{
    if k <= 0 {
        Seq::empty()
    } else {
        let before = spec_sorted_upto(ids, k - 1);
        before.insert(spec_insert_at(before, ids[k - 1], 0), ids[k - 1])
    }
}

/// `ids` in ascending order.
pub open spec fn spec_sorted(ids: Seq<u32>) -> Seq<u32> {
    spec_sorted_upto(ids, ids.len() as int)
}

/// Whether none of `ids` is greater than one behind it.
pub open spec fn spec_non_descending(ids: Seq<u32>) -> bool {
    forall|a: int, b: int| 0 <= a < b < ids.len() ==> ids[a] <= ids[b]
}

/// The first `k` ids in ascending order are in ascending order, and they
/// hold each id as often as the first `k` ids do.
pub proof fn lemma_sorted_upto(ids: Seq<u32>, k: int)
    requires
        0 <= k <= ids.len(),
    ensures
        spec_non_descending(spec_sorted_upto(ids, k)),
        spec_sorted_upto(ids, k).to_multiset() == ids.take(k).to_multiset(),
        spec_sorted_upto(ids, k).len() == k,
    decreases k,
{
    if k > 0 {
        lemma_sorted_upto(ids, k - 1);
        let before = spec_sorted_upto(ids, k - 1);
        let after = spec_sorted_upto(ids, k);
        let id = ids[k - 1];
        let at = spec_insert_at(before, id, 0);
        lemma_insert_at(before, id, 0);
        before.insert_ensures(at, id);
        assert forall|a: int, b: int| 0 <= a < b < after.len() implies after[a] <= after[b] by {
            if a < at {
                assert(after[a] == before[a]);
            } else if a > at {
                assert(after[a] == before[a - 1]);
            }
            if b < at {
                assert(after[b] == before[b]);
            } else if b > at {
                assert(after[b] == before[b - 1]);
                if at < before.len() && b - 1 > at {
                    assert(before[at] <= before[b - 1]);
                }
            }
        }
        assert(after.remove(at) =~= before);
        to_multiset_remove(after, at);
        to_multiset_build(ids.take(k - 1), id);
        assert(ids.take(k - 1).push(id) =~= ids.take(k));
        after.to_multiset_ensures();
        assert(after.contains(id)) by {
            assert(after[at] == id);
        }
        assert(after.to_multiset() =~= before.to_multiset().insert(id));
    } else {
        assert(ids.take(0) =~= Seq::<u32>::empty());
    }
}

/// `ids` in ascending order is in ascending order, and holds each id as
/// often as `ids` does. There is one such sequence.
pub proof fn lemma_sorted(ids: Seq<u32>)
    ensures
        spec_non_descending(spec_sorted(ids)),
        spec_sorted(ids).to_multiset() == ids.to_multiset(),
        spec_sorted(ids).len() == ids.len(),
{
    lemma_sorted_upto(ids, ids.len() as int);
    assert(ids.take(ids.len() as int) =~= ids);
}

/// `ids` in ascending order: each id as often as `ids` holds it, and none
/// greater than one behind it.
pub fn sorted_ids(ids: &Vec<u32>) -> (sorted: Vec<u32>)
    ensures
        sorted@ == spec_sorted(ids@),
        spec_non_descending(sorted@),
        sorted@.to_multiset() == ids@.to_multiset(),
{
    proof {
        lemma_sorted(ids@);
    }
    let mut sorted: Vec<u32> = Vec::new();
    let mut k: usize = 0;
    while k < ids.len()
        invariant
            k <= ids@.len(),
            sorted@ == spec_sorted_upto(ids@, k as int),
        decreases ids@.len() - k,
    {
        let id = ids[k];
        let mut at: usize = 0;
        while at < sorted.len() && sorted[at] <= id
            invariant
                at <= sorted@.len(),
                spec_insert_at(sorted@, id, 0) == spec_insert_at(sorted@, id, at as int),
            decreases sorted@.len() - at,
        {
            at += 1;
        }
        sorted.insert(at, id);
        k += 1;
    }
    sorted
}

/// The workgroup size that the first `n` nodes declare for the entry point
/// with the id `id`: that of the last local size execution mode for it, or
/// zero in every dimension.
pub open spec fn spec_local_size_upto(
    words: Seq<u32>,
    nodes: Seq<ParserNode>,
    id: u32,
    n: int,
) -> ReflectEntryPointLocalSize
    decreases n,
{
    if n <= 0 {
        ReflectEntryPointLocalSize { x: 0, y: 0, z: 0 }
    } else {
        let node = nodes[n - 1];
        let pos = node.word_offset as int;
        if node.op == OP_EXECUTION_MODE && node.word_count >= 6 && words[pos + 1] == id && words[pos
            + 2] == EXECUTION_MODE_LOCAL_SIZE {
            ReflectEntryPointLocalSize { x: words[pos + 3], y: words[pos + 4], z: words[pos + 5] }
        } else {
            spec_local_size_upto(words, nodes, id, n - 1)
        }
    }
}

/// The number of entry points among the first `n` nodes.
pub open spec fn spec_entry_count(nodes: Seq<ParserNode>, n: int) -> int
    decreases n,
{
    if n <= 0 {
        0
    } else {
        spec_entry_count(nodes, n - 1) + if nodes[n - 1].op == OP_ENTRY_POINT {
            1int
        } else {
            0int
        }
    }
}

/// The interface variable of the variable at node `at`.
pub open spec fn spec_entry_variable(
    words: Seq<u32>,
    nodes: Seq<ParserNode>,
    types: Seq<TypeDescriptionView>,
    at: int,
) -> Result<InterfaceVariableView, ReflectError> {
    match spec_variable_type(nodes, types, at) {
        Err(e) => Err(e),
        Ok(type_index) => match spec_name(words, nodes, nodes[at].result_id) {
            Err(e) => Err(e),
            Ok(name) => spec_interface_variable(
                words,
                nodes,
                types[type_index],
                nodes[at].result_id,
                name,
                nodes[at].storage_class,
                spec_decorations(words, nodes, nodes[at].result_id),
            ),
        },
    }
}

/// Whether each of the first `k` of the interface ids `ids` is defined.
pub open spec fn spec_all_defined(nodes: Seq<ParserNode>, ids: Seq<u32>, k: int) -> bool
    decreases k,
{
    if k <= 0 {
        true
    } else {
        spec_all_defined(nodes, ids, k - 1) && spec_find_node(nodes, ids[k - 1]).is_some()
    }
}

/// The inputs and the outputs that the interface ids `ids` name. Every id
/// must be defined. Each must then, in the order of the ids, have a type
/// that is described, and be an input or an output.
pub open spec fn spec_interface(
    words: Seq<u32>,
    nodes: Seq<ParserNode>,
    types: Seq<TypeDescriptionView>,
    ids: Seq<u32>,
) -> Result<(Seq<InterfaceVariableView>, Seq<InterfaceVariableView>), ReflectError> {
    if !spec_all_defined(nodes, ids, ids.len() as int) {
        Err(ReflectError::InvalidIdReference)
    } else {
        spec_interface_upto(words, nodes, types, ids, ids.len() as int)
    }
}

/// The inputs and the outputs among the first `k` of the interface ids
/// `ids`. The variable that an id names must have a type that is
/// described, and must be in the input or in the output class.
pub open spec fn spec_interface_upto(
    words: Seq<u32>,
    nodes: Seq<ParserNode>,
    types: Seq<TypeDescriptionView>,
    ids: Seq<u32>,
    k: int,
) -> Result<(Seq<InterfaceVariableView>, Seq<InterfaceVariableView>), ReflectError>
    decreases k,
{
    if k <= 0 {
        Ok((Seq::empty(), Seq::empty()))
    } else {
        match spec_interface_upto(words, nodes, types, ids, k - 1) {
            Err(e) => Err(e),
            Ok((inputs, outputs)) => match spec_find_node(nodes, ids[k - 1]) {
                None => Err(ReflectError::InvalidIdReference),
                Some(at) => match spec_variable_type(nodes, types, at) {
                    Err(e) => Err(e),
                    Ok(_) => if nodes[at].storage_class == ReflectStorageClass::Input {
                        match spec_entry_variable(words, nodes, types, at) {
                            Err(e) => Err(e),
                            Ok(v) => Ok((inputs.push(v), outputs)),
                        }
                    } else if nodes[at].storage_class == ReflectStorageClass::Output {
                        match spec_entry_variable(words, nodes, types, at) {
                            Err(e) => Err(e),
                            Ok(v) => Ok((inputs, outputs.push(v))),
                        }
                    } else {
                        Err(ReflectError::InvalidStorageClass)
                    },
                },
            },
        }
    }
}

/// Whether `variable` has no location, or the words hold its location at
/// the offset that it records.
pub open spec fn spec_location_recorded(words: Seq<u32>, variable: InterfaceVariableView) -> bool {
    variable.word_offset != 0 ==> variable.word_offset < words.len()
        && words[variable.word_offset as int] == variable.location
}

/// Whether the words hold the location of each of `variables`.
pub open spec fn spec_locations_recorded(
    words: Seq<u32>,
    variables: Seq<InterfaceVariableView>,
) -> bool {
    forall|i: int| 0 <= i < variables.len() ==> spec_location_recorded(
        words,
        #[trigger] variables[i],
    )
}

/// Every input and output that is read from a module records the offset
/// of the word that holds its location.
pub proof fn lemma_interface_recorded(
    words: Seq<u32>,
    nodes: Seq<ParserNode>,
    types: Seq<TypeDescriptionView>,
    ids: Seq<u32>,
    k: int,
)
    requires
        spec_indexed(words, nodes),
        spec_interface_upto(words, nodes, types, ids, k).is_ok(),
    ensures
        spec_locations_recorded(words, spec_interface_upto(words, nodes, types, ids, k).unwrap().0),
        spec_locations_recorded(words, spec_interface_upto(words, nodes, types, ids, k).unwrap().1),
    decreases k,
{
    if k > 0 {
        lemma_interface_recorded(words, nodes, types, ids, k - 1);
        let (inputs, outputs) = spec_interface_upto(words, nodes, types, ids, k - 1).unwrap();
        let after = spec_interface_upto(words, nodes, types, ids, k).unwrap();
        let (inputs_after, outputs_after) = after;
        let at = spec_find_node(nodes, ids[k - 1]).unwrap();
        lemma_decorations_recorded(words, nodes, nodes[at].result_id, nodes.len() as int);
        assert forall|i: int| 0 <= i < inputs_after.len() implies spec_location_recorded(
            words,
            #[trigger] inputs_after[i],
        ) by {
            if i < inputs.len() {
                assert(inputs_after[i] == inputs[i]);
            }
        }
        assert forall|i: int| 0 <= i < outputs_after.len() implies spec_location_recorded(
            words,
            #[trigger] outputs_after[i],
        ) by {
            if i < outputs.len() {
                assert(outputs_after[i] == outputs[i]);
            }
        }
    }
}

/// Once an id is not defined, the ids are not all defined.
pub proof fn lemma_not_all_defined(nodes: Seq<ParserNode>, ids: Seq<u32>, k: int, n: int)
    requires
        0 <= k <= n,
        !spec_all_defined(nodes, ids, k),
    ensures
        !spec_all_defined(nodes, ids, n),
    decreases n - k,
{
    if k < n {
        lemma_not_all_defined(nodes, ids, k, n - 1);
    }
}

/// Once an interface variable cannot be built, the interface cannot.
pub proof fn lemma_interface_fail(
    words: Seq<u32>,
    nodes: Seq<ParserNode>,
    types: Seq<TypeDescriptionView>,
    ids: Seq<u32>,
    k: int,
    n: int,
)
    requires
        0 <= k <= n,
        spec_interface_upto(words, nodes, types, ids, k).is_err(),
    ensures
        spec_interface_upto(words, nodes, types, ids, n) == spec_interface_upto(
            words,
            nodes,
            types,
            ids,
            k,
        ),
    decreases n - k,
{
    if k < n {
        lemma_interface_fail(words, nodes, types, ids, k, n - 1);
    }
}

/// The interface ids of the entry point at node `at`: the words of the
/// instruction that follow its name.
pub open spec fn spec_interface_ids(words: Seq<u32>, nodes: Seq<ParserNode>, at: int) -> Seq<u32> {
    let pos = nodes[at].word_offset as int;
    let end = pos + nodes[at].word_count;
    match spec_literal_bytes(words, pos + 3, end) {
        Some(bytes) => words.subrange(pos + 3 + spec_literal_words(bytes.len() as int), end),
        None => Seq::empty(),
    }
}

/// The entry point at node `at`, before the descriptor sets that it sees
/// are built. `uniforms` and `push_constants` are the ids of the module's
/// bindings and push constant blocks in ascending order; `single` says
/// that the module has one entry point.
pub open spec fn spec_entry_point(
    words: Seq<u32>,
    nodes: Seq<ParserNode>,
    types: Seq<TypeDescriptionView>,
    uniforms: Seq<u32>,
    push_constants: Seq<u32>,
    single: bool,
    at: int,
) -> Result<EntryPointView, ReflectError> {
    let pos = nodes[at].word_offset as int;
    let end = pos + nodes[at].word_count;
    let model = words[pos + 1];
    let id = words[pos + 2];
    let ids = spec_interface_ids(words, nodes, at);
    match spec_literal(words, pos + 3, end) {
        Err(e) => Err(e),
        Ok(name) => match spec_interface(words, nodes, types, ids) {
            Err(e) => Err(e),
            Ok((inputs, outputs)) => Ok(
                EntryPointView {
                    name,
                    id,
                    spirv_execution_model: if spirv_execution_model_defined(model) {
                        Some(model)
                    } else {
                        None
                    },
                    shader_stage: ReflectShaderStage::spec_from_execution_model(model),
                    input_variables: inputs,
                    output_variables: outputs,
                    descriptor_sets: Seq::empty(),
                    used_uniforms: spec_used_ids(words, nodes, id, uniforms, single),
                    used_push_constants: spec_used_ids(
                        words,
                        nodes,
                        id,
                        push_constants,
                        single,
                    ),
                    local_size: spec_local_size_upto(words, nodes, id, nodes.len() as int),
                },
            ),
        },
    }
}

/// The entry points among the first `n` nodes, in the order of the stream.
pub open spec fn spec_entry_points_upto(
    words: Seq<u32>,
    nodes: Seq<ParserNode>,
    types: Seq<TypeDescriptionView>,
    uniforms: Seq<u32>,
    push_constants: Seq<u32>,
    single: bool,
    n: int,
) -> Result<Seq<EntryPointView>, ReflectError>
    decreases n,
{
    if n <= 0 {
        Ok(Seq::empty())
    } else {
        match spec_entry_points_upto(words, nodes, types, uniforms, push_constants, single, n - 1) {
            Err(e) => Err(e),
            Ok(before) => if nodes[n - 1].op == OP_ENTRY_POINT {
                match spec_entry_point(
                    words,
                    nodes,
                    types,
                    uniforms,
                    push_constants,
                    single,
                    n - 1,
                ) {
                    Err(e) => Err(e),
                    Ok(entry) => Ok(before.push(entry)),
                }
            } else {
                Ok(before)
            },
        }
    }
}

/// Whether every entry point is taken to use every resource: where the
/// module has a single entry point and `policy` allows it.
pub open spec fn spec_uses_all(nodes: Seq<ParserNode>, policy: StaticUse) -> bool {
    policy == StaticUse::Conservative && spec_entry_count(nodes, nodes.len() as int) == 1
}

/// The entry points of the module, before the descriptor sets that each
/// sees are built. `uniforms` and `push_constants` are the ids of the
/// module's bindings and of its push constant blocks, as they are declared.
pub open spec fn spec_entry_points(
    words: Seq<u32>,
    nodes: Seq<ParserNode>,
    types: Seq<TypeDescriptionView>,
    uniforms: Seq<u32>,
    push_constants: Seq<u32>,
    policy: StaticUse,
) -> Result<Seq<EntryPointView>, ReflectError> {
    spec_entry_points_upto(
        words,
        nodes,
        types,
        spec_sorted(uniforms),
        spec_sorted(push_constants),
        spec_uses_all(nodes, policy),
        nodes.len() as int,
    )
}

/// Every input and output of every entry point that is read from a
/// module records the offset of the word that holds its location.
pub proof fn lemma_entry_points_recorded(
    words: Seq<u32>,
    nodes: Seq<ParserNode>,
    types: Seq<TypeDescriptionView>,
    uniforms: Seq<u32>,
    push_constants: Seq<u32>,
    single: bool,
    n: int,
)
    requires
        spec_indexed(words, nodes),
        spec_entry_points_upto(words, nodes, types, uniforms, push_constants, single, n).is_ok(),
    ensures
        forall|e: int|
            0 <= e < spec_entry_points_upto(
                words,
                nodes,
                types,
                uniforms,
                push_constants,
                single,
                n,
            ).unwrap().len() ==> {
                let entry = #[trigger] spec_entry_points_upto(
                    words,
                    nodes,
                    types,
                    uniforms,
                    push_constants,
                    single,
                    n,
                ).unwrap()[e];
                &&& spec_locations_recorded(words, entry.input_variables)
                &&& spec_locations_recorded(words, entry.output_variables)
            },
    decreases n,
{
    if n > 0 {
        lemma_entry_points_recorded(words, nodes, types, uniforms, push_constants, single, n - 1);
        let before = spec_entry_points_upto(
            words,
            nodes,
            types,
            uniforms,
            push_constants,
            single,
            n - 1,
        ).unwrap();
        let after = spec_entry_points_upto(
            words,
            nodes,
            types,
            uniforms,
            push_constants,
            single,
            n,
        ).unwrap();
        if nodes[n - 1].op == OP_ENTRY_POINT {
            let ids = spec_interface_ids(words, nodes, n - 1);
            lemma_interface_recorded(words, nodes, types, ids, ids.len() as int);
        }
        assert forall|e: int| 0 <= e < after.len() implies {
            let entry = #[trigger] after[e];
            &&& spec_locations_recorded(words, entry.input_variables)
            &&& spec_locations_recorded(words, entry.output_variables)
        } by {
            if e < before.len() {
                assert(after[e] == before[e]);
            }
        }
    }
}

/// Once an entry point cannot be built, the entry points cannot.
pub proof fn lemma_entry_points_fail(
    words: Seq<u32>,
    nodes: Seq<ParserNode>,
    types: Seq<TypeDescriptionView>,
    uniforms: Seq<u32>,
    push_constants: Seq<u32>,
    single: bool,
    k: int,
    n: int,
)
    requires
        0 <= k <= n,
        spec_entry_points_upto(words, nodes, types, uniforms, push_constants, single, k).is_err(),
    ensures
        spec_entry_points_upto(words, nodes, types, uniforms, push_constants, single, n)
            == spec_entry_points_upto(words, nodes, types, uniforms, push_constants, single, k),
    decreases n - k,
{
    if k < n {
        lemma_entry_points_fail(words, nodes, types, uniforms, push_constants, single, k, n - 1);
    }
}

impl Parser {
    /// The workgroup size of the entry point with the id `id`.
    pub fn local_size_of(&self, id: u32) -> (size: ReflectEntryPointLocalSize)
        requires
            self.wf(),
        ensures
            size == spec_local_size_upto(self.words@, self.nodes@, id, self.nodes@.len() as int),
    {
        let mut size = ReflectEntryPointLocalSize { x: 0, y: 0, z: 0 };
        let mut i: usize = 0;
        while i < self.nodes.len()
            invariant
                i <= self.nodes@.len(),
                self.wf(),
                size == spec_local_size_upto(self.words@, self.nodes@, id, i as int),
            decreases self.nodes@.len() - i,
        {
            let node = self.nodes[i];
            proof {
                lemma_node_ok(self.words@, node);
            }
            let pos = node.word_offset as usize;
            if node.op == OP_EXECUTION_MODE && node.word_count >= 6 {
                if self.words[pos + 1] == id && self.words[pos + 2] == EXECUTION_MODE_LOCAL_SIZE {
                    size = ReflectEntryPointLocalSize {
                        x: self.words[pos + 3],
                        y: self.words[pos + 4],
                        z: self.words[pos + 5],
                    };
                }
            }
            i += 1;
        }
        size
    }

    /// The number of entry points of the module.
    pub fn entry_count(&self) -> (count: usize)
        ensures
            count == spec_entry_count(self.nodes@, self.nodes@.len() as int),
    {
        let mut count: usize = 0;
        let mut i: usize = 0;
        while i < self.nodes.len()
            invariant
                i <= self.nodes@.len(),
                count <= i,
                count == spec_entry_count(self.nodes@, i as int),
            decreases self.nodes@.len() - i,
        {
            if self.nodes[i].op == OP_ENTRY_POINT {
                count += 1;
            }
            i += 1;
        }
        count
    }

    /// The interface variable of the variable at node `at`.
    fn entry_variable(
        &self,
        types: &Vec<ReflectTypeDescription>,
        at: usize,
    ) -> (variable: Result<ReflectInterfaceVariable, ReflectError>)
        requires
            self.wf(),
            at < self.nodes@.len(),
        ensures
            agrees(
                variable,
                spec_entry_variable(self.words@, self.nodes@, views(types@), at as int),
            ),
    {
        let node = self.nodes[at];
        let type_index = self.variable_type(types, at)?;
        let t = &types[type_index];
        assert(views(types@)[type_index as int] == t@);
        let name = self.name_of(node.result_id)?;
        let decorations = self.decorations_of(node.result_id);
        self.interface_variable(t, node.result_id, name, node.storage_class, &decorations)
    }

    /// The inputs and the outputs that the interface ids `ids` name.
    pub fn parse_interface_variables(
        &self,
        types: &Vec<ReflectTypeDescription>,
        ids: &Vec<u32>,
    ) -> (interface: Result<
        (Vec<ReflectInterfaceVariable>, Vec<ReflectInterfaceVariable>),
        ReflectError,
    >)
        requires
            self.wf(),
        ensures
            agrees_both(interface, spec_interface(self.words@, self.nodes@, views(types@), ids@)),
    {
        let mut d: usize = 0;
        while d < ids.len()
            invariant
                d <= ids@.len(),
                spec_all_defined(self.nodes@, ids@, d as int),
            decreases ids@.len() - d,
        {
            if self.find_node(ids[d]).is_none() {
                proof {
                    lemma_not_all_defined(self.nodes@, ids@, d as int + 1, ids@.len() as int);
                }
                return Err(ReflectError::InvalidIdReference);
            }
            d += 1;
        }
        let mut inputs: Vec<ReflectInterfaceVariable> = Vec::new();
        let mut outputs: Vec<ReflectInterfaceVariable> = Vec::new();
        let mut k: usize = 0;
        proof {
            assert(views(inputs@) =~= Seq::<InterfaceVariableView>::empty());
            assert(views(outputs@) =~= Seq::<InterfaceVariableView>::empty());
        }
        while k < ids.len()
            invariant
                k <= ids@.len(),
                self.wf(),
                spec_all_defined(self.nodes@, ids@, ids@.len() as int),
                spec_interface_upto(
                    self.words@,
                    self.nodes@,
                    views(types@),
                    ids@,
                    k as int,
                ) == Ok::<
                    (Seq<InterfaceVariableView>, Seq<InterfaceVariableView>),
                    ReflectError,
                >((views(inputs@), views(outputs@))),
            decreases ids@.len() - k,
        {
            let ghost before_inputs = views(inputs@);
            let ghost before_outputs = views(outputs@);
            let at = match self.find_node(ids[k]) {
                None => {
                    proof {
                        lemma_interface_fail(
                            self.words@,
                            self.nodes@,
                            views(types@),
                            ids@,
                            k as int + 1,
                            ids@.len() as int,
                        );
                    }
                    return Err(ReflectError::InvalidIdReference);
                },
                Some(at) => at,
            };
            if let Err(e) = self.variable_type(types, at) {
                proof {
                    lemma_interface_fail(
                        self.words@,
                        self.nodes@,
                        views(types@),
                        ids@,
                        k as int + 1,
                        ids@.len() as int,
                    );
                }
                return Err(e);
            }
            let storage_class = self.nodes[at].storage_class;
            if storage_class != ReflectStorageClass::Input && storage_class
                != ReflectStorageClass::Output {
                proof {
                    lemma_interface_fail(
                        self.words@,
                        self.nodes@,
                        views(types@),
                        ids@,
                        k as int + 1,
                        ids@.len() as int,
                    );
                }
                return Err(ReflectError::InvalidStorageClass);
            } else {
                match self.entry_variable(types, at) {
                    Err(e) => {
                        proof {
                            lemma_interface_fail(
                                self.words@,
                                self.nodes@,
                                views(types@),
                                ids@,
                                k as int + 1,
                                ids@.len() as int,
                            );
                        }
                        return Err(e);
                    },
                    Ok(v) => {
                        if storage_class == ReflectStorageClass::Input {
                            inputs.push(v);
                            proof {
                                assert(views(inputs@) =~= before_inputs.push(v@));
                            }
                        } else {
                            outputs.push(v);
                            proof {
                                assert(views(outputs@) =~= before_outputs.push(v@));
                            }
                        }
                    },
                }
            }
            k += 1;
        }
        Ok((inputs, outputs))
    }

    /// The entry point at node `at`.
    pub fn entry_point_of(
        &self,
        types: &Vec<ReflectTypeDescription>,
        owners: &Vec<u32>,
        uniforms: &Vec<u32>,
        push_constants: &Vec<u32>,
        single: bool,
        at: usize,
    ) -> (entry_point: Result<ReflectEntryPoint, ReflectError>)
        requires
            self.wf(),
            at < self.nodes@.len(),
            self.nodes@[at as int].op == OP_ENTRY_POINT,
            spec_owners(self.nodes@, owners@),
        ensures
            agrees(
                entry_point,
                spec_entry_point(
                    self.words@,
                    self.nodes@,
                    views(types@),
                    uniforms@,
                    push_constants@,
                    single,
                    at as int,
                ),
            ),
    {
        let node = self.nodes[at];
        proof {
            lemma_node_ok(self.words@, node);
        }
        let pos = node.word_offset as usize;
        let end = pos + node.word_count as usize;
        let model = self.words[pos + 1];
        let id = self.words[pos + 2];
        let (name, name_length) = literal_with_length(&self.words, pos + 3, end)?;
        proof {
            lemma_literal_words(self.words@, pos as int + 3, end as int);
        }
        let first = pos + 3 + literal_words(name_length);
        let mut ids: Vec<u32> = Vec::new();
        let mut w: usize = first;
        while w < end
            invariant
                first <= w <= end <= self.words@.len(),
                ids@ == self.words@.subrange(first as int, w as int),
            decreases end - w,
        {
            ids.push(self.words[w]);
            proof {
                assert(ids@ =~= self.words@.subrange(first as int, w as int + 1));
            }
            w += 1;
        }
        let (inputs, outputs) = self.parse_interface_variables(types, &ids)?;
        let descriptor_sets = Vec::new();
        let entry = ReflectEntryPoint {
            name,
            id,
            spirv_execution_model: if execution_model_defined(model) {
                Some(model)
            } else {
                None
            },
            shader_stage: ReflectShaderStage::from_execution_model(model),
            input_variables: inputs,
            output_variables: outputs,
            descriptor_sets,
            used_uniforms: self.used_ids(owners, id, uniforms, single),
            used_push_constants: self.used_ids(owners, id, push_constants, single),
            local_size: self.local_size_of(id),
        };
        proof {
            assert(entry@.descriptor_sets =~= Seq::empty());
        }
        Ok(entry)
    }

    /// The entry points of the module.
    pub fn parse_entry_points(
        &self,
        types: &Vec<ReflectTypeDescription>,
        uniforms: &Vec<u32>,
        push_constants: &Vec<u32>,
        policy: StaticUse,
    ) -> (entry_points: Result<Vec<ReflectEntryPoint>, ReflectError>)
        requires
            self.wf(),
        ensures
            agrees_all(
                entry_points,
                spec_entry_points(
                    self.words@,
                    self.nodes@,
                    views(types@),
                    uniforms@,
                    push_constants@,
                    policy,
                ),
            ),
    {
        let sorted_uniforms = sorted_ids(uniforms);
        let sorted_push_constants = sorted_ids(push_constants);
        let single = policy == StaticUse::Conservative && self.entry_count() == 1;
        let owners = self.owners_of();
        let mut entries: Vec<ReflectEntryPoint> = Vec::new();
        let mut i: usize = 0;
        proof {
            assert(views(entries@) =~= Seq::<EntryPointView>::empty());
        }
        while i < self.nodes.len()
            invariant
                i <= self.nodes@.len(),
                self.wf(),
                spec_owners(self.nodes@, owners@),
                sorted_uniforms@ == spec_sorted(uniforms@),
                sorted_push_constants@ == spec_sorted(push_constants@),
                single == spec_uses_all(self.nodes@, policy),
                spec_entry_points_upto(
                    self.words@,
                    self.nodes@,
                    views(types@),
                    sorted_uniforms@,
                    sorted_push_constants@,
                    single,
                    i as int,
                ) == Ok::<Seq<EntryPointView>, ReflectError>(views(entries@)),
            decreases self.nodes@.len() - i,
        {
            if self.nodes[i].op == OP_ENTRY_POINT {
                let ghost before = views(entries@);
                match self.entry_point_of(types,
                    &owners,
                    &sorted_uniforms,
                    &sorted_push_constants,
                    single,
                    i,
                ) {
                    Err(e) => {
                        proof {
                            lemma_entry_points_fail(
                                self.words@,
                                self.nodes@,
                                views(types@),
                                sorted_uniforms@,
                                sorted_push_constants@,
                                single,
                                i as int + 1,
                                self.nodes@.len() as int,
                            );
                        }
                        return Err(e);
                    },
                    Ok(entry) => {
                        entries.push(entry);
                        proof {
                            assert(views(entries@) =~= before.push(entry@));
                        }
                    },
                }
            }
            i += 1;
        }
        Ok(entries)
    }
}

} // verus!
