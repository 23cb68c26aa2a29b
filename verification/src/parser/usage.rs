//! Static use: which resources an entry point refers to.
//!
//! An entry point refers to a resource where an instruction of a function
//! that can be reached from the entry point's function takes it as a
//! pointer operand: a load, a store, an access chain, an array length, an
//! image texel pointer, a copy, or a function call that hands it on.
//! Nothing else counts, so no resource is listed as used that is not
//! referred to. The interface list of an entry point names inputs and
//! outputs only, and so no resource.

use crate::parser::annotation::lemma_node_ok;
use crate::parser::node::{
    has_pointer_operand, spec_has_pointer_operand, spec_node_ok, Parser, ParserNode,
};
use crate::sets::contains_id;
use crate::spirv::{
    OP_COPY_MEMORY, OP_COPY_MEMORY_SIZED, OP_FUNCTION, OP_FUNCTION_CALL, OP_FUNCTION_END, OP_STORE,
};
use vstd::prelude::*;

verus! {

/// How the resources that an entry point uses are found.
#[derive(Clone, Copy, Debug, PartialEq, Eq, Structural)]
pub enum StaticUse {
    /// The entry point of a module with a single entry point uses every
    /// resource of the module. In a module with several, an entry point
    /// uses what it refers to.
    Conservative,
    /// An entry point uses what it refers to, however many there are.
    Referenced,
}

/// The id of the function that is open after the first `n` nodes, or 0
/// where none is.
pub open spec fn spec_open_function(nodes: Seq<ParserNode>, n: int) -> u32
    decreases n,
{
    if n <= 0 {
        0
    } else if nodes[n - 1].op == OP_FUNCTION {
        nodes[n - 1].result_id
    } else if nodes[n - 1].op == OP_FUNCTION_END {
        0
    } else {
        spec_open_function(nodes, n - 1)
    }
}

/// The id of the function that node `at` belongs to, or 0.
pub open spec fn spec_owner(nodes: Seq<ParserNode>, at: int) -> u32 {
    spec_open_function(nodes, at + 1)
}

/// Whether `owners` holds, for each node, the id of the function that it
/// belongs to.
pub open spec fn spec_owners(nodes: Seq<ParserNode>, owners: Seq<u32>) -> bool {
    &&& owners.len() == nodes.len()
    &&& forall|i: int| 0 <= i < nodes.len() ==> #[trigger] owners[i] == spec_owner(nodes, i)
}

/// Whether one of the words from `from` up to `end` is `id`.
pub open spec fn spec_has_word(words: Seq<u32>, id: u32, from: int, end: int) -> bool
    decreases end - from,
{
    if from >= end {
        false
    } else {
        words[from] == id || spec_has_word(words, id, from + 1, end)
    }
}

/// Whether the instruction of `node` takes the id `id` as a pointer
/// operand, or hands it to a function.
pub open spec fn spec_accesses(words: Seq<u32>, node: ParserNode, id: u32) -> bool {
    let pos = node.word_offset as int;
    if spec_has_pointer_operand(node.op) {
        words[pos + 3] == id
    } else if node.op == OP_STORE {
        words[pos + 1] == id
    } else if node.op == OP_COPY_MEMORY || node.op == OP_COPY_MEMORY_SIZED {
        words[pos + 1] == id || words[pos + 2] == id
    } else if node.op == OP_FUNCTION_CALL {
        spec_has_word(words, id, pos + 4, pos + node.word_count)
    } else {
        false
    }
}

/// Whether the instruction of `node` takes the id `id` as a pointer
/// operand, or hands it to a function.
fn accesses(words: &Vec<u32>, node: &ParserNode, id: u32) -> (found: bool)
    requires
        words@.len() <= u32::MAX,
        spec_node_ok(words@, *node),
    ensures
        found == spec_accesses(words@, *node, id),
{
    proof {
        lemma_node_ok(words@, *node);
    }
    let pos = node.word_offset as usize;
    if has_pointer_operand(node.op) {
        words[pos + 3] == id
    } else if node.op == OP_STORE {
        words[pos + 1] == id
    } else if node.op == OP_COPY_MEMORY || node.op == OP_COPY_MEMORY_SIZED {
        words[pos + 1] == id || words[pos + 2] == id
    } else if node.op == OP_FUNCTION_CALL {
        let end = pos + node.word_count as usize;
        let mut w: usize = pos + 4;
        while w < end
            invariant
                pos + 4 <= w <= end <= words@.len(),
                node.op == OP_FUNCTION_CALL,
                pos == node.word_offset,
                end == pos + node.word_count,
                spec_has_word(words@, id, pos + 4, end as int) == spec_has_word(
                    words@,
                    id,
                    w as int,
                    end as int,
                ),
            decreases end - w,
        {
            if words[w] == id {
                return true;
            }
            w += 1;
        }
        false
    } else {
        false
    }
}

/// `reached` with the functions added that the calls among the first `n`
/// nodes reach from it: the callee of each call that stands in a function
/// that is reached by then.
pub open spec fn spec_reach_pass(
    words: Seq<u32>,
    nodes: Seq<ParserNode>,
    reached: Seq<u32>,
    n: int,
) -> Seq<u32>
    decreases n,
{
    if n <= 0 {
        reached
    } else {
        let before = spec_reach_pass(words, nodes, reached, n - 1);
        let node = nodes[n - 1];
        let callee = words[node.word_offset + 3];
        if node.op == OP_FUNCTION_CALL && before.contains(spec_owner(nodes, n - 1))
            && !before.contains(callee) {
            before.push(callee)
        } else {
            before
        }
    }
}

/// The functions that are reached from the function `entry` after
/// `rounds` passes over the nodes.
pub open spec fn spec_reach_rounds(
    words: Seq<u32>,
    nodes: Seq<ParserNode>,
    entry: u32,
    rounds: nat,
) -> Seq<u32>
    decreases rounds,
{
    if rounds == 0 {
        seq![entry]
    } else {
        spec_reach_pass(
            words,
            nodes,
            spec_reach_rounds(words, nodes, entry, (rounds - 1) as nat),
            nodes.len() as int,
        )
    }
}

/// The functions that can be reached from the function `entry`: itself,
/// and every function that a reached function calls. One pass for each
/// node is as many as can add anything.
pub open spec fn spec_reachable(words: Seq<u32>, nodes: Seq<ParserNode>, entry: u32) -> Seq<u32> {
    spec_reach_rounds(words, nodes, entry, nodes.len())
}

/// A pass only adds functions at the end.
pub proof fn lemma_pass_extends(words: Seq<u32>, nodes: Seq<ParserNode>, reached: Seq<u32>, n: int)
    ensures
        spec_reach_pass(words, nodes, reached, n).len() >= reached.len(),
        spec_reach_pass(words, nodes, reached, n).subrange(0, reached.len() as int) == reached,
    decreases n,
{
    if n > 0 {
        lemma_pass_extends(words, nodes, reached, n - 1);
        let before = spec_reach_pass(words, nodes, reached, n - 1);
        let after = spec_reach_pass(words, nodes, reached, n);
        assert(after.subrange(0, reached.len() as int) =~= before.subrange(
            0,
            reached.len() as int,
        ));
    } else {
        assert(reached.subrange(0, reached.len() as int) =~= reached);
    }
}

/// Once a pass adds nothing, no later pass does.
pub proof fn lemma_rounds_settle(
    words: Seq<u32>,
    nodes: Seq<ParserNode>,
    entry: u32,
    round: nat,
    later: nat,
)
    requires
        round <= later,
        spec_reach_rounds(words, nodes, entry, round + 1) == spec_reach_rounds(
            words,
            nodes,
            entry,
            round,
        ),
    ensures
        spec_reach_rounds(words, nodes, entry, later) == spec_reach_rounds(
            words,
            nodes,
            entry,
            round,
        ),
    decreases later - round,
{
    if round < later {
        lemma_rounds_settle(words, nodes, entry, round, (later - 1) as nat);
    }
}

/// Whether one of the first `n` nodes stands in one of the functions
/// `reached` and takes the id `id` as a pointer operand.
pub open spec fn spec_accessed(
    words: Seq<u32>,
    nodes: Seq<ParserNode>,
    reached: Seq<u32>,
    id: u32,
    n: int,
) -> bool
    decreases n,
{
    if n <= 0 {
        false
    } else {
        spec_accessed(words, nodes, reached, id, n - 1) || (reached.contains(
            spec_owner(nodes, n - 1),
        ) && spec_accesses(words, nodes[n - 1], id))
    }
}

/// Those of the first `k` of the resources `all` that the entry point with
/// the function `entry` refers to.
pub open spec fn spec_static_use_upto(
    words: Seq<u32>,
    nodes: Seq<ParserNode>,
    entry: u32,
    all: Seq<u32>,
    k: int,
) -> Seq<u32>
    decreases k,
{
    if k <= 0 {
        Seq::empty()
    } else {
        let before = spec_static_use_upto(words, nodes, entry, all, k - 1);
        if spec_accessed(
            words,
            nodes,
            spec_reachable(words, nodes, entry),
            all[k - 1],
            nodes.len() as int,
        ) {
            before.push(all[k - 1])
        } else {
            before
        }
    }
}

/// The resources that an entry point uses, of the module's resources
/// `all`: every one where `single` says so, else those that the entry
/// point refers to.
pub open spec fn spec_used_ids(
    words: Seq<u32>,
    nodes: Seq<ParserNode>,
    entry: u32,
    all: Seq<u32>,
    single: bool,
) -> Seq<u32> {
    if single {
        all
    } else {
        spec_static_use_upto(words, nodes, entry, all, all.len() as int)
    }
}

/// Every resource that an entry point is taken to use is one of the
/// module's, and in a module with several entry points it is one that an
/// instruction in a function reached from the entry point takes as a
/// pointer operand.
pub proof fn lemma_static_use(
    words: Seq<u32>,
    nodes: Seq<ParserNode>,
    entry: u32,
    all: Seq<u32>,
    k: int,
)
    requires
        0 <= k <= all.len(),
    ensures
        forall|x: int|
            0 <= x < spec_static_use_upto(words, nodes, entry, all, k).len() ==> {
                let id = #[trigger] spec_static_use_upto(words, nodes, entry, all, k)[x];
                &&& all.contains(id)
                &&& spec_accessed(
                    words,
                    nodes,
                    spec_reachable(words, nodes, entry),
                    id,
                    nodes.len() as int,
                )
            },
    decreases k,
{
    if k > 0 {
        lemma_static_use(words, nodes, entry, all, k - 1);
        let before = spec_static_use_upto(words, nodes, entry, all, k - 1);
        let after = spec_static_use_upto(words, nodes, entry, all, k);
        assert forall|x: int| 0 <= x < after.len() implies {
            let id = #[trigger] after[x];
            &&& all.contains(id)
            &&& spec_accessed(
                words,
                nodes,
                spec_reachable(words, nodes, entry),
                id,
                nodes.len() as int,
            )
        } by {
            if x < before.len() {
                assert(after[x] == before[x]);
            } else {
                assert(after[x] == all[k - 1]);
            }
        }
    }
}

impl Parser {
    /// For each node, the id of the function that it belongs to.
    pub fn owners_of(&self) -> (owners: Vec<u32>)
        ensures
            spec_owners(self.nodes@, owners@),
    {
        let mut owners: Vec<u32> = Vec::new();
        let mut open: u32 = 0;
        let mut i: usize = 0;
        while i < self.nodes.len()
            invariant
                i <= self.nodes@.len(),
                owners@.len() == i,
                open == spec_open_function(self.nodes@, i as int),
                forall|j: int| 0 <= j < i ==> #[trigger] owners@[j] == spec_owner(self.nodes@, j),
            decreases self.nodes@.len() - i,
        {
            if self.nodes[i].op == OP_FUNCTION {
                open = self.nodes[i].result_id;
            } else if self.nodes[i].op == OP_FUNCTION_END {
                open = 0;
            }
            owners.push(open);
            i += 1;
        }
        owners
    }

    /// One pass over the nodes.
    fn reach_pass(&self, owners: &Vec<u32>, reached: &mut Vec<u32>)
        requires
            self.wf(),
            spec_owners(self.nodes@, owners@),
        ensures
            final(reached)@ == spec_reach_pass(
                self.words@,
                self.nodes@,
                old(reached)@,
                self.nodes@.len() as int,
            ),
    {
        let mut i: usize = 0;
        while i < self.nodes.len()
            invariant
                i <= self.nodes@.len(),
                self.wf(),
                spec_owners(self.nodes@, owners@),
                reached@ == spec_reach_pass(self.words@, self.nodes@, old(reached)@, i as int),
            decreases self.nodes@.len() - i,
        {
            let node = self.nodes[i];
            proof {
                lemma_node_ok(self.words@, node);
            }
            if node.op == OP_FUNCTION_CALL {
                let callee = self.words[node.word_offset as usize + 3];
                if contains_id(reached, owners[i]) && !contains_id(reached, callee) {
                    reached.push(callee);
                }
            }
            i += 1;
        }
    }

    /// The functions that can be reached from the function `entry`.
    pub fn reachable(&self, owners: &Vec<u32>, entry: u32) -> (reached: Vec<
        u32,
    >)
        requires
            self.wf(),
            spec_owners(self.nodes@, owners@),
        ensures
            reached@ == spec_reachable(self.words@, self.nodes@, entry),
    {
        let mut reached: Vec<u32> = Vec::new();
        reached.push(entry);
        assert(reached@ =~= seq![entry]);
        let mut round: usize = 0;
        while round < self.nodes.len()
            invariant
                round <= self.nodes@.len(),
                self.wf(),
                spec_owners(self.nodes@, owners@),
                reached@ == spec_reach_rounds(self.words@, self.nodes@, entry, round as nat),
            decreases self.nodes@.len() - round,
        {
            let before = reached.len();
            let ghost start = reached@;
            self.reach_pass(owners, &mut reached);
            if reached.len() == before {
                proof {
                    lemma_pass_extends(self.words@, self.nodes@, start, self.nodes@.len() as int);
                    assert(reached@ =~= start);
                    lemma_rounds_settle(
                        self.words@,
                        self.nodes@,
                        entry,
                        round as nat,
                        self.nodes@.len(),
                    );
                }
                return reached;
            }
            round += 1;
        }
        reached
    }

    /// Whether a node stands in one of the functions `reached` and takes the
    /// id `id` as a pointer operand.
    fn accessed(&self, owners: &Vec<u32>, reached: &Vec<u32>, id: u32) -> (found: bool)
        requires
            self.wf(),
            spec_owners(self.nodes@, owners@),
        ensures
            found == spec_accessed(
                self.words@,
                self.nodes@,
                reached@,
                id,
                self.nodes@.len() as int,
            ),
    {
        let mut found = false;
        let mut i: usize = 0;
        while i < self.nodes.len()
            invariant
                i <= self.nodes@.len(),
                self.wf(),
                spec_owners(self.nodes@, owners@),
                found == spec_accessed(self.words@, self.nodes@, reached@, id, i as int),
            decreases self.nodes@.len() - i,
        {
            if !found {
                let node = self.nodes[i];
                if accesses(&self.words, &node, id) && contains_id(reached, owners[i]) {
                    found = true;
                }
            }
            i += 1;
        }
        found
    }

    /// The resources that an entry point uses.
    pub fn used_ids(
        &self,
        owners: &Vec<u32>,
        entry: u32,
        all: &Vec<u32>,
        single: bool,
    ) -> (used: Vec<u32>)
        requires
            self.wf(),
            spec_owners(self.nodes@, owners@),
        ensures
            used@ == spec_used_ids(self.words@, self.nodes@, entry, all@, single),
    {
        if single {
            return all.clone();
        }
        let reached = self.reachable(owners, entry);
        let mut used: Vec<u32> = Vec::new();
        let mut k: usize = 0;
        while k < all.len()
            invariant
                k <= all@.len(),
                self.wf(),
                spec_owners(self.nodes@, owners@),
                reached@ == spec_reachable(self.words@, self.nodes@, entry),
                used@ == spec_static_use_upto(
                    self.words@,
                    self.nodes@,
                    entry,
                    all@,
                    k as int,
                ),
            decreases all@.len() - k,
        {
            let id = all[k];
            if self.accessed(owners, &reached, id) {
                used.push(id);
            }
            k += 1;
        }
        used
    }
}

} // verus!
