//! The descriptor set synthesizer: from the bindings to the sets they are
//! grouped into, for the module and for each entry point.
//!
//! There are 64 slots for set numbers. A binding takes the slot that has
//! its set number, or claims a free one; the slots come out in ascending
//! order of their set numbers, each with its bindings in the order of the
//! module's bindings. A slot that no binding claimed holds the set number
//! `u32::MAX`, so a binding with that set number finds a free slot its own
//! and claims none: it is in no set.

use crate::error::ReflectError;
use crate::types::descriptor::{
    DescriptorBindingRef, DescriptorBindingRefView, DescriptorBindingView, DescriptorSetView,
    ReflectDescriptorBinding, ReflectDescriptorSet,
};
use crate::views::{agrees, agrees_all, views};
use vstd::prelude::*;

verus! {

/// The number of slots for set numbers.
pub const MAX_DESCRIPTOR_SETS: usize = 64;

/// The set number of a slot that no binding has claimed.
pub const UNASSIGNED_SET: u32 = 0xFFFF_FFFF;

/// Whether `id` is one of `ids`.
pub fn contains_id(ids: &Vec<u32>, id: u32) -> (held: bool)
    ensures
        held == ids@.contains(id),
{
    let mut i: usize = 0;
    while i < ids.len()
        invariant
            i <= ids@.len(),
            forall|j: int| 0 <= j < i ==> ids@[j] != id,
        decreases ids@.len() - i,
    {
        if ids[i] == id {
            return true;
        }
        i += 1;
    }
    false
}

/// The place of the first of `slots` from `from` on that is greater than
/// `set`, or the length of `slots` where none is.
pub open spec fn spec_insert_at(slots: Seq<u32>, set: u32, from: int) -> int
    decreases slots.len() - from,
{
    if from < 0 || from >= slots.len() {
        slots.len() as int
    } else if slots[from] > set {
        from
    } else {
        spec_insert_at(slots, set, from + 1)
    }
}

/// The claimed set numbers after a binding with the set number `set` has
/// looked for its slot among `slots`, which are in ascending order.
pub open spec fn spec_claim(slots: Seq<u32>, set: u32) -> Result<Seq<u32>, ReflectError> {
    if set != UNASSIGNED_SET && slots.contains(set) {
        Ok(slots)
    } else if slots.len() >= MAX_DESCRIPTOR_SETS {
        Err(ReflectError::SetNumberOverflow)
    } else if set == UNASSIGNED_SET {
        Ok(slots)
    } else {
        Ok(slots.insert(spec_insert_at(slots, set, 0), set))
    }
}

/// The set numbers that bindings with the first `k` of the set numbers
/// `numbers` claim, in ascending order.
pub open spec fn spec_slots_upto(numbers: Seq<u32>, k: int) -> Result<Seq<u32>, ReflectError>
    decreases k,
{
    if k <= 0 {
        Ok(Seq::empty())
    } else {
        match spec_slots_upto(numbers, k - 1) {
            Err(e) => Err(e),
            Ok(slots) => spec_claim(slots, numbers[k - 1]),
        }
    }
}

/// The set numbers of `bindings`, in the same order.
pub open spec fn spec_set_numbers(bindings: Seq<DescriptorBindingView>) -> Seq<u32> {
    Seq::new(bindings.len(), |i: int| bindings[i].set)
}

/// The set numbers that `bindings` claim, in ascending order.
pub open spec fn spec_slots(
    bindings: Seq<DescriptorBindingView>,
) -> Result<Seq<u32>, ReflectError> {
    spec_slots_upto(spec_set_numbers(bindings), bindings.len() as int)
}

/// Whether `binding` belongs to the set `set` as seen by an entry point
/// that uses the ids `used`, or by the module where `used` is `None`.
pub open spec fn spec_in_set(
    binding: DescriptorBindingView,
    set: u32,
    used: Option<Seq<u32>>,
) -> bool {
    &&& binding.set == set
    &&& match used {
        Some(ids) => ids.contains(binding.spirv_id),
        None => true,
    }
}

/// The references to those of the first `k` of `bindings` that belong to
/// the set `set`.
pub open spec fn spec_refs_upto(
    bindings: Seq<DescriptorBindingView>,
    set: u32,
    entry: Option<usize>,
    used: Option<Seq<u32>>,
    k: int,
) -> Seq<DescriptorBindingRefView>
    decreases k,
{
    if k <= 0 {
        Seq::empty()
    } else {
        let before = spec_refs_upto(bindings, set, entry, used, k - 1);
        if spec_in_set(bindings[k - 1], set, used) {
            before.push(
                DescriptorBindingRefView {
                    ref_id: Some((k - 1) as usize),
                    entry_point_id: entry,
                    value: bindings[k - 1],
                },
            )
        } else {
            before
        }
    }
}

/// The set with the number `set`.
pub open spec fn spec_set(
    bindings: Seq<DescriptorBindingView>,
    set: u32,
    entry: Option<usize>,
    used: Option<Seq<u32>>,
) -> DescriptorSetView {
    DescriptorSetView {
        set,
        binding_refs: spec_refs_upto(bindings, set, entry, used, bindings.len() as int),
    }
}

/// The sets of the first `j` of `slots`. An entry point sees only the sets
/// in which it uses a binding.
pub open spec fn spec_sets_upto(
    bindings: Seq<DescriptorBindingView>,
    slots: Seq<u32>,
    entry: Option<usize>,
    used: Option<Seq<u32>>,
    j: int,
) -> Seq<DescriptorSetView>
    decreases j,
{
    if j <= 0 {
        Seq::empty()
    } else {
        let before = spec_sets_upto(bindings, slots, entry, used, j - 1);
        let set = spec_set(bindings, slots[j - 1], entry, used);
        if used.is_some() && set.binding_refs.len() == 0 {
            before
        } else {
            before.push(set)
        }
    }
}

/// The descriptor sets of the module: one for each set number that a
/// binding claims, in ascending order of the set numbers, each with its
/// bindings in the order of `bindings`.
pub open spec fn spec_descriptor_sets(bindings: Seq<DescriptorBindingView>) -> Result<
    Seq<DescriptorSetView>,
    ReflectError,
> {
    match spec_slots(bindings) {
        Err(e) => Err(e),
        Ok(slots) => Ok(spec_sets_upto(bindings, slots, None, None, slots.len() as int)),
    }
}

/// The descriptor sets that entry point `entry` sees: of the module's
/// sets, those in which it uses a binding, each with the bindings that it
/// uses.
pub open spec fn spec_entry_descriptor_sets(
    bindings: Seq<DescriptorBindingView>,
    entry: usize,
    used: Seq<u32>,
) -> Result<Seq<DescriptorSetView>, ReflectError> {
    match spec_slots(bindings) {
        Err(e) => Err(e),
        Ok(slots) => Ok(
            spec_sets_upto(bindings, slots, Some(entry), Some(used), slots.len() as int),
        ),
    }
}

/// A binding with the set number `set` looks for its slot among `slots`.
fn claim(slots: &mut Vec<u32>, set: u32) -> (claimed: Result<(), ReflectError>)
    ensures
        match claimed {
            Ok(()) => spec_claim(old(slots)@, set) == Ok::<Seq<u32>, ReflectError>(final(slots)@),
            Err(e) => spec_claim(old(slots)@, set) == Err::<Seq<u32>, ReflectError>(e)
                && final(slots)@ == old(slots)@,
        },
{
    if set != UNASSIGNED_SET && contains_id(slots, set) {
        return Ok(());
    }
    if slots.len() >= MAX_DESCRIPTOR_SETS {
        return Err(ReflectError::SetNumberOverflow);
    }
    if set == UNASSIGNED_SET {
        return Ok(());
    }
    let mut at: usize = 0;
    while at < slots.len() && slots[at] <= set
        invariant
            at <= slots@.len(),
            slots@ == old(slots)@,
            spec_insert_at(slots@, set, 0) == spec_insert_at(slots@, set, at as int),
        decreases slots@.len() - at,
    {
        at += 1;
    }
    slots.insert(at, set);
    Ok(())
}

/// The set numbers that bindings with the set numbers `numbers` claim, in
/// ascending order.
pub fn claim_all(numbers: &Vec<u32>) -> (slots: Result<Vec<u32>, ReflectError>)
    ensures
        agrees(slots, spec_slots_upto(numbers@, numbers@.len() as int)),
{
    let mut slots: Vec<u32> = Vec::new();
    let mut k: usize = 0;
    while k < numbers.len()
        invariant
            k <= numbers@.len(),
            spec_slots_upto(numbers@, k as int) == Ok::<Seq<u32>, ReflectError>(slots@),
        decreases numbers@.len() - k,
    {
        match claim(&mut slots, numbers[k]) {
            Ok(()) => {},
            Err(e) => {
                proof {
                    lemma_slots_fail(numbers@, k as int + 1, numbers@.len() as int);
                }
                return Err(e);
            },
        }
        k += 1;
    }
    Ok(slots)
}

/// The set numbers of `bindings`, in the same order.
pub fn set_numbers_of(bindings: &Vec<ReflectDescriptorBinding>) -> (numbers: Vec<u32>)
    ensures
        numbers@ == spec_set_numbers(views(bindings@)),
{
    let mut numbers: Vec<u32> = Vec::new();
    let mut i: usize = 0;
    while i < bindings.len()
        invariant
            i <= bindings@.len(),
            numbers@.len() == i,
            forall|j: int| 0 <= j < i ==> numbers@[j] == (#[trigger] bindings@[j]).set,
        decreases bindings@.len() - i,
    {
        numbers.push(bindings[i].set);
        i += 1;
    }
    assert(numbers@ =~= spec_set_numbers(views(bindings@)));
    numbers
}

/// The set numbers that `bindings` claim, in ascending order.
pub fn set_numbers(
    bindings: &Vec<ReflectDescriptorBinding>,
) -> (slots: Result<Vec<u32>, ReflectError>)
    ensures
        agrees(slots, spec_slots(views(bindings@))),
{
    let numbers = set_numbers_of(bindings);
    claim_all(&numbers)
}

/// Once a binding finds no slot, the bindings claim no set numbers.
pub proof fn lemma_slots_fail(numbers: Seq<u32>, k: int, n: int)
    requires
        0 <= k <= n,
        spec_slots_upto(numbers, k).is_err(),
    ensures
        spec_slots_upto(numbers, n) == spec_slots_upto(numbers, k),
    decreases n - k,
{
    if k < n {
        lemma_slots_fail(numbers, k, n - 1);
    }
}

/// The ids that an entry point uses, or `None` for the module.
pub open spec fn spec_used(used: Option<&Vec<u32>>) -> Option<Seq<u32>> {
    match used {
        Some(ids) => Some(ids@),
        None => None,
    }
}

/// The set with the number `set`.
fn collect_set(
    bindings: &Vec<ReflectDescriptorBinding>,
    set: u32,
    entry: Option<usize>,
    used: Option<&Vec<u32>>,
) -> (collected: ReflectDescriptorSet)
    ensures
        collected@ == spec_set(views(bindings@), set, entry, spec_used(used)),
{
    let mut refs: Vec<DescriptorBindingRef> = Vec::new();
    let mut k: usize = 0;
    proof {
        assert(views(refs@) =~= Seq::<DescriptorBindingRefView>::empty());
    }
    while k < bindings.len()
        invariant
            k <= bindings@.len(),
            views(refs@) == spec_refs_upto(views(bindings@), set, entry, spec_used(used), k as int),
        decreases bindings@.len() - k,
    {
        assert(views(bindings@)[k as int] == bindings@[k as int]@);
        let binding = &bindings[k];
        let member = binding.set == set && match used {
            Some(ids) => contains_id(ids, binding.spirv_id),
            None => true,
        };
        if member {
            let ghost before = views(refs@);
            let binding_ref = DescriptorBindingRef {
                ref_id: Some(k),
                entry_point_id: entry,
                value: binding.clone(),
            };
            refs.push(binding_ref);
            proof {
                assert(views(refs@) =~= before.push(binding_ref@));
            }
        }
        k += 1;
    }
    ReflectDescriptorSet { set, binding_refs: refs }
}

/// The sets of `slots`, as the module or as an entry point sees them.
pub fn collect_sets(
    bindings: &Vec<ReflectDescriptorBinding>,
    slots: &Vec<u32>,
    entry: Option<usize>,
    used: Option<&Vec<u32>>,
) -> (sets: Vec<ReflectDescriptorSet>)
    ensures
        views(sets@) == spec_sets_upto(
            views(bindings@),
            slots@,
            entry,
            spec_used(used),
            slots@.len() as int,
        ),
{
    let mut sets: Vec<ReflectDescriptorSet> = Vec::new();
    let mut j: usize = 0;
    proof {
        assert(views(sets@) =~= Seq::<DescriptorSetView>::empty());
    }
    while j < slots.len()
        invariant
            j <= slots@.len(),
            views(sets@) == spec_sets_upto(
                views(bindings@),
                slots@,
                entry,
                spec_used(used),
                j as int,
            ),
        decreases slots@.len() - j,
    {
        let set = collect_set(bindings, slots[j], entry, used);
        if !(used.is_some() && set.binding_refs.len() == 0) {
            let ghost before = views(sets@);
            proof {
                assert(views(sets@.push(set)) =~= before.push(set@));
            }
            sets.push(set);
        }
        j += 1;
    }
    sets
}

/// The descriptor sets of the module.
pub fn build_descriptor_sets(bindings: &Vec<ReflectDescriptorBinding>) -> (sets: Result<
    Vec<ReflectDescriptorSet>,
    ReflectError,
>)
    ensures
        agrees_all(sets, spec_descriptor_sets(views(bindings@))),
{
    let slots = set_numbers(bindings)?;
    Ok(collect_sets(bindings, &slots, None, None))
}

/// The bindings fail to claim their set numbers only for want of a slot.
pub proof fn lemma_slots_error(numbers: Seq<u32>, k: int)
    ensures
        spec_slots_upto(numbers, k) matches Err(e) ==> e == ReflectError::SetNumberOverflow,
    decreases k,
{
    if k > 0 {
        lemma_slots_error(numbers, k - 1);
    }
}

/// Whether each of `slots` is less than those behind it.
pub open spec fn spec_ascending(slots: Seq<u32>) -> bool {
    forall|a: int, b: int| 0 <= a < b < slots.len() ==> slots[a] < slots[b]
}

/// Where a set number is put among ascending ones, those before it are
/// not greater and the one behind it is.
pub proof fn lemma_insert_at(slots: Seq<u32>, set: u32, from: int)
    requires
        0 <= from <= slots.len(),
    ensures
        from <= spec_insert_at(slots, set, from) <= slots.len(),
        forall|x: int| from <= x < spec_insert_at(slots, set, from) ==> slots[x] <= set,
        spec_insert_at(slots, set, from) < slots.len() ==> slots[spec_insert_at(slots, set, from)]
            > set,
    decreases slots.len() - from,
{
    if from < slots.len() && slots[from] <= set {
        lemma_insert_at(slots, set, from + 1);
    }
}

/// A claim keeps the set numbers ascending, and adds at most the set
/// number of the binding that claims.
pub proof fn lemma_claim(slots: Seq<u32>, set: u32)
    requires
        spec_ascending(slots),
        !slots.contains(UNASSIGNED_SET),
        spec_claim(slots, set).is_ok(),
    ensures
        spec_ascending(spec_claim(slots, set).unwrap()),
        !spec_claim(slots, set).unwrap().contains(UNASSIGNED_SET),
        forall|v: u32| #[trigger]
            spec_claim(slots, set).unwrap().contains(v) <==> slots.contains(v) || (v == set && set
                != UNASSIGNED_SET),
{
    let after = spec_claim(slots, set).unwrap();
    if set != UNASSIGNED_SET && !slots.contains(set) {
        let at = spec_insert_at(slots, set, 0);
        lemma_insert_at(slots, set, 0);
        slots.insert_ensures(at, set);
        assert forall|a: int, b: int| 0 <= a < b < after.len() implies after[a] < after[b] by {
            if a < at {
                assert(after[a] == slots[a]);
                assert(slots[a] <= set);
                assert(slots.contains(slots[a]));
            } else if a > at {
                assert(after[a] == slots[a - 1]);
            }
            if b < at {
                assert(after[b] == slots[b]);
            } else if b > at {
                assert(after[b] == slots[b - 1]);
            }
        }
        assert forall|v: u32| #[trigger] after.contains(v) <==> slots.contains(v) || v == set by {
            if after.contains(v) {
                let x = choose|x: int| 0 <= x < after.len() && after[x] == v;
                if x < at {
                    assert(slots[x] == v);
                } else if x > at {
                    assert(slots[x - 1] == v);
                }
            }
            if slots.contains(v) {
                let x = choose|x: int| 0 <= x < slots.len() && slots[x] == v;
                if x < at {
                    assert(after[x] == v);
                } else {
                    assert(after[x + 1] == v);
                }
            }
            if v == set {
                assert(after[at] == v);
            }
        }
    }
}

/// The set numbers that bindings claim are ascending, and they are the set
/// numbers of the bindings, but for that of a free slot.
pub proof fn lemma_slots(numbers: Seq<u32>, k: int)
    requires
        0 <= k <= numbers.len(),
        spec_slots_upto(numbers, k).is_ok(),
    ensures
        spec_ascending(spec_slots_upto(numbers, k).unwrap()),
        !spec_slots_upto(numbers, k).unwrap().contains(UNASSIGNED_SET),
        forall|v: u32| #[trigger]
            spec_slots_upto(numbers, k).unwrap().contains(v) <==> v != UNASSIGNED_SET && exists|
                i: int,
            |
                0 <= i < k && #[trigger] numbers[i] == v,
    decreases k,
{
    if k > 0 {
        lemma_slots(numbers, k - 1);
        let before = spec_slots_upto(numbers, k - 1).unwrap();
        let after = spec_slots_upto(numbers, k).unwrap();
        lemma_claim(before, numbers[k - 1]);
        assert forall|v: u32| #[trigger]
            after.contains(v) <==> v != UNASSIGNED_SET && exists|i: int|
                0 <= i < k && #[trigger] numbers[i] == v by {
            if after.contains(v) {
                if before.contains(v) {
                    let i = choose|i: int| 0 <= i < k - 1 && #[trigger] numbers[i] == v;
                    assert(0 <= i < k && numbers[i] == v);
                } else {
                    assert(numbers[k - 1] == v);
                }
            }
            if v != UNASSIGNED_SET && exists|i: int| 0 <= i < k && #[trigger] numbers[i] == v {
                let i = choose|i: int| 0 <= i < k && #[trigger] numbers[i] == v;
                if i < k - 1 {
                    assert(before.contains(v));
                }
            }
        }
    } else {
        assert(spec_slots_upto(numbers, k).unwrap() =~= Seq::<u32>::empty());
    }
}

/// The module's sets are one for each claimed set number, in the same
/// order.
pub proof fn lemma_module_sets(bindings: Seq<DescriptorBindingView>, slots: Seq<u32>, j: int)
    requires
        0 <= j <= slots.len(),
    ensures
        spec_sets_upto(bindings, slots, None, None, j).len() == j,
        forall|x: int|
            0 <= x < j ==> #[trigger] spec_sets_upto(bindings, slots, None, None, j)[x] == spec_set(
                bindings,
                slots[x],
                None,
                None,
            ),
    decreases j,
{
    if j > 0 {
        lemma_module_sets(bindings, slots, j - 1);
    }
}

/// Whether `r` points at one of the first `k` of `bindings` that belongs
/// to the set `set`, and holds it.
pub open spec fn spec_ref_ok(
    bindings: Seq<DescriptorBindingView>,
    set: u32,
    entry: Option<usize>,
    used: Option<Seq<u32>>,
    k: int,
    r: DescriptorBindingRefView,
) -> bool {
    &&& r.ref_id.is_some()
    &&& r.ref_id.unwrap() < k
    &&& r.entry_point_id == entry
    &&& r.value == bindings[r.ref_id.unwrap() as int]
    &&& spec_in_set(r.value, set, used)
}

/// Whether `refs` point at exactly those of the first `k` of `bindings`
/// that belong to the set `set`, each once and in the order of the
/// bindings.
pub open spec fn spec_refs_ok(
    bindings: Seq<DescriptorBindingView>,
    set: u32,
    entry: Option<usize>,
    used: Option<Seq<u32>>,
    k: int,
    refs: Seq<DescriptorBindingRefView>,
) -> bool {
    &&& forall|p: int|
        0 <= p < refs.len() ==> spec_ref_ok(bindings, set, entry, used, k, #[trigger] refs[p])
    &&& forall|p: int, q: int|
        0 <= p < q < refs.len() ==> (#[trigger] refs[p]).ref_id.unwrap() < (
        #[trigger] refs[q]).ref_id.unwrap()
    &&& forall|i: int|
        0 <= i < k && spec_in_set(#[trigger] bindings[i], set, used) ==> spec_refers(refs, i)
}

/// Whether one of `refs` points at binding `i`.
pub open spec fn spec_refers(refs: Seq<DescriptorBindingRefView>, i: int) -> bool {
    exists|p: int| 0 <= p < refs.len() && (#[trigger] refs[p]).ref_id == Some(i as usize)
}

/// The references of a set point at bindings of the set, each at another
/// one and in the order of the bindings, and hold the bindings they point
/// at.
pub proof fn lemma_refs(
    bindings: Seq<DescriptorBindingView>,
    set: u32,
    entry: Option<usize>,
    used: Option<Seq<u32>>,
    k: int,
)
    requires
        0 <= k <= bindings.len() <= usize::MAX,
    ensures
        spec_refs_ok(bindings, set, entry, used, k, spec_refs_upto(bindings, set, entry, used, k)),
    decreases k,
{
    if k > 0 {
        lemma_refs(bindings, set, entry, used, k - 1);
        let before = spec_refs_upto(bindings, set, entry, used, k - 1);
        let after = spec_refs_upto(bindings, set, entry, used, k);
        assert(spec_refs_ok(bindings, set, entry, used, k - 1, before));
        if spec_in_set(bindings[k - 1], set, used) {
            let last = DescriptorBindingRefView {
                ref_id: Some((k - 1) as usize),
                entry_point_id: entry,
                value: bindings[k - 1],
            };
            assert(after == before.push(last));
            assert forall|p: int| 0 <= p < after.len() implies spec_ref_ok(
                bindings,
                set,
                entry,
                used,
                k,
                #[trigger] after[p],
            ) by {
                if p < before.len() {
                    assert(after[p] == before[p]);
                    assert(spec_ref_ok(bindings, set, entry, used, k - 1, before[p]));
                }
            }
            assert forall|p: int, q: int| 0 <= p < q < after.len() implies (
            #[trigger] after[p]).ref_id.unwrap() < (#[trigger] after[q]).ref_id.unwrap() by {
                assert(after[p] == before[p]);
                assert(spec_ref_ok(bindings, set, entry, used, k - 1, before[p]));
                if q < before.len() {
                    assert(after[q] == before[q]);
                }
            }
            assert forall|i: int|
                0 <= i < k && spec_in_set(#[trigger] bindings[i], set, used) implies spec_refers(
                after,
                i,
            ) by {
                if i < k - 1 {
                    assert(spec_refers(before, i));
                    let p = choose|p: int|
                        0 <= p < before.len() && (#[trigger] before[p]).ref_id == Some(i as usize);
                    assert(after[p] == before[p]);
                } else {
                    assert(after[after.len() - 1] == last);
                }
            }
        } else {
            assert(after == before);
            assert forall|p: int| 0 <= p < after.len() implies spec_ref_ok(
                bindings,
                set,
                entry,
                used,
                k,
                #[trigger] after[p],
            ) by {
                assert(spec_ref_ok(bindings, set, entry, used, k - 1, before[p]));
            }
        }
    }
}

/// Every binding whose set number is not that of a free slot has its set
/// number in exactly one set of the module, and is referred to exactly
/// once, by that set.
pub proof fn lemma_binding_in_one_set(bindings: Seq<DescriptorBindingView>, i: int)
    requires
        bindings.len() <= usize::MAX,
        0 <= i < bindings.len(),
        bindings[i].set != UNASSIGNED_SET,
        spec_descriptor_sets(bindings).is_ok(),
    ensures
        ({
            let sets = spec_descriptor_sets(bindings).unwrap();
            exists|j: int, p: int|
                {
                    &&& 0 <= j < sets.len()
                    &&& 0 <= p < sets[j].binding_refs.len()
                    &&& sets[j].set == bindings[i].set
                    &&& #[trigger] sets[j].binding_refs[p].ref_id == Some(i as usize)
                    &&& forall|j2: int|
                        0 <= j2 < sets.len() && (#[trigger] sets[j2]).set == bindings[i].set ==> j2
                            == j
                    &&& forall|j2: int, p2: int|
                        0 <= j2 < sets.len() && 0 <= p2 < sets[j2].binding_refs.len()
                            && #[trigger] sets[j2].binding_refs[p2].ref_id == Some(i as usize)
                            ==> j2 == j && p2 == p
                }
        }),
{
    let n = bindings.len() as int;
    let slots = spec_slots(bindings).unwrap();
    let sets = spec_descriptor_sets(bindings).unwrap();
    lemma_slots(spec_set_numbers(bindings), n);
    lemma_module_sets(bindings, slots, slots.len() as int);
    let v = bindings[i].set;
    assert(spec_set_numbers(bindings)[i] == v);
    assert(slots.contains(v));
    let j = choose|j: int| 0 <= j < slots.len() && slots[j] == v;
    assert(sets[j] == spec_set(bindings, slots[j], None, None));
    lemma_refs(bindings, v, None, None, n);
    let refs = sets[j].binding_refs;
    assert(spec_refs_ok(bindings, v, None, None, n, refs));
    assert(spec_in_set(bindings[i], v, None));
    assert(spec_refers(refs, i));
    let p = choose|p: int| 0 <= p < refs.len() && (#[trigger] refs[p]).ref_id == Some(i as usize);
    assert forall|j2: int| 0 <= j2 < sets.len() && (#[trigger] sets[j2]).set == v implies j2
        == j by {
        assert(sets[j2] == spec_set(bindings, slots[j2], None, None));
        if j2 < j {
            assert(slots[j2] < slots[j]);
        } else if j2 > j {
            assert(slots[j] < slots[j2]);
        }
    }
    assert forall|j2: int, p2: int|
        0 <= j2 < sets.len() && 0 <= p2 < sets[j2].binding_refs.len()
            && #[trigger] sets[j2].binding_refs[p2].ref_id == Some(i as usize) implies j2 == j
        && p2 == p by {
        assert(sets[j2] == spec_set(bindings, slots[j2], None, None));
        lemma_refs(bindings, slots[j2], None, None, n);
        let refs2 = sets[j2].binding_refs;
        assert(spec_refs_ok(bindings, slots[j2], None, None, n, refs2));
        let r = refs2[p2];
        assert(spec_ref_ok(bindings, slots[j2], None, None, n, r));
        assert(r.value == bindings[i]);
        assert(slots[j2] == v);
        if j2 < j {
            assert(slots[j2] < slots[j]);
        } else if j2 > j {
            assert(slots[j] < slots[j2]);
        }
        assert(j2 == j);
        if p2 < p {
            assert(refs[p2].ref_id.unwrap() < refs[p].ref_id.unwrap());
        } else if p2 > p {
            assert(refs[p].ref_id.unwrap() < refs[p2].ref_id.unwrap());
        }
    }
}

/// Every reference of every set of the module points at a binding that
/// has the set's number, and holds that binding.
pub proof fn lemma_sets_refer_to_members(bindings: Seq<DescriptorBindingView>, j: int, p: int)
    requires
        bindings.len() <= usize::MAX,
        spec_descriptor_sets(bindings).is_ok(),
        0 <= j < spec_descriptor_sets(bindings).unwrap().len(),
        0 <= p < spec_descriptor_sets(bindings).unwrap()[j].binding_refs.len(),
    ensures
        ({
            let set = spec_descriptor_sets(bindings).unwrap()[j];
            let r = set.binding_refs[p];
            &&& r.ref_id.is_some()
            &&& r.ref_id.unwrap() < bindings.len()
            &&& r.value == bindings[r.ref_id.unwrap() as int]
            &&& r.value.set == set.set
        }),
{
    let slots = spec_slots(bindings).unwrap();
    lemma_module_sets(bindings, slots, slots.len() as int);
    lemma_refs(bindings, slots[j], None, None, bindings.len() as int);
    let set = spec_descriptor_sets(bindings).unwrap()[j];
    assert(set == spec_set(bindings, slots[j], None, None));
    assert(spec_ref_ok(
        bindings,
        slots[j],
        None,
        None,
        bindings.len() as int,
        set.binding_refs[p],
    ));
}

} // verus!
