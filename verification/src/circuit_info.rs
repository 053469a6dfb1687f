//! The layout of a circuit: the offsets of its values and of its gates in the builtins.
use vstd::prelude::*;

use cairo_lang_utils::unordered_hash_map::UnorderedHashMap;
use std::collections::hash_map::RandomState;

use crate::circuit::{
    add_mod_gate_name, circuit_input_name, input_index_spec, AddModGate, CircuitInput,
};
use crate::ids::{big_int_to_usize, ConcreteTypeId, GenericArg, GenericArgModel};
use crate::types::{args_as_single_value, SpecializationError, TypeSpecializationContext};

verus! {

// ---------------------------------------------------------------------------------------------
// The maps of cairo_lang_utils, behind trusted items.
// ---------------------------------------------------------------------------------------------

/// `cairo_lang_utils::unordered_hash_map::UnorderedHashMap`, opaque to Verus.
#[verifier::external_type_specification]
#[verifier::external_body]
#[verifier::reject_recursive_types(Key)]
#[verifier::reject_recursive_types(Value)]
#[verifier::reject_recursive_types(BH)]
pub struct ExUnorderedHashMap<Key, Value, BH>(UnorderedHashMap<Key, Value, BH>);

/// The `Clone` that `UnorderedHashMap` derives; nothing is claimed of the copy.
pub assume_specification<Key: Clone, Value: Clone, BH: Clone>[<UnorderedHashMap<
    Key,
    Value,
    BH,
> as Clone>::clone](m: &UnorderedHashMap<Key, Value, BH>) -> UnorderedHashMap<Key, Value, BH>;

/// The map from input indices to their type and whether they need a reduction.
pub type InputsMap = UnorderedHashMap<usize, (ConcreteTypeId, bool), RandomState>;

/// The map from (the ids of) types to their offsets in the values of a circuit.
pub type OffsetsMap = UnorderedHashMap<u64, usize, RandomState>;

/// What a map of input indices holds.
pub uninterp spec fn inputs_map_contents(m: InputsMap) -> Map<usize, (ConcreteTypeId, bool)>;

/// What a map of offsets holds.
pub uninterp spec fn offsets_map_contents(m: OffsetsMap) -> Map<u64, usize>;

/// The map of inputs that holds nothing.
pub open spec fn no_inputs() -> Map<usize, (ConcreteTypeId, bool)> {
    Map::empty()
}

/// The map of offsets that holds nothing.
pub open spec fn no_offsets() -> Map<u64, usize> {
    Map::empty()
}

/// Calls `UnorderedHashMap::default`: the new map holds nothing.
#[verifier::external_body]
fn inputs_map_new() -> (r: InputsMap)
    ensures
        inputs_map_contents(r) == no_inputs(),
{
    UnorderedHashMap::default()
}

/// Calls `UnorderedHashMap::insert`: afterwards `key` maps to `value` and every other key as
/// before.
#[verifier::external_body]
fn inputs_map_insert(m: &mut InputsMap, key: usize, value: (ConcreteTypeId, bool))
    ensures
        inputs_map_contents(*final(m)) == inputs_map_contents(*old(m)).insert(key, value),
{
    m.insert(key, value);
}

/// Calls `UnorderedHashMap::get` and copies the value found: the value of `key`, if any.
#[verifier::external_body]
fn inputs_map_get(m: &InputsMap, key: usize) -> (r: Option<(ConcreteTypeId, bool)>)
    ensures
        r == (if inputs_map_contents(*m).contains_key(key) {
            Some(inputs_map_contents(*m)[key])
        } else {
            None::<(ConcreteTypeId, bool)>
        }),
{
    m.get(&key).copied()
}

/// Calls `UnorderedHashMap::len`: the number of keys.
#[verifier::external_body]
fn inputs_map_len(m: &InputsMap) -> (r: usize)
    ensures
        r == inputs_map_contents(*m).len(),
{
    m.len()
}

/// Whether `s` lists the entries of `m` once each, in strictly ascending order of the keys.
pub open spec fn enumerates<V>(s: Seq<(usize, V)>, m: Map<usize, V>) -> bool {
    &&& forall|i: int, j: int| #![trigger s[i], s[j]] 0 <= i < j < s.len() ==> s[i].0 < s[j].0
    &&& forall|i: int| #![trigger s[i]] 0 <= i < s.len() ==> m.contains_key(s[i].0) && m[s[i].0] == s[i].1
    &&& forall|k: usize|
        #[trigger] m.contains_key(k) ==> exists|i: int| #![trigger s[i]] 0 <= i < s.len() && s[i].0 == k
}

/// Calls `UnorderedHashMap::iter_sorted` and copies the entries it yields into a vector: the
/// result lists every entry of the map once, in ascending order of the keys.
#[verifier::external_body]
fn inputs_map_sorted(m: &InputsMap) -> (r: Vec<(usize, (ConcreteTypeId, bool))>)
    ensures
        enumerates(r@, inputs_map_contents(*m)),
        r@.len() == inputs_map_contents(*m).len(),
{
    m.iter_sorted().map(|(k, v)| (*k, *v)).collect()
}

/// Calls `UnorderedHashMap::default`: the new map holds nothing.
#[verifier::external_body]
fn offsets_map_new() -> (r: OffsetsMap)
    ensures
        offsets_map_contents(r) == no_offsets(),
{
    UnorderedHashMap::default()
}

/// Calls `UnorderedHashMap::insert`: afterwards `key` maps to `value` and every other key as
/// before.
#[verifier::external_body]
fn offsets_map_insert(m: &mut OffsetsMap, key: u64, value: usize)
    ensures
        offsets_map_contents(*final(m)) == offsets_map_contents(*old(m)).insert(key, value),
{
    m.insert(key, value);
}

/// Calls `UnorderedHashMap::get` and copies the value found: the value of `key`, if any.
#[verifier::external_body]
fn offsets_map_get(m: &OffsetsMap, key: u64) -> (r: Option<usize>)
    ensures
        r == (if offsets_map_contents(*m).contains_key(key) {
            Some(offsets_map_contents(*m)[key])
        } else {
            None::<usize>
        }),
{
    m.get(&key).copied()
}

/// Calls `UnorderedHashMap::len`: the number of keys.
#[verifier::external_body]
fn offsets_map_len(m: &OffsetsMap) -> (r: usize)
    ensures
        r == offsets_map_contents(*m).len(),
{
    m.len()
}

// ---------------------------------------------------------------------------------------------
// The circuit as the context describes it.
// ---------------------------------------------------------------------------------------------

/// The type of a generic argument that is a type.
pub open spec fn arg_type(a: GenericArgModel) -> ConcreteTypeId {
    match a {
        GenericArgModel::Type(t) => t,
        _ => ConcreteTypeId { id: 0 },
    }
}

/// Whether the circuit below `ty` is well formed within `fuel` nested gates: every gate has at
/// least two arguments, all of them types, and lies less than `fuel` gates deep.
pub open spec fn node_wf<C: TypeSpecializationContext + ?Sized>(
    ctx: &C,
    ty: ConcreteTypeId,
    fuel: nat,
) -> bool
    decreases fuel, 0nat,
{
    match ctx.type_info_of(ty) {
        Some(info) => if info.long_id.generic_id == circuit_input_name() {
            true
        } else if info.long_id.generic_id == add_mod_gate_name() {
            fuel > 0 && info.long_id.generic_args.len() >= 2 && args_wf(
                ctx,
                info.long_id.generic_args,
                (fuel - 1) as nat,
            )
        } else {
            true
        },
        None => true,
    }
}

/// Whether every argument of `args` is a type whose circuit is well formed within `fuel`.
pub open spec fn args_wf<C: TypeSpecializationContext + ?Sized>(
    ctx: &C,
    args: Seq<GenericArgModel>,
    fuel: nat,
) -> bool
    decreases fuel, args.len(),
{
    if args.len() == 0 {
        true
    } else {
        match args.last() {
            GenericArgModel::Type(t) => node_wf(ctx, t, fuel) && args_wf(
                ctx,
                args.drop_last(),
                fuel,
            ),
            _ => false,
        }
    }
}

/// Whether the search below `ty` ends within `fuel` nested gates and meets gates whose arguments
/// are all types.
pub open spec fn node_fin<C: TypeSpecializationContext + ?Sized>(
    ctx: &C,
    ty: ConcreteTypeId,
    fuel: nat,
) -> bool
    decreases fuel, 0nat,
{
    match ctx.type_info_of(ty) {
        Some(info) => if info.long_id.generic_id == circuit_input_name() {
            true
        } else if info.long_id.generic_id == add_mod_gate_name() {
            fuel > 0 && args_fin(ctx, info.long_id.generic_args, (fuel - 1) as nat)
        } else {
            true
        },
        None => true,
    }
}

/// Whether every argument of `args` is a type below which the search ends within `fuel`.
pub open spec fn args_fin<C: TypeSpecializationContext + ?Sized>(
    ctx: &C,
    args: Seq<GenericArgModel>,
    fuel: nat,
) -> bool
    decreases fuel, args.len(),
{
    if args.len() == 0 {
        true
    } else {
        match args.last() {
            GenericArgModel::Type(t) => node_fin(ctx, t, fuel) && args_fin(
                ctx,
                args.drop_last(),
                fuel,
            ),
            _ => false,
        }
    }
}

/// The number of visits below `ty` within `fuel` nested gates (a gate counts twice).
pub open spec fn node_size<C: TypeSpecializationContext + ?Sized>(
    ctx: &C,
    ty: ConcreteTypeId,
    fuel: nat,
) -> nat
    decreases fuel, 0nat,
{
    match ctx.type_info_of(ty) {
        Some(info) => if info.long_id.generic_id == circuit_input_name() {
            1
        } else if info.long_id.generic_id == add_mod_gate_name() && fuel > 0 {
            2 + args_size(ctx, info.long_id.generic_args, (fuel - 1) as nat)
        } else {
            1
        },
        None => 1,
    }
}

/// The number of visits below the arguments of `args`.
pub open spec fn args_size<C: TypeSpecializationContext + ?Sized>(
    ctx: &C,
    args: Seq<GenericArgModel>,
    fuel: nat,
) -> nat
    decreases fuel, args.len(),
{
    if args.len() == 0 {
        0
    } else {
        (match args.last() {
            GenericArgModel::Type(t) => node_size(ctx, t, fuel),
            _ => 0,
        }) + args_size(ctx, args.drop_last(), fuel)
    }
}

/// What the search for the inputs of a circuit meets, in order: an input, or a failure.
pub enum InputEvent {
    Input { ty: ConcreteTypeId, needs_reduction: bool, idx: usize },
    Fail { err: SpecializationError },
    /// A gate with an argument that is no type, where the search panics, or one below the depth
    /// that the search is followed to.
    Stuck,
}

/// Whether every argument of `args` is a type.
pub open spec fn all_types(args: Seq<GenericArgModel>) -> bool {
    forall|i: int| 0 <= i < args.len() ==> #[trigger] args[i] is Type
}

/// The events of the search below `ty`; `needs_reduction` tells whether `ty` feeds a gate.
/// The search visits the arguments of a gate from the last to the first.
pub open spec fn node_events<C: TypeSpecializationContext + ?Sized>(
    ctx: &C,
    ty: ConcreteTypeId,
    needs_reduction: bool,
    fuel: nat,
) -> Seq<InputEvent>
    decreases fuel, 0nat,
{
    match ctx.type_info_of(ty) {
        None => seq![InputEvent::Fail { err: SpecializationError::MissingTypeInfo(ty) }],
        Some(info) => if info.long_id.generic_id == circuit_input_name() {
            match input_index_spec(info.long_id.generic_args) {
                Ok(idx) => seq![InputEvent::Input { ty, needs_reduction, idx }],
                Err(err) => seq![InputEvent::Fail { err }],
            }
        } else if info.long_id.generic_id == add_mod_gate_name() {
            if fuel > 0 && all_types(info.long_id.generic_args) {
                args_events(ctx, info.long_id.generic_args, true, (fuel - 1) as nat)
            } else {
                seq![InputEvent::Stuck]
            }
        } else {
            seq![InputEvent::Fail { err: SpecializationError::UnsupportedGenericArg }]
        },
    }
}

/// The events of the search below the arguments of `args`, from the last to the first.
pub open spec fn args_events<C: TypeSpecializationContext + ?Sized>(
    ctx: &C,
    args: Seq<GenericArgModel>,
    needs_reduction: bool,
    fuel: nat,
) -> Seq<InputEvent>
    decreases fuel, args.len(),
{
    if args.len() == 0 {
        Seq::empty()
    } else {
        (match args.last() {
            GenericArgModel::Type(t) => node_events(ctx, t, needs_reduction, fuel),
            _ => Seq::empty(),
        }) + args_events(ctx, args.drop_last(), needs_reduction, fuel)
    }
}

/// Whether no failure occurs among `events`.
pub open spec fn no_fail(events: Seq<InputEvent>) -> bool {
    forall|i: int| 0 <= i < events.len() ==> #[trigger] events[i] is Input
}

/// The first failure among `events`.
pub open spec fn first_fail(events: Seq<InputEvent>) -> SpecializationError
    decreases events.len(),
{
    if events.len() == 0 {
        SpecializationError::UnsupportedGenericArg
    } else {
        match events[0] {
            InputEvent::Fail { err } => err,
            InputEvent::Input { .. } => first_fail(events.drop_first()),
            InputEvent::Stuck => SpecializationError::UnsupportedGenericArg,
        }
    }
}

/// The inputs met: each index maps to the type of its last event, and needs a reduction when
/// any of its events feeds a gate.
pub open spec fn inputs_fold(events: Seq<InputEvent>) -> Map<usize, (ConcreteTypeId, bool)>
    decreases events.len(),
{
    if events.len() == 0 {
        Map::empty()
    } else {
        let prev = inputs_fold(events.drop_last());
        match events.last() {
            InputEvent::Input { ty, needs_reduction, idx } => prev.insert(
                idx,
                (ty, needs_reduction || (prev.contains_key(idx) && prev[idx].1)),
            ),
            _ => prev,
        }
    }
}

/// Whether some input met feeds a gate.
pub open spec fn any_reduction(events: Seq<InputEvent>) -> bool
    decreases events.len(),
{
    if events.len() == 0 {
        false
    } else {
        any_reduction(events.drop_last()) || events.last() matches InputEvent::Input {
            needs_reduction: true,
            ..
        }
    }
}

/// Whether the inputs met with the same index have the same type.
pub open spec fn unique_inputs(events: Seq<InputEvent>) -> bool {
    forall|i: int, j: int|
        0 <= i < events.len() && 0 <= j < events.len() && #[trigger] events[i] is Input
            && #[trigger] events[j] is Input && events[i]->idx == events[j]->idx
            ==> events[i]->Input_ty == events[j]->Input_ty
}

/// Whether every input met as the operand of a gate is the input that its index maps to.
pub open spec fn operands_unique(events: Seq<InputEvent>) -> bool {
    forall|e: int|
        0 <= e < events.len() && #[trigger] events[e] is Input && events[e]->needs_reduction
            ==> inputs_fold(events)[events[e]->idx].0 == events[e]->Input_ty
}

/// Describes the offsets that define a gate in a circuit.
#[derive(Debug, Eq, PartialEq, Structural, Clone, Copy)]
pub struct GateOffsets {
    pub lhs: usize,
    pub rhs: usize,
    pub output: usize,
}

/// The entries of `m` in ascending order of the keys.
pub open spec fn sorted_entries<V>(m: Map<usize, V>) -> Seq<(usize, V)> {
    choose|s: Seq<(usize, V)>| enumerates(s, m)
}

/// The number of entries that need a reduction.
pub open spec fn reduction_count(entries: Seq<(usize, (ConcreteTypeId, bool))>) -> nat
    decreases entries.len(),
{
    if entries.len() == 0 {
        0
    } else {
        reduction_count(entries.drop_last()) + if entries.last().1.1 {
            1nat
        } else {
            0nat
        }
    }
}

/// The offset of the reduced copy of the last of `entries`: after the `n` inputs, the value 1
/// and the reduced copies before it.
pub open spec fn reduced_offset(entries: Seq<(usize, (ConcreteTypeId, bool))>, n: nat) -> int {
    n + 1 + reduction_count(entries.drop_last()) as int
}

/// The offsets of the inputs: an input that needs a reduction is read from its reduced copy,
/// another from its index.
pub open spec fn input_offsets(entries: Seq<(usize, (ConcreteTypeId, bool))>, n: nat) -> Map<
    u64,
    usize,
>
    decreases entries.len(),
{
    if entries.len() == 0 {
        Map::empty()
    } else {
        let prev = input_offsets(entries.drop_last(), n);
        let e = entries.last();
        if e.1.1 {
            prev.insert(e.1.0.id, reduced_offset(entries, n) as usize)
        } else {
            prev.insert(e.1.0.id, e.0)
        }
    }
}

/// The gates that reduce the inputs: `reduced = 1 * input`, with the value 1 at offset `n`.
pub open spec fn reduction_gates(entries: Seq<(usize, (ConcreteTypeId, bool))>, n: nat) -> Seq<
    GateOffsets,
>
    decreases entries.len(),
{
    if entries.len() == 0 {
        Seq::empty()
    } else {
        let prev = reduction_gates(entries.drop_last(), n);
        let e = entries.last();
        if e.1.1 {
            prev.push(
                GateOffsets { lhs: n as usize, rhs: e.0, output: reduced_offset(entries, n) as usize },
            )
        } else {
            prev
        }
    }
}

/// The model of the parsed inputs of a circuit.
pub struct ParsedModel {
    pub n_inputs: nat,
    pub values: Map<u64, usize>,
    pub mul_offsets: Seq<GateOffsets>,
    pub one_needed: bool,
}

/// What parsing the inputs of a circuit with the outputs `outputs` gives.
pub open spec fn parse_spec<C: TypeSpecializationContext + ?Sized>(
    ctx: &C,
    outputs: Seq<GenericArgModel>,
    fuel: nat,
) -> Result<ParsedModel, SpecializationError> {
    let events = args_events(ctx, outputs, false, fuel);
    if !no_fail(events) {
        Err(first_fail(events))
    } else {
        let m = inputs_fold(events);
        let entries = sorted_entries(m);
        Ok(
            ParsedModel {
                n_inputs: m.len(),
                values: input_offsets(entries, m.len()),
                mul_offsets: reduction_gates(entries, m.len()),
                one_needed: any_reduction(events),
            },
        )
    }
}

/// A bound on the depth of the circuit with the outputs `outputs`, where there is one.
pub open spec fn depth_bound<C: TypeSpecializationContext + ?Sized>(
    ctx: &C,
    outputs: Seq<GenericArgModel>,
) -> nat {
    choose|f: nat| stuck_after_fail(args_events(ctx, outputs, false, f))
}

/// Whether the search meets a failure before any place where it panics or does not end.
pub open spec fn stuck_after_fail(events: Seq<InputEvent>) -> bool {
    forall|i: int|
        0 <= i < events.len() && #[trigger] events[i] is Stuck ==> exists|j: int|
            0 <= j < i && #[trigger] events[j] is Fail
}

/// Whether the inputs of the circuit with the outputs `outputs` can be searched: the outputs
/// are types, and the search meets a failure, or ends, before it would meet a gate with an
/// argument that is no type or follow gates without end; and if it meets no failure, there are
/// fewer distinct input indices than half of `usize::MAX`.
pub open spec fn inputs_wf<C: TypeSpecializationContext + ?Sized>(
    ctx: &C,
    outputs: Seq<GenericArgModel>,
) -> bool {
    &&& all_types(outputs)
    &&& exists|f: nat| stuck_after_fail(args_events(ctx, outputs, false, f))
    &&& {
        let events = args_events(ctx, outputs, false, depth_bound(ctx, outputs));
        no_fail(events) ==> inputs_fold(events).len() < usize::MAX / 2
    }
}

/// Whether the circuit with the outputs `outputs` can be laid out: its inputs can be searched,
/// and if the search meets no failure, every gate has at least two arguments, every input met
/// as the operand of a gate is the input that its index maps to, and the offsets fit in a
/// `usize`.
pub open spec fn circuit_wf<C: TypeSpecializationContext + ?Sized>(
    ctx: &C,
    outputs: Seq<GenericArgModel>,
) -> bool {
    &&& inputs_wf(ctx, outputs)
    &&& {
        let f = depth_bound(ctx, outputs);
        let events = args_events(ctx, outputs, false, f);
        no_fail(events) ==> {
            &&& args_wf(ctx, outputs, f)
            &&& operands_unique(events)
            &&& 2 * inputs_fold(events).len() + 1 + args_gates(ctx, outputs, f).len() <= usize::MAX
        }
    }
}

// ---------------------------------------------------------------------------------------------
// Lemmas on the model.
// ---------------------------------------------------------------------------------------------

/// Two enumerations of the same map in ascending order of the keys are equal.
proof fn lemma_enumerates_unique<V>(s1: Seq<(usize, V)>, s2: Seq<(usize, V)>, m: Map<usize, V>)
    requires
        enumerates(s1, m),
        enumerates(s2, m),
    ensures
        s1 == s2,
    decreases s1.len(),
{
    if s1.len() == 0 {
        if s2.len() > 0 {
            assert(m.contains_key(s2[0].0));
        }
        assert(s1 =~= s2);
    } else {
        let k1 = s1[0].0;
        assert(m.contains_key(k1));
        let j = choose|j: int| #![trigger s2[j]] 0 <= j < s2.len() && s2[j].0 == k1;
        let k2 = s2[0].0;
        assert(m.contains_key(k2));
        let i = choose|i: int| #![trigger s1[i]] 0 <= i < s1.len() && s1[i].0 == k2;
        if i > 0 {
            assert(s1[0].0 < s1[i].0);
        }
        if j > 0 {
            assert(s2[0].0 < s2[j].0);
        }
        assert(k1 == k2);
        let m2 = m.remove(k1);
        let t1 = s1.drop_first();
        let t2 = s2.drop_first();
        assert forall|k: usize| #[trigger] m2.contains_key(k) implies exists|i: int|
            #![trigger t1[i]]
            0 <= i < t1.len() && t1[i].0 == k by {
            assert(m.contains_key(k));
            let i1 = choose|i: int| #![trigger s1[i]] 0 <= i < s1.len() && s1[i].0 == k;
            assert(i1 != 0);
            assert(t1[i1 - 1].0 == k);
        }
        assert forall|k: usize| #[trigger] m2.contains_key(k) implies exists|i: int|
            #![trigger t2[i]]
            0 <= i < t2.len() && t2[i].0 == k by {
            assert(m.contains_key(k));
            let i2 = choose|i: int| #![trigger s2[i]] 0 <= i < s2.len() && s2[i].0 == k;
            assert(i2 != 0);
            assert(t2[i2 - 1].0 == k);
        }
        assert forall|i: int| #![trigger t1[i]] 0 <= i < t1.len() implies m2.contains_key(t1[i].0)
            && m2[t1[i].0] == t1[i].1 by {
            assert(s1[0].0 < s1[i + 1].0);
        }
        assert forall|i: int| #![trigger t2[i]] 0 <= i < t2.len() implies m2.contains_key(t2[i].0)
            && m2[t2[i].0] == t2[i].1 by {
            assert(s2[0].0 < s2[i + 1].0);
        }
        assert forall|a: int, b: int| #![trigger t1[a], t1[b]] 0 <= a < b < t1.len() implies t1[a].0
            < t1[b].0 by {
            assert(s1[a + 1].0 < s1[b + 1].0);
        }
        assert forall|a: int, b: int| #![trigger t2[a], t2[b]] 0 <= a < b < t2.len() implies t2[a].0
            < t2[b].0 by {
            assert(s2[a + 1].0 < s2[b + 1].0);
        }
        lemma_enumerates_unique(t1, t2, m2);
        assert(s1[0] == s2[0]);
        assert(s1 =~= s2) by {
            assert forall|x: int| 0 <= x < s1.len() implies s1[x] == s2[x] by {
                if x > 0 {
                    assert(s1[x] == t1[x - 1]);
                    assert(s2[x] == t2[x - 1]);
                }
            }
        }
    }
}

/// A sequence of events with no failure, followed by a failure: the search fails with it.
proof fn lemma_first_fail(done: Seq<InputEvent>, err: SpecializationError, rest: Seq<InputEvent>)
    requires
        no_fail(done),
    ensures
        first_fail(done + (seq![InputEvent::Fail { err }] + rest)) == err,
        !no_fail(done + (seq![InputEvent::Fail { err }] + rest)),
    decreases done.len(),
{
    let all = done + (seq![InputEvent::Fail { err }] + rest);
    assert(all[done.len() as int] is Fail);
    if done.len() > 0 {
        assert(done[0] is Input);
        assert(all.drop_first() =~= done.drop_first() + (seq![InputEvent::Fail { err }] + rest));
        lemma_first_fail(done.drop_first(), err, rest);
    }
}

/// The events below `args[0..j + 1]`: those of `args[j]`, then those below `args[0..j]`.
proof fn lemma_args_step<C: TypeSpecializationContext + ?Sized>(
    ctx: &C,
    args: Seq<GenericArgModel>,
    j: int,
    needs_reduction: bool,
    fuel: nat,
)
    requires
        0 <= j < args.len(),
    ensures
        args_events(ctx, args.subrange(0, j + 1), needs_reduction, fuel) == (match args[j] {
            GenericArgModel::Type(t) => node_events(ctx, t, needs_reduction, fuel),
            _ => Seq::empty(),
        }) + args_events(ctx, args.subrange(0, j), needs_reduction, fuel),
        args_size(ctx, args.subrange(0, j + 1), fuel) == (match args[j] {
            GenericArgModel::Type(t) => node_size(ctx, t, fuel),
            _ => 0,
        }) + args_size(ctx, args.subrange(0, j), fuel),
{
    assert(args.subrange(0, j + 1).drop_last() =~= args.subrange(0, j));
    assert(args.subrange(0, j + 1).last() == args[j]);
}

/// Every argument of well-formed arguments is a well-formed type.
pub(crate) proof fn lemma_args_wf_elem<C: TypeSpecializationContext + ?Sized>(
    ctx: &C,
    args: Seq<GenericArgModel>,
    fuel: nat,
    j: int,
)
    requires
        args_wf(ctx, args, fuel),
        0 <= j < args.len(),
    ensures
        args[j] is Type,
        node_wf(ctx, arg_type(args[j]), fuel),
    decreases args.len(),
{
    if j < args.len() - 1 {
        lemma_args_wf_elem(ctx, args.drop_last(), fuel, j);
        assert(args.drop_last()[j] == args[j]);
    }
}

/// Every argument of finite arguments is a type below which the search is finite.
proof fn lemma_args_fin_elem<C: TypeSpecializationContext + ?Sized>(
    ctx: &C,
    args: Seq<GenericArgModel>,
    fuel: nat,
    j: int,
)
    requires
        args_fin(ctx, args, fuel),
        0 <= j < args.len(),
    ensures
        args[j] is Type,
        node_fin(ctx, arg_type(args[j]), fuel),
    decreases args.len(),
{
    if j < args.len() - 1 {
        lemma_args_fin_elem(ctx, args.drop_last(), fuel, j);
        assert(args.drop_last()[j] == args[j]);
    }
}

/// The events still to come from a stack of pending visits, the top (last) one first.
pub open spec fn pending_events<C: TypeSpecializationContext + ?Sized>(
    ctx: &C,
    items: Seq<(ConcreteTypeId, bool)>,
    fuels: Seq<nat>,
) -> Seq<InputEvent>
    decreases items.len(),
{
    if items.len() == 0 {
        Seq::empty()
    } else {
        node_events(ctx, items.last().0, items.last().1, fuels.last()) + pending_events(
            ctx,
            items.drop_last(),
            fuels.drop_last(),
        )
    }
}

/// The visits still to come from a stack of pending visits.
pub open spec fn pending_size<C: TypeSpecializationContext + ?Sized>(
    ctx: &C,
    items: Seq<(ConcreteTypeId, bool)>,
    fuels: Seq<nat>,
) -> nat
    decreases items.len(),
{
    if items.len() == 0 {
        0
    } else {
        node_size(ctx, items.last().0, fuels.last()) + pending_size(
            ctx,
            items.drop_last(),
            fuels.drop_last(),
        )
    }
}

/// Pushing a visit on the stack puts its events and its visits first.
proof fn lemma_pending_push<C: TypeSpecializationContext + ?Sized>(
    ctx: &C,
    items: Seq<(ConcreteTypeId, bool)>,
    fuels: Seq<nat>,
    item: (ConcreteTypeId, bool),
    fuel: nat,
)
    ensures
        pending_events(ctx, items.push(item), fuels.push(fuel)) == node_events(
            ctx,
            item.0,
            item.1,
            fuel,
        ) + pending_events(ctx, items, fuels),
        pending_size(ctx, items.push(item), fuels.push(fuel)) == node_size(ctx, item.0, fuel)
            + pending_size(ctx, items, fuels),
{
    assert(items.push(item).drop_last() =~= items);
    assert(fuels.push(fuel).drop_last() =~= fuels);
}

/// The offsets of the inputs are finitely many, at most one per entry.
proof fn lemma_input_offsets_len(entries: Seq<(usize, (ConcreteTypeId, bool))>, n: nat)
    ensures
        input_offsets(entries, n).dom().finite(),
        input_offsets(entries, n).len() <= entries.len(),
    decreases entries.len(),
{
    if entries.len() > 0 {
        lemma_input_offsets_len(entries.drop_last(), n);
    }
}

// ---------------------------------------------------------------------------------------------
// Parsing the inputs.
// ---------------------------------------------------------------------------------------------

/// Returns the type of a generic argument known to be a type.
fn arg_as_type(arg: &GenericArg) -> (r: ConcreteTypeId)
    requires
        arg.deep_view() is Type,
    ensures
        arg.deep_view() == GenericArgModel::Type(r),
{
    match arg {
        GenericArg::Type(ty) => *ty,
        _ => {
            proof {
                assert(false);
            }
            ConcreteTypeId { id: 0 }
        },
    }
}

/// The inputs of a circuit, parsed.
pub struct ParsedInputs {
    /// The number of inputs (distinct input indices).
    pub n_inputs: usize,
    /// Maps a concrete type to its offset in the values array.
    pub values: OffsetsMap,
    /// The offsets for the mul gates that are used to reduce the inputs.
    pub mul_offsets: Vec<GateOffsets>,
    /// The circuit requires the input 1 to be present.
    pub one_needed: bool,
}

/// The model of parsed inputs.
pub open spec fn parsed_model(p: ParsedInputs) -> ParsedModel {
    ParsedModel {
        n_inputs: p.n_inputs as nat,
        values: offsets_map_contents(p.values),
        mul_offsets: p.mul_offsets@,
        one_needed: p.one_needed,
    }
}

/// Parses the inputs of the circuit with the outputs `circuit_outputs`.
/// Inputs that feed an addmod gate require a reduction and are fed to a mul gate; the value 1
/// that the mul gates read sits at the offset `n_inputs`, and the reduced inputs follow it.
pub fn parse_circuit_inputs<C: TypeSpecializationContext + ?Sized>(
    ctx: &C,
    circuit_outputs: &[GenericArg],
) -> (r: Result<ParsedInputs, SpecializationError>)
    requires
        inputs_wf(ctx, circuit_outputs.deep_view()),
    ensures
        match r {
            Ok(p) => parse_spec(ctx, circuit_outputs.deep_view(), depth_bound(ctx, circuit_outputs.deep_view()))
                == Ok::<ParsedModel, SpecializationError>(parsed_model(p)),
            Err(e) => parse_spec(ctx, circuit_outputs.deep_view(), depth_bound(ctx, circuit_outputs.deep_view()))
                == Err::<ParsedModel, SpecializationError>(e),
        },
        r is Ok ==> offsets_map_contents(r->Ok_0.values).dom().finite()
            && offsets_map_contents(r->Ok_0.values).len() < usize::MAX / 2,
        r is Ok ==> r->Ok_0.mul_offsets@.len() <= r->Ok_0.n_inputs,
        r is Ok ==> ({
            let m = inputs_fold(
                args_events(
                    ctx,
                    circuit_outputs.deep_view(),
                    false,
                    depth_bound(ctx, circuit_outputs.deep_view()),
                ),
            );
            enumerates(sorted_entries(m), m)
        }),
{
    let ghost outs = circuit_outputs.deep_view();
    let ghost f = depth_bound(ctx, outs);
    let ghost all = args_events(ctx, outs, false, f);
    let mut stack: Vec<(ConcreteTypeId, bool)> = Vec::new();
    let ghost mut fuels: Seq<nat> = Seq::empty();
    let mut i: usize = 0;
    while i < circuit_outputs.len()
        invariant
            i <= circuit_outputs.len(),
            outs == circuit_outputs.deep_view(),
            all_types(outs),
            stack@.len() == fuels.len(),
            pending_events(ctx, stack@, fuels) == args_events(ctx, outs.subrange(0, i as int), false, f),
        decreases circuit_outputs.len() - i,
    {
        proof {
            assert(outs[i as int] is Type);
            lemma_args_step(ctx, outs, i as int, false, f);
        }
        let t = arg_as_type(&circuit_outputs[i]);
        let ghost prev = stack@;
        let ghost prev_fuels = fuels;
        stack.push((t, false));
        proof {
            fuels = fuels.push(f);
            lemma_pending_push(ctx, prev, prev_fuels, (t, false), f);
        }
        i = i + 1;
    }
    assert(outs.subrange(0, outs.len() as int) =~= outs);

    let mut inputs = inputs_map_new();
    let mut one_needed = false;
    let ghost mut done: Seq<InputEvent> = Seq::empty();
    while stack.len() > 0
        invariant
            outs == circuit_outputs.deep_view(),
            f == depth_bound(ctx, outs),
            all == args_events(ctx, outs, false, f),
            inputs_wf(ctx, outs),
            stuck_after_fail(all),
            stack@.len() == fuels.len(),
            done + pending_events(ctx, stack@, fuels) == all,
            no_fail(done),
            inputs_map_contents(inputs) == inputs_fold(done),
            one_needed == any_reduction(done),
        decreases pending_size(ctx, stack@, fuels),
    {
        let ghost prev = stack@;
        let ghost prev_fuels = fuels;
        let (ty, needs_reduction) = match stack.pop() {
            Some(item) => item,
            None => {
                proof {
                    assert(false);
                }
                return Err(SpecializationError::UnsupportedGenericArg);
            },
        };
        let ghost fuel = fuels.last();
        let ghost rest = pending_events(ctx, stack@, fuels.drop_last());
        proof {
            assert(stack@ == prev.drop_last());
            assert(prev.last() == (ty, needs_reduction));
            fuels = fuels.drop_last();
            assert(pending_events(ctx, prev, prev_fuels) == node_events(ctx, ty, needs_reduction, fuel)
                + rest);
        }
        let long_id = match ctx.get_type_info(ty) {
            Ok(info) => info.long_id,
            Err(e) => {
                proof {
                    assert(node_events(ctx, ty, needs_reduction, fuel) == seq![InputEvent::Fail { err: e }]);
                    lemma_first_fail(done, e, rest);
                }
                return Err(e);
            },
        };
        let ghost info = ctx.type_info_of(ty)->Some_0;
        assert(info.long_id == long_id.deep_view());
        if long_id.generic_id == CircuitInput::id() {
            one_needed = one_needed || needs_reduction;
            let input_args = long_id.generic_args.as_slice();
            assert(input_args.deep_view() =~= long_id.generic_args.deep_view());
            let value = match args_as_single_value(input_args) {
                Ok(v) => v,
                Err(e) => {
                    proof {
                        assert(node_events(ctx, ty, needs_reduction, fuel) == seq![InputEvent::Fail { err: e }]);
                        lemma_first_fail(done, e, rest);
                    }
                    return Err(e);
                },
            };
            let idx = match big_int_to_usize(&value) {
                Some(idx) => idx,
                None => {
                    proof {
                        assert(node_events(ctx, ty, needs_reduction, fuel) == seq![
                            InputEvent::Fail { err: SpecializationError::UnsupportedGenericArg },
                        ]);
                        lemma_first_fail(done, SpecializationError::UnsupportedGenericArg, rest);
                    }
                    return Err(SpecializationError::UnsupportedGenericArg);
                },
            };
            // An input needs a reduction when any of its visits feeds a gate.
            let reduced_before = match inputs_map_get(&inputs, idx) {
                Some(entry) => entry.1,
                None => false,
            };
            inputs_map_insert(&mut inputs, idx, (ty, needs_reduction || reduced_before));
            proof {
                let ev = InputEvent::Input { ty, needs_reduction, idx };
                assert(node_events(ctx, ty, needs_reduction, fuel) == seq![ev]);
                let new_done = done.push(ev);
                assert(new_done.drop_last() =~= done);
                assert(new_done + rest =~= done + (seq![ev] + rest));
                assert forall|k: int| 0 <= k < new_done.len() implies #[trigger] new_done[k] is Input by {
                    if k < done.len() {
                        assert(done[k] is Input);
                    }
                }
                done = new_done;
            }
        } else if long_id.generic_id == AddModGate::id() {
            let args = long_id.generic_args.as_slice();
            let ghost gargs = args.deep_view();
            assert(gargs =~= info.long_id.generic_args);
            proof {
                // The search meets no failure before this gate: it neither panics nor stops here.
                if !(fuel > 0 && all_types(gargs)) {
                    let i = done.len() as int;
                    assert(node_events(ctx, ty, needs_reduction, fuel) == seq![InputEvent::Stuck]);
                    assert(all[i] == InputEvent::Stuck);
                    let j = choose|j: int| 0 <= j < i && #[trigger] all[j] is Fail;
                    assert(all[j] == done[j]);
                    assert(done[j] is Input);
                }
            }
            let mut j: usize = 0;
            while j < args.len()
                invariant
                    j <= args.len(),
                    gargs == args.deep_view(),
                    fuel > 0,
                    all_types(gargs),
                    stack@.len() == fuels.len(),
                    pending_events(ctx, stack@, fuels) == args_events(
                        ctx,
                        gargs.subrange(0, j as int),
                        true,
                        (fuel - 1) as nat,
                    ) + rest,
                    pending_size(ctx, stack@, fuels) == args_size(
                        ctx,
                        gargs.subrange(0, j as int),
                        (fuel - 1) as nat,
                    ) + pending_size(ctx, prev.drop_last(), prev_fuels.drop_last()),
                decreases args.len() - j,
            {
                proof {
                    assert(gargs[j as int] is Type);
                    lemma_args_step(ctx, gargs, j as int, true, (fuel - 1) as nat);
                }
                let t = arg_as_type(&args[j]);
                let ghost before = stack@;
                let ghost before_fuels = fuels;
                stack.push((t, true));
                proof {
                    fuels = fuels.push((fuel - 1) as nat);
                    lemma_pending_push(ctx, before, before_fuels, (t, true), (fuel - 1) as nat);
                }
                j = j + 1;
            }
            proof {
                assert(gargs.subrange(0, gargs.len() as int) =~= gargs);
            }
        } else {
            proof {
                assert(node_events(ctx, ty, needs_reduction, fuel) == seq![
                    InputEvent::Fail { err: SpecializationError::UnsupportedGenericArg },
                ]);
                lemma_first_fail(done, SpecializationError::UnsupportedGenericArg, rest);
            }
            return Err(SpecializationError::UnsupportedGenericArg);
        }
    }
    assert(done =~= all);
    let ghost m = inputs_fold(all);
    let n_inputs = inputs_map_len(&inputs);
    let entries = inputs_map_sorted(&inputs);
    let mut values = offsets_map_new();
    let mut mul_offsets: Vec<GateOffsets> = Vec::new();
    // The reduced inputs start at n_inputs + 1 since a slot is reserved for the value 1.
    let mut reduced_input_offset: usize = n_inputs + 1;
    let mut k: usize = 0;
    assert(entries@.subrange(0, 0) =~= Seq::<(usize, (ConcreteTypeId, bool))>::empty());
    while k < entries.len()
        invariant
            k <= entries.len(),
            entries@.len() == n_inputs,
            n_inputs == m.len(),
            n_inputs < usize::MAX / 2,
            offsets_map_contents(values) == input_offsets(entries@.subrange(0, k as int), m.len()),
            mul_offsets@ == reduction_gates(entries@.subrange(0, k as int), m.len()),
            reduced_input_offset == n_inputs + 1 + reduction_count(entries@.subrange(0, k as int)),
            reduction_count(entries@.subrange(0, k as int)) <= k,
            mul_offsets@.len() <= k,
        decreases entries.len() - k,
    {
        let (input_idx, (ty, needs_reduction)) = entries[k];
        let ghost sub = entries@.subrange(0, k + 1);
        proof {
            assert(sub.drop_last() =~= entries@.subrange(0, k as int));
            assert(sub.last() == entries@[k as int]);
        }
        if needs_reduction {
            // Add `reduced = 1 * input`, a mul gate, to reduce the input modulo the modulus.
            mul_offsets.push(
                GateOffsets { lhs: n_inputs, rhs: input_idx, output: reduced_input_offset },
            );
            offsets_map_insert(&mut values, ty.id, reduced_input_offset);
            reduced_input_offset = reduced_input_offset + 1;
        } else {
            offsets_map_insert(&mut values, ty.id, input_idx);
        }
        k = k + 1;
    }
    proof {
        assert(entries@.subrange(0, entries@.len() as int) =~= entries@);
        assert(enumerates(entries@, m));
        assert(exists|s: Seq<(usize, (ConcreteTypeId, bool))>| enumerates(s, m));
        lemma_enumerates_unique(entries@, sorted_entries(m), m);
        lemma_input_offsets_len(entries@, m.len());
    }
    Ok(ParsedInputs { n_inputs, values, mul_offsets, one_needed })
}

// ---------------------------------------------------------------------------------------------
// The layout of the gates.
// ---------------------------------------------------------------------------------------------

/// An addition gate of the circuit, with its first two arguments.
pub struct GateUse {
    pub gate: ConcreteTypeId,
    pub lhs: ConcreteTypeId,
    pub rhs: ConcreteTypeId,
}

/// The addition `ty` with the information `info`, and its first two arguments.
pub open spec fn gate_use(ty: ConcreteTypeId, info: crate::types::TypeInfoModel) -> GateUse {
    GateUse {
        gate: ty,
        lhs: arg_type(info.long_id.generic_args[0]),
        rhs: arg_type(info.long_id.generic_args[1]),
    }
}

/// The gates below `ty`, in the order in which they are laid out: the gates below the arguments
/// of an addition, from the last argument to the first, then that addition itself.
pub open spec fn node_gates<C: TypeSpecializationContext + ?Sized>(
    ctx: &C,
    ty: ConcreteTypeId,
    fuel: nat,
) -> Seq<GateUse>
    decreases fuel, 0nat,
{
    match ctx.type_info_of(ty) {
        Some(info) => if info.long_id.generic_id == circuit_input_name() {
            Seq::empty()
        } else if info.long_id.generic_id == add_mod_gate_name() && fuel > 0 {
            args_gates(ctx, info.long_id.generic_args, (fuel - 1) as nat).push(gate_use(ty, info))
        } else {
            Seq::empty()
        },
        None => Seq::empty(),
    }
}

/// The gates below the arguments of `args`, from the last argument to the first.
pub open spec fn args_gates<C: TypeSpecializationContext + ?Sized>(
    ctx: &C,
    args: Seq<GenericArgModel>,
    fuel: nat,
) -> Seq<GateUse>
    decreases fuel, args.len(),
{
    if args.len() == 0 {
        Seq::empty()
    } else {
        (match args.last() {
            GenericArgModel::Type(t) => node_gates(ctx, t, fuel),
            _ => Seq::empty(),
        }) + args_gates(ctx, args.drop_last(), fuel)
    }
}

/// The offsets after laying out `gates` in order, from the offsets `values0` of the inputs: a
/// gate that already has an offset is skipped, so that each gate is laid out once; the `k`th
/// gate laid out writes the offset `first + k` and reads its arguments from their offsets.
pub open spec fn add_gates(values0: Map<u64, usize>, gates: Seq<GateUse>, first: nat) -> (
    Map<u64, usize>,
    Seq<GateOffsets>,
)
    decreases gates.len(),
{
    if gates.len() == 0 {
        (values0, Seq::empty())
    } else {
        let (values, adds) = add_gates(values0, gates.drop_last(), first);
        let g = gates.last();
        if values.contains_key(g.gate.id) {
            (values, adds)
        } else {
            let output = (first + adds.len()) as usize;
            (
                values.insert(g.gate.id, output),
                adds.push(GateOffsets { lhs: values[g.lhs.id], rhs: values[g.rhs.id], output }),
            )
        }
    }
}

/// The model of the layout of a circuit.
pub struct CircuitInfoModel {
    pub n_inputs: usize,
    pub one_needed: bool,
    pub values: Map<u64, usize>,
    pub add_offsets: Seq<GateOffsets>,
    pub mul_offsets: Seq<GateOffsets>,
}

/// The outputs of a circuit: the generic arguments of its outputs tuple but the first, the
/// user type.
pub open spec fn circuit_outputs_of(args: Seq<GenericArgModel>) -> Seq<GenericArgModel> {
    if args.len() == 0 {
        args
    } else {
        args.drop_first()
    }
}

/// The offset of the output of the first gate: after the inputs, the value 1 and the reduced
/// inputs.
pub open spec fn gates_first_offset(p: ParsedModel) -> nat {
    p.n_inputs + 1 + p.mul_offsets.len()
}

/// The layout of the circuit with the outputs `outputs`, or the error met.
pub open spec fn layout_spec<C: TypeSpecializationContext + ?Sized>(
    ctx: &C,
    outputs: Seq<GenericArgModel>,
) -> Result<CircuitInfoModel, SpecializationError> {
    let f = depth_bound(ctx, outputs);
    match parse_spec(ctx, outputs, f) {
        Err(e) => Err(e),
        Ok(p) => {
            let (values, add_offsets) = add_gates(
                p.values,
                args_gates(ctx, outputs, f),
                gates_first_offset(p),
            );
            Ok(
                CircuitInfoModel {
                    n_inputs: (p.n_inputs + if p.one_needed {
                        1nat
                    } else {
                        0nat
                    }) as usize,
                    one_needed: p.one_needed,
                    values,
                    add_offsets,
                    mul_offsets: p.mul_offsets,
                },
            )
        },
    }
}

/// The layout of the circuit whose outputs tuple is `ty`, or the error met.
pub open spec fn circuit_info_spec<C: TypeSpecializationContext + ?Sized>(
    ctx: &C,
    ty: ConcreteTypeId,
) -> Result<CircuitInfoModel, SpecializationError> {
    match ctx.type_info_of(ty) {
        None => Err(SpecializationError::MissingTypeInfo(ty)),
        Some(info) => layout_spec(ctx, circuit_outputs_of(info.long_id.generic_args)),
    }
}

/// Whether the circuit whose outputs tuple is `ty` can be laid out (see `circuit_wf`).
pub open spec fn circuit_type_wf<C: TypeSpecializationContext + ?Sized>(
    ctx: &C,
    ty: ConcreteTypeId,
) -> bool {
    match ctx.type_info_of(ty) {
        None => true,
        Some(info) => circuit_wf(ctx, circuit_outputs_of(info.long_id.generic_args)),
    }
}

/// Describes a circuit in the program.
#[derive(Clone, Debug, Eq, PartialEq)]
pub struct CircuitInfo {
    /// The number of circuit inputs (including the input 1 if needed).
    pub n_inputs: usize,
    /// The circuit requires the input 1 to be present.
    /// We put this 1 as the first value after the inputs.
    pub one_needed: bool,
    /// Maps (the id of) a concrete type to its offset in the values array.
    pub values: OffsetsMap,
    /// The offsets for the add gates.
    pub add_offsets: Vec<GateOffsets>,
    /// The offsets for the mul gates.
    pub mul_offsets: Vec<GateOffsets>,
}

impl View for CircuitInfo {
    type V = CircuitInfoModel;

    open spec fn view(&self) -> CircuitInfoModel {
        CircuitInfoModel {
            n_inputs: self.n_inputs,
            one_needed: self.one_needed,
            values: offsets_map_contents(self.values),
            add_offsets: self.add_offsets@,
            mul_offsets: self.mul_offsets@,
        }
    }
}

impl CircuitInfo {
    /// The offset of the value of the type `ty` in the values array, if it has one.
    pub fn value_offset(&self, ty: ConcreteTypeId) -> (r: Option<usize>)
        ensures
            r == (if self@.values.contains_key(ty.id) {
                Some(self@.values[ty.id])
            } else {
                None::<usize>
            }),
    {
        offsets_map_get(&self.values, ty.id)
    }

    /// The number of types that have an offset in the values array.
    pub fn n_values(&self) -> (r: usize)
        ensures
            r == self@.values.len(),
    {
        offsets_map_len(&self.values)
    }
}

/// Whether every event of `s` occurs in `all`.
pub open spec fn contained(s: Seq<InputEvent>, all: Seq<InputEvent>) -> bool {
    forall|i: int| 0 <= i < s.len() ==> all.contains(#[trigger] s[i])
}

/// The gates still to come from a pending visit: all those below a first visit, the addition
/// itself for a second one.
pub open spec fn item_gates<C: TypeSpecializationContext + ?Sized>(
    ctx: &C,
    item: (ConcreteTypeId, bool),
    fuel: nat,
    u: GateUse,
) -> Seq<GateUse> {
    if item.1 {
        node_gates(ctx, item.0, fuel)
    } else {
        seq![u]
    }
}

/// The gates still to come from a stack of pending visits, the top (last) one first.
pub open spec fn pending_gates<C: TypeSpecializationContext + ?Sized>(
    ctx: &C,
    items: Seq<(ConcreteTypeId, bool)>,
    fuels: Seq<nat>,
    uses: Seq<GateUse>,
) -> Seq<GateUse>
    decreases items.len(),
{
    if items.len() == 0 {
        Seq::empty()
    } else {
        item_gates(ctx, items.last(), fuels.last(), uses.last()) + pending_gates(
            ctx,
            items.drop_last(),
            fuels.drop_last(),
            uses.drop_last(),
        )
    }
}

/// The visits still to come from a pending visit.
pub open spec fn item_size<C: TypeSpecializationContext + ?Sized>(
    ctx: &C,
    item: (ConcreteTypeId, bool),
    fuel: nat,
) -> nat {
    if item.1 {
        node_size(ctx, item.0, fuel)
    } else {
        1
    }
}

/// The visits still to come from a stack of pending visits.
pub open spec fn pending_size2<C: TypeSpecializationContext + ?Sized>(
    ctx: &C,
    items: Seq<(ConcreteTypeId, bool)>,
    fuels: Seq<nat>,
) -> nat
    decreases items.len(),
{
    if items.len() == 0 {
        0
    } else {
        item_size(ctx, items.last(), fuels.last()) + pending_size2(
            ctx,
            items.drop_last(),
            fuels.drop_last(),
        )
    }
}

/// Whether the second visit of `ty` is the visit of a gate with its first two arguments `u`.
pub open spec fn second_visit_ok<C: TypeSpecializationContext + ?Sized>(
    ctx: &C,
    ty: ConcreteTypeId,
    u: GateUse,
) -> bool {
    &&& ctx.type_info_of(ty) is Some
    &&& ctx.type_info_of(ty)->Some_0.long_id.generic_id != circuit_input_name()
    &&& ctx.type_info_of(ty)->Some_0.long_id.generic_id == add_mod_gate_name()
    &&& ctx.type_info_of(ty)->Some_0.long_id.generic_args.len() >= 2
    &&& ctx.type_info_of(ty)->Some_0.long_id.generic_args[0] is Type
    &&& ctx.type_info_of(ty)->Some_0.long_id.generic_args[1] is Type
    &&& u == gate_use(ty, ctx.type_info_of(ty)->Some_0)
}

/// Whether the value of `c` has an offset, or a visit of `c` lies above position `k` of the
/// stack.
pub open spec fn available(
    values: Map<u64, usize>,
    c: ConcreteTypeId,
    items: Seq<(ConcreteTypeId, bool)>,
    k: int,
) -> bool {
    values.contains_key(c.id) || exists|q: int| k < q < items.len() && #[trigger] items[q].0 == c
}

/// Whether every visit above a pending second visit on the stack comes from the arguments of a
/// gate.
pub open spec fn operand_visits_above(items: Seq<(ConcreteTypeId, bool)>, nrs: Seq<bool>) -> bool {
    forall|k: int, q: int|
        0 <= k < q < items.len() && !(#[trigger] items[k]).1 ==> #[trigger] nrs[q]
}

/// Popping the top visit keeps the visits above second visits those of gate arguments.
proof fn lemma_operand_visits_pop(items: Seq<(ConcreteTypeId, bool)>, nrs: Seq<bool>)
    requires
        operand_visits_above(items, nrs),
        items.len() == nrs.len(),
        items.len() > 0,
    ensures
        operand_visits_above(items.drop_last(), nrs.drop_last()),
{
    let i2 = items.drop_last();
    let n2 = nrs.drop_last();
    assert forall|k: int, q: int| 0 <= k < q < i2.len() && !(#[trigger] i2[k]).1 implies #[trigger] n2[q] by {
        assert(i2[k] == items[k]);
        assert(n2[q] == nrs[q]);
    }
}

/// Pushing a visit on the stack puts its gates and its visits first.
proof fn lemma_pending2_push<C: TypeSpecializationContext + ?Sized>(
    ctx: &C,
    items: Seq<(ConcreteTypeId, bool)>,
    fuels: Seq<nat>,
    uses: Seq<GateUse>,
    item: (ConcreteTypeId, bool),
    fuel: nat,
    u: GateUse,
)
    ensures
        pending_gates(ctx, items.push(item), fuels.push(fuel), uses.push(u)) == item_gates(
            ctx,
            item,
            fuel,
            u,
        ) + pending_gates(ctx, items, fuels, uses),
        pending_size2(ctx, items.push(item), fuels.push(fuel)) == item_size(ctx, item, fuel)
            + pending_size2(ctx, items, fuels),
{
    assert(items.push(item).drop_last() =~= items);
    assert(fuels.push(fuel).drop_last() =~= fuels);
    assert(uses.push(u).drop_last() =~= uses);
}

/// The gates below `args[0..j + 1]`: those of `args[j]`, then those below `args[0..j]`.
proof fn lemma_args_gates_step<C: TypeSpecializationContext + ?Sized>(
    ctx: &C,
    args: Seq<GenericArgModel>,
    j: int,
    fuel: nat,
)
    requires
        0 <= j < args.len(),
    ensures
        args_gates(ctx, args.subrange(0, j + 1), fuel) == (match args[j] {
            GenericArgModel::Type(t) => node_gates(ctx, t, fuel),
            _ => Seq::empty(),
        }) + args_gates(ctx, args.subrange(0, j), fuel),
{
    assert(args.subrange(0, j + 1).drop_last() =~= args.subrange(0, j));
    assert(args.subrange(0, j + 1).last() == args[j]);
}

/// The events below an argument occur among the events below all the arguments.
proof fn lemma_args_events_contain<C: TypeSpecializationContext + ?Sized>(
    ctx: &C,
    args: Seq<GenericArgModel>,
    j: int,
    needs_reduction: bool,
    fuel: nat,
)
    requires
        0 <= j < args.len(),
        args[j] is Type,
    ensures
        contained(
            node_events(ctx, arg_type(args[j]), needs_reduction, fuel),
            args_events(ctx, args, needs_reduction, fuel),
        ),
    decreases args.len(),
{
    let all = args_events(ctx, args, needs_reduction, fuel);
    let head = match args.last() {
        GenericArgModel::Type(t) => node_events(ctx, t, needs_reduction, fuel),
        _ => Seq::<InputEvent>::empty(),
    };
    let tail = args_events(ctx, args.drop_last(), needs_reduction, fuel);
    assert(all == head + tail);
    let s = node_events(ctx, arg_type(args[j]), needs_reduction, fuel);
    if j == args.len() - 1 {
        assert forall|i: int| 0 <= i < s.len() implies all.contains(#[trigger] s[i]) by {
            assert(all[i] == s[i]);
        }
    } else {
        lemma_args_events_contain(ctx, args.drop_last(), j, needs_reduction, fuel);
        assert(args.drop_last()[j] == args[j]);
        assert forall|i: int| 0 <= i < s.len() implies all.contains(#[trigger] s[i]) by {
            assert(tail.contains(s[i]));
            let x = choose|x: int| 0 <= x < tail.len() && tail[x] == s[i];
            assert(all[head.len() + x] == s[i]);
        }
    }
}

/// Every index of an input met is a key of the inputs map; every key of the map holds the type
/// of an input met with that index, and needs a reduction exactly when such an input does.
pub(crate) proof fn lemma_inputs_fold(events: Seq<InputEvent>)
    ensures
        forall|i: int|
            0 <= i < events.len() && #[trigger] events[i] is Input ==> inputs_fold(
                events,
            ).contains_key(events[i]->idx),
        forall|k: usize| #[trigger]
            inputs_fold(events).contains_key(k) ==> exists|j: int|
                0 <= j < events.len() && #[trigger] events[j] is Input && events[j]->idx == k
                    && inputs_fold(events)[k].0 == events[j]->Input_ty,
        forall|k: usize| #[trigger]
            inputs_fold(events).contains_key(k) ==> (inputs_fold(events)[k].1 <==> exists|j: int|
                0 <= j < events.len() && #[trigger] events[j] is Input && events[j]->idx == k
                    && events[j]->needs_reduction),
    decreases events.len(),
{
    if events.len() > 0 {
        let prev = events.drop_last();
        lemma_inputs_fold(prev);
        let m = inputs_fold(events);
        let pm = inputs_fold(prev);
        let last = events.last();
        assert forall|i: int| 0 <= i < events.len() && #[trigger] events[i] is Input implies m.contains_key(
            events[i]->idx,
        ) by {
            if i < events.len() - 1 {
                assert(prev[i] == events[i]);
            }
        }
        assert forall|k: usize| #[trigger] m.contains_key(k) implies exists|j: int|
            0 <= j < events.len() && #[trigger] events[j] is Input && events[j]->idx == k
                && m[k].0 == events[j]->Input_ty by {
            if last is Input && last->idx == k {
                assert(events[events.len() - 1] is Input);
            } else {
                assert(pm.contains_key(k));
                let j = choose|j: int|
                    0 <= j < prev.len() && #[trigger] prev[j] is Input && prev[j]->idx == k
                        && pm[k].0 == prev[j]->Input_ty;
                assert(events[j] == prev[j]);
            }
        }
        assert forall|k: usize| #[trigger] m.contains_key(k) implies (m[k].1 <==> exists|j: int|
            0 <= j < events.len() && #[trigger] events[j] is Input && events[j]->idx == k
                && events[j]->needs_reduction) by {
            let p_red = exists|j: int|
                0 <= j < prev.len() && #[trigger] prev[j] is Input && prev[j]->idx == k
                    && prev[j]->needs_reduction;
            if p_red {
                let j = choose|j: int|
                    0 <= j < prev.len() && #[trigger] prev[j] is Input && prev[j]->idx == k
                        && prev[j]->needs_reduction;
                assert(events[j] == prev[j]);
                assert(pm.contains_key(k));
            }
            if exists|j: int|
                0 <= j < events.len() && #[trigger] events[j] is Input && events[j]->idx == k
                    && events[j]->needs_reduction {
                let j = choose|j: int|
                    0 <= j < events.len() && #[trigger] events[j] is Input && events[j]->idx == k
                        && events[j]->needs_reduction;
                if j < events.len() - 1 {
                    assert(prev[j] == events[j]);
                    assert(pm.contains_key(k));
                }
            }
            if last is Input && last->idx == k {
                if m[k].1 && !last->needs_reduction {
                    assert(pm.contains_key(k) && pm[k].1);
                }
                if m[k].1 && last->needs_reduction {
                    assert(events[events.len() - 1] is Input);
                }
            } else {
                assert(pm.contains_key(k));
                assert(m[k] == pm[k]);
                if m[k].1 {
                    let j = choose|j: int|
                        0 <= j < prev.len() && #[trigger] prev[j] is Input && prev[j]->idx == k
                            && prev[j]->needs_reduction;
                    assert(events[j] == prev[j]);
                }
            }
        }
    }
}

/// Every entry's type has an offset.
pub(crate) proof fn lemma_input_offsets_keys(entries: Seq<(usize, (ConcreteTypeId, bool))>, n: nat)
    ensures
        forall|i: int|
            0 <= i < entries.len() ==> input_offsets(entries, n).contains_key(
                #[trigger] entries[i].1.0.id,
            ),
    decreases entries.len(),
{
    if entries.len() > 0 {
        lemma_input_offsets_keys(entries.drop_last(), n);
        assert forall|i: int| 0 <= i < entries.len() implies input_offsets(entries, n).contains_key(
            #[trigger] entries[i].1.0.id,
        ) by {
            if i < entries.len() - 1 {
                assert(entries.drop_last()[i] == entries[i]);
            }
        }
    }
}

/// When the inputs with the same index have the same type, the type of every input met has an
/// offset after parsing.
pub(crate) proof fn lemma_inputs_have_offsets(events: Seq<InputEvent>)
    requires
        unique_inputs(events),
        enumerates(sorted_entries(inputs_fold(events)), inputs_fold(events)),
    ensures
        forall|i: int|
            0 <= i < events.len() && #[trigger] events[i] is Input ==> input_offsets(
                sorted_entries(inputs_fold(events)),
                inputs_fold(events).len(),
            ).contains_key(events[i]->Input_ty.id),
{
    let m = inputs_fold(events);
    let entries = sorted_entries(m);
    lemma_inputs_fold(events);
    lemma_input_offsets_keys(entries, m.len());
    assert forall|i: int| 0 <= i < events.len() && #[trigger] events[i] is Input implies input_offsets(
        entries,
        m.len(),
    ).contains_key(events[i]->Input_ty.id) by {
        let k = events[i]->idx;
        assert(m.contains_key(k));
        let j = choose|j: int|
            0 <= j < events.len() && #[trigger] events[j] is Input && events[j]->idx == k
                && m[k].0 == events[j]->Input_ty;
        assert(events[j]->Input_ty == events[i]->Input_ty);
        let x = choose|x: int| #![trigger entries[x]] 0 <= x < entries.len() && entries[x].0 == k;
        assert(entries[x].1 == m[k]);
        assert(input_offsets(entries, m.len()).contains_key(entries[x].1.0.id));
        assert(entries[x].1.0 == events[i]->Input_ty);
    }
}

/// When every input met as an operand is the input its index maps to, the type of every such
/// input has an offset after parsing.
pub(crate) proof fn lemma_operands_have_offsets(events: Seq<InputEvent>)
    requires
        operands_unique(events),
        enumerates(sorted_entries(inputs_fold(events)), inputs_fold(events)),
    ensures
        forall|i: int|
            0 <= i < events.len() && #[trigger] events[i] is Input && events[i]->needs_reduction
                ==> input_offsets(
                sorted_entries(inputs_fold(events)),
                inputs_fold(events).len(),
            ).contains_key(events[i]->Input_ty.id),
{
    let m = inputs_fold(events);
    let entries = sorted_entries(m);
    lemma_inputs_fold(events);
    lemma_input_offsets_keys(entries, m.len());
    assert forall|i: int|
        0 <= i < events.len() && #[trigger] events[i] is Input && events[i]->needs_reduction implies input_offsets(
        entries,
        m.len(),
    ).contains_key(events[i]->Input_ty.id) by {
        let k = events[i]->idx;
        assert(m.contains_key(k));
        let x = choose|x: int| #![trigger entries[x]] 0 <= x < entries.len() && entries[x].0 == k;
        assert(entries[x].1 == m[k]);
        assert(input_offsets(entries, m.len()).contains_key(entries[x].1.0.id));
    }
}

/// A visit of `c` above `k` stays available through a step that keeps the stack below the top,
/// and either keeps a visit of the top's type at the top's position or gives it an offset.
proof fn lemma_available_step(
    values: Map<u64, usize>,
    values2: Map<u64, usize>,
    c: ConcreteTypeId,
    items: Seq<(ConcreteTypeId, bool)>,
    items2: Seq<(ConcreteTypeId, bool)>,
    k: int,
)
    requires
        available(values, c, items, k),
        0 <= k < items.len() - 1,
        forall|id: u64| values.contains_key(id) ==> values2.contains_key(id),
        items2.len() >= items.len() - 1,
        forall|q: int| 0 <= q < items.len() - 1 ==> items2[q] == items[q],
        (items.len() - 1 < items2.len() && items2[items.len() - 1].0 == items.last().0)
            || values2.contains_key(items.last().0.id),
    ensures
        available(values2, c, items2, k),
{
    if !values.contains_key(c.id) {
        let q = choose|q: int| k < q < items.len() && #[trigger] items[q].0 == c;
        if q < items.len() - 1 {
            assert(items2[q].0 == c);
        } else if items.len() - 1 < items2.len() && items2[items.len() - 1].0 == items.last().0 {
            assert(items2[items.len() - 1].0 == c);
        }
    }
}

/// Lays out the circuit whose outputs tuple is `ty`: the offsets of its inputs, of the value 1,
/// of the reduced inputs and of the outputs of its additions, and the offsets that its add and
/// mul gates read and write.
pub fn get_circuit_info<C: TypeSpecializationContext + ?Sized>(
    ctx: &C,
    ty: ConcreteTypeId,
) -> (r: Result<CircuitInfo, SpecializationError>)
    requires
        circuit_type_wf(ctx, ty),
    ensures
        match r {
            Ok(ci) => circuit_info_spec(ctx, ty) == Ok::<CircuitInfoModel, SpecializationError>(ci@),
            Err(e) => circuit_info_spec(ctx, ty) == Err::<CircuitInfoModel, SpecializationError>(e),
        },
{
    let ty_info = ctx.get_type_info(ty)?;
    // Skip the user type.
    let all_args = ty_info.long_id.generic_args.as_slice();
    let start: usize = if all_args.len() == 0 {
        0
    } else {
        1
    };
    let circ_outputs = vstd::slice::slice_subrange(all_args, start, all_args.len());
    let ghost outs = circ_outputs.deep_view();
    proof {
        assert(all_args.deep_view() =~= ty_info.long_id.generic_args.deep_view());
        assert(outs =~= circuit_outputs_of(ctx.type_info_of(ty)->Some_0.long_id.generic_args));
    }
    let parsed = parse_circuit_inputs(ctx, circ_outputs)?;
    let ParsedInputs { n_inputs: n, mut values, mul_offsets, one_needed } = parsed;
    let ghost f = depth_bound(ctx, outs);
    let ghost all_ev = args_events(ctx, outs, false, f);
    let ghost all_gates = args_gates(ctx, outs, f);
    let ghost values0 = offsets_map_contents(values);
    let ghost first: nat = (n + 1 + mul_offsets@.len()) as nat;
    proof {
        assert(no_fail(all_ev));
        assert(args_wf(ctx, outs, f));
        lemma_operands_have_offsets(all_ev);
    }
    let n_inputs = if one_needed {
        n + 1
    } else {
        n
    };
    // The gates write the offsets after the inputs, the value 1 and the reduced inputs.
    let mut next_output: usize = n + 1 + mul_offsets.len();
    let mut add_offsets: Vec<GateOffsets> = Vec::new();

    // Each gate is visited twice: the first visit pushes all its inputs, and the second visit,
    // when all the inputs were already visited, allocates a value for the output and prepares
    // the offsets in the relevant builtin.
    let mut stack: Vec<(ConcreteTypeId, bool)> = Vec::new();
    let ghost mut fuels: Seq<nat> = Seq::empty();
    let ghost mut nrs: Seq<bool> = Seq::empty();
    let ghost mut uses: Seq<GateUse> = Seq::empty();
    let mut i: usize = 0;
    while i < circ_outputs.len()
        invariant
            i <= circ_outputs.len(),
            outs == circ_outputs.deep_view(),
            args_wf(ctx, outs, f),
            all_ev == args_events(ctx, outs, false, f),
            stack@.len() == i,
            fuels.len() == i,
            nrs.len() == i,
            uses.len() == i,
            pending_gates(ctx, stack@, fuels, uses) == args_gates(ctx, outs.subrange(0, i as int), f),
            forall|k: int|
                0 <= k < stack@.len() ==> (#[trigger] stack@[k]).1 && node_wf(ctx, stack@[k].0, fuels[k])
                    && contained(node_events(ctx, stack@[k].0, nrs[k], fuels[k]), all_ev),
        decreases circ_outputs.len() - i,
    {
        proof {
            lemma_args_wf_elem(ctx, outs, f, i as int);
            lemma_args_gates_step(ctx, outs, i as int, f);
            lemma_args_events_contain(ctx, outs, i as int, false, f);
        }
        let t = arg_as_type(&circ_outputs[i]);
        let ghost prev = stack@;
        let ghost u = GateUse { gate: t, lhs: t, rhs: t };
        proof {
            lemma_pending2_push(ctx, prev, fuels, uses, (t, true), f, u);
        }
        stack.push((t, true));
        proof {
            fuels = fuels.push(f);
            nrs = nrs.push(false);
            uses = uses.push(u);
            assert forall|k: int| 0 <= k < stack@.len() implies (#[trigger] stack@[k]).1 && node_wf(
                ctx,
                stack@[k].0,
                fuels[k],
            ) && contained(node_events(ctx, stack@[k].0, nrs[k], fuels[k]), all_ev) by {
                if k < i {
                    assert(stack@[k] == prev[k]);
                }
            }
        }
        i = i + 1;
    }
    assert(outs.subrange(0, outs.len() as int) =~= outs);
    let ghost mut done: Seq<GateUse> = Seq::empty();

    while stack.len() > 0
        invariant
            all_ev == args_events(ctx, outs, false, f),
            all_gates == args_gates(ctx, outs, f),
            no_fail(all_ev),
            forall|e: int|
                0 <= e < all_ev.len() && #[trigger] all_ev[e] is Input && all_ev[e]->needs_reduction
                    ==> values0.contains_key(all_ev[e]->Input_ty.id),
            forall|id: u64| values0.contains_key(id) ==> offsets_map_contents(values).contains_key(id),
            offsets_map_contents(values).dom().finite(),
            stack@.len() == fuels.len(),
            stack@.len() == nrs.len(),
            stack@.len() == uses.len(),
            done + pending_gates(ctx, stack@, fuels, uses) == all_gates,
            (offsets_map_contents(values), add_offsets@) == add_gates(values0, done, first),
            add_offsets@.len() <= done.len(),
            first == n + 1 + mul_offsets@.len(),
            mul_offsets@.len() <= n,
            2 * n + 1 + all_gates.len() <= usize::MAX,
            next_output == first + add_offsets@.len(),
            operand_visits_above(stack@, nrs),
            forall|k: int|
                0 <= k < stack@.len() && (#[trigger] stack@[k]).1 ==> node_wf(ctx, stack@[k].0, fuels[k])
                    && contained(node_events(ctx, stack@[k].0, nrs[k], fuels[k]), all_ev),
            forall|k: int|
                0 <= k < stack@.len() && !(#[trigger] stack@[k]).1 ==> second_visit_ok(
                    ctx,
                    stack@[k].0,
                    uses[k],
                ) && available(offsets_map_contents(values), uses[k].lhs, stack@, k) && available(
                    offsets_map_contents(values),
                    uses[k].rhs,
                    stack@,
                    k,
                ),
        decreases pending_size2(ctx, stack@, fuels),
    {
        let ghost prev = stack@;
        let ghost prev_nrs = nrs;
        let ghost prev_values = offsets_map_contents(values);
        let ghost top = prev.len() - 1;
        let (ty, first_visit) = match stack.pop() {
            Some(item) => item,
            None => {
                proof {
                    assert(false);
                }
                return Err(SpecializationError::UnsupportedGenericArg);
            },
        };
        let ghost fuel = fuels.last();
        let ghost nr = nrs.last();
        let ghost u = uses.last();
        let ghost rest_fuels = fuels.drop_last();
        let ghost rest_uses = uses.drop_last();
        let ghost rest = pending_gates(ctx, stack@, rest_fuels, rest_uses);
        proof {
            assert(stack@ == prev.drop_last());
            assert(prev[top] == (ty, first_visit));
            assert(pending_gates(ctx, prev, fuels, uses) == item_gates(ctx, (ty, first_visit), fuel, u)
                + rest);
            if first_visit {
                assert(node_wf(ctx, prev[top].0, fuels[top]));
                assert(contained(node_events(ctx, prev[top].0, nrs[top], fuels[top]), all_ev));
            } else {
                assert(second_visit_ok(ctx, prev[top].0, uses[top]));
                assert(available(prev_values, uses[top].lhs, prev, top));
                assert(available(prev_values, uses[top].rhs, prev, top));
            }
        }
        let long_id = match ctx.get_type_info(ty) {
            Ok(info) => info.long_id,
            Err(e) => {
                proof {
                    let ev = node_events(ctx, ty, nr, fuel);
                    assert(ev[0] is Fail);
                    assert(all_ev.contains(ev[0]));
                }
                return Err(e);
            },
        };
        let ghost info = ctx.type_info_of(ty)->Some_0;
        assert(info.long_id == long_id.deep_view());
        if long_id.generic_id == CircuitInput::id() {
            proof {
                let ev = node_events(ctx, ty, nr, fuel);
                assert(first_visit);
                assert(all_ev.contains(ev[0]));
                let e = choose|e: int| 0 <= e < all_ev.len() && all_ev[e] == ev[0];
                assert(all_ev[e] is Input);
                if nr {
                    assert(all_ev[e]->needs_reduction);
                    assert(values0.contains_key(ty.id));
                }
                assert(nr == prev_nrs[top]);
                lemma_operand_visits_pop(prev, prev_nrs);
                assert(item_gates(ctx, (ty, first_visit), fuel, u) =~= Seq::<GateUse>::empty());
                assert(done + pending_gates(ctx, stack@, rest_fuels, rest_uses) =~= all_gates);
                fuels = rest_fuels;
                nrs = nrs.drop_last();
                uses = rest_uses;
                assert forall|k: int| 0 <= k < stack@.len() && !(#[trigger] stack@[k]).1 implies available(
                    offsets_map_contents(values),
                    uses[k].lhs,
                    stack@,
                    k,
                ) && available(offsets_map_contents(values), uses[k].rhs, stack@, k) by {
                    assert(prev[k] == stack@[k]);
                    assert(!prev[k].1);
                    assert(prev_nrs[top]);
                    lemma_available_step(prev_values, prev_values, uses[k].lhs, prev, stack@, k);
                    lemma_available_step(prev_values, prev_values, uses[k].rhs, prev, stack@, k);
                }
                assert forall|k: int| 0 <= k < stack@.len() && (#[trigger] stack@[k]).1 implies node_wf(
                    ctx,
                    stack@[k].0,
                    fuels[k],
                ) && contained(node_events(ctx, stack@[k].0, nrs[k], fuels[k]), all_ev) by {
                    assert(prev[k] == stack@[k]);
                }
                assert forall|k: int| 0 <= k < stack@.len() && !(#[trigger] stack@[k]).1 implies second_visit_ok(
                    ctx,
                    stack@[k].0,
                    uses[k],
                ) by {
                    assert(prev[k] == stack@[k]);
                }
            }
        } else if long_id.generic_id == AddModGate::id() {
            let gate_inputs = long_id.generic_args.as_slice();
            let ghost gargs = gate_inputs.deep_view();
            assert(gargs =~= info.long_id.generic_args);
            if first_visit {
                let ghost gu = gate_use(ty, info);
                proof {
                    assert(node_wf(ctx, ty, fuel));
                    assert(fuel > 0);
                    assert(item_gates(ctx, (ty, first_visit), fuel, u) == args_gates(
                        ctx,
                        gargs,
                        (fuel - 1) as nat,
                    ).push(gu));
                    lemma_pending2_push(ctx, stack@, rest_fuels, rest_uses, (ty, false), fuel, gu);
                }
                stack.push((ty, false));
                proof {
                    fuels = rest_fuels.push(fuel);
                    nrs = nrs.drop_last().push(nr);
                    uses = rest_uses.push(gu);
                    assert(seq![gu] + rest == pending_gates(ctx, stack@, fuels, uses));
                    assert(args_gates(ctx, gargs, (fuel - 1) as nat).push(gu) + rest =~= args_gates(
                        ctx,
                        gargs,
                        (fuel - 1) as nat,
                    ) + (seq![gu] + rest));
                    assert(contained(node_events(ctx, ty, nr, fuel), all_ev));
                    assert forall|i: int| 0 <= i < gargs.len() implies #[trigger] gargs[i] is Type by {
                        lemma_args_wf_elem(ctx, gargs, (fuel - 1) as nat, i);
                    }
                    assert(node_events(ctx, ty, nr, fuel) == args_events(ctx, gargs, true, (fuel - 1) as nat));
                }
                let ghost mid = stack@;
                assert(mid =~= prev.drop_last().push((ty, false)));
                let ghost mid_pending = pending_gates(ctx, stack@, fuels, uses);
                let ghost mid_size = pending_size2(ctx, stack@, fuels);
                let ghost mid_fuels = fuels;
                let ghost mid_nrs = nrs;
                let ghost mid_uses = uses;
                let mut j: usize = 0;
                while j < gate_inputs.len()
                    invariant
                        j <= gate_inputs.len(),
                        gargs == gate_inputs.deep_view(),
                        gargs.len() >= 2,
                        fuel > 0,
                        args_wf(ctx, gargs, (fuel - 1) as nat),
                        contained(args_events(ctx, gargs, true, (fuel - 1) as nat), all_ev),
                        stack@.len() == mid.len() + j,
                        stack@.len() == fuels.len(),
                        stack@.len() == nrs.len(),
                        stack@.len() == uses.len(),
                        forall|q: int| 0 <= q < mid.len() ==> stack@[q] == mid[q],
                        forall|q: int|
                            0 <= q < j ==> stack@[mid.len() + q] == (arg_type(gargs[q]), true),
                        pending_gates(ctx, stack@, fuels, uses) == args_gates(
                            ctx,
                            gargs.subrange(0, j as int),
                            (fuel - 1) as nat,
                        ) + mid_pending,
                        pending_size2(ctx, stack@, fuels) == args_size(
                            ctx,
                            gargs.subrange(0, j as int),
                            (fuel - 1) as nat,
                        ) + mid_size,
                        forall|k: int|
                            mid.len() <= k < stack@.len() ==> (#[trigger] stack@[k]).1 && node_wf(
                                ctx,
                                stack@[k].0,
                                fuels[k],
                            ) && contained(node_events(ctx, stack@[k].0, nrs[k], fuels[k]), all_ev),
                        forall|q: int|
                            0 <= q < mid.len() ==> fuels[q] == mid_fuels[q] && nrs[q] == mid_nrs[q]
                                && uses[q] == mid_uses[q],
                        forall|q: int| mid.len() <= q < stack@.len() ==> #[trigger] nrs[q],
                    decreases gate_inputs.len() - j,
                {
                    proof {
                        lemma_args_wf_elem(ctx, gargs, (fuel - 1) as nat, j as int);
                        lemma_args_gates_step(ctx, gargs, j as int, (fuel - 1) as nat);
                        lemma_args_step(ctx, gargs, j as int, true, (fuel - 1) as nat);
                        lemma_args_events_contain(ctx, gargs, j as int, true, (fuel - 1) as nat);
                    }
                    let t = arg_as_type(&gate_inputs[j]);
                    let ghost before = stack@;
                    let ghost cu = GateUse { gate: t, lhs: t, rhs: t };
                    proof {
                        lemma_pending2_push(ctx, before, fuels, uses, (t, true), (fuel - 1) as nat, cu);
                    }
                    stack.push((t, true));
                    proof {
                        fuels = fuels.push((fuel - 1) as nat);
                        nrs = nrs.push(true);
                        uses = uses.push(cu);
                        assert(forall|x: int|
                            0 <= x < node_events(ctx, t, true, (fuel - 1) as nat).len() ==> all_ev.contains(
                                #[trigger] node_events(ctx, t, true, (fuel - 1) as nat)[x],
                            )) by {
                            assert forall|x: int|
                                0 <= x < node_events(ctx, t, true, (fuel - 1) as nat).len() implies all_ev.contains(
                                #[trigger] node_events(ctx, t, true, (fuel - 1) as nat)[x],
                            ) by {
                                let ev = node_events(ctx, t, true, (fuel - 1) as nat)[x];
                                let big = args_events(ctx, gargs, true, (fuel - 1) as nat);
                                assert(big.contains(ev));
                                let y = choose|y: int| 0 <= y < big.len() && big[y] == ev;
                                assert(all_ev.contains(big[y]));
                            }
                        }
                        assert forall|k: int|
                            mid.len() <= k < stack@.len() implies (#[trigger] stack@[k]).1 && node_wf(
                            ctx,
                            stack@[k].0,
                            fuels[k],
                        ) && contained(node_events(ctx, stack@[k].0, nrs[k], fuels[k]), all_ev) by {
                            if k < stack@.len() - 1 {
                                assert(stack@[k] == before[k]);
                            }
                        }
                    }
                    j = j + 1;
                }
                proof {
                    assert(gargs.subrange(0, gargs.len() as int) =~= gargs);
                    lemma_args_wf_elem(ctx, gargs, (fuel - 1) as nat, 0);
                    lemma_args_wf_elem(ctx, gargs, (fuel - 1) as nat, 1);
                    assert(args_gates(ctx, gargs, (fuel - 1) as nat).push(gu) + rest =~= args_gates(
                        ctx,
                        gargs,
                        (fuel - 1) as nat,
                    ) + (seq![gu] + rest));
                    assert(done + pending_gates(ctx, stack@, fuels, uses) =~= all_gates);
                    assert(stack@[top].0 == ty);
                    assert forall|k: int, q: int|
                        0 <= k < q < stack@.len() && !(#[trigger] stack@[k]).1 implies #[trigger] nrs[q] by {
                        if q < mid.len() {
                            assert(nrs[q] == mid_nrs[q]);
                            assert(stack@[k] == mid[k]);
                            if q < top {
                                assert(mid_nrs[q] == prev_nrs[q]);
                                assert(mid[k] == prev[k]);
                            } else {
                                assert(mid_nrs[q] == nr);
                                assert(mid[k] == prev[k]);
                                assert(nr == prev_nrs[top]);
                            }
                        }
                    }
                    assert forall|k: int|
                        0 <= k < stack@.len() && (#[trigger] stack@[k]).1 implies node_wf(
                        ctx,
                        stack@[k].0,
                        fuels[k],
                    ) && contained(node_events(ctx, stack@[k].0, nrs[k], fuels[k]), all_ev) by {
                        if k < top {
                            assert(mid[k] == prev[k]);
                            assert(stack@[k] == prev[k]);
                            assert(fuels[k] == mid_fuels[k]);
                            assert(nrs[k] == mid_nrs[k]);
                        }
                    }
                    assert forall|k: int|
                        0 <= k < stack@.len() && !(#[trigger] stack@[k]).1 implies second_visit_ok(
                        ctx,
                        stack@[k].0,
                        uses[k],
                    ) && available(offsets_map_contents(values), uses[k].lhs, stack@, k) && available(
                        offsets_map_contents(values),
                        uses[k].rhs,
                        stack@,
                        k,
                    ) by {
                        if k < top {
                            assert(mid[k] == prev[k]);
                            assert(stack@[k] == prev[k]);
                            assert(uses[k] == mid_uses[k]);
                            assert(!prev[k].1);
                            assert forall|q: int| 0 <= q < prev.len() - 1 implies stack@[q] == prev[q] by {
                                assert(stack@[q] == mid[q]);
                                assert(mid[q] == prev[q]);
                            }
                            lemma_available_step(prev_values, prev_values, uses[k].lhs, prev, stack@, k);
                            lemma_available_step(prev_values, prev_values, uses[k].rhs, prev, stack@, k);
                        } else if k == top {
                            assert(uses[k] == gu);
                            assert(stack@[top + 1] == (arg_type(gargs[0]), true));
                            assert(stack@[top + 2] == (arg_type(gargs[1]), true));
                        } else {
                            assert(stack@[k].1);
                        }
                    }
                }
            } else if offsets_map_get(&values, ty.id).is_some() {
                // Skip a gate that has an offset: each gate gets one.
                proof {
                    assert(u == gate_use(ty, info));
                    lemma_operand_visits_pop(prev, prev_nrs);
                    assert(stack@ =~= prev.drop_last());
                    let new_done = done.push(u);
                    assert(new_done.drop_last() =~= done);
                    assert(new_done + rest =~= done + (seq![u] + rest));
                    done = new_done;
                    fuels = rest_fuels;
                    nrs = nrs.drop_last();
                    uses = rest_uses;
                    assert forall|k: int|
                        0 <= k < stack@.len() && !(#[trigger] stack@[k]).1 implies available(
                        prev_values,
                        uses[k].lhs,
                        stack@,
                        k,
                    ) && available(prev_values, uses[k].rhs, stack@, k) by {
                        assert(prev[k] == stack@[k]);
                        assert(!prev[k].1);
                        lemma_available_step(prev_values, prev_values, uses[k].lhs, prev, stack@, k);
                        lemma_available_step(prev_values, prev_values, uses[k].rhs, prev, stack@, k);
                    }
                    assert forall|k: int| 0 <= k < stack@.len() && (#[trigger] stack@[k]).1 implies node_wf(
                        ctx,
                        stack@[k].0,
                        fuels[k],
                    ) && contained(node_events(ctx, stack@[k].0, nrs[k], fuels[k]), all_ev) by {
                        assert(prev[k] == stack@[k]);
                    }
                    assert forall|k: int| 0 <= k < stack@.len() && !(#[trigger] stack@[k]).1 implies second_visit_ok(
                        ctx,
                        stack@[k].0,
                        uses[k],
                    ) by {
                        assert(prev[k] == stack@[k]);
                    }
                }
            } else {
                let lhs_ty = arg_as_type(&gate_inputs[0]);
                let rhs_ty = arg_as_type(&gate_inputs[1]);
                proof {
                    assert(u == gate_use(ty, info));
                    assert(lhs_ty == u.lhs);
                    assert(rhs_ty == u.rhs);
                    if !prev_values.contains_key(u.lhs.id) {
                        let q = choose|q: int| top < q < prev.len() && #[trigger] prev[q].0 == u.lhs;
                    }
                    if !prev_values.contains_key(u.rhs.id) {
                        let q = choose|q: int| top < q < prev.len() && #[trigger] prev[q].0 == u.rhs;
                    }
                }
                let output_offset = next_output;
                let lhs = match offsets_map_get(&values, lhs_ty.id) {
                    Some(offset) => offset,
                    None => {
                        proof {
                            assert(false);
                        }
                        return Err(SpecializationError::UnsupportedGenericArg);
                    },
                };
                let rhs = match offsets_map_get(&values, rhs_ty.id) {
                    Some(offset) => offset,
                    None => {
                        proof {
                            assert(false);
                        }
                        return Err(SpecializationError::UnsupportedGenericArg);
                    },
                };
                add_offsets.push(GateOffsets { lhs, rhs, output: output_offset });
                offsets_map_insert(&mut values, ty.id, output_offset);
                next_output = next_output + 1;
                proof {
                    lemma_operand_visits_pop(prev, prev_nrs);
                    assert(stack@ =~= prev.drop_last());
                    let new_done = done.push(u);
                    assert(new_done.drop_last() =~= done);
                    assert(new_done + rest =~= done + (seq![u] + rest));
                    done = new_done;
                    fuels = rest_fuels;
                    nrs = nrs.drop_last();
                    uses = rest_uses;
                    let new_values = offsets_map_contents(values);
                    assert forall|k: int|
                        0 <= k < stack@.len() && !(#[trigger] stack@[k]).1 implies available(
                        new_values,
                        uses[k].lhs,
                        stack@,
                        k,
                    ) && available(new_values, uses[k].rhs, stack@, k) by {
                        assert(prev[k] == stack@[k]);
                        assert(!prev[k].1);
                        lemma_available_step(prev_values, new_values, uses[k].lhs, prev, stack@, k);
                        lemma_available_step(prev_values, new_values, uses[k].rhs, prev, stack@, k);
                    }
                    assert forall|k: int| 0 <= k < stack@.len() && (#[trigger] stack@[k]).1 implies node_wf(
                        ctx,
                        stack@[k].0,
                        fuels[k],
                    ) && contained(node_events(ctx, stack@[k].0, nrs[k], fuels[k]), all_ev) by {
                        assert(prev[k] == stack@[k]);
                    }
                    assert forall|k: int| 0 <= k < stack@.len() && !(#[trigger] stack@[k]).1 implies second_visit_ok(
                        ctx,
                        stack@[k].0,
                        uses[k],
                    ) by {
                        assert(prev[k] == stack@[k]);
                    }
                }
            }
        } else {
            proof {
                if first_visit {
                    let ev = node_events(ctx, ty, nr, fuel);
                    assert(ev[0] is Fail);
                    assert(all_ev.contains(ev[0]));
                }
            }
            return Err(SpecializationError::UnsupportedGenericArg);
        }
    }
    proof {
        assert(done =~= all_gates);
        let p = parse_spec(ctx, outs, f)->Ok_0;
        assert(p.values == values0);
    }
    Ok(CircuitInfo { n_inputs, one_needed, values, add_offsets, mul_offsets })
}


// ---------------------------------------------------------------------------------------------
// Checking that the search for the inputs ends.
// ---------------------------------------------------------------------------------------------

/// Returns whether the search below `ty` ends within `fuel` nested gates and meets gates whose
/// arguments are all types; a `true` shows it.
pub fn node_search_ends<C: TypeSpecializationContext + ?Sized>(
    ctx: &C,
    ty: ConcreteTypeId,
    fuel: usize,
) -> (r: bool)
    ensures
        r ==> node_fin(ctx, ty, fuel as nat),
    decreases fuel,
{
    let info = match ctx.try_get_type_info(ty) {
        Some(info) => info,
        None => {
            return true;
        },
    };
    if info.long_id.generic_id == CircuitInput::id() {
        return true;
    }
    if !(info.long_id.generic_id == AddModGate::id()) {
        return true;
    }
    if fuel == 0 {
        return false;
    }
    let args = info.long_id.generic_args.as_slice();
    let ghost gargs = args.deep_view();
    assert(gargs =~= info.long_id.generic_args.deep_view());
    let mut j: usize = 0;
    assert(gargs.subrange(0, 0).len() == 0);
    while j < args.len()
        invariant
            j <= args.len(),
            fuel > 0,
            gargs == args.deep_view(),
            args_fin(ctx, gargs.subrange(0, j as int), (fuel - 1) as nat),
        decreases args.len() - j,
    {
        let t = match &args[j] {
            GenericArg::Type(t) => *t,
            _ => {
                return false;
            },
        };
        if !node_search_ends(ctx, t, fuel - 1) {
            return false;
        }
        proof {
            let sub = gargs.subrange(0, j + 1);
            assert(sub.drop_last() =~= gargs.subrange(0, j as int));
            assert(sub.last() == gargs[j as int]);
        }
        j = j + 1;
    }
    assert(gargs.subrange(0, gargs.len() as int) =~= gargs);
    true
}

/// Returns whether the search below the outputs `outputs` ends within `fuel` nested gates and
/// meets gates whose arguments are all types; a `true` shows that it ends.
pub fn outputs_search_ends<C: TypeSpecializationContext + ?Sized>(
    ctx: &C,
    outputs: &[GenericArg],
    fuel: usize,
) -> (r: bool)
    ensures
        r ==> args_fin(ctx, outputs.deep_view(), fuel as nat),
        r ==> exists|f: nat| args_fin(ctx, outputs.deep_view(), f),
{
    let ghost outs = outputs.deep_view();
    let mut j: usize = 0;
    assert(outs.subrange(0, 0).len() == 0);
    while j < outputs.len()
        invariant
            j <= outputs.len(),
            outs == outputs.deep_view(),
            args_fin(ctx, outs.subrange(0, j as int), fuel as nat),
        decreases outputs.len() - j,
    {
        let t = match &outputs[j] {
            GenericArg::Type(t) => *t,
            _ => {
                return false;
            },
        };
        if !node_search_ends(ctx, t, fuel) {
            return false;
        }
        proof {
            let sub = outs.subrange(0, j + 1);
            assert(sub.drop_last() =~= outs.subrange(0, j as int));
            assert(sub.last() == outs[j as int]);
        }
        j = j + 1;
    }
    assert(outs.subrange(0, outs.len() as int) =~= outs);
    true
}

} // verus!
