//! Laws of the layout of circuits.
use vstd::prelude::*;

use crate::circuit_info::{
    gates_first_offset, lemma_operands_have_offsets, operands_unique,
    add_gates, any_reduction, args_events, args_gates, args_wf, arg_type, circuit_wf,
    contained, depth_bound, enumerates, gate_use, input_offsets, inputs_fold, layout_spec,
    lemma_args_wf_elem, lemma_input_offsets_keys, lemma_inputs_fold, lemma_inputs_have_offsets,
    no_fail, node_events, node_gates, node_wf, parse_spec, reduction_count, reduction_gates,
    sorted_entries, unique_inputs, GateOffsets, GateUse, InputEvent, args_fin, node_fin,
    inputs_wf, all_types, stuck_after_fail, circuit_outputs_of,
};
use crate::circuit::{
    circuit_args_wf,
    add_mod_gate_name, circuit_input_name, components_spec, concrete_circuit_spec, gate_args_spec,
    input_index_spec, is_component_spec, outputs_tuple_spec,
};
use crate::types::single_type_spec;
use crate::ids::{ConcreteTypeId, GenericArgModel};
use crate::types::TypeSpecializationContext;

verus! {

// ---------------------------------------------------------------------------------------------
// Enumerations and folds.
// ---------------------------------------------------------------------------------------------

/// Dropping the first entry of an enumeration enumerates the map without its key.
proof fn lemma_enumerates_drop_first<V>(s: Seq<(usize, V)>, m: Map<usize, V>)
    requires
        enumerates(s, m),
        s.len() > 0,
    ensures
        enumerates(s.drop_first(), m.remove(s[0].0)),
        m.contains_key(s[0].0),
{
    let k = s[0].0;
    let m2 = m.remove(k);
    let t = s.drop_first();
    assert forall|x: usize| #[trigger] m2.contains_key(x) implies exists|i: int|
        #![trigger t[i]]
        0 <= i < t.len() && t[i].0 == x by {
        assert(m.contains_key(x));
        let i1 = choose|i: int| #![trigger s[i]] 0 <= i < s.len() && s[i].0 == x;
        assert(i1 != 0);
        assert(t[i1 - 1].0 == x);
    }
    assert forall|i: int| #![trigger t[i]] 0 <= i < t.len() implies m2.contains_key(t[i].0) && m2[t[i].0]
        == t[i].1 by {
        assert(s[0].0 < s[i + 1].0);
    }
    assert forall|a: int, b: int| #![trigger t[a], t[b]] 0 <= a < b < t.len() implies t[a].0 < t[b].0 by {
        assert(s[a + 1].0 < s[b + 1].0);
    }
}

/// An enumeration of a finite map lists as many entries as the map has keys.
proof fn lemma_enumerates_len<V>(s: Seq<(usize, V)>, m: Map<usize, V>)
    requires
        enumerates(s, m),
        m.dom().finite(),
    ensures
        s.len() == m.len(),
    decreases s.len(),
{
    if s.len() == 0 {
        if m.dom().len() > 0 {
            let k = m.dom().choose();
            assert(m.contains_key(k));
        }
        assert(m.dom() =~= Set::<usize>::empty());
    } else {
        lemma_enumerates_drop_first(s, m);
        lemma_enumerates_len(s.drop_first(), m.remove(s[0].0));
    }
}

/// The map of the inputs met is finite.
proof fn lemma_inputs_fold_finite(events: Seq<InputEvent>)
    ensures
        inputs_fold(events).dom().finite(),
    decreases events.len(),
{
    if events.len() > 0 {
        lemma_inputs_fold_finite(events.drop_last());
    }
}

/// Some input met feeds a gate exactly when an input event needs a reduction.
proof fn lemma_any_reduction(events: Seq<InputEvent>, j: int)
    requires
        0 <= j < events.len(),
        events[j] matches InputEvent::Input { needs_reduction: true, .. },
    ensures
        any_reduction(events),
    decreases events.len(),
{
    if j < events.len() - 1 {
        lemma_any_reduction(events.drop_last(), j);
    }
}

/// The reduction gates: one per entry that needs a reduction, in order, each reading the
/// value 1 at offset `n` and writing the next slot after it.
proof fn lemma_reduction_gates(entries: Seq<(usize, (crate::ids::ConcreteTypeId, bool))>, n: nat)
    requires
        n + 1 + entries.len() <= usize::MAX,
    ensures
        reduction_gates(entries, n).len() == reduction_count(entries),
        reduction_count(entries) <= entries.len(),
        forall|i: int|
            0 <= i < reduction_gates(entries, n).len() ==> {
                let g = #[trigger] reduction_gates(entries, n)[i];
                &&& g.lhs == n
                &&& g.output == n + 1 + i
                &&& exists|j: int|
                    0 <= j < entries.len() && #[trigger] entries[j].0 == g.rhs && entries[j].1.1
            },
        forall|j: int|
            0 <= j < entries.len() && #[trigger] entries[j].1.1 ==> exists|i: int|
                0 <= i < reduction_gates(entries, n).len() && #[trigger] reduction_gates(
                    entries,
                    n,
                )[i].rhs == entries[j].0,
    decreases entries.len(),
{
    if entries.len() > 0 {
        let prev = entries.drop_last();
        lemma_reduction_gates(prev, n);
        let gates = reduction_gates(entries, n);
        assert forall|j: int| 0 <= j < entries.len() && #[trigger] entries[j].1.1 implies exists|
            i: int,
        | 0 <= i < gates.len() && #[trigger] gates[i].rhs == entries[j].0 by {
            let pg = reduction_gates(prev, n);
            if j < entries.len() - 1 {
                assert(prev[j] == entries[j]);
                let i = choose|i: int| 0 <= i < pg.len() && #[trigger] pg[i].rhs == prev[j].0;
                assert(gates[i] == pg[i]);
            } else {
                assert(gates[pg.len() as int].rhs == entries[j].0);
            }
        }
        assert forall|i: int| 0 <= i < gates.len() implies {
            let g = #[trigger] gates[i];
            &&& g.lhs == n
            &&& g.output == n + 1 + i
            &&& exists|j: int|
                0 <= j < entries.len() && #[trigger] entries[j].0 == g.rhs && entries[j].1.1
        } by {
            if i < reduction_gates(prev, n).len() {
                let g = reduction_gates(prev, n)[i];
                assert(gates[i] == g);
                let j = choose|j: int| 0 <= j < prev.len() && #[trigger] prev[j].0 == g.rhs && prev[j].1.1;
                assert(entries[j] == prev[j]);
            } else {
                assert(entries[entries.len() - 1].0 == gates[i].rhs);
            }
        }
    }
}

// ---------------------------------------------------------------------------------------------
// Additions read operands that were laid out before them.
// ---------------------------------------------------------------------------------------------

/// Whether `c` has an offset among the inputs `values0` or is one of the additions `prefix`.
pub open spec fn covered(values0: Map<u64, usize>, prefix: Seq<GateUse>, c: ConcreteTypeId) -> bool {
    values0.contains_key(c.id) || exists|j: int| 0 <= j < prefix.len() && #[trigger] prefix[j].gate == c
}

/// Whether every addition of `gates` reads operands that are inputs or earlier additions.
pub open spec fn operands_first(values0: Map<u64, usize>, gates: Seq<GateUse>) -> bool {
    forall|i: int|
        #![trigger gates[i]]
        0 <= i < gates.len() ==> covered(values0, gates.take(i), gates[i].lhs) && covered(
            values0,
            gates.take(i),
            gates[i].rhs,
        )
}

proof fn lemma_covered_append(values0: Map<u64, usize>, a: Seq<GateUse>, b: Seq<GateUse>, c: ConcreteTypeId)
    ensures
        covered(values0, a, c) ==> covered(values0, a + b, c),
        covered(values0, b, c) ==> covered(values0, a + b, c),
{
    if !values0.contains_key(c.id) {
        if covered(values0, a, c) {
            let j = choose|j: int| 0 <= j < a.len() && #[trigger] a[j].gate == c;
            assert((a + b)[j].gate == c);
        }
        if covered(values0, b, c) {
            let j = choose|j: int| 0 <= j < b.len() && #[trigger] b[j].gate == c;
            assert((a + b)[a.len() + j].gate == c);
        }
    }
}

proof fn lemma_operands_first_append(values0: Map<u64, usize>, a: Seq<GateUse>, b: Seq<GateUse>)
    requires
        operands_first(values0, a),
        operands_first(values0, b),
    ensures
        operands_first(values0, a + b),
{
    let s = a + b;
    assert forall|i: int| #![trigger s[i]] 0 <= i < s.len() implies covered(values0, s.take(i), s[i].lhs)
        && covered(values0, s.take(i), s[i].rhs) by {
        if i < a.len() {
            assert(s.take(i) =~= a.take(i));
            assert(s[i] == a[i]);
        } else {
            let i2 = i - a.len();
            assert(s[i] == b[i2]);
            assert(s.take(i) =~= a + b.take(i2));
            lemma_covered_append(values0, a, b.take(i2), b[i2].lhs);
            lemma_covered_append(values0, a, b.take(i2), b[i2].rhs);
        }
    }
}

proof fn lemma_contained_split(a: Seq<InputEvent>, b: Seq<InputEvent>, all: Seq<InputEvent>)
    requires
        contained(a + b, all),
    ensures
        contained(a, all),
        contained(b, all),
{
    assert forall|i: int| 0 <= i < a.len() implies all.contains(#[trigger] a[i]) by {
        assert((a + b)[i] == a[i]);
    }
    assert forall|i: int| 0 <= i < b.len() implies all.contains(#[trigger] b[i]) by {
        assert((a + b)[a.len() + i] == b[i]);
    }
}

/// Whether every input met among `all` as the operand of a gate has an offset among `values0`,
/// and nothing failed.
pub open spec fn inputs_laid_out(values0: Map<u64, usize>, all: Seq<InputEvent>) -> bool {
    &&& no_fail(all)
    &&& forall|e: int|
        0 <= e < all.len() && #[trigger] all[e] is Input && all[e]->needs_reduction
            ==> values0.contains_key(all[e]->Input_ty.id)
}

proof fn lemma_node_operands_first<C: TypeSpecializationContext + ?Sized>(
    ctx: &C,
    t: ConcreteTypeId,
    nr: bool,
    fuel: nat,
    values0: Map<u64, usize>,
    all: Seq<InputEvent>,
)
    requires
        node_wf(ctx, t, fuel),
        contained(node_events(ctx, t, nr, fuel), all),
        inputs_laid_out(values0, all),
    ensures
        operands_first(values0, node_gates(ctx, t, fuel)),
        nr ==> covered(values0, node_gates(ctx, t, fuel), t),
    decreases fuel, 0nat,
{
    let ev = node_events(ctx, t, nr, fuel);
    match ctx.type_info_of(t) {
        None => {
            assert(all.contains(ev[0]));
        },
        Some(info) => {
            if info.long_id.generic_id == circuit_input_name() {
                assert(all.contains(ev[0]));
                let e = choose|e: int| 0 <= e < all.len() && all[e] == ev[0];
                assert(all[e] is Input);
            } else if info.long_id.generic_id == add_mod_gate_name() {
                let args = info.long_id.generic_args;
                let a = args_gates(ctx, args, (fuel - 1) as nat);
                lemma_args_operands_first(ctx, args, true, (fuel - 1) as nat, values0, all);
                let u = gate_use(t, info);
                let g = a.push(u);
                assert(node_gates(ctx, t, fuel) == g);
                lemma_args_wf_elem(ctx, args, (fuel - 1) as nat, 0);
                lemma_args_wf_elem(ctx, args, (fuel - 1) as nat, 1);
                assert forall|i: int| #![trigger g[i]] 0 <= i < g.len() implies covered(
                    values0,
                    g.take(i),
                    g[i].lhs,
                ) && covered(values0, g.take(i), g[i].rhs) by {
                    if i < a.len() {
                        assert(g.take(i) =~= a.take(i));
                        assert(g[i] == a[i]);
                    } else {
                        assert(g.take(i) =~= a);
                        assert(covered(values0, a, arg_type(args[0])));
                        assert(covered(values0, a, arg_type(args[1])));
                    }
                }
                assert(g[g.len() - 1].gate == t);
            } else {
                assert(all.contains(ev[0]));
            }
        },
    }
}

proof fn lemma_args_operands_first<C: TypeSpecializationContext + ?Sized>(
    ctx: &C,
    args: Seq<GenericArgModel>,
    nr: bool,
    fuel: nat,
    values0: Map<u64, usize>,
    all: Seq<InputEvent>,
)
    requires
        args_wf(ctx, args, fuel),
        contained(args_events(ctx, args, nr, fuel), all),
        inputs_laid_out(values0, all),
    ensures
        operands_first(values0, args_gates(ctx, args, fuel)),
        nr ==> forall|k: int|
            0 <= k < args.len() ==> covered(values0, args_gates(ctx, args, fuel), arg_type(#[trigger] args[k])),
    decreases fuel, args.len(),
{
    if args.len() > 0 {
        let t = arg_type(args.last());
        let rest = args.drop_last();
        let n = node_gates(ctx, t, fuel);
        let r = args_gates(ctx, rest, fuel);
        lemma_contained_split(node_events(ctx, t, nr, fuel), args_events(ctx, rest, nr, fuel), all);
        lemma_node_operands_first(ctx, t, nr, fuel, values0, all);
        lemma_args_operands_first(ctx, rest, nr, fuel, values0, all);
        assert(args_gates(ctx, args, fuel) == n + r);
        lemma_operands_first_append(values0, n, r);
        assert forall|k: int| nr && 0 <= k < args.len() implies covered(values0, n + r, arg_type(#[trigger] args[k])) by {
            if k == args.len() - 1 {
                lemma_covered_append(values0, n, r, t);
            } else {
                assert(rest[k] == args[k]);
                lemma_covered_append(values0, n, r, arg_type(args[k]));
            }
        }
    }
}

/// The offsets after laying out some additions: those of the inputs and of the additions.
proof fn lemma_add_gates_keys(values0: Map<u64, usize>, gates: Seq<GateUse>, first: nat)
    ensures
        forall|id: u64|
            #[trigger] add_gates(values0, gates, first).0.contains_key(id) <==> (values0.contains_key(id)
                || exists|j: int| 0 <= j < gates.len() && #[trigger] gates[j].gate.id == id),
        add_gates(values0, gates, first).1.len() <= gates.len(),
    decreases gates.len(),
{
    if gates.len() > 0 {
        let prev = gates.drop_last();
        lemma_add_gates_keys(values0, prev, first);
        assert forall|id: u64|
            #[trigger] add_gates(values0, gates, first).0.contains_key(id) <==> (values0.contains_key(id)
                || exists|j: int| 0 <= j < gates.len() && #[trigger] gates[j].gate.id == id) by {
            if add_gates(values0, prev, first).0.contains_key(id) && !values0.contains_key(id) {
                let j = choose|j: int| 0 <= j < prev.len() && #[trigger] prev[j].gate.id == id;
                assert(gates[j] == prev[j]);
            }
            if exists|j: int| 0 <= j < gates.len() && #[trigger] gates[j].gate.id == id {
                let j = choose|j: int| 0 <= j < gates.len() && #[trigger] gates[j].gate.id == id;
                if j < gates.len() - 1 {
                    assert(prev[j] == gates[j]);
                }
            }
        }
    }
}

// ---------------------------------------------------------------------------------------------
// The laws.
// ---------------------------------------------------------------------------------------------

/// Every addition of a circuit reads its operands at offsets that were assigned before it is
/// laid out: the offset of an input, or the output of an addition laid out earlier.
pub proof fn law_operands_laid_out_first<C: TypeSpecializationContext + ?Sized>(
    ctx: &C,
    outputs: Seq<GenericArgModel>,
)
    requires
        circuit_wf(ctx, outputs),
        parse_spec(ctx, outputs, depth_bound(ctx, outputs)) is Ok,
    ensures
        ({
            let f = depth_bound(ctx, outputs);
            let values0 = parse_spec(ctx, outputs, f)->Ok_0.values;
            let first = gates_first_offset(parse_spec(ctx, outputs, f)->Ok_0);
            let gates = args_gates(ctx, outputs, f);
            forall|i: int|
                #![trigger gates[i]]
                0 <= i < gates.len() ==> add_gates(values0, gates.take(i), first).0.contains_key(gates[i].lhs.id)
                    && add_gates(values0, gates.take(i), first).0.contains_key(gates[i].rhs.id)
        }),
{
    let f = depth_bound(ctx, outputs);
    let all = args_events(ctx, outputs, false, f);
    let m = inputs_fold(all);
    let values0 = parse_spec(ctx, outputs, f)->Ok_0.values;
    let first = gates_first_offset(parse_spec(ctx, outputs, f)->Ok_0);
    let gates = args_gates(ctx, outputs, f);
    assert(no_fail(all));
    assert(operands_unique(all));
    assert(values0 == input_offsets(sorted_entries(m), m.len()));
    lemma_inputs_fold_finite(all);
    enumeration_exists(m);
    lemma_operands_have_offsets(all);
    assert(contained(all, all)) by {
        assert forall|i: int| 0 <= i < all.len() implies all.contains(#[trigger] all[i]) by {}
    }
    lemma_args_operands_first(ctx, outputs, false, f, values0, all);
    assert forall|i: int| #![trigger gates[i]] 0 <= i < gates.len() implies add_gates(
        values0,
        gates.take(i),
        first,
    ).0.contains_key(gates[i].lhs.id) && add_gates(values0, gates.take(i), first).0.contains_key(
        gates[i].rhs.id,
    ) by {
        let p = gates.take(i);
        lemma_add_gates_keys(values0, p, first);
        assert(covered(values0, p, gates[i].lhs));
        assert(covered(values0, p, gates[i].rhs));
        if !values0.contains_key(gates[i].lhs.id) {
            let j = choose|j: int| 0 <= j < p.len() && #[trigger] p[j].gate == gates[i].lhs;
            assert(p[j].gate.id == gates[i].lhs.id);
        }
        if !values0.contains_key(gates[i].rhs.id) {
            let j = choose|j: int| 0 <= j < p.len() && #[trigger] p[j].gate == gates[i].rhs;
            assert(p[j].gate.id == gates[i].rhs.id);
        }
    }
}

/// Every finite map has an enumeration in ascending order of the keys.
proof fn enumeration_exists<V>(m: Map<usize, V>)
    requires
        m.dom().finite(),
    ensures
        enumerates(sorted_entries(m), m),
    decreases m.dom().len(),
{
    let s = enumeration_of(m);
    assert(enumerates(s, m));
}

/// An enumeration of a finite map in ascending order of the keys, built from its least key.
proof fn enumeration_of<V>(m: Map<usize, V>) -> (s: Seq<(usize, V)>)
    requires
        m.dom().finite(),
    ensures
        enumerates(s, m),
    decreases m.dom().len(),
{
    if m.dom().len() == 0 {
        m.dom().lemma_len0_is_empty();
        let s = Seq::<(usize, V)>::empty();
        assert forall|k: usize| #[trigger] m.contains_key(k) implies exists|i: int|
            #![trigger s[i]]
            0 <= i < s.len() && s[i].0 == k by {
            assert(m.dom().contains(k));
        }
        s
    } else {
        let leq = |a: usize, b: usize| a <= b;
        assert(vstd::relations::total_ordering(leq));
        m.dom().find_unique_minimal_ensures(leq);
        let k = m.dom().find_unique_minimal(leq);
        assert(m.contains_key(k));
        let m2 = m.remove(k);
        assert(m2.dom() =~= m.dom().remove(k));
        let s2 = enumeration_of(m2);
        let s = seq![(k, m[k])] + s2;
        assert forall|j: int| 0 <= j < s2.len() implies k < #[trigger] s2[j].0 by {
            assert(m2.contains_key(s2[j].0));
            assert(m.dom().contains(s2[j].0));
            assert(leq(s2[j].0, k) ==> leq(k, s2[j].0));
        }
        assert forall|a: int, b: int| #![trigger s[a], s[b]] 0 <= a < b < s.len() implies s[a].0
            < s[b].0 by {
            assert(s[b] == s2[b - 1]);
            if a > 0 {
                assert(s[a] == s2[a - 1]);
                assert(s2[a - 1].0 < s2[b - 1].0);
            } else {
                assert(k < s2[b - 1].0);
            }
        }
        assert forall|i: int| #![trigger s[i]] 0 <= i < s.len() implies m.contains_key(s[i].0) && m[s[i].0]
            == s[i].1 by {
            if i > 0 {
                assert(s[i] == s2[i - 1]);
                assert(m2.contains_key(s2[i - 1].0));
            }
        }
        assert forall|x: usize| #[trigger] m.contains_key(x) implies exists|i: int|
            #![trigger s[i]]
            0 <= i < s.len() && s[i].0 == x by {
            if x == k {
                assert(s[0].0 == x);
            } else {
                assert(m2.contains_key(x));
                let i2 = choose|i: int| #![trigger s2[i]] 0 <= i < s2.len() && s2[i].0 == x;
                assert(s[i2 + 1] == s2[i2]);
            }
        }
        s
    }
}

/// The mul gates that reduce the inputs of a circuit read the value 1 right after the inputs
/// (at the offset that counts them) and write the slots that follow it, in order; they reduce
/// exactly the inputs that feed an addition, and the circuit needs the input 1 exactly when
/// there is such a gate.
pub proof fn law_reduction_gates<C: TypeSpecializationContext + ?Sized>(
    ctx: &C,
    outputs: Seq<GenericArgModel>,
)
    requires
        circuit_wf(ctx, outputs),
        layout_spec(ctx, outputs) is Ok,
    ensures
        ({
            let info = layout_spec(ctx, outputs)->Ok_0;
            let m = inputs_fold(args_events(ctx, outputs, false, depth_bound(ctx, outputs)));
            &&& forall|i: int|
                #![trigger info.mul_offsets[i]]
                0 <= i < info.mul_offsets.len() ==> {
                    &&& info.mul_offsets[i].lhs == m.len()
                    &&& info.mul_offsets[i].output == m.len() + 1 + i
                    &&& m.contains_key(info.mul_offsets[i].rhs)
                    &&& m[info.mul_offsets[i].rhs].1
                }
            &&& forall|k: usize|
                #[trigger] m.contains_key(k) && m[k].1 ==> exists|i: int|
                    0 <= i < info.mul_offsets.len() && #[trigger] info.mul_offsets[i].rhs == k
            &&& info.one_needed <==> info.mul_offsets.len() > 0
        }),
{
    let f = depth_bound(ctx, outputs);
    let all = args_events(ctx, outputs, false, f);
    assert(no_fail(all));
    lemma_reductions(all);
    let m = inputs_fold(all);
    let info = layout_spec(ctx, outputs)->Ok_0;
    assert(info.mul_offsets == reduction_gates(sorted_entries(m), m.len()));
    assert(info.one_needed == any_reduction(all));
}

/// The reduction gates of the inputs met: one for each input that feeds a gate, in ascending
/// order of the indices, reading the value 1 after the inputs and writing the next slots; there
/// is one exactly when some input met feeds a gate.
proof fn lemma_reductions(all: Seq<InputEvent>)
    requires
        no_fail(all),
        inputs_fold(all).len() < usize::MAX / 2,
    ensures
        ({
            let m = inputs_fold(all);
            let muls = reduction_gates(sorted_entries(m), m.len());
            &&& forall|i: int|
                #![trigger muls[i]]
                0 <= i < muls.len() ==> {
                    &&& muls[i].lhs == m.len()
                    &&& muls[i].output == m.len() + 1 + i
                    &&& m.contains_key(muls[i].rhs)
                    &&& m[muls[i].rhs].1
                }
            &&& forall|k: usize|
                #[trigger] m.contains_key(k) && m[k].1 ==> exists|i: int|
                    0 <= i < muls.len() && #[trigger] muls[i].rhs == k
            &&& any_reduction(all) <==> muls.len() > 0
        }),
{
    let m = inputs_fold(all);
    let entries = sorted_entries(m);
    lemma_inputs_fold_finite(all);
    enumeration_exists(m);
    lemma_enumerates_len(entries, m);
    lemma_reduction_gates(entries, m.len());
    let muls = reduction_gates(entries, m.len());
    assert forall|i: int| #![trigger muls[i]] 0 <= i < muls.len() implies {
        &&& muls[i].lhs == m.len()
        &&& muls[i].output == m.len() + 1 + i
        &&& m.contains_key(muls[i].rhs)
        &&& m[muls[i].rhs].1
    } by {
        let g = muls[i];
        let j = choose|j: int| 0 <= j < entries.len() && #[trigger] entries[j].0 == g.rhs && entries[j].1.1;
        assert(m.contains_key(entries[j].0) && m[entries[j].0] == entries[j].1);
    }
    assert forall|k: usize| #[trigger] m.contains_key(k) && m[k].1 implies exists|i: int|
        0 <= i < muls.len() && #[trigger] muls[i].rhs == k by {
        let j = choose|j: int| #![trigger entries[j]] 0 <= j < entries.len() && entries[j].0 == k;
        assert(entries[j].1 == m[k]);
        assert(entries[j].1.1);
    }
    if muls.len() > 0 {
        let g = muls[0];
        let j = choose|j: int| 0 <= j < entries.len() && #[trigger] entries[j].0 == g.rhs && entries[j].1.1;
        let k = entries[j].0;
        assert(m.contains_key(k) && m[k] == entries[j].1);
        lemma_inputs_fold(all);
        let e = choose|e: int|
            0 <= e < all.len() && #[trigger] all[e] is Input && all[e]->idx == k
                && all[e]->needs_reduction;
        lemma_any_reduction(all, e);
    }
    if any_reduction(all) {
        lemma_any_reduction_witness(all);
        let e = choose|e: int|
            0 <= e < all.len() && #[trigger] all[e] matches InputEvent::Input {
                needs_reduction: true,
                ..
            };
        lemma_inputs_fold(all);
        let k = all[e]->idx;
        assert(m.contains_key(k));
        assert(m[k].1);
        let i = choose|i: int| 0 <= i < muls.len() && #[trigger] muls[i].rhs == k;
    }
}

/// When some input met feeds a gate, there is such an event.
proof fn lemma_any_reduction_witness(events: Seq<InputEvent>)
    requires
        any_reduction(events),
    ensures
        exists|e: int|
            0 <= e < events.len() && #[trigger] events[e] matches InputEvent::Input {
                needs_reduction: true,
                ..
            },
    decreases events.len(),
{
    let prev = events.drop_last();
    if any_reduction(prev) {
        lemma_any_reduction_witness(prev);
        let e = choose|e: int|
            0 <= e < prev.len() && #[trigger] prev[e] matches InputEvent::Input {
                needs_reduction: true,
                ..
            };
        assert(events[e] == prev[e]);
    } else {
        assert(events[events.len() - 1] matches InputEvent::Input { needs_reduction: true, .. });
    }
}

/// Laying out a circuit whose inputs with the same index have the same type gives an offset to
/// every input met and to every addition, and lays out each distinct addition once: every
/// addition reached has exactly one add gate, which writes its offset and reads those of its
/// first two arguments, and every add gate is that of an addition reached.
#[verifier::spinoff_prover]
#[verifier::rlimit(50)]
pub proof fn law_every_component_has_an_offset<C: TypeSpecializationContext + ?Sized>(
    ctx: &C,
    outputs: Seq<GenericArgModel>,
)
    requires
        circuit_wf(ctx, outputs),
        layout_spec(ctx, outputs) is Ok,
        unique_inputs(args_events(ctx, outputs, false, depth_bound(ctx, outputs))),
    ensures
        ({
            let info = layout_spec(ctx, outputs)->Ok_0;
            let f = depth_bound(ctx, outputs);
            let all = args_events(ctx, outputs, false, f);
            let gates = args_gates(ctx, outputs, f);
            let adds = info.add_offsets;
            &&& forall|e: int|
                0 <= e < all.len() && #[trigger] all[e] is Input ==> info.values.contains_key(
                    all[e]->Input_ty.id,
                )
            &&& forall|j: int| 0 <= j < gates.len() ==> info.values.contains_key(#[trigger] gates[j].gate.id)
            &&& forall|j: int|
                #![trigger gates[j]]
                0 <= j < gates.len() ==> exists|k: int|
                    #![trigger adds[k]]
                    0 <= k < adds.len() && adds[k].output == info.values[gates[j].gate.id]
            &&& forall|k: int|
                #![trigger adds[k]]
                0 <= k < adds.len() ==> exists|j: int|
                    #![trigger gates[j]]
                    0 <= j < gates.len() && adds[k].output == info.values[gates[j].gate.id]
                        && adds[k].lhs == info.values[gates[j].lhs.id] && adds[k].rhs
                        == info.values[gates[j].rhs.id]
            &&& forall|k1: int, k2: int|
                0 <= k1 < k2 < adds.len() ==> (#[trigger] adds[k1]).output != (#[trigger] adds[k2]).output
        }),
{
    let f = depth_bound(ctx, outputs);
    let all = args_events(ctx, outputs, false, f);
    let gates = args_gates(ctx, outputs, f);
    let m = inputs_fold(all);
    let entries = sorted_entries(m);
    let n = m.len();
    let values0 = input_offsets(entries, n);
    let muls = reduction_gates(entries, n);
    let first = n + 1 + muls.len();
    let info = layout_spec(ctx, outputs)->Ok_0;
    let adds = info.add_offsets;
    assert(no_fail(all));
    lemma_inputs_fold_finite(all);
    enumeration_exists(m);
    lemma_enumerates_len(entries, m);
    lemma_inputs_have_offsets(all);
    lemma_reduction_gates(entries, n);
    lemma_gates_not_inputs(ctx, outputs);
    lemma_add_gates_at(values0, gates, first);
    law_operands_laid_out_first(ctx, outputs);
    assert(info.values == add_gates(values0, gates, first).0);
    assert(adds == add_gates(values0, gates, first).1);
    assert forall|j: int| 0 <= j < gates.len() implies info.values.contains_key(#[trigger] gates[j].gate.id) by {
        assert(exists|x: int| 0 <= x < gates.len() && #[trigger] gates[x].gate.id == gates[j].gate.id);
    }
    assert forall|j: int|
        #![trigger gates[j]]
        0 <= j < gates.len() implies exists|k: int|
            #![trigger adds[k]]
            0 <= k < adds.len() && adds[k].output == info.values[gates[j].gate.id] by {
        assert(info.values.contains_key(gates[j].gate.id));
        assert(!values0.contains_key(gates[j].gate.id));
        let k = info.values[gates[j].gate.id] - first;
        assert(adds[k].output == first + k);
    }
    assert forall|k: int|
        #![trigger adds[k]]
        0 <= k < adds.len() implies exists|j: int|
            #![trigger gates[j]]
            0 <= j < gates.len() && adds[k].output == info.values[gates[j].gate.id]
                && adds[k].lhs == info.values[gates[j].lhs.id] && adds[k].rhs
                == info.values[gates[j].rhs.id] by {
        let j = laid_out_origin(values0, gates, first, k);
        assert(laid_out_at(values0, gates, first, k, j));
        lemma_add_gates_grows(values0, gates, first, j);
        assert(add_gates(values0, gates.take(j), first).0.contains_key(gates[j].lhs.id));
        assert(add_gates(values0, gates.take(j), first).0.contains_key(gates[j].rhs.id));
    }
}

/// The additions of a circuit are not among its inputs, and their offsets fit in a `usize`.
proof fn lemma_gates_not_inputs<C: TypeSpecializationContext + ?Sized>(
    ctx: &C,
    outputs: Seq<GenericArgModel>,
)
    requires
        circuit_wf(ctx, outputs),
        layout_spec(ctx, outputs) is Ok,
    ensures
        ({
            let f = depth_bound(ctx, outputs);
            let p = parse_spec(ctx, outputs, f)->Ok_0;
            let gates = args_gates(ctx, outputs, f);
            &&& gates_first_offset(p) + gates.len() <= usize::MAX
            &&& forall|j: int|
                0 <= j < gates.len() ==> !p.values.contains_key((#[trigger] gates[j]).gate.id)
        }),
{
    let f = depth_bound(ctx, outputs);
    let all = args_events(ctx, outputs, false, f);
    let m = inputs_fold(all);
    let entries = sorted_entries(m);
    let n = m.len();
    let gates = args_gates(ctx, outputs, f);
    let values0 = input_offsets(entries, n);
    assert(no_fail(all));
    lemma_inputs_fold_finite(all);
    enumeration_exists(m);
    lemma_enumerates_len(entries, m);
    lemma_reduction_gates(entries, n);
    lemma_args_events_ok(ctx, outputs, false, f);
    lemma_args_gates_ok(ctx, outputs, f);
    lemma_entries_distinct(ctx, all);
    lemma_input_offsets_at(entries, n);
    reveal_strlit("CircuitInput");
    reveal_strlit("AddModGate");
    assert(circuit_input_name() != add_mod_gate_name()) by {
        assert(circuit_input_name().len() != add_mod_gate_name().len());
    }
    assert forall|j: int| 0 <= j < gates.len() implies !values0.contains_key((#[trigger] gates[j]).gate.id) by {
        if values0.contains_key(gates[j].gate.id) {
            let x = choose|x: int| 0 <= x < entries.len() && (#[trigger] entries[x]).1.0.id == gates[j].gate.id;
            let ev = InputEvent::Input { ty: entries[x].1.0, needs_reduction: false, idx: entries[x].0 };
            assert(input_event_ok(ctx, ev));
            assert(gate_use_ok(ctx, gates[j]));
            assert(entries[x].1.0 == gates[j].gate);
        }
    }
}

// ---------------------------------------------------------------------------------------------
// Validated components validate their children.
// ---------------------------------------------------------------------------------------------

/// Whether every circuit input of the context has a valid index and every gate has two circuit
/// components as arguments: what specializing them checks.
pub open spec fn components_validated<C: TypeSpecializationContext + ?Sized>(ctx: &C) -> bool {
    forall|ty: ConcreteTypeId|
        #[trigger] ctx.type_info_of(ty) is Some ==> {
            let info = ctx.type_info_of(ty)->Some_0;
            &&& info.long_id.generic_id == circuit_input_name() ==> input_index_spec(
                info.long_id.generic_args,
            ) is Ok
            &&& info.long_id.generic_id == add_mod_gate_name() ==> gate_args_spec(
                ctx,
                info.long_id.generic_args,
            ) is Ok
        }
}

/// The arguments pass the component check exactly when each of them is a component.
proof fn lemma_components_each<C: TypeSpecializationContext + ?Sized>(
    ctx: &C,
    args: Seq<GenericArgModel>,
)
    ensures
        (components_spec(ctx, args) is Ok) <==> (forall|i: int|
            0 <= i < args.len() ==> #[trigger] is_component_spec(ctx, args[i]) == Ok::<
                bool,
                crate::types::SpecializationError,
            >(true)),
    decreases args.len(),
{
    if args.len() > 0 {
        let rest = args.drop_first();
        lemma_components_each(ctx, rest);
        if components_spec(ctx, args) is Ok {
            assert forall|i: int| 0 <= i < args.len() implies #[trigger] is_component_spec(
                ctx,
                args[i],
            ) == Ok::<bool, crate::types::SpecializationError>(true) by {
                if i > 0 {
                    assert(args[i] == rest[i - 1]);
                }
            }
        }
        if forall|i: int|
            0 <= i < args.len() ==> #[trigger] is_component_spec(ctx, args[i]) == Ok::<
                bool,
                crate::types::SpecializationError,
            >(true) {
            assert(is_component_spec(ctx, args[0]) == Ok::<bool, crate::types::SpecializationError>(
                true,
            ));
            assert forall|i: int| 0 <= i < rest.len() implies #[trigger] is_component_spec(
                ctx,
                rest[i],
            ) == Ok::<bool, crate::types::SpecializationError>(true) by {
                assert(rest[i] == args[i + 1]);
            }
        }
    }
}

/// Whether no event of `events` is a failure.
pub open spec fn no_error(events: Seq<InputEvent>) -> bool {
    forall|i: int| 0 <= i < events.len() ==> !(#[trigger] events[i] is Fail)
}

/// A search that meets no failure, and meets a failure before any place where it is stuck,
/// meets only inputs.
proof fn lemma_no_error_no_fail(events: Seq<InputEvent>)
    requires
        no_error(events),
        stuck_after_fail(events),
    ensures
        no_fail(events),
{
    assert forall|i: int| 0 <= i < events.len() implies #[trigger] events[i] is Input by {
        assert(!(events[i] is Fail));
        if events[i] is Stuck {
            let j = choose|j: int| 0 <= j < i && #[trigger] events[j] is Fail;
            assert(!(events[j] is Fail));
        }
    }
}

/// The search for inputs below a component of a validated context meets no failure.
proof fn lemma_node_no_fail<C: TypeSpecializationContext + ?Sized>(
    ctx: &C,
    ty: ConcreteTypeId,
    needs_reduction: bool,
    fuel: nat,
)
    requires
        components_validated(ctx),
        is_component_spec(ctx, GenericArgModel::Type(ty)) == Ok::<
            bool,
            crate::types::SpecializationError,
        >(true),
    ensures
        no_error(node_events(ctx, ty, needs_reduction, fuel)),
    decreases fuel, 0nat,
{
    assert(ctx.type_info_of(ty) is Some);
    let info = ctx.type_info_of(ty)->Some_0;
    if info.long_id.generic_id == add_mod_gate_name() && info.long_id.generic_id
        != circuit_input_name() {
        if fuel > 0 && all_types(info.long_id.generic_args) {
            assert(gate_args_spec(ctx, info.long_id.generic_args) is Ok);
            lemma_args_no_fail(ctx, info.long_id.generic_args, true, (fuel - 1) as nat);
        } else {
            assert(node_events(ctx, ty, needs_reduction, fuel) == seq![InputEvent::Stuck]);
        }
    }
}

/// The search for inputs below components of a validated context meets no failure.
proof fn lemma_args_no_fail<C: TypeSpecializationContext + ?Sized>(
    ctx: &C,
    args: Seq<GenericArgModel>,
    needs_reduction: bool,
    fuel: nat,
)
    requires
        components_validated(ctx),
        components_spec(ctx, args) is Ok,
    ensures
        no_error(args_events(ctx, args, needs_reduction, fuel)),
    decreases fuel, args.len(),
{
    if args.len() > 0 {
        lemma_components_each(ctx, args);
        let prev = args.drop_last();
        assert forall|i: int| 0 <= i < prev.len() implies #[trigger] is_component_spec(
            ctx,
            prev[i],
        ) == Ok::<bool, crate::types::SpecializationError>(true) by {
            assert(prev[i] == args[i]);
        }
        lemma_components_each(ctx, prev);
        lemma_args_no_fail(ctx, prev, needs_reduction, fuel);
        let last = args[args.len() - 1];
        assert(is_component_spec(ctx, last) == Ok::<bool, crate::types::SpecializationError>(true));
        let head = node_events(ctx, arg_type(last), needs_reduction, fuel);
        lemma_node_no_fail(ctx, arg_type(last), needs_reduction, fuel);
        let tail = args_events(ctx, prev, needs_reduction, fuel);
        assert(args_events(ctx, args, needs_reduction, fuel) == head + tail);
        assert forall|i: int| 0 <= i < (head + tail).len() implies !(#[trigger] (head + tail)[i] is Fail) by {
            if i < head.len() {
                assert(!(head[i] is Fail));
            } else {
                assert(!(tail[i - head.len()] is Fail));
            }
        }
    }
}

/// It is enough to check the topmost components of a circuit, as the components validate their
/// children: in a context where every circuit input and gate was validated, a circuit whose
/// outputs tuple is a tuple of components, and which `Circuit` can specialize, is laid out
/// without error.
pub proof fn law_validated_circuit_lays_out<C: TypeSpecializationContext + ?Sized>(
    ctx: &C,
    args: Seq<GenericArgModel>,
)
    requires
        components_validated(ctx),
        circuit_args_wf(ctx, args),
        single_type_spec(args) is Ok,
        outputs_tuple_spec(ctx, single_type_spec(args)->Ok_0) is Ok,
    ensures
        concrete_circuit_spec(ctx, args) is Ok,
{
    let ty = single_type_spec(args)->Ok_0;
    let info = ctx.type_info_of(ty)->Some_0;
    let sargs = info.long_id.generic_args;
    let outs = sargs.drop_first();
    assert(components_spec(ctx, outs) is Ok);
    assert(circuit_outputs_of(sargs) == outs);
    assert(inputs_wf(ctx, outs));
    let f = depth_bound(ctx, outs);
    assert(stuck_after_fail(args_events(ctx, outs, false, f)));
    lemma_args_no_fail(ctx, outs, false, f);
    lemma_no_error_no_fail(args_events(ctx, outs, false, f));
}

// ---------------------------------------------------------------------------------------------
// The layout of the values.
// ---------------------------------------------------------------------------------------------

/// Whether an input event is that of a circuit input type whose index is the event's.
pub open spec fn input_event_ok<C: TypeSpecializationContext + ?Sized>(
    ctx: &C,
    e: InputEvent,
) -> bool {
    e is Input ==> {
        &&& ctx.type_info_of(e->Input_ty) is Some
        &&& ctx.type_info_of(e->Input_ty)->Some_0.long_id.generic_id == circuit_input_name()
        &&& input_index_spec(ctx.type_info_of(e->Input_ty)->Some_0.long_id.generic_args) == Ok::<
            usize,
            crate::types::SpecializationError,
        >(e->idx)
    }
}

/// Whether a gate use is that of an addition gate type.
pub open spec fn gate_use_ok<C: TypeSpecializationContext + ?Sized>(ctx: &C, u: GateUse) -> bool {
    &&& ctx.type_info_of(u.gate) is Some
    &&& ctx.type_info_of(u.gate)->Some_0.long_id.generic_id == add_mod_gate_name()
}

proof fn lemma_node_events_ok<C: TypeSpecializationContext + ?Sized>(
    ctx: &C,
    ty: ConcreteTypeId,
    nr: bool,
    fuel: nat,
)
    ensures
        forall|i: int|
            0 <= i < node_events(ctx, ty, nr, fuel).len() ==> input_event_ok(
                ctx,
                #[trigger] node_events(ctx, ty, nr, fuel)[i],
            ),
    decreases fuel, 0nat,
{
    match ctx.type_info_of(ty) {
        Some(info) => {
            if info.long_id.generic_id == circuit_input_name() {
                match input_index_spec(info.long_id.generic_args) {
                    Ok(idx) => {
                        let ev = InputEvent::Input { ty, needs_reduction: nr, idx };
                        assert(node_events(ctx, ty, nr, fuel) == seq![ev]);
                        assert(input_event_ok(ctx, ev));
                    },
                    Err(err) => {
                        assert(node_events(ctx, ty, nr, fuel) == seq![InputEvent::Fail { err }]);
                    },
                }
            } else if info.long_id.generic_id == add_mod_gate_name() {
                if fuel > 0 && all_types(info.long_id.generic_args) {
                    lemma_args_events_ok(ctx, info.long_id.generic_args, true, (fuel - 1) as nat);
                    assert(node_events(ctx, ty, nr, fuel) == args_events(
                        ctx,
                        info.long_id.generic_args,
                        true,
                        (fuel - 1) as nat,
                    ));
                } else {
                    assert(node_events(ctx, ty, nr, fuel) == seq![InputEvent::Stuck]);
                }
            } else {
                assert(node_events(ctx, ty, nr, fuel) == seq![
                    InputEvent::Fail { err: crate::types::SpecializationError::UnsupportedGenericArg },
                ]);
            }
        },
        None => {
            assert(node_events(ctx, ty, nr, fuel) == seq![
                InputEvent::Fail { err: crate::types::SpecializationError::MissingTypeInfo(ty) },
            ]);
        },
    }
}

proof fn lemma_args_events_ok<C: TypeSpecializationContext + ?Sized>(
    ctx: &C,
    args: Seq<GenericArgModel>,
    nr: bool,
    fuel: nat,
)
    ensures
        forall|i: int|
            0 <= i < args_events(ctx, args, nr, fuel).len() ==> input_event_ok(
                ctx,
                #[trigger] args_events(ctx, args, nr, fuel)[i],
            ),
    decreases fuel, args.len(),
{
    if args.len() > 0 {
        let head = match args.last() {
            GenericArgModel::Type(t) => node_events(ctx, t, nr, fuel),
            _ => Seq::<InputEvent>::empty(),
        };
        match args.last() {
            GenericArgModel::Type(t) => lemma_node_events_ok(ctx, t, nr, fuel),
            _ => {},
        }
        let tail = args_events(ctx, args.drop_last(), nr, fuel);
        lemma_args_events_ok(ctx, args.drop_last(), nr, fuel);
        assert(args_events(ctx, args, nr, fuel) == head + tail);
        assert forall|i: int| 0 <= i < (head + tail).len() implies input_event_ok(
            ctx,
            #[trigger] (head + tail)[i],
        ) by {
            if i < head.len() {
                assert((head + tail)[i] == head[i]);
            } else {
                assert((head + tail)[i] == tail[i - head.len()]);
            }
        }
    }
}

proof fn lemma_node_gates_ok<C: TypeSpecializationContext + ?Sized>(
    ctx: &C,
    ty: ConcreteTypeId,
    fuel: nat,
)
    ensures
        forall|i: int|
            0 <= i < node_gates(ctx, ty, fuel).len() ==> gate_use_ok(
                ctx,
                #[trigger] node_gates(ctx, ty, fuel)[i],
            ),
    decreases fuel, 0nat,
{
    match ctx.type_info_of(ty) {
        Some(info) => {
            if info.long_id.generic_id != circuit_input_name() && info.long_id.generic_id
                == add_mod_gate_name() && fuel > 0 {
                let a = args_gates(ctx, info.long_id.generic_args, (fuel - 1) as nat);
                lemma_args_gates_ok(ctx, info.long_id.generic_args, (fuel - 1) as nat);
                let g = a.push(gate_use(ty, info));
                assert(node_gates(ctx, ty, fuel) == g);
                assert forall|i: int| 0 <= i < g.len() implies gate_use_ok(ctx, #[trigger] g[i]) by {
                    if i < a.len() {
                        assert(g[i] == a[i]);
                    }
                }
            }
        },
        None => {},
    }
}

proof fn lemma_args_gates_ok<C: TypeSpecializationContext + ?Sized>(
    ctx: &C,
    args: Seq<GenericArgModel>,
    fuel: nat,
)
    ensures
        forall|i: int|
            0 <= i < args_gates(ctx, args, fuel).len() ==> gate_use_ok(
                ctx,
                #[trigger] args_gates(ctx, args, fuel)[i],
            ),
    decreases fuel, args.len(),
{
    if args.len() > 0 {
        let head = match args.last() {
            GenericArgModel::Type(t) => node_gates(ctx, t, fuel),
            _ => Seq::<GateUse>::empty(),
        };
        match args.last() {
            GenericArgModel::Type(t) => lemma_node_gates_ok(ctx, t, fuel),
            _ => {},
        }
        let tail = args_gates(ctx, args.drop_last(), fuel);
        lemma_args_gates_ok(ctx, args.drop_last(), fuel);
        assert(args_gates(ctx, args, fuel) == head + tail);
        assert forall|i: int| 0 <= i < (head + tail).len() implies gate_use_ok(
            ctx,
            #[trigger] (head + tail)[i],
        ) by {
            if i < head.len() {
                assert((head + tail)[i] == head[i]);
            } else {
                assert((head + tail)[i] == tail[i - head.len()]);
            }
        }
    }
}

/// Whether the entries hold pairwise distinct types.
pub open spec fn distinct_entry_types(entries: Seq<(usize, (ConcreteTypeId, bool))>) -> bool {
    forall|x: int, y: int|
        0 <= x < entries.len() && 0 <= y < entries.len() && x != y ==> (#[trigger] entries[x]).1.0.id
            != (#[trigger] entries[y]).1.0.id
}

/// The offset of each entry's input: its reduced copy when it needs a reduction, its index
/// otherwise.
proof fn lemma_input_offsets_at(entries: Seq<(usize, (ConcreteTypeId, bool))>, n: nat)
    requires
        distinct_entry_types(entries),
    ensures
        forall|id: u64|
            #[trigger] input_offsets(entries, n).contains_key(id) ==> exists|x: int|
                0 <= x < entries.len() && (#[trigger] entries[x]).1.0.id == id,
        forall|x: int|
            0 <= x < entries.len() ==> input_offsets(entries, n).contains_key(
                (#[trigger] entries[x]).1.0.id,
            ) && input_offsets(entries, n)[entries[x].1.0.id] == (if entries[x].1.1 {
                (n + 1 + reduction_count(entries.take(x))) as usize
            } else {
                entries[x].0
            }),
    decreases entries.len(),
{
    if entries.len() > 0 {
        let prev = entries.drop_last();
        assert(distinct_entry_types(prev)) by {
            assert forall|x: int, y: int|
                0 <= x < prev.len() && 0 <= y < prev.len() && x != y implies (#[trigger] prev[x]).1.0.id
                != (#[trigger] prev[y]).1.0.id by {
                assert(prev[x] == entries[x]);
                assert(prev[y] == entries[y]);
            }
        }
        lemma_input_offsets_at(prev, n);
        let last = entries.len() - 1;
        assert(entries.take(last) =~= prev);
        assert forall|id: u64| #[trigger] input_offsets(entries, n).contains_key(id) implies exists|x: int|
            0 <= x < entries.len() && (#[trigger] entries[x]).1.0.id == id by {
            if id != entries[last].1.0.id {
                assert(input_offsets(prev, n).contains_key(id));
                let x = choose|x: int| 0 <= x < prev.len() && (#[trigger] prev[x]).1.0.id == id;
                assert(entries[x] == prev[x]);
            }
        }
        assert forall|x: int| 0 <= x < entries.len() implies input_offsets(entries, n).contains_key(
            (#[trigger] entries[x]).1.0.id,
        ) && input_offsets(entries, n)[entries[x].1.0.id] == (if entries[x].1.1 {
            (n + 1 + reduction_count(entries.take(x))) as usize
        } else {
            entries[x].0
        }) by {
            if x < last {
                assert(entries[x] == prev[x]);
                assert(entries.take(x) =~= prev.take(x));
                assert(entries[x].1.0.id != entries[last].1.0.id);
            }
        }
    }
}

/// The reduction gate of each entry that needs a reduction sits at the number of reductions
/// before it.
#[verifier::spinoff_prover]
proof fn lemma_reduction_gate_at(entries: Seq<(usize, (ConcreteTypeId, bool))>, n: nat)
    ensures
        reduction_gates(entries, n).len() == reduction_count(entries),
        forall|x: int|
            0 <= x < entries.len() && (#[trigger] entries[x]).1.1 ==> {
                let c = reduction_count(entries.take(x));
                &&& c < reduction_gates(entries, n).len()
                &&& reduction_gates(entries, n)[c as int] == GateOffsets {
                    lhs: n as usize,
                    rhs: entries[x].0,
                    output: (n + 1 + c) as usize,
                }
            },
    decreases entries.len(),
{
    if entries.len() > 0 {
        let prev = entries.drop_last();
        lemma_reduction_gate_at(prev, n);
        let last = entries.len() - 1;
        assert(entries.take(last) =~= prev);
        let pg = reduction_gates(prev, n);
        let g = reduction_gates(entries, n);
        assert(g.len() >= pg.len());
        assert(forall|i: int| 0 <= i < pg.len() ==> #[trigger] g[i] == pg[i]);
        if entries[last].1.1 {
            assert(g[pg.len() as int] == GateOffsets {
                lhs: n as usize,
                rhs: entries[last].0,
                output: (n + 1 + reduction_count(prev)) as usize,
            });
        }
        assert forall|x: int| 0 <= x < entries.len() && (#[trigger] entries[x]).1.1 implies {
            let c = reduction_count(entries.take(x));
            &&& c < reduction_gates(entries, n).len()
            &&& reduction_gates(entries, n)[c as int] == GateOffsets {
                lhs: n as usize,
                rhs: entries[x].0,
                output: (n + 1 + c) as usize,
            }
        } by {
            if x < last {
                assert(entries[x] == prev[x]);
                assert(entries.take(x) =~= prev.take(x));
            }
        }
    }
}

/// Laying out gates keeps the offsets already given, and only adds offsets.
proof fn lemma_add_gates_grows(values0: Map<u64, usize>, gates: Seq<GateUse>, first: nat, j: int)
    requires
        0 <= j <= gates.len(),
    ensures
        forall|id: u64|
            #[trigger] add_gates(values0, gates.take(j), first).0.contains_key(id) ==> add_gates(
                values0,
                gates,
                first,
            ).0.contains_key(id) && add_gates(values0, gates, first).0[id] == add_gates(
                values0,
                gates.take(j),
                first,
            ).0[id],
    decreases gates.len(),
{
    if j == gates.len() {
        assert(gates.take(j) =~= gates);
    } else {
        let prev = gates.drop_last();
        assert(gates.take(j) =~= prev.take(j));
        lemma_add_gates_grows(values0, prev, first, j);
    }
}

/// Whether the `k`th gate laid out from `gates` is `gates[j]`, read with the offsets given
/// before it.
pub open spec fn laid_out_at(
    values0: Map<u64, usize>,
    gates: Seq<GateUse>,
    first: nat,
    k: int,
    j: int,
) -> bool {
    &&& 0 <= j < gates.len()
    &&& !values0.contains_key(gates[j].gate.id)
    &&& add_gates(values0, gates, first).0[gates[j].gate.id] == first + k
    &&& add_gates(values0, gates, first).1[k].lhs == add_gates(values0, gates.take(j), first).0[gates[j].lhs.id]
    &&& add_gates(values0, gates, first).1[k].rhs == add_gates(values0, gates.take(j), first).0[gates[j].rhs.id]
}

/// The position in `gates` of the `k`th gate laid out.
pub open spec fn laid_out_origin(
    values0: Map<u64, usize>,
    gates: Seq<GateUse>,
    first: nat,
    k: int,
) -> int {
    choose|j: int| laid_out_at(values0, gates, first, k, j)
}

/// Laying out gates from `first` keeps the offsets of `values0`; the `k`th gate laid out
/// writes `first + k`, and each new key gets its own offset among those written; every gate
/// laid out is one of `gates`, read with the offsets given before it.
proof fn lemma_add_gates_at(values0: Map<u64, usize>, gates: Seq<GateUse>, first: nat)
    requires
        first + gates.len() <= usize::MAX,
    ensures
        add_gates(values0, gates, first).1.len() <= gates.len(),
        forall|k: int|
            0 <= k < add_gates(values0, gates, first).1.len() ==> (#[trigger] add_gates(
                values0,
                gates,
                first,
            ).1[k]).output == first + k,
        forall|id: u64|
            #[trigger] add_gates(values0, gates, first).0.contains_key(id) <==> (values0.contains_key(id)
                || exists|j: int| 0 <= j < gates.len() && #[trigger] gates[j].gate.id == id),
        forall|id: u64|
            values0.contains_key(id) ==> #[trigger] add_gates(values0, gates, first).0[id]
                == values0[id],
        forall|id: u64|
            #[trigger] add_gates(values0, gates, first).0.contains_key(id) && !values0.contains_key(
                id,
            ) ==> first <= add_gates(values0, gates, first).0[id] < first + add_gates(
                values0,
                gates,
                first,
            ).1.len(),
        forall|id1: u64, id2: u64|
            #[trigger] add_gates(values0, gates, first).0.contains_key(id1)
                && #[trigger] add_gates(values0, gates, first).0.contains_key(id2)
                && !values0.contains_key(id1) && !values0.contains_key(id2) && id1 != id2
                ==> add_gates(values0, gates, first).0[id1] != add_gates(values0, gates, first).0[id2],
        forall|k: int|
            0 <= k < add_gates(values0, gates, first).1.len() ==> laid_out_at(
                values0,
                gates,
                first,
                k,
                #[trigger] laid_out_origin(values0, gates, first, k),
            ),
    decreases gates.len(),
{
    lemma_add_gates_keys(values0, gates, first);
    if gates.len() > 0 {
        let prev = gates.drop_last();
        lemma_add_gates_at(values0, prev, first);
        let last = gates.len() - 1;
        let (pv, pa) = add_gates(values0, prev, first);
        let g = gates[last];
        assert(gates.take(last) =~= prev);
        if pv.contains_key(g.gate.id) {
            assert(add_gates(values0, gates, first).0 == pv && add_gates(values0, gates, first).1 == pa);
            assert forall|k: int|
                0 <= k < add_gates(values0, gates, first).1.len() implies laid_out_at(
                values0,
                gates,
                first,
                k,
                #[trigger] laid_out_origin(values0, gates, first, k),
            ) by {
                assert(0 <= k < add_gates(values0, prev, first).1.len());
                assert(add_gates(values0, prev, first).1[k] == pa[k]);
                let j = laid_out_origin(values0, prev, first, k);
                assert(laid_out_at(values0, prev, first, k, j));
                assert(gates[j] == prev[j]);
                assert(gates.take(j) =~= prev.take(j));
                assert(laid_out_at(values0, gates, first, k, j));
            }
        } else {
            let out = first + pa.len();
            assert(add_gates(values0, gates, first).0 == pv.insert(g.gate.id, out as usize));
            assert(!values0.contains_key(g.gate.id));
            assert forall|k: int|
                0 <= k < add_gates(values0, gates, first).1.len() implies laid_out_at(
                values0,
                gates,
                first,
                k,
                #[trigger] laid_out_origin(values0, gates, first, k),
            ) by {
                if k < pa.len() {
                    assert(0 <= k < add_gates(values0, prev, first).1.len());
                assert(add_gates(values0, prev, first).1[k] == pa[k]);
                let j = laid_out_origin(values0, prev, first, k);
                assert(laid_out_at(values0, prev, first, k, j));
                    assert(gates[j] == prev[j]);
                    assert(gates.take(j) =~= prev.take(j));
                    assert(add_gates(values0, gates, first).1[k] == pa[k]);
                    assert(pv.contains_key(prev[j].gate.id));
                    assert(prev[j].gate.id != g.gate.id);
                    assert(laid_out_at(values0, gates, first, k, j));
                } else {
                    assert(gates[last] == g);
                    assert(add_gates(values0, gates, first).0[g.gate.id] == first + k);
                    assert(add_gates(values0, gates.take(last), first).0 == pv);
                    assert(add_gates(values0, gates, first).1[k].lhs == pv[g.lhs.id]);
                    assert(add_gates(values0, gates, first).1[k].rhs == pv[g.rhs.id]);
                    assert(!values0.contains_key(gates[last].gate.id));
                    assert(laid_out_at(values0, gates, first, k, last));
                }
            }
        }
    } else {
        assert(add_gates(values0, gates, first).1.len() == 0);
    }
}

/// The entries of the inputs met hold pairwise distinct types: a type has one index.
proof fn lemma_entries_distinct<C: TypeSpecializationContext + ?Sized>(
    ctx: &C,
    all: Seq<InputEvent>,
)
    requires
        forall|i: int| 0 <= i < all.len() ==> input_event_ok(ctx, #[trigger] all[i]),
        enumerates(sorted_entries(inputs_fold(all)), inputs_fold(all)),
    ensures
        distinct_entry_types(sorted_entries(inputs_fold(all))),
        forall|x: int|
            0 <= x < sorted_entries(inputs_fold(all)).len() ==> input_event_ok(
                ctx,
                InputEvent::Input {
                    ty: (#[trigger] sorted_entries(inputs_fold(all))[x]).1.0,
                    needs_reduction: false,
                    idx: sorted_entries(inputs_fold(all))[x].0,
                },
            ),
{
    let m = inputs_fold(all);
    let entries = sorted_entries(m);
    lemma_inputs_fold(all);
    assert forall|x: int| 0 <= x < entries.len() implies input_event_ok(
        ctx,
        InputEvent::Input {
            ty: (#[trigger] entries[x]).1.0,
            needs_reduction: false,
            idx: entries[x].0,
        },
    ) by {
        let k = entries[x].0;
        assert(m.contains_key(k) && m[k] == entries[x].1);
        let j = choose|j: int|
            0 <= j < all.len() && #[trigger] all[j] is Input && all[j]->idx == k && m[k].0
                == all[j]->Input_ty;
        assert(input_event_ok(ctx, all[j]));
    }
    assert forall|x: int, y: int|
        0 <= x < entries.len() && 0 <= y < entries.len() && x != y implies (#[trigger] entries[x]).1.0.id
        != (#[trigger] entries[y]).1.0.id by {
        let ix = InputEvent::Input { ty: entries[x].1.0, needs_reduction: false, idx: entries[x].0 };
        let iy = InputEvent::Input { ty: entries[y].1.0, needs_reduction: false, idx: entries[y].0 };
        assert(input_event_ok(ctx, ix));
        assert(input_event_ok(ctx, iy));
        if entries[x].1.0.id == entries[y].1.0.id {
            assert(entries[x].1.0 == entries[y].1.0);
            assert(entries[x].0 == entries[y].0);
            if x < y {
                assert(entries[x].0 < entries[y].0);
            } else {
                assert(entries[y].0 < entries[x].0);
            }
        }
    }
}

/// The layout of a circuit with `n` inputs: the value 1 sits at offset `n`, the reduced copies
/// of the inputs that feed an addition follow it, and the outputs of the additions follow those,
/// in the order in which the additions are laid out. An input is read from its reduced copy when
/// it feeds an addition and from its index otherwise, an addition from the output of its last
/// visit; nothing else has an offset. When the indices of the inputs are below `n`, the offsets
/// of all the values are pairwise distinct.
#[verifier::spinoff_prover]
#[verifier::rlimit(80)]
pub proof fn law_layout<C: TypeSpecializationContext + ?Sized>(
    ctx: &C,
    outputs: Seq<GenericArgModel>,
)
    requires
        circuit_wf(ctx, outputs),
        layout_spec(ctx, outputs) is Ok,
    ensures
        ({
            let info = layout_spec(ctx, outputs)->Ok_0;
            let f = depth_bound(ctx, outputs);
            let m = inputs_fold(args_events(ctx, outputs, false, f));
            let gates = args_gates(ctx, outputs, f);
            let n = m.len();
            let base = n + 1 + info.mul_offsets.len();
            &&& forall|k: int|
                0 <= k < info.add_offsets.len() ==> (#[trigger] info.add_offsets[k]).output == base + k
            &&& forall|idx: usize|
                #[trigger] m.contains_key(idx) && !m[idx].1 ==> info.values.contains_key(m[idx].0.id)
                    && info.values[m[idx].0.id] == idx
            &&& forall|idx: usize|
                #[trigger] m.contains_key(idx) && m[idx].1 ==> exists|j: int|
                    0 <= j < info.mul_offsets.len() && #[trigger] info.mul_offsets[j].rhs == idx
                        && info.values.contains_key(m[idx].0.id) && info.values[m[idx].0.id]
                        == info.mul_offsets[j].output
            &&& forall|j: int|
                0 <= j < gates.len() ==> info.values.contains_key((#[trigger] gates[j]).gate.id)
                    && info.values[gates[j].gate.id] >= base
            &&& forall|id: u64|
                #[trigger] info.values.contains_key(id) ==> (exists|idx: usize|
                    #[trigger] m.contains_key(idx) && m[idx].0.id == id) || (exists|j: int|
                    0 <= j < gates.len() && #[trigger] gates[j].gate.id == id)
            &&& (forall|idx: usize| #[trigger] m.contains_key(idx) ==> idx < n) ==> forall|
                a: u64,
                b: u64,
            |
                #[trigger] info.values.contains_key(a) && #[trigger] info.values.contains_key(b) && a
                    != b ==> info.values[a] != info.values[b]
        }),
{
    let f = depth_bound(ctx, outputs);
    let all = args_events(ctx, outputs, false, f);
    let m = inputs_fold(all);
    let entries = sorted_entries(m);
    let n = m.len();
    let gates = args_gates(ctx, outputs, f);
    let values0 = input_offsets(entries, n);
    let muls = reduction_gates(entries, n);
    let first = n + 1 + muls.len();
    let info = layout_spec(ctx, outputs)->Ok_0;
    assert(no_fail(all));
    lemma_inputs_fold_finite(all);
    enumeration_exists(m);
    lemma_enumerates_len(entries, m);
    lemma_inputs_fold(all);
    lemma_args_events_ok(ctx, outputs, false, f);
    lemma_args_gates_ok(ctx, outputs, f);
    lemma_reduction_gates(entries, n);
    lemma_entries_distinct(ctx, all);
    lemma_input_offsets_at(entries, n);
    lemma_reduction_gate_at(entries, n);
    lemma_add_gates_at(values0, gates, first);
    assert(info.mul_offsets == muls);
    assert(info.values == add_gates(values0, gates, first).0);
    assert(info.add_offsets == add_gates(values0, gates, first).1);
    reveal_strlit("CircuitInput");
    reveal_strlit("AddModGate");
    assert(circuit_input_name() != add_mod_gate_name()) by {
        assert(circuit_input_name().len() != add_mod_gate_name().len());
    }
    // No input shares its type with a gate.
    assert forall|x: int, j: int| 0 <= x < entries.len() && 0 <= j < gates.len() implies (#[trigger] entries[x]).1.0.id
        != (#[trigger] gates[j]).gate.id by {
        let ev = InputEvent::Input { ty: entries[x].1.0, needs_reduction: false, idx: entries[x].0 };
        assert(input_event_ok(ctx, ev));
        assert(gate_use_ok(ctx, gates[j]));
        if entries[x].1.0.id == gates[j].gate.id {
            assert(entries[x].1.0 == gates[j].gate);
        }
    }
    // The offset of every input type of the entries is kept.
    assert forall|x: int| 0 <= x < entries.len() implies info.values.contains_key(
        (#[trigger] entries[x]).1.0.id,
    ) && info.values[entries[x].1.0.id] == values0[entries[x].1.0.id] by {
        if exists|j: int| 0 <= j < gates.len() && #[trigger] gates[j].gate.id == entries[x].1.0.id {
            let j = choose|j: int| 0 <= j < gates.len() && #[trigger] gates[j].gate.id == entries[x].1.0.id;
            assert(entries[x].1.0.id != gates[j].gate.id);
        }
    }
    assert forall|idx: usize| #[trigger] m.contains_key(idx) && !m[idx].1 implies info.values.contains_key(
        m[idx].0.id,
    ) && info.values[m[idx].0.id] == idx by {
        let x = choose|x: int| #![trigger entries[x]] 0 <= x < entries.len() && entries[x].0 == idx;
        assert(entries[x].1 == m[idx]);
    }
    assert forall|idx: usize| #[trigger] m.contains_key(idx) && m[idx].1 implies exists|j: int|
        0 <= j < info.mul_offsets.len() && #[trigger] info.mul_offsets[j].rhs == idx
            && info.values.contains_key(m[idx].0.id) && info.values[m[idx].0.id]
            == info.mul_offsets[j].output by {
        let x = choose|x: int| #![trigger entries[x]] 0 <= x < entries.len() && entries[x].0 == idx;
        assert(entries[x].1 == m[idx]);
        let c = reduction_count(entries.take(x));
        assert(muls[c as int].rhs == idx);
    }
    lemma_gates_not_inputs(ctx, outputs);
    assert forall|j: int| 0 <= j < gates.len() implies info.values.contains_key((#[trigger] gates[j]).gate.id)
        && info.values[gates[j].gate.id] >= first by {
        assert(exists|x: int| 0 <= x < gates.len() && #[trigger] gates[x].gate.id == gates[j].gate.id);
        assert(!values0.contains_key(gates[j].gate.id));
    }
    assert forall|id: u64| #[trigger] info.values.contains_key(id) implies (exists|idx: usize|
        #[trigger] m.contains_key(idx) && m[idx].0.id == id) || (exists|j: int|
        0 <= j < gates.len() && #[trigger] gates[j].gate.id == id) by {
        if values0.contains_key(id) {
            let x = choose|x: int| 0 <= x < entries.len() && (#[trigger] entries[x]).1.0.id == id;
            assert(m.contains_key(entries[x].0) && m[entries[x].0] == entries[x].1);
        }
    }
    if forall|idx: usize| #[trigger] m.contains_key(idx) ==> idx < n {
        assert forall|a: u64, b: u64|
            #[trigger] info.values.contains_key(a) && #[trigger] info.values.contains_key(b) && a != b implies info.values[a]
            != info.values[b] by {
            if values0.contains_key(a) {
                assert(exists|x: int| 0 <= x < entries.len() && (#[trigger] entries[x]).1.0.id == a);
            }
            if values0.contains_key(b) {
                assert(exists|x: int| 0 <= x < entries.len() && (#[trigger] entries[x]).1.0.id == b);
            }
            lemma_layout_distinct_pair(entries, values0, muls, info.values, n, first, a, b);
        }
    }
}


/// Two distinct values of a layout whose input indices are below `n` have distinct offsets:
/// the inputs below `n`, their reduced copies between `n` and `first`, the additions from
/// `first` on, each at its own offset.
#[verifier::spinoff_prover]
proof fn lemma_layout_distinct_pair(
    entries: Seq<(usize, (ConcreteTypeId, bool))>,
    values0: Map<u64, usize>,
    muls: Seq<GateOffsets>,
    values: Map<u64, usize>,
    n: nat,
    first: nat,
    a: u64,
    b: u64,
)
    requires
        forall|i: int, j: int|
            #![trigger entries[i], entries[j]]
            0 <= i < j < entries.len() ==> entries[i].0 < entries[j].0,
        forall|x: int| 0 <= x < entries.len() ==> (#[trigger] entries[x]).0 < n,
        first == n + 1 + muls.len(),
        first <= usize::MAX,
        values0 == input_offsets(entries, n),
        forall|x: int|
            0 <= x < entries.len() ==> input_offsets(entries, n).contains_key(
                (#[trigger] entries[x]).1.0.id,
            ) && input_offsets(entries, n)[entries[x].1.0.id] == (if entries[x].1.1 {
                (n + 1 + reduction_count(entries.take(x))) as usize
            } else {
                entries[x].0
            }),
        forall|x: int|
            0 <= x < entries.len() && (#[trigger] entries[x]).1.1 ==> {
                let c = reduction_count(entries.take(x));
                &&& c < muls.len()
                &&& muls[c as int].rhs == entries[x].0
            },
        values0.contains_key(a) ==> exists|x: int|
            0 <= x < entries.len() && (#[trigger] entries[x]).1.0.id == a,
        values0.contains_key(b) ==> exists|x: int|
            0 <= x < entries.len() && (#[trigger] entries[x]).1.0.id == b,
        forall|id: u64| values0.contains_key(id) ==> #[trigger] values[id] == values0[id],
        forall|id: u64|
            #[trigger] values.contains_key(id) && !values0.contains_key(id) ==> first <= values[id],
        forall|id1: u64, id2: u64|
            #[trigger] values.contains_key(id1) && #[trigger] values.contains_key(id2)
                && !values0.contains_key(id1) && !values0.contains_key(id2) && id1 != id2
                ==> values[id1] != values[id2],
        values.contains_key(a),
        values.contains_key(b),
        a != b,
    ensures
        values[a] != values[b],
{
    if !values0.contains_key(a) && !values0.contains_key(b) {
    } else if !values0.contains_key(a) || !values0.contains_key(b) {
        let i = if values0.contains_key(a) {
            a
        } else {
            b
        };
        let x = choose|x: int| 0 <= x < entries.len() && (#[trigger] entries[x]).1.0.id == i;
        assert(values[i] == values0[i]);
        if entries[x].1.1 {
            let c = reduction_count(entries.take(x));
            assert(values[i] == n + 1 + c);
        } else {
            assert(values[i] < n);
        }
    } else {
        let xa = choose|x: int| 0 <= x < entries.len() && (#[trigger] entries[x]).1.0.id == a;
        let xb = choose|x: int| 0 <= x < entries.len() && (#[trigger] entries[x]).1.0.id == b;
        assert(values[a] == values0[a]);
        assert(values[b] == values0[b]);
        assert(xa != xb);
        if entries[xa].0 == entries[xb].0 {
            if xa < xb {
                assert(entries[xa].0 < entries[xb].0);
            } else {
                assert(entries[xb].0 < entries[xa].0);
            }
        }
        if entries[xa].1.1 && entries[xb].1.1 {
            let ca = reduction_count(entries.take(xa));
            let cb = reduction_count(entries.take(xb));
            if ca == cb {
                assert(muls[ca as int].rhs == entries[xa].0);
                assert(muls[cb as int].rhs == entries[xb].0);
            }
        }
    }
}

/// Laying out gates keeps every offset of `values0`.
proof fn lemma_add_gates_keeps(values0: Map<u64, usize>, gates: Seq<GateUse>, first: nat)
    ensures
        forall|id: u64|
            values0.contains_key(id) ==> #[trigger] add_gates(values0, gates, first).0.contains_key(id)
                && add_gates(values0, gates, first).0[id] == values0[id],
    decreases gates.len(),
{
    if gates.len() > 0 {
        let prev = gates.drop_last();
        lemma_add_gates_keeps(values0, prev, first);
        let (pv, pa) = add_gates(values0, prev, first);
        let g = gates.last();
        assert forall|id: u64|
            values0.contains_key(id) implies #[trigger] add_gates(values0, gates, first).0.contains_key(id)
                && add_gates(values0, gates, first).0[id] == values0[id] by {
            assert(add_gates(values0, prev, first).0.contains_key(id));
            assert(pv.contains_key(id) && pv[id] == values0[id]);
            if !pv.contains_key(g.gate.id) {
                assert(id != g.gate.id);
            }
        }
    }
}

/// Laying out a circuit fails exactly when parsing its inputs fails, with the same error; and
/// where it succeeds it keeps what parsing gave: the offsets of the inputs, the mul gates that
/// reduce them, and whether the value 1 is needed.
pub proof fn law_layout_keeps_parse<C: TypeSpecializationContext + ?Sized>(
    ctx: &C,
    outputs: Seq<GenericArgModel>,
)
    ensures
        match parse_spec(ctx, outputs, depth_bound(ctx, outputs)) {
            Err(e) => layout_spec(ctx, outputs) == Err::<
                crate::circuit_info::CircuitInfoModel,
                crate::types::SpecializationError,
            >(e),
            Ok(p) => {
                &&& layout_spec(ctx, outputs) is Ok
                &&& layout_spec(ctx, outputs)->Ok_0.mul_offsets == p.mul_offsets
                &&& layout_spec(ctx, outputs)->Ok_0.one_needed == p.one_needed
                &&& forall|id: u64|
                    #[trigger] p.values.contains_key(id) ==> layout_spec(
                        ctx,
                        outputs,
                    )->Ok_0.values.contains_key(id) && layout_spec(ctx, outputs)->Ok_0.values[id]
                        == p.values[id]
            },
        },
{
    let f = depth_bound(ctx, outputs);
    match parse_spec(ctx, outputs, f) {
        Err(_) => {},
        Ok(p) => {
            let gates = args_gates(ctx, outputs, f);
            let first = gates_first_offset(p);
            lemma_add_gates_keeps(p.values, gates, first);
            let info = layout_spec(ctx, outputs)->Ok_0;
            assert(info.values == add_gates(p.values, gates, first).0);
            assert forall|id: u64| #[trigger] p.values.contains_key(id) implies info.values.contains_key(id)
                && info.values[id] == p.values[id] by {
                assert(add_gates(p.values, gates, first).0.contains_key(id));
            }
        },
    }
}

// ---------------------------------------------------------------------------------------------
// Well-formed circuits of validated contexts.
// ---------------------------------------------------------------------------------------------

/// Whether every long id of the context names one type, as in the registry of a program.
pub open spec fn long_ids_name_one_type<C: TypeSpecializationContext + ?Sized>(ctx: &C) -> bool {
    forall|t1: ConcreteTypeId, t2: ConcreteTypeId|
        #[trigger] ctx.type_info_of(t1) is Some && #[trigger] ctx.type_info_of(t2) is Some
            && ctx.type_info_of(t1)->Some_0.long_id == ctx.type_info_of(t2)->Some_0.long_id
            ==> t1 == t2
}

/// Two argument lists that give the same input index are equal.
proof fn lemma_input_index_args(a: Seq<GenericArgModel>, b: Seq<GenericArgModel>, i: usize)
    requires
        input_index_spec(a) == Ok::<usize, crate::types::SpecializationError>(i),
        input_index_spec(b) == Ok::<usize, crate::types::SpecializationError>(i),
    ensures
        a == b,
{
    assert(a =~= b);
}

/// Below a component of a validated context, the gates have two arguments.
proof fn lemma_node_validated_wf<C: TypeSpecializationContext + ?Sized>(
    ctx: &C,
    ty: ConcreteTypeId,
    fuel: nat,
)
    requires
        components_validated(ctx),
        is_component_spec(ctx, GenericArgModel::Type(ty)) == Ok::<
            bool,
            crate::types::SpecializationError,
        >(true),
        node_fin(ctx, ty, fuel),
    ensures
        node_wf(ctx, ty, fuel),
    decreases fuel, 0nat,
{
    assert(ctx.type_info_of(ty) is Some);
    let info = ctx.type_info_of(ty)->Some_0;
    if info.long_id.generic_id != circuit_input_name() && info.long_id.generic_id
        == add_mod_gate_name() {
        assert(gate_args_spec(ctx, info.long_id.generic_args) is Ok);
        lemma_args_validated_wf(ctx, info.long_id.generic_args, (fuel - 1) as nat);
    }
}

/// Below components of a validated context, the gates have two arguments.
proof fn lemma_args_validated_wf<C: TypeSpecializationContext + ?Sized>(
    ctx: &C,
    args: Seq<GenericArgModel>,
    fuel: nat,
)
    requires
        components_validated(ctx),
        components_spec(ctx, args) is Ok,
        args_fin(ctx, args, fuel),
    ensures
        args_wf(ctx, args, fuel),
    decreases fuel, args.len(),
{
    if args.len() > 0 {
        lemma_components_each(ctx, args);
        let prev = args.drop_last();
        assert forall|i: int| 0 <= i < prev.len() implies #[trigger] is_component_spec(
            ctx,
            prev[i],
        ) == Ok::<bool, crate::types::SpecializationError>(true) by {
            assert(prev[i] == args[i]);
        }
        lemma_components_each(ctx, prev);
        lemma_args_validated_wf(ctx, prev, fuel);
        let last = args[args.len() - 1];
        assert(is_component_spec(ctx, last) == Ok::<bool, crate::types::SpecializationError>(true));
        lemma_node_validated_wf(ctx, arg_type(last), fuel);
    }
}

/// A circuit whose outputs are components of a validated context in which every long id names
/// one type is well formed as soon as its search ends and its offsets fit in a `usize`: its
/// gates have two arguments, and an input index names one input.
pub proof fn law_validated_circuit_is_well_formed<C: TypeSpecializationContext + ?Sized>(
    ctx: &C,
    outputs: Seq<GenericArgModel>,
)
    requires
        components_validated(ctx),
        long_ids_name_one_type(ctx),
        components_spec(ctx, outputs) is Ok,
        exists|f: nat| args_fin(ctx, outputs, f),
        ({
            let f = depth_bound(ctx, outputs);
            let n = inputs_fold(args_events(ctx, outputs, false, f)).len();
            &&& n < usize::MAX / 2
            &&& 2 * n + 1 + args_gates(ctx, outputs, f).len() <= usize::MAX
        }),
    ensures
        circuit_wf(ctx, outputs),
{
    let f = depth_bound(ctx, outputs);
    let all = args_events(ctx, outputs, false, f);
    let m = inputs_fold(all);
    lemma_components_each(ctx, outputs);
    assert(all_types(outputs)) by {
        assert forall|i: int| 0 <= i < outputs.len() implies #[trigger] outputs[i] is Type by {
            assert(is_component_spec(ctx, outputs[i]) == Ok::<bool, crate::types::SpecializationError>(
                true,
            ));
        }
    }
    let f0 = choose|f: nat| args_fin(ctx, outputs, f);
    lemma_args_stuck(ctx, outputs, false, f0);
    assert(stuck_after_fail(args_events(ctx, outputs, false, f0)));
    assert(stuck_after_fail(all));
    lemma_args_no_fail(ctx, outputs, false, f);
    lemma_no_error_no_fail(all);
    lemma_args_stuck(ctx, outputs, false, f);
    assert(args_fin(ctx, outputs, f));
    lemma_args_validated_wf(ctx, outputs, f);
    lemma_args_events_ok(ctx, outputs, false, f);
    lemma_inputs_fold(all);
    assert(inputs_wf(ctx, outputs));
    assert forall|e: int|
        0 <= e < all.len() && #[trigger] all[e] is Input && all[e]->needs_reduction implies m[all[e]->idx].0
        == all[e]->Input_ty by {
        let k = all[e]->idx;
        assert(m.contains_key(k));
        let j = choose|j: int|
            0 <= j < all.len() && #[trigger] all[j] is Input && all[j]->idx == k && m[k].0
                == all[j]->Input_ty;
        assert(input_event_ok(ctx, all[e]));
        assert(input_event_ok(ctx, all[j]));
        let te = all[e]->Input_ty;
        let tj = all[j]->Input_ty;
        lemma_input_index_args(
            ctx.type_info_of(te)->Some_0.long_id.generic_args,
            ctx.type_info_of(tj)->Some_0.long_id.generic_args,
            k,
        );
        assert(ctx.type_info_of(te)->Some_0.long_id == ctx.type_info_of(tj)->Some_0.long_id);
    }
    assert(operands_unique(all));
}


// ---------------------------------------------------------------------------------------------
// The order of the outputs.
// ---------------------------------------------------------------------------------------------

/// Once the search below `ty` ends within `f`, more fuel meets the same events.
proof fn lemma_fuel_node_events<C: TypeSpecializationContext + ?Sized>(
    ctx: &C,
    ty: ConcreteTypeId,
    nr: bool,
    f: nat,
    g: nat,
)
    requires
        node_fin(ctx, ty, f),
        f <= g,
    ensures
        node_fin(ctx, ty, g),
        node_events(ctx, ty, nr, f) == node_events(ctx, ty, nr, g),
    decreases f, 0nat,
{
    match ctx.type_info_of(ty) {
        Some(info) => {
            if info.long_id.generic_id != circuit_input_name() && info.long_id.generic_id
                == add_mod_gate_name() {
                lemma_fuel_args_events(
                    ctx,
                    info.long_id.generic_args,
                    true,
                    (f - 1) as nat,
                    (g - 1) as nat,
                );
            }
        },
        None => {},
    }
}

/// Once the search below `args` ends within `f`, more fuel meets the same events.
proof fn lemma_fuel_args_events<C: TypeSpecializationContext + ?Sized>(
    ctx: &C,
    args: Seq<GenericArgModel>,
    nr: bool,
    f: nat,
    g: nat,
)
    requires
        args_fin(ctx, args, f),
        f <= g,
    ensures
        args_fin(ctx, args, g),
        args_events(ctx, args, nr, f) == args_events(ctx, args, nr, g),
    decreases f, args.len(),
{
    if args.len() > 0 {
        lemma_fuel_args_events(ctx, args.drop_last(), nr, f, g);
        match args.last() {
            GenericArgModel::Type(t) => lemma_fuel_node_events(ctx, t, nr, f, g),
            _ => {},
        }
    }
}

proof fn lemma_concat_contains(a: Seq<InputEvent>, b: Seq<InputEvent>)
    ensures
        forall|ev: InputEvent| #[trigger] (a + b).contains(ev) <==> a.contains(ev) || b.contains(ev),
{
    assert forall|ev: InputEvent| #[trigger] (a + b).contains(ev) implies a.contains(ev) || b.contains(ev) by {
        let i = choose|i: int| 0 <= i < (a + b).len() && (a + b)[i] == ev;
        if i < a.len() {
            assert(a[i] == ev);
        } else {
            assert(b[i - a.len()] == ev);
        }
    }
    assert forall|ev: InputEvent| a.contains(ev) || b.contains(ev) implies #[trigger] (a + b).contains(ev) by {
        if a.contains(ev) {
            let i = choose|i: int| 0 <= i < a.len() && a[i] == ev;
            assert((a + b)[i] == ev);
        } else {
            let i = choose|i: int| 0 <= i < b.len() && b[i] == ev;
            assert((a + b)[a.len() + i] == ev);
        }
    }
}

/// The events below `args` are those below each of its types.
proof fn lemma_args_events_member<C: TypeSpecializationContext + ?Sized>(
    ctx: &C,
    args: Seq<GenericArgModel>,
    nr: bool,
    f: nat,
)
    ensures
        forall|ev: InputEvent|
            #[trigger] args_events(ctx, args, nr, f).contains(ev) <==> exists|i: int|
                0 <= i < args.len() && args[i] is Type && #[trigger] node_events(
                    ctx,
                    arg_type(args[i]),
                    nr,
                    f,
                ).contains(ev),
    decreases args.len(),
{
    if args.len() > 0 {
        let prev = args.drop_last();
        let last = args.len() - 1;
        lemma_args_events_member(ctx, prev, nr, f);
        let head = match args.last() {
            GenericArgModel::Type(t) => node_events(ctx, t, nr, f),
            _ => Seq::<InputEvent>::empty(),
        };
        let tail = args_events(ctx, prev, nr, f);
        lemma_concat_contains(head, tail);
        assert(args_events(ctx, args, nr, f) == head + tail);
        assert forall|ev: InputEvent|
            #[trigger] args_events(ctx, args, nr, f).contains(ev) <==> exists|i: int|
                0 <= i < args.len() && args[i] is Type && #[trigger] node_events(
                    ctx,
                    arg_type(args[i]),
                    nr,
                    f,
                ).contains(ev) by {
            if head.contains(ev) {
                assert(args[last] is Type);
                assert(node_events(ctx, arg_type(args[last]), nr, f).contains(ev));
            }
            if tail.contains(ev) {
                let i = choose|i: int|
                    0 <= i < prev.len() && prev[i] is Type && #[trigger] node_events(
                        ctx,
                        arg_type(prev[i]),
                        nr,
                        f,
                    ).contains(ev);
                assert(args[i] == prev[i]);
            }
            if exists|i: int|
                0 <= i < args.len() && args[i] is Type && #[trigger] node_events(
                    ctx,
                    arg_type(args[i]),
                    nr,
                    f,
                ).contains(ev) {
                let i = choose|i: int|
                    0 <= i < args.len() && args[i] is Type && #[trigger] node_events(
                        ctx,
                        arg_type(args[i]),
                        nr,
                        f,
                    ).contains(ev);
                if i < last {
                    assert(prev[i] == args[i]);
                    assert(tail.contains(ev));
                } else {
                    assert(head.contains(ev));
                }
            }
        }
    }
}

/// Two searches that meet the same events, without failure and with one type per index, give
/// the same inputs and the same need of the value 1.
proof fn lemma_fold_same_events(e1: Seq<InputEvent>, e2: Seq<InputEvent>)
    requires
        forall|ev: InputEvent| e1.contains(ev) <==> e2.contains(ev),
        unique_inputs(e1),
        unique_inputs(e2),
    ensures
        inputs_fold(e1) == inputs_fold(e2),
        any_reduction(e1) == any_reduction(e2),
{
    let m1 = inputs_fold(e1);
    let m2 = inputs_fold(e2);
    lemma_inputs_fold(e1);
    lemma_inputs_fold(e2);
    assert forall|k: usize| m1.contains_key(k) implies m2.contains_key(k) by {
        let j = choose|j: int|
            0 <= j < e1.len() && #[trigger] e1[j] is Input && e1[j]->idx == k && m1[k].0
                == e1[j]->Input_ty;
        assert(e1.contains(e1[j]));
        let j2 = choose|j2: int| 0 <= j2 < e2.len() && e2[j2] == e1[j];
        assert(e2[j2] is Input);
    }
    assert forall|k: usize| m2.contains_key(k) implies m1.contains_key(k) by {
        let j = choose|j: int|
            0 <= j < e2.len() && #[trigger] e2[j] is Input && e2[j]->idx == k && m2[k].0
                == e2[j]->Input_ty;
        assert(e2.contains(e2[j]));
        let j1 = choose|j1: int| 0 <= j1 < e1.len() && e1[j1] == e2[j];
        assert(e1[j1] is Input);
    }
    assert forall|k: usize| m1.contains_key(k) implies m1[k] == m2[k] by {
        let j = choose|j: int|
            0 <= j < e1.len() && #[trigger] e1[j] is Input && e1[j]->idx == k && m1[k].0
                == e1[j]->Input_ty;
        let j2 = choose|j2: int|
            0 <= j2 < e2.len() && #[trigger] e2[j2] is Input && e2[j2]->idx == k && m2[k].0
                == e2[j2]->Input_ty;
        assert(e2.contains(e2[j2]));
        let j3 = choose|j3: int| 0 <= j3 < e1.len() && e1[j3] == e2[j2];
        assert(e1[j3] is Input);
        assert(e1[j3]->Input_ty == e1[j]->Input_ty);
        if m1[k].1 {
            let a = choose|a: int|
                0 <= a < e1.len() && #[trigger] e1[a] is Input && e1[a]->idx == k
                    && e1[a]->needs_reduction;
            assert(e1.contains(e1[a]));
            let b = choose|b: int| 0 <= b < e2.len() && e2[b] == e1[a];
            assert(e2[b] is Input && e2[b]->idx == k && e2[b]->needs_reduction);
        }
        if m2[k].1 {
            let a = choose|a: int|
                0 <= a < e2.len() && #[trigger] e2[a] is Input && e2[a]->idx == k
                    && e2[a]->needs_reduction;
            assert(e2.contains(e2[a]));
            let b = choose|b: int| 0 <= b < e1.len() && e1[b] == e2[a];
            assert(e1[b] is Input && e1[b]->idx == k && e1[b]->needs_reduction);
        }
    }
    assert(m1 =~= m2);
    if any_reduction(e1) {
        lemma_any_reduction_witness(e1);
        let a = choose|a: int|
            0 <= a < e1.len() && #[trigger] e1[a] matches InputEvent::Input {
                needs_reduction: true,
                ..
            };
        assert(e1.contains(e1[a]));
        let b = choose|b: int| 0 <= b < e2.len() && e2[b] == e1[a];
        lemma_any_reduction(e2, b);
    }
    if any_reduction(e2) {
        lemma_any_reduction_witness(e2);
        let a = choose|a: int|
            0 <= a < e2.len() && #[trigger] e2[a] matches InputEvent::Input {
                needs_reduction: true,
                ..
            };
        assert(e2.contains(e2[a]));
        let b = choose|b: int| 0 <= b < e1.len() && e1[b] == e2[a];
        lemma_any_reduction(e1, b);
    }
}

/// Parsing the inputs does not depend on the order of the outputs: two orders of the same
/// outputs both succeed or both fail, and, where the inputs with the same index have the same
/// type, succeed with the same result.
pub proof fn law_outputs_order_irrelevant<C: TypeSpecializationContext + ?Sized>(
    ctx: &C,
    outputs1: Seq<GenericArgModel>,
    outputs2: Seq<GenericArgModel>,
)
    requires
        outputs1.to_multiset() == outputs2.to_multiset(),
        inputs_wf(ctx, outputs1),
        inputs_wf(ctx, outputs2),
    ensures
        ({
            let p1 = parse_spec(ctx, outputs1, depth_bound(ctx, outputs1));
            let p2 = parse_spec(ctx, outputs2, depth_bound(ctx, outputs2));
            &&& p1 is Ok <==> p2 is Ok
            &&& p1 is Ok && unique_inputs(
                args_events(ctx, outputs1, false, depth_bound(ctx, outputs1)),
            ) ==> p1 == p2
        }),
{
    let f1 = depth_bound(ctx, outputs1);
    let f2 = depth_bound(ctx, outputs2);
    let g = if f1 <= f2 {
        f2
    } else {
        f1
    };
    let e1 = args_events(ctx, outputs1, false, f1);
    let e2 = args_events(ctx, outputs2, false, f2);
    let g1 = args_events(ctx, outputs1, false, g);
    let g2 = args_events(ctx, outputs2, false, g);
    assert(stuck_after_fail(e1));
    assert(stuck_after_fail(e2));
    lemma_fuel_args_contains(ctx, outputs1, false, f1, g);
    lemma_fuel_args_contains(ctx, outputs2, false, f2, g);
    lemma_args_events_member(ctx, outputs1, false, g);
    lemma_args_events_member(ctx, outputs2, false, g);
    outputs1.to_multiset_ensures();
    outputs2.to_multiset_ensures();
    // At the same fuel, both orders meet the same events.
    assert forall|ev: InputEvent| g1.contains(ev) <==> g2.contains(ev) by {
        if g1.contains(ev) {
            let i = choose|i: int|
                0 <= i < outputs1.len() && outputs1[i] is Type && #[trigger] node_events(
                    ctx,
                    arg_type(outputs1[i]),
                    false,
                    g,
                ).contains(ev);
            assert(outputs1.contains(outputs1[i]));
            assert(outputs1.to_multiset().count(outputs1[i]) > 0);
            assert(outputs2.contains(outputs1[i]));
            let i2 = choose|i2: int| 0 <= i2 < outputs2.len() && outputs2[i2] == outputs1[i];
            assert(node_events(ctx, arg_type(outputs2[i2]), false, g).contains(ev));
        }
        if g2.contains(ev) {
            let i = choose|i: int|
                0 <= i < outputs2.len() && outputs2[i] is Type && #[trigger] node_events(
                    ctx,
                    arg_type(outputs2[i]),
                    false,
                    g,
                ).contains(ev);
            assert(outputs2.contains(outputs2[i]));
            assert(outputs2.to_multiset().count(outputs2[i]) > 0);
            assert(outputs1.contains(outputs2[i]));
            let i1 = choose|i1: int| 0 <= i1 < outputs1.len() && outputs1[i1] == outputs2[i];
            assert(node_events(ctx, arg_type(outputs1[i1]), false, g).contains(ev));
        }
    }
    // A search without failure is stuck nowhere, and meets the same events with more fuel.
    if no_fail(e1) {
        assert(no_stuck(e1));
        lemma_args_stuck(ctx, outputs1, false, f1);
        lemma_fuel_args_events(ctx, outputs1, false, f1, g);
        if !no_fail(e2) {
            let i = choose|i: int| 0 <= i < e2.len() && !(#[trigger] e2[i] is Input);
            let k = if e2[i] is Stuck {
                choose|j: int| 0 <= j < i && #[trigger] e2[j] is Fail
            } else {
                i
            };
            assert(e2[k] is Fail);
            assert(e2.contains(e2[k]));
            assert(g2.contains(e2[k]));
            assert(e1.contains(e2[k]));
            let x = choose|x: int| 0 <= x < e1.len() && e1[x] == e2[k];
            assert(e1[x] is Input);
        }
    }
    if no_fail(e2) {
        assert(no_stuck(e2));
        lemma_args_stuck(ctx, outputs2, false, f2);
        lemma_fuel_args_events(ctx, outputs2, false, f2, g);
        if !no_fail(e1) {
            let i = choose|i: int| 0 <= i < e1.len() && !(#[trigger] e1[i] is Input);
            let k = if e1[i] is Stuck {
                choose|j: int| 0 <= j < i && #[trigger] e1[j] is Fail
            } else {
                i
            };
            assert(e1[k] is Fail);
            assert(e1.contains(e1[k]));
            assert(g1.contains(e1[k]));
            assert(e2.contains(e1[k]));
            let x = choose|x: int| 0 <= x < e2.len() && e2[x] == e1[k];
            assert(e2[x] is Input);
        }
    }
    if no_fail(e1) && unique_inputs(e1) {
        assert(e1 == g1 && e2 == g2);
        assert(unique_inputs(e2)) by {
            assert forall|i: int, j: int|
                0 <= i < e2.len() && 0 <= j < e2.len() && #[trigger] e2[i] is Input
                    && #[trigger] e2[j] is Input && e2[i]->idx == e2[j]->idx implies e2[i]->Input_ty
                == e2[j]->Input_ty by {
                assert(e2.contains(e2[i]));
                assert(e2.contains(e2[j]));
                let a = choose|a: int| 0 <= a < e1.len() && e1[a] == e2[i];
                let b = choose|b: int| 0 <= b < e1.len() && e1[b] == e2[j];
                assert(e1[a] is Input && e1[b] is Input);
            }
        }
        lemma_fold_same_events(e1, e2);
    }
}


// ---------------------------------------------------------------------------------------------
// Where the search is stuck.
// ---------------------------------------------------------------------------------------------

/// Whether the search is stuck nowhere among `events`.
pub open spec fn no_stuck(events: Seq<InputEvent>) -> bool {
    forall|i: int| 0 <= i < events.len() ==> !(#[trigger] events[i] is Stuck)
}

proof fn lemma_no_stuck_concat(a: Seq<InputEvent>, b: Seq<InputEvent>)
    ensures
        no_stuck(a + b) <==> no_stuck(a) && no_stuck(b),
{
    if no_stuck(a + b) {
        assert forall|i: int| 0 <= i < a.len() implies !(#[trigger] a[i] is Stuck) by {
            assert((a + b)[i] == a[i]);
        }
        assert forall|i: int| 0 <= i < b.len() implies !(#[trigger] b[i] is Stuck) by {
            assert((a + b)[a.len() + i] == b[i]);
        }
    }
    if no_stuck(a) && no_stuck(b) {
        assert forall|i: int| 0 <= i < (a + b).len() implies !(#[trigger] (a + b)[i] is Stuck) by {
            if i < a.len() {
                assert((a + b)[i] == a[i]);
            } else {
                assert((a + b)[i] == b[i - a.len()]);
            }
        }
    }
}

/// The search below `ty` is stuck nowhere exactly when it ends within `f` and meets gates whose
/// arguments are all types.
proof fn lemma_node_stuck<C: TypeSpecializationContext + ?Sized>(
    ctx: &C,
    ty: ConcreteTypeId,
    nr: bool,
    f: nat,
)
    ensures
        no_stuck(node_events(ctx, ty, nr, f)) <==> node_fin(ctx, ty, f),
    decreases f, 0nat,
{
    match ctx.type_info_of(ty) {
        Some(info) => {
            if info.long_id.generic_id == circuit_input_name() {
                match input_index_spec(info.long_id.generic_args) {
                    Ok(idx) => {
                        assert(node_events(ctx, ty, nr, f) == seq![
                            InputEvent::Input { ty, needs_reduction: nr, idx },
                        ]);
                    },
                    Err(err) => {
                        assert(node_events(ctx, ty, nr, f) == seq![InputEvent::Fail { err }]);
                    },
                }
            } else if info.long_id.generic_id == add_mod_gate_name() {
                let args = info.long_id.generic_args;
                if f > 0 && all_types(args) {
                    lemma_args_stuck(ctx, args, true, (f - 1) as nat);
                } else {
                    assert(node_events(ctx, ty, nr, f) == seq![InputEvent::Stuck]);
                    assert(node_events(ctx, ty, nr, f)[0] is Stuck);
                    if f > 0 && args_fin(ctx, args, (f - 1) as nat) {
                        assert forall|i: int| 0 <= i < args.len() implies #[trigger] args[i] is Type by {
                            lemma_args_fin_elem_laws(ctx, args, (f - 1) as nat, i);
                        }
                    }
                }
            } else {
                assert(node_events(ctx, ty, nr, f) == seq![
                    InputEvent::Fail { err: crate::types::SpecializationError::UnsupportedGenericArg },
                ]);
            }
        },
        None => {
            assert(node_events(ctx, ty, nr, f) == seq![
                InputEvent::Fail { err: crate::types::SpecializationError::MissingTypeInfo(ty) },
            ]);
        },
    }
}

/// Below arguments that are all types, the search is stuck nowhere exactly when it ends within
/// `f` and meets gates whose arguments are all types.
proof fn lemma_args_stuck<C: TypeSpecializationContext + ?Sized>(
    ctx: &C,
    args: Seq<GenericArgModel>,
    nr: bool,
    f: nat,
)
    requires
        all_types(args),
    ensures
        no_stuck(args_events(ctx, args, nr, f)) <==> args_fin(ctx, args, f),
    decreases f, args.len(),
{
    if args.len() > 0 {
        let prev = args.drop_last();
        assert(all_types(prev)) by {
            assert forall|i: int| 0 <= i < prev.len() implies #[trigger] prev[i] is Type by {
                assert(prev[i] == args[i]);
            }
        }
        lemma_args_stuck(ctx, prev, nr, f);
        assert(args[args.len() - 1] is Type);
        let t = arg_type(args.last());
        lemma_node_stuck(ctx, t, nr, f);
        lemma_no_stuck_concat(node_events(ctx, t, nr, f), args_events(ctx, prev, nr, f));
    }
}

/// Every argument of finite arguments is a type.
proof fn lemma_args_fin_elem_laws<C: TypeSpecializationContext + ?Sized>(
    ctx: &C,
    args: Seq<GenericArgModel>,
    fuel: nat,
    j: int,
)
    requires
        args_fin(ctx, args, fuel),
        0 <= j < args.len(),
    ensures
        args[j] is Type,
    decreases args.len(),
{
    if j < args.len() - 1 {
        lemma_args_fin_elem_laws(ctx, args.drop_last(), fuel, j);
        assert(args.drop_last()[j] == args[j]);
    }
}

/// With more fuel, the search meets every event it met but where it was stuck.
proof fn lemma_fuel_node_contains<C: TypeSpecializationContext + ?Sized>(
    ctx: &C,
    ty: ConcreteTypeId,
    nr: bool,
    f: nat,
    g: nat,
)
    requires
        f <= g,
    ensures
        forall|ev: InputEvent|
            #[trigger] node_events(ctx, ty, nr, f).contains(ev) && !(ev is Stuck) ==> node_events(
                ctx,
                ty,
                nr,
                g,
            ).contains(ev),
    decreases f, 0nat,
{
    match ctx.type_info_of(ty) {
        Some(info) => {
            if info.long_id.generic_id != circuit_input_name() && info.long_id.generic_id
                == add_mod_gate_name() {
                let args = info.long_id.generic_args;
                if f > 0 && all_types(args) {
                    lemma_fuel_args_contains(ctx, args, true, (f - 1) as nat, (g - 1) as nat);
                    assert(node_events(ctx, ty, nr, f) == args_events(ctx, args, true, (f - 1) as nat));
                    assert(node_events(ctx, ty, nr, g) == args_events(ctx, args, true, (g - 1) as nat));
                } else {
                    assert(node_events(ctx, ty, nr, f) == seq![InputEvent::Stuck]);
                    assert forall|ev: InputEvent|
                        #[trigger] node_events(ctx, ty, nr, f).contains(ev) implies ev is Stuck by {
                        let i = choose|i: int|
                            0 <= i < node_events(ctx, ty, nr, f).len() && node_events(
                                ctx,
                                ty,
                                nr,
                                f,
                            )[i] == ev;
                        assert(i == 0);
                    }
                }
            }
        },
        None => {},
    }
}

/// With more fuel, the search meets every event it met but where it was stuck.
proof fn lemma_fuel_args_contains<C: TypeSpecializationContext + ?Sized>(
    ctx: &C,
    args: Seq<GenericArgModel>,
    nr: bool,
    f: nat,
    g: nat,
)
    requires
        f <= g,
    ensures
        forall|ev: InputEvent|
            #[trigger] args_events(ctx, args, nr, f).contains(ev) && !(ev is Stuck) ==> args_events(
                ctx,
                args,
                nr,
                g,
            ).contains(ev),
    decreases f, args.len(),
{
    if args.len() > 0 {
        let prev = args.drop_last();
        lemma_fuel_args_contains(ctx, prev, nr, f, g);
        let hf = match args.last() {
            GenericArgModel::Type(t) => node_events(ctx, t, nr, f),
            _ => Seq::<InputEvent>::empty(),
        };
        let hg = match args.last() {
            GenericArgModel::Type(t) => node_events(ctx, t, nr, g),
            _ => Seq::<InputEvent>::empty(),
        };
        match args.last() {
            GenericArgModel::Type(t) => lemma_fuel_node_contains(ctx, t, nr, f, g),
            _ => {},
        }
        let tf = args_events(ctx, prev, nr, f);
        let tg = args_events(ctx, prev, nr, g);
        lemma_concat_contains(hf, tf);
        lemma_concat_contains(hg, tg);
        assert(args_events(ctx, args, nr, f) == hf + tf);
        assert(args_events(ctx, args, nr, g) == hg + tg);
    }
}

} // verus!
