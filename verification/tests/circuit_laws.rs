use cairo_circuit::circuit::{validate_outputs_tuple, ConcreteCircuit};
use cairo_circuit::circuit_info::{
    get_circuit_info, outputs_search_ends, parse_circuit_inputs, CircuitInfo,
};
use cairo_circuit::ids::{BigIntValue, ConcreteTypeId, GenericArg, GenericTypeId, UserTypeId};
use cairo_circuit::registry::TypeRegistry;
use cairo_circuit::types::{ConcreteTypeLongId, SpecializationError, TypeInfo};

fn info(name: &str, args: Vec<GenericArg>) -> TypeInfo {
    TypeInfo {
        long_id: ConcreteTypeLongId { generic_id: GenericTypeId::new_inline(name), generic_args: args },
        storable: false,
        droppable: false,
        duplicatable: false,
        zero_sized: false,
    }
}

fn ty(id: u64) -> GenericArg {
    GenericArg::Type(ConcreteTypeId { id })
}

fn cid(id: u64) -> ConcreteTypeId {
    ConcreteTypeId { id }
}

/// Inputs 1..=4 are CircuitInput<0..=3>; 10 = 1 + 2; 11 = 2 + 3; 12 = 10 + 11;
/// circuit 20 outputs 12 and the input 4; circuit 21 outputs the input 4 alone.
fn registry() -> TypeRegistry {
    let mut r = TypeRegistry::new();
    for i in 0..4u64 {
        r.declare(cid(i + 1), info("CircuitInput", vec![GenericArg::Value(BigIntValue::from_u64(i))]));
    }
    r.declare(cid(10), info("AddModGate", vec![ty(1), ty(2)]));
    r.declare(cid(11), info("AddModGate", vec![ty(2), ty(3)]));
    r.declare(cid(12), info("AddModGate", vec![ty(10), ty(11)]));
    let tuple = || GenericArg::UserType(UserTypeId::from_string("Tuple"));
    r.declare(cid(20), info("Struct", vec![tuple(), ty(12), ty(4)]));
    r.declare(cid(21), info("Struct", vec![tuple(), ty(4)]));
    r
}

fn input_offsets(ci: &CircuitInfo) -> Vec<usize> {
    (1..=4u64).filter_map(|i| ci.value_offset(cid(i))).collect()
}

#[test]
fn law_operands_laid_out_first_holds_on_a_shared_input() {
    let ci = get_circuit_info(&registry(), cid(20)).ok().unwrap();
    let inputs = input_offsets(&ci);
    for (k, gate) in ci.add_offsets.iter().enumerate() {
        let earlier: Vec<usize> = ci.add_offsets[..k].iter().map(|g| g.output).collect();
        assert!(inputs.contains(&gate.lhs) || earlier.contains(&gate.lhs));
        assert!(inputs.contains(&gate.rhs) || earlier.contains(&gate.rhs));
    }
    // The last addition reads the outputs of the two before it: 10 + 11, where the stack of
    // visits lays out 11 first.
    let last = ci.add_offsets[2];
    assert_eq!((last.lhs, last.rhs), (ci.add_offsets[1].output, ci.add_offsets[0].output));
}

#[test]
fn law_reduction_gates_holds_on_a_shared_input() {
    let ci = get_circuit_info(&registry(), cid(20)).ok().unwrap();
    // Four inputs; the first three feed additions and are reduced, the fourth is not.
    assert_eq!(ci.mul_offsets.len(), 3);
    for (i, gate) in ci.mul_offsets.iter().enumerate() {
        assert_eq!(gate.lhs, 4);
        assert_eq!(gate.output, 4 + 1 + i);
        assert!(gate.rhs < 4);
    }
    assert!(ci.one_needed);
    assert_eq!(ci.n_inputs, 5);
    let ci = get_circuit_info(&registry(), cid(21)).ok().unwrap();
    assert!(ci.mul_offsets.is_empty());
    assert!(!ci.one_needed);
    assert_eq!(ci.n_inputs, 1);
}

#[test]
fn law_every_component_has_an_offset_holds_on_a_shared_input() {
    let ci = get_circuit_info(&registry(), cid(20)).ok().unwrap();
    for id in [1u64, 2, 3, 4, 10, 11, 12] {
        assert!(ci.value_offset(cid(id)).is_some());
    }
    assert_eq!(ci.n_values(), 7);
    assert_eq!(ci.add_offsets.len(), 3);
    assert_eq!(ci.value_offset(cid(12)), Some(ci.add_offsets[2].output));
}

#[test]
fn law_validated_circuit_lays_out_holds_on_a_validated_registry() {
    let r = registry();
    // Every input and gate of the registry is valid: a tuple of components lays out.
    for outputs in [20u64, 21] {
        assert!(validate_outputs_tuple(&r, cid(outputs)).is_ok());
        assert!(ConcreteCircuit::new(&r, &[ty(outputs)]).is_ok());
    }
    // A gate whose child is no component breaks the hypothesis: the top still validates, and
    // the layout meets the bad child.
    let mut r = registry();
    r.declare(cid(30), info("RangeCheck96", vec![]));
    r.declare(cid(31), info("AddModGate", vec![ty(1), ty(30)]));
    r.declare(cid(32), info("Struct", vec![GenericArg::UserType(UserTypeId::from_string("Tuple")), ty(31)]));
    assert!(validate_outputs_tuple(&r, cid(32)).is_ok());
    assert_eq!(
        ConcreteCircuit::new(&r, &[ty(32)]).err(),
        Some(SpecializationError::UnsupportedGenericArg)
    );
}

#[test]
fn law_layout_holds_on_a_shared_input() {
    let ci = get_circuit_info(&registry(), cid(20)).ok().unwrap();
    // Four inputs at 0..4, the value 1 at 4, three reduced copies at 5..8, additions from 8.
    for (k, gate) in ci.add_offsets.iter().enumerate() {
        assert_eq!(gate.output, 4 + 1 + ci.mul_offsets.len() + k);
    }
    assert_eq!(ci.value_offset(cid(4)), Some(3));
    let mut offsets: Vec<usize> =
        [1u64, 2, 3, 4, 10, 11, 12].iter().map(|&id| ci.value_offset(cid(id)).unwrap()).collect();
    offsets.sort();
    offsets.dedup();
    assert_eq!(offsets.len(), 7);
    assert!(!offsets.contains(&4));
}

#[test]
fn law_layout_keeps_parse_holds_on_a_shared_input() {
    let r = registry();
    let parsed = parse_circuit_inputs(&r, &[ty(12), ty(4)]).ok().unwrap();
    let ci = get_circuit_info(&r, cid(20)).ok().unwrap();
    assert_eq!(parsed.n_inputs, 4);
    assert_eq!(parsed.mul_offsets, ci.mul_offsets);
    assert_eq!(parsed.one_needed, ci.one_needed);
    for id in [1u64, 2, 3, 4] {
        assert!(ci.value_offset(cid(id)).is_some());
    }
}

#[test]
fn law_validated_circuit_is_well_formed_holds_on_a_registry() {
    // Every long id of the registry names one type and every input and gate is valid: the
    // circuits over it specialize, whichever outputs they list.
    let r = registry();
    for outputs in [20u64, 21] {
        let c = ConcreteCircuit::new(&r, &[ty(outputs)]).ok().unwrap();
        assert_eq!(c.circuit_info.mul_offsets.iter().all(|g| g.lhs == c.circuit_info.n_inputs - 1), true);
    }
}

#[test]
fn the_search_below_outputs_ends_within_their_depth() {
    let mut r = registry();
    // Two nested additions: the search ends within two gates, not within one.
    assert!(outputs_search_ends(&r, &[ty(12), ty(4)], 2));
    assert!(!outputs_search_ends(&r, &[ty(12), ty(4)], 1));
    assert!(outputs_search_ends(&r, &[ty(4)], 0));
    // A gate that reads itself never ends.
    r.declare(cid(40), info("AddModGate", vec![ty(40), ty(1)]));
    assert!(!outputs_search_ends(&r, &[ty(40)], 50));
    assert!(!outputs_search_ends(&r, &[GenericArg::Value(BigIntValue::from_u64(1))], 5));
}
