use cairo_circuit::circuit::{Circuit, ConcreteCircuit};
use cairo_circuit::circuit_info::{get_circuit_info, parse_circuit_inputs, GateOffsets};
use cairo_circuit::ids::{BigIntValue, ConcreteTypeId, GenericArg, GenericTypeId, UserTypeId};
use cairo_circuit::registry::TypeRegistry;
use cairo_circuit::types::{ConcreteTypeLongId, SpecializationError, TypeInfo};

fn info(name: &str, args: Vec<GenericArg>) -> TypeInfo {
    TypeInfo {
        long_id: ConcreteTypeLongId { generic_id: GenericTypeId::new_inline(name), generic_args: args },
        storable: false,
        droppable: false,
        duplicatable: false,
        zero_sized: false,
    }
}

fn ty(id: u64) -> GenericArg {
    GenericArg::Type(ConcreteTypeId { id })
}

fn cid(id: u64) -> ConcreteTypeId {
    ConcreteTypeId { id }
}

fn value(v: u64) -> GenericArg {
    GenericArg::Value(BigIntValue::from_u64(v))
}

fn tuple() -> GenericArg {
    GenericArg::UserType(UserTypeId::from_string("Tuple"))
}

/// Types: 1, 2, 3 = CircuitInput<0>, <1>, <2>; 10 = AddModGate<1, 2>; 11 = AddModGate<10, 3>.
fn registry() -> TypeRegistry {
    let mut r = TypeRegistry::new();
    r.declare(cid(1), info("CircuitInput", vec![value(0)]));
    r.declare(cid(2), info("CircuitInput", vec![value(1)]));
    r.declare(cid(3), info("CircuitInput", vec![value(2)]));
    r.declare(cid(10), info("AddModGate", vec![ty(1), ty(2)]));
    r.declare(cid(11), info("AddModGate", vec![ty(10), ty(3)]));
    r.declare(cid(20), info("Struct", vec![tuple(), ty(10)]));
    r.declare(cid(21), info("Struct", vec![tuple(), ty(11)]));
    r.declare(cid(22), info("Struct", vec![tuple(), ty(1)]));
    r.declare(cid(23), info("Struct", vec![tuple(), ty(10), ty(3)]));
    r.declare(cid(24), info("Struct", vec![tuple(), ty(30)]));
    r.declare(cid(25), info("Struct", vec![tuple(), ty(1), ty(10)]));
    r.declare(cid(26), info("Struct", vec![tuple(), ty(10), ty(1)]));
    r.declare(cid(12), info("AddModGate", vec![ty(1), ty(1)]));
    r.declare(cid(27), info("Struct", vec![tuple(), ty(1), ty(12)]));
    r.declare(cid(28), info("Struct", vec![tuple(), ty(10), ty(10)]));
    r.declare(cid(13), info("AddModGate", vec![ty(10), ty(10)]));
    r.declare(cid(29), info("Struct", vec![tuple(), ty(13)]));
    r.declare(cid(30), info("RangeCheck96", vec![]));
    r
}

#[test]
fn single_addition_of_two_inputs() {
    let r = registry();
    let ci = get_circuit_info(&r, cid(20)).ok().unwrap();
    // Both inputs feed the addition: they are reduced after the value 1, at offset 2, and the
    // addition writes the slot after the reduced inputs.
    assert_eq!(
        ci.mul_offsets,
        vec![GateOffsets { lhs: 2, rhs: 0, output: 3 }, GateOffsets { lhs: 2, rhs: 1, output: 4 }]
    );
    assert_eq!(ci.add_offsets, vec![GateOffsets { lhs: 3, rhs: 4, output: 5 }]);
    assert!(ci.one_needed);
    assert_eq!(ci.n_inputs, 3);
    assert_eq!(ci.value_offset(cid(1)), Some(3));
    assert_eq!(ci.value_offset(cid(2)), Some(4));
    assert_eq!(ci.value_offset(cid(10)), Some(5));
    assert_eq!(ci.value_offset(cid(3)), None);
    assert_eq!(ci.n_values(), 3);
}

#[test]
fn nested_additions() {
    let r = registry();
    let ci = get_circuit_info(&r, cid(21)).ok().unwrap();
    assert_eq!(
        ci.mul_offsets,
        vec![
            GateOffsets { lhs: 3, rhs: 0, output: 4 },
            GateOffsets { lhs: 3, rhs: 1, output: 5 },
            GateOffsets { lhs: 3, rhs: 2, output: 6 },
        ]
    );
    // The inner addition is laid out first, then the outer one reads its output; both write
    // after the value 1 (at 3) and the reduced inputs (4 to 6).
    assert_eq!(
        ci.add_offsets,
        vec![GateOffsets { lhs: 4, rhs: 5, output: 7 }, GateOffsets { lhs: 7, rhs: 6, output: 8 }]
    );
    assert_eq!(ci.n_inputs, 4);
    assert!(ci.one_needed);
    assert_eq!(ci.value_offset(cid(10)), Some(7));
    assert_eq!(ci.value_offset(cid(11)), Some(8));
}

#[test]
fn input_as_output_needs_no_reduction() {
    let r = registry();
    let ci = get_circuit_info(&r, cid(22)).ok().unwrap();
    assert!(ci.mul_offsets.is_empty());
    assert!(ci.add_offsets.is_empty());
    assert!(!ci.one_needed);
    assert_eq!(ci.n_inputs, 1);
    assert_eq!(ci.value_offset(cid(1)), Some(0));
}

#[test]
fn input_output_that_feeds_no_addition_is_not_reduced() {
    let r = registry();
    // Outputs: AddModGate<1, 2> and CircuitInput<2>, which feeds no addition.
    let ci = get_circuit_info(&r, cid(23)).ok().unwrap();
    assert_eq!(
        ci.mul_offsets,
        vec![GateOffsets { lhs: 3, rhs: 0, output: 4 }, GateOffsets { lhs: 3, rhs: 1, output: 5 }]
    );
    assert_eq!(ci.value_offset(cid(3)), Some(2));
    assert_eq!(ci.add_offsets, vec![GateOffsets { lhs: 4, rhs: 5, output: 6 }]);
}

#[test]
fn input_that_is_both_an_output_and_an_operand() {
    let r = registry();
    // Outputs: CircuitInput<0> and AddModGate<1, 2>: input 0 is met last as an output, and is
    // reduced all the same since it feeds the addition.
    let ci = get_circuit_info(&r, cid(25)).ok().unwrap();
    assert!(ci.one_needed);
    assert_eq!(
        ci.mul_offsets,
        vec![GateOffsets { lhs: 2, rhs: 0, output: 3 }, GateOffsets { lhs: 2, rhs: 1, output: 4 }]
    );
    assert_eq!(ci.value_offset(cid(1)), Some(3));
    assert_eq!(ci.value_offset(cid(2)), Some(4));
    assert_eq!(ci.add_offsets, vec![GateOffsets { lhs: 3, rhs: 4, output: 5 }]);
    // The order of the outputs does not matter.
    let swapped = get_circuit_info(&r, cid(26)).ok().unwrap();
    assert_eq!(swapped.mul_offsets, ci.mul_offsets);
    assert_eq!(swapped.add_offsets, ci.add_offsets);
    assert_eq!(swapped.one_needed, ci.one_needed);
    assert_eq!(swapped.value_offset(cid(1)), Some(3));
}

#[test]
fn input_used_twice_by_one_addition() {
    let r = registry();
    // AddModGate<CircuitInput<0>, CircuitInput<0>> beside CircuitInput<0>.
    let ci = get_circuit_info(&r, cid(27)).ok().unwrap();
    assert!(ci.one_needed);
    assert_eq!(ci.mul_offsets, vec![GateOffsets { lhs: 1, rhs: 0, output: 2 }]);
    assert_eq!(ci.add_offsets, vec![GateOffsets { lhs: 2, rhs: 2, output: 3 }]);
    assert_eq!(ci.n_inputs, 2);
}

#[test]
fn unsupported_components_are_errors() {
    let r = registry();
    assert_eq!(
        get_circuit_info(&r, cid(24)).err(),
        Some(SpecializationError::UnsupportedGenericArg)
    );
    assert_eq!(
        get_circuit_info(&r, cid(99)).err(),
        Some(SpecializationError::MissingTypeInfo(cid(99)))
    );
    assert_eq!(
        parse_circuit_inputs(&r, &[ty(1), ty(77)]).err(),
        Some(SpecializationError::MissingTypeInfo(cid(77)))
    );
}

#[test]
fn parsing_inputs_reduces_those_that_feed_additions() {
    let r = registry();
    let parsed = parse_circuit_inputs(&r, &[ty(10), ty(3)]).ok().unwrap();
    assert!(parsed.one_needed);
    assert_eq!(
        parsed.mul_offsets,
        vec![GateOffsets { lhs: 3, rhs: 0, output: 4 }, GateOffsets { lhs: 3, rhs: 1, output: 5 }]
    );
}

#[test]
fn concrete_circuit_carries_its_layout() {
    let r = registry();
    let c = ConcreteCircuit::new(&r, &[ty(21)]).ok().unwrap();
    assert_eq!(c.info().long_id.generic_id, GenericTypeId::new_inline("Circuit"));
    assert!(c.info().duplicatable && c.info().droppable && c.info().storable);
    assert_eq!(c.circuit_info.add_offsets.len(), 2);
    assert_eq!(
        Circuit::default().specialize(&r, &[ty(10)]).err(),
        Some(SpecializationError::UnsupportedGenericArg)
    );
    assert_eq!(
        Circuit::default().specialize(&r, &[ty(21), ty(21)]).err(),
        Some(SpecializationError::WrongNumberOfGenericArgs)
    );
    assert_eq!(
        Circuit::default().specialize(&r, &[ty(24)]).err(),
        Some(SpecializationError::UnsupportedGenericArg)
    );
}

#[test]
fn a_gate_listed_twice_is_laid_out_once() {
    let r = registry();
    let ci = get_circuit_info(&r, cid(28)).ok().unwrap();
    assert_eq!(ci.add_offsets, vec![GateOffsets { lhs: 3, rhs: 4, output: 5 }]);
    assert_eq!(ci.value_offset(cid(10)), Some(5));
    assert_eq!(ci.n_values(), 3);
}

#[test]
fn a_gate_shared_by_another_is_laid_out_once() {
    let r = registry();
    // AddModGate<G, G> with G = AddModGate<1, 2>.
    let ci = get_circuit_info(&r, cid(29)).ok().unwrap();
    assert_eq!(
        ci.add_offsets,
        vec![GateOffsets { lhs: 3, rhs: 4, output: 5 }, GateOffsets { lhs: 5, rhs: 5, output: 6 }]
    );
    assert_eq!(ci.value_offset(cid(13)), Some(6));
}

#[test]
fn an_error_met_first_is_returned_before_a_bad_gate() {
    let mut r = registry();
    // 50 = CircuitInput<-1>; 51 = a gate with an argument that is no type; 52 = a gate that
    // reads itself. The search pops the last output, the bad input, first.
    r.declare(cid(50), info("CircuitInput", vec![GenericArg::Value(BigIntValue::from_negated_u64(1))]));
    r.declare(cid(51), info("AddModGate", vec![value(3), ty(1)]));
    r.declare(cid(52), info("AddModGate", vec![ty(52), ty(1)]));
    assert_eq!(
        parse_circuit_inputs(&r, &[ty(51), ty(50)]).err(),
        Some(SpecializationError::UnsupportedGenericArg)
    );
    assert_eq!(
        parse_circuit_inputs(&r, &[ty(52), ty(50)]).err(),
        Some(SpecializationError::UnsupportedGenericArg)
    );
    r.declare(cid(53), info("Struct", vec![tuple(), ty(52), ty(50)]));
    assert_eq!(get_circuit_info(&r, cid(53)).err(), Some(SpecializationError::UnsupportedGenericArg));
}
