use cairo_circuit::circuit::{
    is_circuit_component, validate_args_are_circuit_components, validate_gate_generic_args,
    validate_is_circuit, validate_outputs_tuple, AddModGate, Circuit, CircuitData,
    CircuitDescriptor, CircuitInput, CircuitInputAccumulator, CircuitOutput, ConcreteAddModGate,
    ConcreteCircuitData, ConcreteCircuitDescriptor, ConcreteCircuitInput,
    ConcreteCircuitInputAccumulator, ConcreteCircuitOutput,
};
use cairo_circuit::ids::{BigIntValue, ConcreteTypeId, GenericArg, GenericTypeId, UserTypeId};
use cairo_circuit::registry::TypeRegistry;
use cairo_circuit::types::{ConcreteTypeLongId, SpecializationError, TypeInfo};

fn info(name: &str, args: Vec<GenericArg>) -> TypeInfo {
    TypeInfo {
        long_id: ConcreteTypeLongId { generic_id: GenericTypeId::new_inline(name), generic_args: args },
        storable: false,
        droppable: false,
        duplicatable: false,
        zero_sized: false,
    }
}

fn ty(id: u64) -> GenericArg {
    GenericArg::Type(ConcreteTypeId { id })
}

fn value(v: u64) -> GenericArg {
    GenericArg::Value(BigIntValue::from_u64(v))
}

fn tuple() -> GenericArg {
    GenericArg::UserType(UserTypeId::from_string("Tuple"))
}

/// Types: 1 = CircuitInput<0>, 2 = CircuitInput<1>, 3 = AddModGate<1, 2>,
/// 4 = Struct<Tuple, 3>, 5 = Circuit<4>, 6 = RangeCheck96, 7 = Struct<ut@Other, 3>.
fn ctx() -> TypeRegistry {
    let mut r = TypeRegistry::new();
    r.declare(ConcreteTypeId { id: 1 }, info("CircuitInput", vec![value(0)]));
    r.declare(ConcreteTypeId { id: 2 }, info("CircuitInput", vec![value(1)]));
    r.declare(ConcreteTypeId { id: 3 }, info("AddModGate", vec![ty(1), ty(2)]));
    r.declare(ConcreteTypeId { id: 4 }, info("Struct", vec![tuple(), ty(3)]));
    r.declare(ConcreteTypeId { id: 5 }, info("Circuit", vec![ty(4)]));
    r.declare(ConcreteTypeId { id: 6 }, info("RangeCheck96", vec![]));
    r.declare(
        ConcreteTypeId { id: 7 },
        info("Struct", vec![GenericArg::UserType(UserTypeId::from_string("Other")), ty(3)]),
    );
    r
}

#[test]
fn generic_type_ids_are_their_names() {
    assert_eq!(CircuitInput::id(), GenericTypeId::new_inline("CircuitInput"));
    assert_eq!(AddModGate::id(), GenericTypeId::new_inline("AddModGate"));
    assert_eq!(CircuitInputAccumulator::id(), GenericTypeId::new_inline("CircuitInputAccumulator"));
    assert_eq!(CircuitData::id(), GenericTypeId::new_inline("CircuitData"));
    assert_eq!(CircuitOutput::id(), GenericTypeId::new_inline("CircuitOutput"));
    assert_eq!(CircuitDescriptor::id(), GenericTypeId::new_inline("CircuitDescriptor"));
    assert_eq!(Circuit::id(), GenericTypeId::new_inline("Circuit"));
    assert_ne!(CircuitInput::id(), AddModGate::id());
}

#[test]
fn circuit_input_takes_its_index() {
    let c = ConcreteCircuitInput::new(&ctx(), &[value(7)]).ok().unwrap();
    assert_eq!(c.idx, 7);
    assert_eq!(c.info().long_id.generic_id, GenericTypeId::new_inline("CircuitInput"));
    assert_eq!(c.info().long_id.generic_args, vec![value(7)]);
    assert!(!c.info().duplicatable && !c.info().droppable && !c.info().storable);
    assert!(!c.info().zero_sized);
    let c = CircuitInput::default().specialize(&ctx(), &[value(0)]).ok().unwrap();
    assert_eq!(c.idx, 0);
}

#[test]
fn circuit_input_rejects_bad_indices() {
    let c = ctx();
    assert_eq!(
        ConcreteCircuitInput::new(&c, &[]).err(),
        Some(SpecializationError::WrongNumberOfGenericArgs)
    );
    assert_eq!(
        ConcreteCircuitInput::new(&c, &[value(1), value(2)]).err(),
        Some(SpecializationError::WrongNumberOfGenericArgs)
    );
    assert_eq!(
        ConcreteCircuitInput::new(&c, &[ty(1)]).err(),
        Some(SpecializationError::UnsupportedGenericArg)
    );
    let negative = GenericArg::Value(BigIntValue::from_negated_u64(1));
    assert_eq!(
        ConcreteCircuitInput::new(&c, &[negative]).err(),
        Some(SpecializationError::UnsupportedGenericArg)
    );
    let huge = GenericArg::Value(BigIntValue { negative: false, digits: vec![0, 0, 1] });
    assert_eq!(
        ConcreteCircuitInput::new(&c, &[huge]).err(),
        Some(SpecializationError::UnsupportedGenericArg)
    );
    let negative_zero = GenericArg::Value(BigIntValue { negative: true, digits: vec![0] });
    assert_eq!(ConcreteCircuitInput::new(&c, &[negative_zero]).ok().unwrap().idx, 0);
}

#[test]
fn circuit_components_are_inputs_and_gates() {
    let c = ctx();
    assert_eq!(is_circuit_component(&c, &ty(1)), Ok(true));
    assert_eq!(is_circuit_component(&c, &ty(3)), Ok(true));
    assert_eq!(is_circuit_component(&c, &ty(5)), Ok(false));
    assert_eq!(is_circuit_component(&c, &value(1)), Err(SpecializationError::UnsupportedGenericArg));
    assert_eq!(
        is_circuit_component(&c, &ty(99)),
        Err(SpecializationError::MissingTypeInfo(ConcreteTypeId { id: 99 }))
    );
    assert_eq!(validate_args_are_circuit_components(&c, &[ty(1), ty(3), ty(2)]), Ok(()));
    assert_eq!(
        validate_args_are_circuit_components(&c, &[ty(1), ty(5), ty(99)]),
        Err(SpecializationError::UnsupportedGenericArg)
    );
    assert_eq!(
        validate_args_are_circuit_components(&c, &[ty(99), ty(5)]),
        Err(SpecializationError::MissingTypeInfo(ConcreteTypeId { id: 99 }))
    );
    assert_eq!(validate_args_are_circuit_components(&c, &[]), Ok(()));
}

#[test]
fn add_mod_gate_takes_two_components() {
    let c = ctx();
    let g = ConcreteAddModGate::new(&c, &[ty(1), ty(3)]).ok().unwrap();
    assert_eq!(g.info().long_id.generic_id, GenericTypeId::new_inline("AddModGate"));
    assert_eq!(g.info().long_id.generic_args, vec![ty(1), ty(3)]);
    assert!(!g.info().storable);
    assert_eq!(validate_gate_generic_args(&c, &[ty(1)]), Err(SpecializationError::WrongNumberOfGenericArgs));
    assert_eq!(
        validate_gate_generic_args(&c, &[ty(1), ty(2), ty(1)]),
        Err(SpecializationError::WrongNumberOfGenericArgs)
    );
    assert_eq!(
        AddModGate::default().specialize(&c, &[ty(1), ty(6)]).err(),
        Some(SpecializationError::UnsupportedGenericArg)
    );
    assert_eq!(
        AddModGate::default().specialize(&c, &[ty(1), value(3)]).err(),
        Some(SpecializationError::UnsupportedGenericArg)
    );
}

#[test]
fn circuit_wrappers_take_a_circuit() {
    let c = ctx();
    let acc = ConcreteCircuitInputAccumulator::new(&c, &[ty(5)]).ok().unwrap();
    assert_eq!(acc.info().long_id.generic_id, GenericTypeId::new_inline("CircuitInputAccumulator"));
    assert!(!acc.info().duplicatable && acc.info().droppable && acc.info().storable);
    let data = ConcreteCircuitData::new(&c, &[ty(5)]).ok().unwrap();
    assert_eq!(data.info().long_id.generic_args, vec![ty(5)]);
    assert!(!data.info().duplicatable && data.info().droppable && data.info().storable);
    let out = ConcreteCircuitOutput::new(&c, &[ty(5)]).ok().unwrap();
    assert!(!out.info().duplicatable && out.info().droppable && out.info().storable);
    let desc = ConcreteCircuitDescriptor::new(&c, &[ty(5)]).ok().unwrap();
    assert!(desc.info().duplicatable && desc.info().droppable && desc.info().storable);
    assert!(!desc.info().zero_sized);
    assert_eq!(
        CircuitData::default().specialize(&c, &[ty(4)]).err(),
        Some(SpecializationError::UnsupportedGenericArg)
    );
    assert_eq!(
        CircuitOutput::default().specialize(&c, &[ty(5), ty(5)]).err(),
        Some(SpecializationError::WrongNumberOfGenericArgs)
    );
    assert_eq!(
        CircuitDescriptor::default().specialize(&c, &[value(5)]).err(),
        Some(SpecializationError::UnsupportedGenericArg)
    );
    assert_eq!(
        CircuitInputAccumulator::default().specialize(&c, &[ty(42)]).err(),
        Some(SpecializationError::MissingTypeInfo(ConcreteTypeId { id: 42 }))
    );
    assert_eq!(validate_is_circuit(&c, ConcreteTypeId { id: 5 }), Ok(()));
}

#[test]
fn outputs_tuple_is_a_tuple_of_components() {
    let c = ctx();
    assert_eq!(validate_outputs_tuple(&c, ConcreteTypeId { id: 4 }), Ok(()));
    assert_eq!(
        validate_outputs_tuple(&c, ConcreteTypeId { id: 7 }),
        Err(SpecializationError::UnsupportedGenericArg)
    );
    assert_eq!(
        validate_outputs_tuple(&c, ConcreteTypeId { id: 5 }),
        Err(SpecializationError::UnsupportedGenericArg)
    );
    assert_eq!(
        validate_outputs_tuple(&c, ConcreteTypeId { id: 100 }),
        Err(SpecializationError::MissingTypeInfo(ConcreteTypeId { id: 100 }))
    );
}

#[test]
fn big_int_values_compare_by_value() {
    let a = BigIntValue { negative: false, digits: vec![5, 0, 0] };
    let b = BigIntValue::from_u64(5);
    assert!(a.value_eq(&b));
    let z1 = BigIntValue { negative: true, digits: vec![0] };
    assert!(z1.value_eq(&BigIntValue::zero()));
    assert!(!BigIntValue::from_negated_u64(5).value_eq(&b));
    assert!(!BigIntValue::from_u64(1 << 40).value_eq(&BigIntValue::from_u64(1 << 8)));
}
