use cairo_circuit::circuit::{AddModType, MulModType};
use cairo_circuit::hierarchy::{CircuitConcreteLibfunc, CircuitLibFunc, CircuitType, CircuitTypeConcrete};
use cairo_circuit::ids::{BigIntValue, ConcreteTypeId, GenericArg, GenericLibfuncId, GenericTypeId, UserTypeId};
use cairo_circuit::registry::TypeRegistry;
use cairo_circuit::types::{ConcreteTypeLongId, SpecializationError, TypeInfo};

fn info(name: &str, args: Vec<GenericArg>) -> TypeInfo {
    TypeInfo {
        long_id: ConcreteTypeLongId { generic_id: GenericTypeId::new_inline(name), generic_args: args },
        storable: true,
        droppable: false,
        duplicatable: false,
        zero_sized: false,
    }
}

fn ty(id: u64) -> GenericArg {
    GenericArg::Type(ConcreteTypeId { id })
}

fn cid(id: u64) -> ConcreteTypeId {
    ConcreteTypeId { id }
}

fn value(v: u64) -> GenericArg {
    GenericArg::Value(BigIntValue::from_u64(v))
}

/// 1, 2 = CircuitInput<0>, <1>; 3 = AddModGate<1, 2>; 4 = Struct<Tuple, 3>; 5 = Circuit<4>;
/// 40 = RangeCheck96; 41 = accumulator; 42 = data; 43 = descriptor.
fn registry() -> TypeRegistry {
    let mut r = TypeRegistry::new();
    r.declare(cid(1), info("CircuitInput", vec![value(0)]));
    r.declare(cid(2), info("CircuitInput", vec![value(1)]));
    r.declare(cid(3), info("AddModGate", vec![ty(1), ty(2)]));
    r.declare(
        cid(4),
        info("Struct", vec![GenericArg::UserType(UserTypeId::from_string("Tuple")), ty(3)]),
    );
    r.declare(cid(5), info("Circuit", vec![ty(4)]));
    r.declare(cid(40), info("RangeCheck96", vec![]));
    r.declare(cid(41), info("CircuitInputAccumulator", vec![ty(5)]));
    r.declare(cid(42), info("CircuitData", vec![ty(5)]));
    r.declare(cid(43), info("CircuitDescriptor", vec![ty(5)]));
    r
}

fn type_named(name: &str) -> Option<CircuitType> {
    CircuitType::by_id(&GenericTypeId::new_inline(name))
}

#[test]
fn mod_builtin_types_take_no_arguments() {
    assert_eq!(AddModType::id(), GenericTypeId::new_inline("AddMod"));
    assert_eq!(MulModType::id(), GenericTypeId::new_inline("MulMod"));
    let r = registry();
    let c = AddModType::default().specialize(&r, &[]).ok().unwrap();
    assert_eq!(c.info.long_id.generic_id, GenericTypeId::new_inline("AddMod"));
    assert!(c.info.long_id.generic_args.is_empty());
    assert!(c.info.storable && !c.info.droppable && !c.info.duplicatable && !c.info.zero_sized);
    let c = MulModType::default().specialize(&r, &[]).ok().unwrap();
    assert_eq!(c.info.long_id.generic_id, GenericTypeId::new_inline("MulMod"));
    assert!(c.info.storable && !c.info.droppable && !c.info.duplicatable);
    assert_eq!(
        AddModType::default().specialize(&r, &[value(1)]).err(),
        Some(SpecializationError::WrongNumberOfGenericArgs)
    );
    assert_eq!(
        MulModType::default().specialize(&r, &[ty(1)]).err(),
        Some(SpecializationError::WrongNumberOfGenericArgs)
    );
}

#[test]
fn circuit_types_are_found_by_name() {
    assert!(matches!(type_named("AddMod"), Some(CircuitType::AddMod(_))));
    assert!(matches!(type_named("MulMod"), Some(CircuitType::MulMod(_))));
    assert!(matches!(type_named("AddModGate"), Some(CircuitType::AddModGate(_))));
    assert!(matches!(type_named("Circuit"), Some(CircuitType::Circuit(_))));
    assert!(matches!(type_named("CircuitData"), Some(CircuitType::CircuitData(_))));
    assert!(matches!(type_named("CircuitOutput"), Some(CircuitType::CircuitOutput(_))));
    assert!(matches!(type_named("CircuitDescriptor"), Some(CircuitType::CircuitDescriptor(_))));
    assert!(matches!(type_named("CircuitInput"), Some(CircuitType::CircuitInput(_))));
    assert!(matches!(
        type_named("CircuitInputAccumulator"),
        Some(CircuitType::CircuitInputAccumulator(_))
    ));
    assert!(type_named("Struct").is_none());
    assert!(type_named("circuit").is_none());
}

#[test]
fn circuit_types_specialize_to_their_concrete_kind() {
    let r = registry();
    let c = type_named("CircuitInput").unwrap().specialize(&r, &[value(3)]).ok().unwrap();
    match &c {
        CircuitTypeConcrete::CircuitInput(input) => assert_eq!(input.idx, 3),
        _ => panic!("expected a circuit input"),
    }
    assert_eq!(c.info().long_id.generic_id, GenericTypeId::new_inline("CircuitInput"));
    let c = type_named("AddModGate").unwrap().specialize(&r, &[ty(1), ty(2)]).ok().unwrap();
    assert!(matches!(c, CircuitTypeConcrete::AddModGate(_)));
    let c = type_named("Circuit").unwrap().specialize(&r, &[ty(4)]).ok().unwrap();
    match &c {
        CircuitTypeConcrete::Circuit(circuit) => {
            assert_eq!(circuit.circuit_info.n_inputs, 3);
            assert_eq!(circuit.circuit_info.add_offsets.len(), 1);
        }
        _ => panic!("expected a circuit"),
    }
    assert!(c.info().duplicatable && c.info().droppable && c.info().storable);
    let c = type_named("CircuitData").unwrap().specialize(&r, &[ty(5)]).ok().unwrap();
    assert!(matches!(c, CircuitTypeConcrete::CircuitData(_)));
    assert!(!c.info().duplicatable && c.info().droppable && c.info().storable);
    let c = type_named("AddMod").unwrap().specialize(&r, &[]).ok().unwrap();
    assert!(matches!(c, CircuitTypeConcrete::AddMod(_)));
    assert_eq!(c.info().long_id.generic_id, GenericTypeId::new_inline("AddMod"));
}

#[test]
fn circuit_type_errors_pass_through() {
    let r = registry();
    assert_eq!(
        type_named("CircuitData").unwrap().specialize(&r, &[ty(3)]).err(),
        Some(SpecializationError::UnsupportedGenericArg)
    );
    assert_eq!(
        type_named("AddModGate").unwrap().specialize(&r, &[ty(1)]).err(),
        Some(SpecializationError::WrongNumberOfGenericArgs)
    );
    assert_eq!(
        type_named("MulMod").unwrap().specialize(&r, &[ty(1)]).err(),
        Some(SpecializationError::WrongNumberOfGenericArgs)
    );
    assert_eq!(
        type_named("CircuitOutput").unwrap().specialize(&r, &[ty(77)]).err(),
        Some(SpecializationError::MissingTypeInfo(cid(77)))
    );
}

#[test]
fn circuit_libfuncs_are_found_by_name() {
    let named = |name: &str| CircuitLibFunc::by_id(&GenericLibfuncId::new_inline(name));
    assert!(matches!(named("fill_circuit_input"), Some(CircuitLibFunc::FillInput(_))));
    assert!(matches!(named("get_circuit_descriptor"), Some(CircuitLibFunc::GetDescriptor(_))));
    assert!(matches!(named("init_circuit_data"), Some(CircuitLibFunc::InitCircuitData(_))));
    assert!(named("eval_circuit").is_none());
}

#[test]
fn circuit_libfuncs_specialize_with_the_circuit_type() {
    let r = registry();
    let l = CircuitLibFunc::by_id(&GenericLibfuncId::new_inline("init_circuit_data")).unwrap();
    let c = l.specialize(&r, &[ty(5)]).ok().unwrap();
    match &c {
        CircuitConcreteLibfunc::InitCircuitData(p) => assert_eq!(p.ty, cid(5)),
        _ => panic!("expected init_circuit_data"),
    }
    assert_eq!(c.signature().param_signatures.len(), 1);
    assert_eq!(c.signature().param_signatures[0].ty, cid(40));
    let sig = l.specialize_signature(&r, &[ty(5)]).ok().unwrap();
    assert_eq!(&sig, c.signature());
    let l = CircuitLibFunc::by_id(&GenericLibfuncId::new_inline("get_circuit_descriptor")).unwrap();
    let c = l.specialize(&r, &[ty(5)]).ok().unwrap();
    assert!(matches!(c, CircuitConcreteLibfunc::GetDescriptor(_)));
    assert!(c.signature().param_signatures.is_empty());
    assert_eq!(
        l.specialize(&r, &[]).err(),
        Some(SpecializationError::WrongNumberOfGenericArgs)
    );
    assert_eq!(
        l.specialize(&r, &[value(5)]).err(),
        Some(SpecializationError::UnsupportedGenericArg)
    );
    // The descriptor of a type that is no circuit was never declared.
    assert!(matches!(
        l.specialize(&r, &[ty(3)]).err(),
        Some(SpecializationError::TypeWasNotDeclared(_, _))
    ));
}
