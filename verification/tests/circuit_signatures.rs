use cairo_circuit::ids::{BigIntValue, ConcreteTypeId, GenericArg, GenericTypeId, UserTypeId};
use cairo_circuit::registry::TypeRegistry;
use cairo_circuit::signature::{
    bounded_int_ty, u96_max_value, DeferredOutputKind, FillCircuitInputLibFuncWrapped,
    GetCircuitDescriptorLibFuncWrapped, InitCircuitDataLibFuncWrapped, LibfuncSignature,
    OutputVarInfo, OutputVarReferenceInfo, ParamSignature, SierraApChange,
    SignatureSpecializationContext,
};
use cairo_circuit::types::{ConcreteTypeLongId, SpecializationError, TypeInfo};

fn info(name: &str, args: Vec<GenericArg>) -> TypeInfo {
    TypeInfo {
        long_id: ConcreteTypeLongId { generic_id: GenericTypeId::new_inline(name), generic_args: args },
        storable: true,
        droppable: false,
        duplicatable: false,
        zero_sized: false,
    }
}

fn ty(id: u64) -> GenericArg {
    GenericArg::Type(ConcreteTypeId { id })
}

fn cid(id: u64) -> ConcreteTypeId {
    ConcreteTypeId { id }
}

/// The circuit is type 5; 40 = RangeCheck96, 41 = accumulator, 42 = data, 43 = descriptor,
/// 44 = the 96-bit integers, 45 = the tuple of four of them.
fn registry(with_limbs: bool) -> TypeRegistry {
    let mut r = TypeRegistry::new();
    r.declare(cid(5), info("Circuit", vec![ty(4)]));
    r.declare(cid(40), info("RangeCheck96", vec![]));
    r.declare(cid(41), info("CircuitInputAccumulator", vec![ty(5)]));
    r.declare(cid(42), info("CircuitData", vec![ty(5)]));
    r.declare(cid(43), info("CircuitDescriptor", vec![ty(5)]));
    // The upper bound is written with a redundant zero digit: only the value counts.
    let max = BigIntValue { negative: false, digits: vec![u32::MAX, u32::MAX, u32::MAX, 0] };
    r.declare(
        cid(44),
        info("BoundedInt", vec![GenericArg::Value(BigIntValue::zero()), GenericArg::Value(max)]),
    );
    if with_limbs {
        r.declare(
            cid(45),
            info(
                "Struct",
                vec![
                    GenericArg::UserType(UserTypeId::from_string("Tuple")),
                    ty(44),
                    ty(44),
                    ty(44),
                    ty(44),
                ],
            ),
        );
    }
    r
}

fn param(id: u64) -> ParamSignature {
    ParamSignature::new(cid(id))
}

#[test]
fn init_circuit_data_signature() {
    let sig = InitCircuitDataLibFuncWrapped::default()
        .specialize_signature(&registry(true), cid(5))
        .ok()
        .unwrap();
    assert_eq!(sig.param_signatures, vec![param(40).with_allow_add_const()]);
    assert!(sig.param_signatures[0].allow_add_const);
    assert!(!sig.param_signatures[0].allow_deferred && !sig.param_signatures[0].allow_const);
    assert_eq!(sig.branch_signatures.len(), 1);
    assert_eq!(
        sig.branch_signatures[0].vars,
        vec![
            OutputVarInfo {
                ty: cid(40),
                ref_info: OutputVarReferenceInfo::Deferred(DeferredOutputKind::AddConst {
                    param_idx: 0
                }),
            },
            OutputVarInfo {
                ty: cid(41),
                ref_info: OutputVarReferenceInfo::Deferred(DeferredOutputKind::Generic),
            },
        ]
    );
    assert_eq!(sig.branch_signatures[0].ap_change, SierraApChange::Known { new_vars_only: true });
    assert_eq!(sig.fallthrough, Some(0));
    assert_eq!(InitCircuitDataLibFuncWrapped::str_id(), "init_circuit_data");
}

#[test]
fn fill_circuit_input_signature() {
    let sig = FillCircuitInputLibFuncWrapped::default()
        .specialize_signature(&registry(true), cid(5))
        .ok()
        .unwrap();
    assert_eq!(sig.param_signatures, vec![param(41), param(45)]);
    assert_eq!(sig.branch_signatures.len(), 2);
    assert_eq!(
        sig.branch_signatures[0].vars,
        vec![OutputVarInfo { ty: cid(41), ref_info: OutputVarReferenceInfo::SimpleDerefs }]
    );
    assert_eq!(
        sig.branch_signatures[1].vars,
        vec![OutputVarInfo { ty: cid(42), ref_info: OutputVarReferenceInfo::SimpleDerefs }]
    );
    assert_eq!(sig.branch_signatures[0].ap_change, SierraApChange::Known { new_vars_only: false });
    assert_eq!(sig.branch_signatures[1].ap_change, SierraApChange::Known { new_vars_only: false });
    assert_eq!(sig.fallthrough, Some(0));
    assert_eq!(FillCircuitInputLibFuncWrapped::str_id(), "fill_circuit_input");
}

#[test]
fn fill_circuit_input_needs_the_limbs_type() {
    let r = registry(false);
    let err = FillCircuitInputLibFuncWrapped::default().specialize_signature(&r, cid(5)).err();
    match err {
        Some(SpecializationError::TypeWasNotDeclared(id, args)) => {
            assert_eq!(id, GenericTypeId::new_inline("Struct"));
            assert_eq!(args.len(), 5);
            assert_eq!(args[0], GenericArg::UserType(UserTypeId::from_string("Tuple")));
            assert_eq!(args[1], ty(44));
        }
        other => panic!("unexpected {:?}", other),
    }
}

#[test]
fn get_circuit_descriptor_signature() {
    let r = registry(true);
    let sig = GetCircuitDescriptorLibFuncWrapped::default().specialize_signature(&r, cid(5)).ok().unwrap();
    assert!(sig.param_signatures.is_empty());
    assert_eq!(
        sig.branch_signatures[0].vars,
        vec![OutputVarInfo { ty: cid(43), ref_info: OutputVarReferenceInfo::NewTempVar { idx: 0 } }]
    );
    assert_eq!(sig.branch_signatures[0].ap_change, SierraApChange::Known { new_vars_only: false });
    assert_eq!(sig.fallthrough, Some(0));
    let err = GetCircuitDescriptorLibFuncWrapped::default().specialize_signature(&r, cid(6)).err();
    match err {
        Some(SpecializationError::TypeWasNotDeclared(id, args)) => {
            assert_eq!(id, GenericTypeId::new_inline("CircuitDescriptor"));
            assert_eq!(args, vec![ty(6)]);
        }
        other => panic!("unexpected {:?}", other),
    }
    assert_eq!(GetCircuitDescriptorLibFuncWrapped::str_id(), "get_circuit_descriptor");
}

#[test]
fn u96_bound_and_bounded_int_lookup() {
    let max = u96_max_value();
    assert_eq!(max.digits, vec![u32::MAX, u32::MAX, u32::MAX]);
    assert!(!max.negative);
    let r = registry(true);
    assert_eq!(bounded_int_ty(&r, BigIntValue::zero(), max), Ok(cid(44)));
    assert!(bounded_int_ty(&r, BigIntValue::zero(), BigIntValue::from_u64(5)).is_err());
    assert_eq!(
        r.get_concrete_type(GenericTypeId::new_inline("RangeCheck96"), &[]),
        Ok(cid(40))
    );
}

#[test]
fn non_branch_signature_builder() {
    let sig = LibfuncSignature::new_non_branch(
        vec![cid(1), cid(2)],
        vec![],
        SierraApChange::Unknown,
    );
    assert_eq!(sig.param_signatures, vec![param(1), param(2)]);
    assert_eq!(sig.branch_signatures.len(), 1);
    assert!(sig.branch_signatures[0].vars.is_empty());
    assert_eq!(sig.fallthrough, Some(0));
}
