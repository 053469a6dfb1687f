//! The circuit types: their generic ids, the validation of their generic arguments and their
//! concrete specializations.
use vstd::prelude::*;

use crate::circuit_info::{
    circuit_info_spec, circuit_type_wf, get_circuit_info, CircuitInfo, CircuitInfoModel,
};
use crate::ids::{
    big_int_to_usize, copy_args, ConcreteTypeId, GenericArg, GenericArgModel, GenericTypeId,
    UserTypeId,
};
use crate::types::{
    args_as_single_type, args_as_single_value, extract_struct_generic_args, info_model,
    single_type_spec, struct_args_spec, ConcreteTypeLongId, SpecializationError, TypeInfo,
    TypeSpecializationContext,
};

verus! {

/// The name of the generic type `CircuitInput`.
pub open spec fn circuit_input_name() -> Seq<char> {
    "CircuitInput"@
}

/// The name of the generic type `AddModGate`.
pub open spec fn add_mod_gate_name() -> Seq<char> {
    "AddModGate"@
}

/// The name of the generic type `CircuitInputAccumulator`.
pub open spec fn circuit_input_accumulator_name() -> Seq<char> {
    "CircuitInputAccumulator"@
}

/// The name of the generic type `CircuitData`.
pub open spec fn circuit_data_name() -> Seq<char> {
    "CircuitData"@
}

/// The name of the generic type `CircuitOutput`.
pub open spec fn circuit_output_name() -> Seq<char> {
    "CircuitOutput"@
}

/// The name of the generic type `CircuitDescriptor`.
pub open spec fn circuit_descriptor_name() -> Seq<char> {
    "CircuitDescriptor"@
}

/// The name of the generic type `Circuit`.
pub open spec fn circuit_name() -> Seq<char> {
    "Circuit"@
}

/// The name of the generic type `AddMod`.
pub open spec fn add_mod_name() -> Seq<char> {
    "AddMod"@
}

/// The name of the generic type `MulMod`.
pub open spec fn mul_mod_name() -> Seq<char> {
    "MulMod"@
}

/// The name of the user type of tuples.
pub open spec fn tuple_name() -> Seq<char> {
    "Tuple"@
}

// ---------------------------------------------------------------------------------------------
// Validation of generic arguments.
// ---------------------------------------------------------------------------------------------

/// Whether `garg` is a circuit component (a `CircuitInput` or an `AddModGate` type), or the
/// error that `is_circuit_component` returns for it.
pub open spec fn is_component_spec<C: TypeSpecializationContext + ?Sized>(
    ctx: &C,
    garg: GenericArgModel,
) -> Result<bool, SpecializationError> {
    match garg {
        GenericArgModel::Type(ty) => match ctx.type_info_of(ty) {
            None => Err(SpecializationError::MissingTypeInfo(ty)),
            Some(info) => Ok(
                info.long_id.generic_id == circuit_input_name() || info.long_id.generic_id
                    == add_mod_gate_name(),
            ),
        },
        _ => Err(SpecializationError::UnsupportedGenericArg),
    }
}

/// The outcome of checking, from the first to the last, that every argument of `args` is a
/// circuit component: the first error met, or `UnsupportedGenericArg` for the first argument
/// that is no component.
pub open spec fn components_spec<C: TypeSpecializationContext + ?Sized>(
    ctx: &C,
    args: Seq<GenericArgModel>,
) -> Result<(), SpecializationError>
    decreases args.len(),
{
    if args.len() == 0 {
        Ok(())
    } else {
        match is_component_spec(ctx, args[0]) {
            Err(e) => Err(e),
            Ok(false) => Err(SpecializationError::UnsupportedGenericArg),
            Ok(true) => components_spec(ctx, args.drop_first()),
        }
    }
}

/// The outcome of validating the generic arguments of a gate.
pub open spec fn gate_args_spec<C: TypeSpecializationContext + ?Sized>(
    ctx: &C,
    args: Seq<GenericArgModel>,
) -> Result<(), SpecializationError> {
    if args.len() != 2 {
        Err(SpecializationError::WrongNumberOfGenericArgs)
    } else {
        components_spec(ctx, args)
    }
}

/// The outcome of validating that `ty` is a circuit type.
pub open spec fn is_circuit_spec<C: TypeSpecializationContext + ?Sized>(
    ctx: &C,
    ty: ConcreteTypeId,
) -> Result<(), SpecializationError> {
    match ctx.type_info_of(ty) {
        None => Err(SpecializationError::MissingTypeInfo(ty)),
        Some(info) => if info.long_id.generic_id == circuit_name() {
            Ok(())
        } else {
            Err(SpecializationError::UnsupportedGenericArg)
        },
    }
}

/// The outcome of validating that `ty` is a tuple of circuit components.
pub open spec fn outputs_tuple_spec<C: TypeSpecializationContext + ?Sized>(
    ctx: &C,
    ty: ConcreteTypeId,
) -> Result<(), SpecializationError> {
    match struct_args_spec(ctx, ty) {
        Err(e) => Err(e),
        Ok(sargs) => if sargs.len() > 0 && sargs[0] == GenericArgModel::UserType(tuple_name()) {
            components_spec(ctx, sargs.drop_first())
        } else {
            Err(SpecializationError::UnsupportedGenericArg)
        },
    }
}

/// The index of a circuit input with the generic arguments `args`, or the error for them.
pub open spec fn input_index_spec(args: Seq<GenericArgModel>) -> Result<usize, SpecializationError> {
    if args.len() != 1 {
        Err(SpecializationError::WrongNumberOfGenericArgs)
    } else {
        match args[0] {
            GenericArgModel::Value(v) => if 0 <= v <= usize::MAX {
                Ok(v as usize)
            } else {
                Err(SpecializationError::UnsupportedGenericArg)
            },
            _ => Err(SpecializationError::UnsupportedGenericArg),
        }
    }
}

/// The outcome of validating the arguments of a type that takes a single circuit type.
pub open spec fn circuit_arg_spec<C: TypeSpecializationContext + ?Sized>(
    ctx: &C,
    args: Seq<GenericArgModel>,
) -> Result<(), SpecializationError> {
    match single_type_spec(args) {
        Err(e) => Err(e),
        Ok(ty) => is_circuit_spec(ctx, ty),
    }
}

/// Returns whether `garg` is a type that is considered a circuit component.
pub fn is_circuit_component<C: TypeSpecializationContext + ?Sized>(
    ctx: &C,
    garg: &GenericArg,
) -> (r: Result<bool, SpecializationError>)
    ensures
        r == is_component_spec(ctx, garg.deep_view()),
{
    let ty = match garg {
        GenericArg::Type(ty) => *ty,
        _ => {
            return Err(SpecializationError::UnsupportedGenericArg);
        },
    };
    let long_id = ctx.get_type_info(ty)?.long_id;
    Ok(long_id.generic_id == CircuitInput::id() || long_id.generic_id == AddModGate::id())
}

/// Validates that all the generic arguments are circuit components.
pub fn validate_args_are_circuit_components<C: TypeSpecializationContext + ?Sized>(
    ctx: &C,
    gargs: &[GenericArg],
) -> (r: Result<(), SpecializationError>)
    ensures
        r == components_spec(ctx, gargs.deep_view()),
{
    let mut i: usize = 0;
    assert(gargs.deep_view().subrange(0, gargs.deep_view().len() as int) =~= gargs.deep_view());
    while i < gargs.len()
        invariant
            i <= gargs.len(),
            components_spec(ctx, gargs.deep_view()) == components_spec(
                ctx,
                gargs.deep_view().subrange(i as int, gargs.deep_view().len() as int),
            ),
        decreases gargs.len() - i,
    {
        let ghost rest = gargs.deep_view().subrange(i as int, gargs.deep_view().len() as int);
        assert(rest[0] == gargs[i as int].deep_view());
        assert(rest.drop_first() =~= gargs.deep_view().subrange(
            i + 1,
            gargs.deep_view().len() as int,
        ));
        // Note that it is enough to check the topmost types as they validate their children.
        if !is_circuit_component(ctx, &gargs[i])? {
            return Err(SpecializationError::UnsupportedGenericArg);
        }
        i = i + 1;
    }
    assert(gargs.deep_view().subrange(i as int, gargs.deep_view().len() as int).len() == 0);
    Ok(())
}

/// Validates the generic arguments of a gate: two circuit components.
pub fn validate_gate_generic_args<C: TypeSpecializationContext + ?Sized>(
    ctx: &C,
    args: &[GenericArg],
) -> (r: Result<(), SpecializationError>)
    ensures
        r == gate_args_spec(ctx, args.deep_view()),
{
    if args.len() != 2 {
        return Err(SpecializationError::WrongNumberOfGenericArgs);
    }
    validate_args_are_circuit_components(ctx, args)
}

/// Validates that `circ_ty` is a circuit type.
pub fn validate_is_circuit<C: TypeSpecializationContext + ?Sized>(
    ctx: &C,
    circ_ty: ConcreteTypeId,
) -> (r: Result<(), SpecializationError>)
    ensures
        r == is_circuit_spec(ctx, circ_ty),
{
    if ctx.get_type_info(circ_ty)?.long_id.generic_id != Circuit::id() {
        return Err(SpecializationError::UnsupportedGenericArg);
    }
    Ok(())
}

/// Validates that `outputs_tuple_ty` is a tuple of circuit components.
pub fn validate_outputs_tuple<C: TypeSpecializationContext + ?Sized>(
    ctx: &C,
    outputs_tuple_ty: ConcreteTypeId,
) -> (r: Result<(), SpecializationError>)
    ensures
        r == outputs_tuple_spec(ctx, outputs_tuple_ty),
{
    let struct_generic_args = extract_struct_generic_args(ctx, outputs_tuple_ty)?;
    let is_tuple = if struct_generic_args.len() > 0 {
        match &struct_generic_args[0] {
            GenericArg::UserType(ut) => *ut == UserTypeId::from_string("Tuple"),
            _ => false,
        }
    } else {
        false
    };
    if !is_tuple {
        return Err(SpecializationError::UnsupportedGenericArg);
    }
    let rest = vstd::slice::slice_subrange(
        struct_generic_args.as_slice(),
        1,
        struct_generic_args.len(),
    );
    assert(rest.deep_view() =~= struct_generic_args.deep_view().drop_first());
    validate_args_are_circuit_components(ctx, rest)
}

/// Builds the information of a type of the given generic type, specialized with `args`.
fn make_info(
    generic_id: GenericTypeId,
    args: &[GenericArg],
    duplicatable: bool,
    droppable: bool,
    storable: bool,
    zero_sized: bool,
) -> (r: TypeInfo)
    ensures
        r.deep_view() == info_model(
            generic_id@,
            args.deep_view(),
            duplicatable,
            droppable,
            storable,
            zero_sized,
        ),
{
    TypeInfo {
        long_id: ConcreteTypeLongId { generic_id, generic_args: copy_args(args) },
        duplicatable,
        droppable,
        storable,
        zero_sized,
    }
}

// ---------------------------------------------------------------------------------------------
// CircuitInput.
// ---------------------------------------------------------------------------------------------

/// Circuit input type.
#[derive(Default)]
pub struct CircuitInput {}

impl CircuitInput {
    /// The id of the generic type.
    pub fn id() -> (r: GenericTypeId)
        ensures
            r@ == circuit_input_name(),
    {
        GenericTypeId::new_inline("CircuitInput")
    }

    /// Specializes the type with the generic arguments `args`.
    pub fn specialize<C: TypeSpecializationContext + ?Sized>(
        &self,
        ctx: &C,
        args: &[GenericArg],
    ) -> (r: Result<ConcreteCircuitInput, SpecializationError>)
        ensures
            match r {
                Ok(c) => input_index_spec(args.deep_view()) == Ok::<usize, SpecializationError>(
                    c.idx,
                ) && c.info.deep_view() == info_model(
                    circuit_input_name(),
                    args.deep_view(),
                    false,
                    false,
                    false,
                    false,
                ),
                Err(e) => input_index_spec(args.deep_view()) == Err::<usize, SpecializationError>(
                    e,
                ),
            },
    {
        ConcreteCircuitInput::new(ctx, args)
    }
}

/// Defines an input for a circuit.
pub struct ConcreteCircuitInput {
    /// The type info of the concrete type.
    pub info: TypeInfo,
    /// The index of the circuit input.
    pub idx: usize,
}

impl ConcreteCircuitInput {
    /// Specializes `CircuitInput` with `args`: a single value, the index of the input.
    pub fn new<C: TypeSpecializationContext + ?Sized>(ctx: &C, args: &[GenericArg]) -> (r: Result<
        Self,
        SpecializationError,
    >)
        ensures
            match r {
                Ok(c) => input_index_spec(args.deep_view()) == Ok::<usize, SpecializationError>(
                    c.idx,
                ) && c.info.deep_view() == info_model(
                    circuit_input_name(),
                    args.deep_view(),
                    false,
                    false,
                    false,
                    false,
                ),
                Err(e) => input_index_spec(args.deep_view()) == Err::<usize, SpecializationError>(
                    e,
                ),
            },
    {
        let value = args_as_single_value(args)?;
        let idx = match big_int_to_usize(&value) {
            Some(idx) => idx,
            None => {
                return Err(SpecializationError::UnsupportedGenericArg);
            },
        };
        Ok(
            ConcreteCircuitInput {
                info: make_info(CircuitInput::id(), args, false, false, false, false),
                idx,
            },
        )
    }

    /// The type info of the concrete type.
    pub fn info(&self) -> (r: &TypeInfo)
        ensures
            r == &self.info,
    {
        &self.info
    }
}

// ---------------------------------------------------------------------------------------------
// AddModGate.
// ---------------------------------------------------------------------------------------------

/// Represents the action of adding two field elements in the circuits builtin.
#[derive(Default)]
pub struct AddModGate {}

impl AddModGate {
    /// The id of the generic type.
    pub fn id() -> (r: GenericTypeId)
        ensures
            r@ == add_mod_gate_name(),
    {
        GenericTypeId::new_inline("AddModGate")
    }

    /// Specializes the type with the generic arguments `args`.
    pub fn specialize<C: TypeSpecializationContext + ?Sized>(
        &self,
        ctx: &C,
        args: &[GenericArg],
    ) -> (r: Result<ConcreteAddModGate, SpecializationError>)
        ensures
            match r {
                Ok(c) => gate_args_spec(ctx, args.deep_view()) is Ok && c.info.deep_view()
                    == info_model(add_mod_gate_name(), args.deep_view(), false, false, false, false),
                Err(e) => gate_args_spec(ctx, args.deep_view()) == Err::<(), SpecializationError>(e),
            },
    {
        ConcreteAddModGate::new(ctx, args)
    }
}

/// A gate that adds two circuit components.
pub struct ConcreteAddModGate {
    pub info: TypeInfo,
}

impl ConcreteAddModGate {
    /// Specializes `AddModGate` with `args`: two circuit components.
    pub fn new<C: TypeSpecializationContext + ?Sized>(ctx: &C, args: &[GenericArg]) -> (r: Result<
        Self,
        SpecializationError,
    >)
        ensures
            match r {
                Ok(c) => gate_args_spec(ctx, args.deep_view()) is Ok && c.info.deep_view()
                    == info_model(add_mod_gate_name(), args.deep_view(), false, false, false, false),
                Err(e) => gate_args_spec(ctx, args.deep_view()) == Err::<(), SpecializationError>(e),
            },
    {
        validate_gate_generic_args(ctx, args)?;
        Ok(ConcreteAddModGate { info: make_info(AddModGate::id(), args, false, false, false, false) })
    }

    /// The type info of the concrete type.
    pub fn info(&self) -> (r: &TypeInfo)
        ensures
            r == &self.info,
    {
        &self.info
    }
}

// ---------------------------------------------------------------------------------------------
// CircuitInputAccumulator.
// ---------------------------------------------------------------------------------------------

/// Type for accumulating inputs into the circuit instance's data.
#[derive(Default)]
pub struct CircuitInputAccumulator {}

impl CircuitInputAccumulator {
    /// The id of the generic type.
    pub fn id() -> (r: GenericTypeId)
        ensures
            r@ == circuit_input_accumulator_name(),
    {
        GenericTypeId::new_inline("CircuitInputAccumulator")
    }

    /// Specializes the type with the generic arguments `args`.
    pub fn specialize<C: TypeSpecializationContext + ?Sized>(
        &self,
        ctx: &C,
        args: &[GenericArg],
    ) -> (r: Result<ConcreteCircuitInputAccumulator, SpecializationError>)
        ensures
            match r {
                Ok(c) => circuit_arg_spec(ctx, args.deep_view()) is Ok && c.info.deep_view()
                    == info_model(circuit_input_accumulator_name(), args.deep_view(), false, true, true, false),
                Err(e) => circuit_arg_spec(ctx, args.deep_view()) == Err::<(), SpecializationError>(e),
            },
    {
        ConcreteCircuitInputAccumulator::new(ctx, args)
    }
}

/// The accumulator of the inputs of an instance of a circuit.
pub struct ConcreteCircuitInputAccumulator {
    pub info: TypeInfo,
}

impl ConcreteCircuitInputAccumulator {
    /// Specializes `CircuitInputAccumulator` with `args`: a single circuit type.
    pub fn new<C: TypeSpecializationContext + ?Sized>(ctx: &C, args: &[GenericArg]) -> (r: Result<
        Self,
        SpecializationError,
    >)
        ensures
            match r {
                Ok(c) => circuit_arg_spec(ctx, args.deep_view()) is Ok && c.info.deep_view()
                    == info_model(circuit_input_accumulator_name(), args.deep_view(), false, true, true, false),
                Err(e) => circuit_arg_spec(ctx, args.deep_view()) == Err::<(), SpecializationError>(e),
            },
    {
        let circ_ty = args_as_single_type(args)?;
        validate_is_circuit(ctx, circ_ty)?;
        Ok(ConcreteCircuitInputAccumulator { info: make_info(CircuitInputAccumulator::id(), args, false, true, true, false) })
    }

    /// The type info of the concrete type.
    pub fn info(&self) -> (r: &TypeInfo)
        ensures
            r == &self.info,
    {
        &self.info
    }
}

// ---------------------------------------------------------------------------------------------
// CircuitData.
// ---------------------------------------------------------------------------------------------

/// A type representing a circuit instance data with all the inputs filled.
#[derive(Default)]
pub struct CircuitData {}

impl CircuitData {
    /// The id of the generic type.
    pub fn id() -> (r: GenericTypeId)
        ensures
            r@ == circuit_data_name(),
    {
        GenericTypeId::new_inline("CircuitData")
    }

    /// Specializes the type with the generic arguments `args`.
    pub fn specialize<C: TypeSpecializationContext + ?Sized>(
        &self,
        ctx: &C,
        args: &[GenericArg],
    ) -> (r: Result<ConcreteCircuitData, SpecializationError>)
        ensures
            match r {
                Ok(c) => circuit_arg_spec(ctx, args.deep_view()) is Ok && c.info.deep_view()
                    == info_model(circuit_data_name(), args.deep_view(), false, true, true, false),
                Err(e) => circuit_arg_spec(ctx, args.deep_view()) == Err::<(), SpecializationError>(e),
            },
    {
        ConcreteCircuitData::new(ctx, args)
    }
}

/// The data of an instance of a circuit.
pub struct ConcreteCircuitData {
    pub info: TypeInfo,
}

impl ConcreteCircuitData {
    /// Specializes `CircuitData` with `args`: a single circuit type.
    pub fn new<C: TypeSpecializationContext + ?Sized>(ctx: &C, args: &[GenericArg]) -> (r: Result<
        Self,
        SpecializationError,
    >)
        ensures
            match r {
                Ok(c) => circuit_arg_spec(ctx, args.deep_view()) is Ok && c.info.deep_view()
                    == info_model(circuit_data_name(), args.deep_view(), false, true, true, false),
                Err(e) => circuit_arg_spec(ctx, args.deep_view()) == Err::<(), SpecializationError>(e),
            },
    {
        let circ_ty = args_as_single_type(args)?;
        validate_is_circuit(ctx, circ_ty)?;
        Ok(ConcreteCircuitData { info: make_info(CircuitData::id(), args, false, true, true, false) })
    }

    /// The type info of the concrete type.
    pub fn info(&self) -> (r: &TypeInfo)
        ensures
            r == &self.info,
    {
        &self.info
    }
}

// ---------------------------------------------------------------------------------------------
// CircuitOutput.
// ---------------------------------------------------------------------------------------------

/// A type representing a circuit instance where the outputs are filled.
#[derive(Default)]
pub struct CircuitOutput {}

impl CircuitOutput {
    /// The id of the generic type.
    pub fn id() -> (r: GenericTypeId)
        ensures
            r@ == circuit_output_name(),
    {
        GenericTypeId::new_inline("CircuitOutput")
    }

    /// Specializes the type with the generic arguments `args`.
    pub fn specialize<C: TypeSpecializationContext + ?Sized>(
        &self,
        ctx: &C,
        args: &[GenericArg],
    ) -> (r: Result<ConcreteCircuitOutput, SpecializationError>)
        ensures
            match r {
                Ok(c) => circuit_arg_spec(ctx, args.deep_view()) is Ok && c.info.deep_view()
                    == info_model(circuit_output_name(), args.deep_view(), false, true, true, false),
                Err(e) => circuit_arg_spec(ctx, args.deep_view()) == Err::<(), SpecializationError>(e),
            },
    {
        ConcreteCircuitOutput::new(ctx, args)
    }
}

/// The outputs of an instance of a circuit.
pub struct ConcreteCircuitOutput {
    pub info: TypeInfo,
}

impl ConcreteCircuitOutput {
    /// Specializes `CircuitOutput` with `args`: a single circuit type.
    pub fn new<C: TypeSpecializationContext + ?Sized>(ctx: &C, args: &[GenericArg]) -> (r: Result<
        Self,
        SpecializationError,
    >)
        ensures
            match r {
                Ok(c) => circuit_arg_spec(ctx, args.deep_view()) is Ok && c.info.deep_view()
                    == info_model(circuit_output_name(), args.deep_view(), false, true, true, false),
                Err(e) => circuit_arg_spec(ctx, args.deep_view()) == Err::<(), SpecializationError>(e),
            },
    {
        let circ_ty = args_as_single_type(args)?;
        validate_is_circuit(ctx, circ_ty)?;
        Ok(ConcreteCircuitOutput { info: make_info(CircuitOutput::id(), args, false, true, true, false) })
    }

    /// The type info of the concrete type.
    pub fn info(&self) -> (r: &TypeInfo)
        ensures
            r == &self.info,
    {
        &self.info
    }
}

// ---------------------------------------------------------------------------------------------
// CircuitDescriptor.
// ---------------------------------------------------------------------------------------------

/// A type representing the descriptor of a circuit.
#[derive(Default)]
pub struct CircuitDescriptor {}

impl CircuitDescriptor {
    /// The id of the generic type.
    pub fn id() -> (r: GenericTypeId)
        ensures
            r@ == circuit_descriptor_name(),
    {
        GenericTypeId::new_inline("CircuitDescriptor")
    }

    /// Specializes the type with the generic arguments `args`.
    pub fn specialize<C: TypeSpecializationContext + ?Sized>(
        &self,
        ctx: &C,
        args: &[GenericArg],
    ) -> (r: Result<ConcreteCircuitDescriptor, SpecializationError>)
        ensures
            match r {
                Ok(c) => circuit_arg_spec(ctx, args.deep_view()) is Ok && c.info.deep_view()
                    == info_model(circuit_descriptor_name(), args.deep_view(), true, true, true, false),
                Err(e) => circuit_arg_spec(ctx, args.deep_view()) == Err::<(), SpecializationError>(e),
            },
    {
        ConcreteCircuitDescriptor::new(ctx, args)
    }
}

/// The descriptor of a circuit.
pub struct ConcreteCircuitDescriptor {
    pub info: TypeInfo,
}

impl ConcreteCircuitDescriptor {
    /// Specializes `CircuitDescriptor` with `args`: a single circuit type.
    pub fn new<C: TypeSpecializationContext + ?Sized>(ctx: &C, args: &[GenericArg]) -> (r: Result<
        Self,
        SpecializationError,
    >)
        ensures
            match r {
                Ok(c) => circuit_arg_spec(ctx, args.deep_view()) is Ok && c.info.deep_view()
                    == info_model(circuit_descriptor_name(), args.deep_view(), true, true, true, false),
                Err(e) => circuit_arg_spec(ctx, args.deep_view()) == Err::<(), SpecializationError>(e),
            },
    {
        let circ_ty = args_as_single_type(args)?;
        validate_is_circuit(ctx, circ_ty)?;
        Ok(ConcreteCircuitDescriptor { info: make_info(CircuitDescriptor::id(), args, true, true, true, false) })
    }

    /// The type info of the concrete type.
    pub fn info(&self) -> (r: &TypeInfo)
        ensures
            r == &self.info,
    {
        &self.info
    }
}

// ---------------------------------------------------------------------------------------------
// Circuit.
// ---------------------------------------------------------------------------------------------

/// A type that creates a circuit from a tuple of outputs.
#[derive(Default)]
pub struct Circuit {}

/// The layout of the circuit specialized with `args`, or the error met.
pub open spec fn concrete_circuit_spec<C: TypeSpecializationContext + ?Sized>(
    ctx: &C,
    args: Seq<GenericArgModel>,
) -> Result<CircuitInfoModel, SpecializationError> {
    match single_type_spec(args) {
        Err(e) => Err(e),
        Ok(t) => match outputs_tuple_spec(ctx, t) {
            Err(e) => Err(e),
            Ok(_) => circuit_info_spec(ctx, t),
        },
    }
}

/// Whether the circuit specialized with `args` can be laid out, where its outputs tuple is a
/// tuple of circuit components.
pub open spec fn circuit_args_wf<C: TypeSpecializationContext + ?Sized>(
    ctx: &C,
    args: Seq<GenericArgModel>,
) -> bool {
    match single_type_spec(args) {
        Err(_) => true,
        Ok(t) => outputs_tuple_spec(ctx, t) is Ok ==> circuit_type_wf(ctx, t),
    }
}

impl Circuit {
    /// The id of the generic type.
    pub fn id() -> (r: GenericTypeId)
        ensures
            r@ == circuit_name(),
    {
        GenericTypeId::new_inline("Circuit")
    }

    /// Specializes the type with the generic arguments `args`.
    pub fn specialize<C: TypeSpecializationContext + ?Sized>(
        &self,
        ctx: &C,
        args: &[GenericArg],
    ) -> (r: Result<ConcreteCircuit, SpecializationError>)
        requires
            circuit_args_wf(ctx, args.deep_view()),
        ensures
            match r {
                Ok(c) => concrete_circuit_spec(ctx, args.deep_view()) == Ok::<
                    CircuitInfoModel,
                    SpecializationError,
                >(c.circuit_info@) && c.info.deep_view() == info_model(
                    circuit_name(),
                    args.deep_view(),
                    true,
                    true,
                    true,
                    false,
                ),
                Err(e) => concrete_circuit_spec(ctx, args.deep_view()) == Err::<
                    CircuitInfoModel,
                    SpecializationError,
                >(e),
            },
    {
        ConcreteCircuit::new(ctx, args)
    }
}

/// A circuit, with the layout of its values and gates.
pub struct ConcreteCircuit {
    pub info: TypeInfo,
    pub circuit_info: CircuitInfo,
}

impl ConcreteCircuit {
    /// Specializes `Circuit` with `args`: a single tuple of circuit components, its outputs.
    pub fn new<C: TypeSpecializationContext + ?Sized>(ctx: &C, args: &[GenericArg]) -> (r: Result<
        Self,
        SpecializationError,
    >)
        requires
            circuit_args_wf(ctx, args.deep_view()),
        ensures
            match r {
                Ok(c) => concrete_circuit_spec(ctx, args.deep_view()) == Ok::<
                    CircuitInfoModel,
                    SpecializationError,
                >(c.circuit_info@) && c.info.deep_view() == info_model(
                    circuit_name(),
                    args.deep_view(),
                    true,
                    true,
                    true,
                    false,
                ),
                Err(e) => concrete_circuit_spec(ctx, args.deep_view()) == Err::<
                    CircuitInfoModel,
                    SpecializationError,
                >(e),
            },
    {
        let outputs_tuple = args_as_single_type(args)?;
        validate_outputs_tuple(ctx, outputs_tuple)?;
        let info = make_info(Circuit::id(), args, true, true, true, false);
        let circuit_info = get_circuit_info(ctx, outputs_tuple)?;
        Ok(ConcreteCircuit { info, circuit_info })
    }

    /// The type info of the concrete type.
    pub fn info(&self) -> (r: &TypeInfo)
        ensures
            r == &self.info,
    {
        &self.info
    }
}

// ---------------------------------------------------------------------------------------------
// The builtins.
// ---------------------------------------------------------------------------------------------

/// A concrete type that holds nothing but its information.
pub struct InfoOnlyConcreteType {
    pub info: TypeInfo,
}

impl InfoOnlyConcreteType {
    /// The type info of the concrete type.
    pub fn info(&self) -> (r: &TypeInfo)
        ensures
            r == &self.info,
    {
        &self.info
    }
}

/// Specializes a generic type that takes no generic argument.
fn specialize_no_args(
    generic_id: GenericTypeId,
    args: &[GenericArg],
    duplicatable: bool,
    droppable: bool,
    storable: bool,
    zero_sized: bool,
) -> (r: Result<InfoOnlyConcreteType, SpecializationError>)
    ensures
        match r {
            Ok(c) => args.deep_view().len() == 0 && c.info.deep_view() == info_model(
                generic_id@,
                Seq::empty(),
                duplicatable,
                droppable,
                storable,
                zero_sized,
            ),
            Err(e) => args.deep_view().len() != 0 && e == SpecializationError::WrongNumberOfGenericArgs,
        },
{
    if args.len() == 0 {
        let info = make_info(generic_id, args, duplicatable, droppable, storable, zero_sized);
        assert(args.deep_view() =~= Seq::<GenericArgModel>::empty());
        Ok(InfoOnlyConcreteType { info })
    } else {
        Err(SpecializationError::WrongNumberOfGenericArgs)
    }
}

// ---------------------------------------------------------------------------------------------
// AddModType.
// ---------------------------------------------------------------------------------------------

/// Type for add mod builtin.
#[derive(Default)]
pub struct AddModType {}

impl AddModType {
    /// The id of the generic type.
    pub fn id() -> (r: GenericTypeId)
        ensures
            r@ == add_mod_name(),
    {
        GenericTypeId::new_inline("AddMod")
    }

    /// Specializes the type, which takes no generic argument: it is storable, and neither
    /// duplicatable, droppable nor zero sized.
    pub fn specialize<C: TypeSpecializationContext + ?Sized>(
        &self,
        ctx: &C,
        args: &[GenericArg],
    ) -> (r: Result<InfoOnlyConcreteType, SpecializationError>)
        ensures
            match r {
                Ok(c) => args.deep_view().len() == 0 && c.info.deep_view() == info_model(
                    add_mod_name(),
                    Seq::empty(),
                    false,
                    false,
                    true,
                    false,
                ),
                Err(e) => args.deep_view().len() != 0 && e == SpecializationError::WrongNumberOfGenericArgs,
            },
    {
        specialize_no_args(AddModType::id(), args, false, false, true, false)
    }
}

// ---------------------------------------------------------------------------------------------
// MulModType.
// ---------------------------------------------------------------------------------------------

/// Type for mul mod builtin.
#[derive(Default)]
pub struct MulModType {}

impl MulModType {
    /// The id of the generic type.
    pub fn id() -> (r: GenericTypeId)
        ensures
            r@ == mul_mod_name(),
    {
        GenericTypeId::new_inline("MulMod")
    }

    /// Specializes the type, which takes no generic argument: it is storable, and neither
    /// duplicatable, droppable nor zero sized.
    pub fn specialize<C: TypeSpecializationContext + ?Sized>(
        &self,
        ctx: &C,
        args: &[GenericArg],
    ) -> (r: Result<InfoOnlyConcreteType, SpecializationError>)
        ensures
            match r {
                Ok(c) => args.deep_view().len() == 0 && c.info.deep_view() == info_model(
                    mul_mod_name(),
                    Seq::empty(),
                    false,
                    false,
                    true,
                    false,
                ),
                Err(e) => args.deep_view().len() != 0 && e == SpecializationError::WrongNumberOfGenericArgs,
            },
    {
        specialize_no_args(MulModType::id(), args, false, false, true, false)
    }
}

} // verus!
