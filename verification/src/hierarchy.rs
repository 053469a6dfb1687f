//! The circuit types and libfuncs, looked up by id and specialized.
use vstd::prelude::*;

use crate::circuit::{
    add_mod_gate_name, add_mod_name, circuit_arg_spec, circuit_args_wf, circuit_data_name,
    circuit_descriptor_name, circuit_input_accumulator_name, circuit_input_name, circuit_name,
    circuit_output_name, concrete_circuit_spec, gate_args_spec, input_index_spec, mul_mod_name,
    AddModGate, AddModType, Circuit, CircuitData, CircuitDescriptor, CircuitInput,
    CircuitInputAccumulator, CircuitOutput, ConcreteAddModGate, ConcreteCircuit,
    ConcreteCircuitData, ConcreteCircuitDescriptor, ConcreteCircuitInput,
    ConcreteCircuitInputAccumulator, ConcreteCircuitOutput, InfoOnlyConcreteType, MulModType,
};
use crate::circuit_info::CircuitInfoModel;
use crate::ids::{ConcreteTypeId, GenericArg, GenericArgModel, GenericLibfuncId, GenericTypeId};
use crate::signature::{
    bounded_int_name, limbs_args, range_check96_name, u96_args, OutputVarReferenceInfo,
    SierraApChange,
    fill_circuit_input_spec, get_circuit_descriptor_spec, init_circuit_data_spec,
    FillCircuitInputLibFuncWrapped, GetCircuitDescriptorLibFuncWrapped,
    InitCircuitDataLibFuncWrapped, LibfuncSignature, SignatureModel,
    SignatureSpecializationContext,
};
use crate::types::{
    struct_type_name,
    args_as_single_type, info_model, single_type_spec, ErrorModel, SpecializationError, TypeInfo,
    TypeInfoModel, TypeSpecializationContext,
};

verus! {

/// The generic types of circuits.
pub enum CircuitType {
    AddMod(AddModType),
    MulMod(MulModType),
    AddModGate(AddModGate),
    Circuit(Circuit),
    CircuitData(CircuitData),
    CircuitOutput(CircuitOutput),
    CircuitDescriptor(CircuitDescriptor),
    CircuitInput(CircuitInput),
    CircuitInputAccumulator(CircuitInputAccumulator),
}

/// The concrete types of circuits.
pub enum CircuitTypeConcrete {
    AddMod(InfoOnlyConcreteType),
    MulMod(InfoOnlyConcreteType),
    AddModGate(ConcreteAddModGate),
    Circuit(ConcreteCircuit),
    CircuitData(ConcreteCircuitData),
    CircuitOutput(ConcreteCircuitOutput),
    CircuitDescriptor(ConcreteCircuitDescriptor),
    CircuitInput(ConcreteCircuitInput),
    CircuitInputAccumulator(ConcreteCircuitInputAccumulator),
}

/// The generic circuit type named `name`, if any.
pub open spec fn circuit_type_named(name: Seq<char>) -> Option<CircuitType> {
    if name == add_mod_name() {
        Some(CircuitType::AddMod(AddModType {  }))
    } else if name == mul_mod_name() {
        Some(CircuitType::MulMod(MulModType {  }))
    } else if name == add_mod_gate_name() {
        Some(CircuitType::AddModGate(AddModGate {  }))
    } else if name == circuit_name() {
        Some(CircuitType::Circuit(Circuit {  }))
    } else if name == circuit_data_name() {
        Some(CircuitType::CircuitData(CircuitData {  }))
    } else if name == circuit_output_name() {
        Some(CircuitType::CircuitOutput(CircuitOutput {  }))
    } else if name == circuit_descriptor_name() {
        Some(CircuitType::CircuitDescriptor(CircuitDescriptor {  }))
    } else if name == circuit_input_name() {
        Some(CircuitType::CircuitInput(CircuitInput {  }))
    } else if name == circuit_input_accumulator_name() {
        Some(CircuitType::CircuitInputAccumulator(CircuitInputAccumulator {  }))
    } else {
        None
    }
}

/// The information of the specialization of `t` with `args`, or the error met.
pub open spec fn circuit_type_spec<C: TypeSpecializationContext + ?Sized>(
    ctx: &C,
    t: CircuitType,
    args: Seq<GenericArgModel>,
) -> Result<TypeInfoModel, SpecializationError> {
    match t {
        CircuitType::AddMod(_) => if args.len() == 0 {
            Ok(info_model(add_mod_name(), args, false, false, true, false))
        } else {
            Err(SpecializationError::WrongNumberOfGenericArgs)
        },
        CircuitType::MulMod(_) => if args.len() == 0 {
            Ok(info_model(mul_mod_name(), args, false, false, true, false))
        } else {
            Err(SpecializationError::WrongNumberOfGenericArgs)
        },
        CircuitType::AddModGate(_) => match gate_args_spec(ctx, args) {
            Ok(_) => Ok(info_model(add_mod_gate_name(), args, false, false, false, false)),
            Err(e) => Err(e),
        },
        CircuitType::Circuit(_) => match concrete_circuit_spec(ctx, args) {
            Ok(_) => Ok(info_model(circuit_name(), args, true, true, true, false)),
            Err(e) => Err(e),
        },
        CircuitType::CircuitData(_) => match circuit_arg_spec(ctx, args) {
            Ok(_) => Ok(info_model(circuit_data_name(), args, false, true, true, false)),
            Err(e) => Err(e),
        },
        CircuitType::CircuitOutput(_) => match circuit_arg_spec(ctx, args) {
            Ok(_) => Ok(info_model(circuit_output_name(), args, false, true, true, false)),
            Err(e) => Err(e),
        },
        CircuitType::CircuitDescriptor(_) => match circuit_arg_spec(ctx, args) {
            Ok(_) => Ok(info_model(circuit_descriptor_name(), args, true, true, true, false)),
            Err(e) => Err(e),
        },
        CircuitType::CircuitInput(_) => match input_index_spec(args) {
            Ok(_) => Ok(info_model(circuit_input_name(), args, false, false, false, false)),
            Err(e) => Err(e),
        },
        CircuitType::CircuitInputAccumulator(_) => match circuit_arg_spec(ctx, args) {
            Ok(_) => Ok(info_model(circuit_input_accumulator_name(), args, false, true, true, false)),
            Err(e) => Err(e),
        },
    }
}

/// Whether the concrete type `c` is a specialization of the generic type `t`.
pub open spec fn same_kind(t: CircuitType, c: CircuitTypeConcrete) -> bool {
    match (t, c) {
        (CircuitType::AddMod(_), CircuitTypeConcrete::AddMod(_)) => true,
        (CircuitType::MulMod(_), CircuitTypeConcrete::MulMod(_)) => true,
        (CircuitType::AddModGate(_), CircuitTypeConcrete::AddModGate(_)) => true,
        (CircuitType::Circuit(_), CircuitTypeConcrete::Circuit(_)) => true,
        (CircuitType::CircuitData(_), CircuitTypeConcrete::CircuitData(_)) => true,
        (CircuitType::CircuitOutput(_), CircuitTypeConcrete::CircuitOutput(_)) => true,
        (CircuitType::CircuitDescriptor(_), CircuitTypeConcrete::CircuitDescriptor(_)) => true,
        (CircuitType::CircuitInput(_), CircuitTypeConcrete::CircuitInput(_)) => true,
        (
            CircuitType::CircuitInputAccumulator(_),
            CircuitTypeConcrete::CircuitInputAccumulator(_),
        ) => true,
        _ => false,
    }
}

/// The information of a concrete circuit type.
pub open spec fn concrete_info(c: CircuitTypeConcrete) -> TypeInfo {
    match c {
        CircuitTypeConcrete::AddMod(c) => c.info,
        CircuitTypeConcrete::MulMod(c) => c.info,
        CircuitTypeConcrete::AddModGate(c) => c.info,
        CircuitTypeConcrete::Circuit(c) => c.info,
        CircuitTypeConcrete::CircuitData(c) => c.info,
        CircuitTypeConcrete::CircuitOutput(c) => c.info,
        CircuitTypeConcrete::CircuitDescriptor(c) => c.info,
        CircuitTypeConcrete::CircuitInput(c) => c.info,
        CircuitTypeConcrete::CircuitInputAccumulator(c) => c.info,
    }
}

impl CircuitTypeConcrete {
    /// The type info of the concrete type.
    pub fn info(&self) -> (r: &TypeInfo)
        ensures
            *r == concrete_info(*self),
    {
        match self {
            CircuitTypeConcrete::AddMod(c) => &c.info,
            CircuitTypeConcrete::MulMod(c) => &c.info,
            CircuitTypeConcrete::AddModGate(c) => &c.info,
            CircuitTypeConcrete::Circuit(c) => &c.info,
            CircuitTypeConcrete::CircuitData(c) => &c.info,
            CircuitTypeConcrete::CircuitOutput(c) => &c.info,
            CircuitTypeConcrete::CircuitDescriptor(c) => &c.info,
            CircuitTypeConcrete::CircuitInput(c) => &c.info,
            CircuitTypeConcrete::CircuitInputAccumulator(c) => &c.info,
        }
    }
}

impl CircuitType {
    /// The generic circuit type with the id `id`, if any.
    pub fn by_id(id: &GenericTypeId) -> (r: Option<CircuitType>)
        ensures
            r == circuit_type_named(id@),
    {
        if *id == AddModType::id() {
            Some(CircuitType::AddMod(AddModType {  }))
        } else if *id == MulModType::id() {
            Some(CircuitType::MulMod(MulModType {  }))
        } else if *id == AddModGate::id() {
            Some(CircuitType::AddModGate(AddModGate {  }))
        } else if *id == Circuit::id() {
            Some(CircuitType::Circuit(Circuit {  }))
        } else if *id == CircuitData::id() {
            Some(CircuitType::CircuitData(CircuitData {  }))
        } else if *id == CircuitOutput::id() {
            Some(CircuitType::CircuitOutput(CircuitOutput {  }))
        } else if *id == CircuitDescriptor::id() {
            Some(CircuitType::CircuitDescriptor(CircuitDescriptor {  }))
        } else if *id == CircuitInput::id() {
            Some(CircuitType::CircuitInput(CircuitInput {  }))
        } else if *id == CircuitInputAccumulator::id() {
            Some(CircuitType::CircuitInputAccumulator(CircuitInputAccumulator {  }))
        } else {
            None
        }
    }

    /// Specializes the generic type with the generic arguments `args`.
    pub fn specialize<C: TypeSpecializationContext + ?Sized>(
        &self,
        ctx: &C,
        args: &[GenericArg],
    ) -> (r: Result<CircuitTypeConcrete, SpecializationError>)
        requires
            *self is Circuit ==> circuit_args_wf(ctx, args.deep_view()),
        ensures
            match r {
                Ok(c) => same_kind(*self, c) && circuit_type_spec(ctx, *self, args.deep_view())
                    == Ok::<TypeInfoModel, SpecializationError>(concrete_info(c).deep_view()),
                Err(e) => circuit_type_spec(ctx, *self, args.deep_view()) == Err::<
                    TypeInfoModel,
                    SpecializationError,
                >(e),
            },
            r matches Ok(CircuitTypeConcrete::Circuit(c)) ==> concrete_circuit_spec(
                ctx,
                args.deep_view(),
            ) == Ok::<CircuitInfoModel, SpecializationError>(c.circuit_info@),
            r matches Ok(CircuitTypeConcrete::CircuitInput(c)) ==> input_index_spec(
                args.deep_view(),
            ) == Ok::<usize, SpecializationError>(c.idx),
    {
        match self {
            CircuitType::AddMod(t) => match t.specialize(ctx, args) {
                Ok(c) => {
                    proof {
                        assert(args.deep_view() =~= Seq::<GenericArgModel>::empty());
                    }
                    Ok(CircuitTypeConcrete::AddMod(c))
                },
                Err(e) => Err(e),
            },
            CircuitType::MulMod(t) => match t.specialize(ctx, args) {
                Ok(c) => {
                    proof {
                        assert(args.deep_view() =~= Seq::<GenericArgModel>::empty());
                    }
                    Ok(CircuitTypeConcrete::MulMod(c))
                },
                Err(e) => Err(e),
            },
            CircuitType::AddModGate(t) => match t.specialize(ctx, args) {
                Ok(c) => Ok(CircuitTypeConcrete::AddModGate(c)),
                Err(e) => Err(e),
            },
            CircuitType::Circuit(t) => match t.specialize(ctx, args) {
                Ok(c) => Ok(CircuitTypeConcrete::Circuit(c)),
                Err(e) => Err(e),
            },
            CircuitType::CircuitData(t) => match t.specialize(ctx, args) {
                Ok(c) => Ok(CircuitTypeConcrete::CircuitData(c)),
                Err(e) => Err(e),
            },
            CircuitType::CircuitOutput(t) => match t.specialize(ctx, args) {
                Ok(c) => Ok(CircuitTypeConcrete::CircuitOutput(c)),
                Err(e) => Err(e),
            },
            CircuitType::CircuitDescriptor(t) => match t.specialize(ctx, args) {
                Ok(c) => Ok(CircuitTypeConcrete::CircuitDescriptor(c)),
                Err(e) => Err(e),
            },
            CircuitType::CircuitInput(t) => match t.specialize(ctx, args) {
                Ok(c) => Ok(CircuitTypeConcrete::CircuitInput(c)),
                Err(e) => Err(e),
            },
            CircuitType::CircuitInputAccumulator(t) => match t.specialize(ctx, args) {
                Ok(c) => Ok(CircuitTypeConcrete::CircuitInputAccumulator(c)),
                Err(e) => Err(e),
            },
        }
    }
}

// ---------------------------------------------------------------------------------------------
// Libfuncs.
// ---------------------------------------------------------------------------------------------

/// The circuit libfuncs.
pub enum CircuitLibFunc {
    FillInput(FillCircuitInputLibFuncWrapped),
    GetDescriptor(GetCircuitDescriptorLibFuncWrapped),
    InitCircuitData(InitCircuitDataLibFuncWrapped),
}

/// The circuit libfunc named `name`, if any.
pub open spec fn circuit_libfunc_named(name: Seq<char>) -> Option<CircuitLibFunc> {
    if name == "fill_circuit_input"@ {
        Some(CircuitLibFunc::FillInput(FillCircuitInputLibFuncWrapped {  }))
    } else if name == "get_circuit_descriptor"@ {
        Some(CircuitLibFunc::GetDescriptor(GetCircuitDescriptorLibFuncWrapped {  }))
    } else if name == "init_circuit_data"@ {
        Some(CircuitLibFunc::InitCircuitData(InitCircuitDataLibFuncWrapped {  }))
    } else {
        None
    }
}

/// The signature of the libfunc `l` specialized with `args`, or the error met.
pub open spec fn circuit_libfunc_spec<C: SignatureSpecializationContext + ?Sized>(
    ctx: &C,
    l: CircuitLibFunc,
    args: Seq<GenericArgModel>,
) -> Result<SignatureModel, ErrorModel> {
    match single_type_spec(args) {
        Err(e) => Err(e.deep_view()),
        Ok(ty) => match l {
            CircuitLibFunc::FillInput(_) => fill_circuit_input_spec(ctx, ty),
            CircuitLibFunc::GetDescriptor(_) => get_circuit_descriptor_spec(ctx, ty),
            CircuitLibFunc::InitCircuitData(_) => init_circuit_data_spec(ctx, ty),
        },
    }
}

/// A libfunc specialized with a single type: the type and the signature.
pub struct SignatureAndTypeConcreteLibfunc {
    pub ty: ConcreteTypeId,
    pub signature: LibfuncSignature,
}

/// The concrete circuit libfuncs.
pub enum CircuitConcreteLibfunc {
    FillInput(SignatureAndTypeConcreteLibfunc),
    GetDescriptor(SignatureAndTypeConcreteLibfunc),
    InitCircuitData(SignatureAndTypeConcreteLibfunc),
}

/// The specialization held by a concrete circuit libfunc.
pub open spec fn concrete_libfunc_parts(c: CircuitConcreteLibfunc) -> SignatureAndTypeConcreteLibfunc {
    match c {
        CircuitConcreteLibfunc::FillInput(p) => p,
        CircuitConcreteLibfunc::GetDescriptor(p) => p,
        CircuitConcreteLibfunc::InitCircuitData(p) => p,
    }
}

/// Whether the concrete libfunc `c` is a specialization of the generic libfunc `l`.
pub open spec fn same_libfunc(l: CircuitLibFunc, c: CircuitConcreteLibfunc) -> bool {
    match (l, c) {
        (CircuitLibFunc::FillInput(_), CircuitConcreteLibfunc::FillInput(_)) => true,
        (CircuitLibFunc::GetDescriptor(_), CircuitConcreteLibfunc::GetDescriptor(_)) => true,
        (CircuitLibFunc::InitCircuitData(_), CircuitConcreteLibfunc::InitCircuitData(_)) => true,
        _ => false,
    }
}

impl CircuitConcreteLibfunc {
    /// The signature of the concrete libfunc.
    pub fn signature(&self) -> (r: &LibfuncSignature)
        ensures
            *r == concrete_libfunc_parts(*self).signature,
    {
        match self {
            CircuitConcreteLibfunc::FillInput(p) => &p.signature,
            CircuitConcreteLibfunc::GetDescriptor(p) => &p.signature,
            CircuitConcreteLibfunc::InitCircuitData(p) => &p.signature,
        }
    }
}

impl CircuitLibFunc {
    /// The circuit libfunc with the id `id`, if any.
    pub fn by_id(id: &GenericLibfuncId) -> (r: Option<CircuitLibFunc>)
        ensures
            r == circuit_libfunc_named(id@),
    {
        if *id == GenericLibfuncId::new_inline(FillCircuitInputLibFuncWrapped::str_id()) {
            Some(CircuitLibFunc::FillInput(FillCircuitInputLibFuncWrapped {  }))
        } else if *id == GenericLibfuncId::new_inline(GetCircuitDescriptorLibFuncWrapped::str_id()) {
            Some(CircuitLibFunc::GetDescriptor(GetCircuitDescriptorLibFuncWrapped {  }))
        } else if *id == GenericLibfuncId::new_inline(InitCircuitDataLibFuncWrapped::str_id()) {
            Some(CircuitLibFunc::InitCircuitData(InitCircuitDataLibFuncWrapped {  }))
        } else {
            None
        }
    }

    /// The signature of the libfunc specialized with `args`: a single type, the circuit.
    pub fn specialize_signature<C: SignatureSpecializationContext + ?Sized>(
        &self,
        ctx: &C,
        args: &[GenericArg],
    ) -> (r: Result<LibfuncSignature, SpecializationError>)
        ensures
            match r {
                Ok(sig) => circuit_libfunc_spec(ctx, *self, args.deep_view()) == Ok::<
                    SignatureModel,
                    ErrorModel,
                >(sig.deep_view()),
                Err(e) => circuit_libfunc_spec(ctx, *self, args.deep_view()) == Err::<
                    SignatureModel,
                    ErrorModel,
                >(e.deep_view()),
            },
    {
        let ty = args_as_single_type(args)?;
        match self {
            CircuitLibFunc::FillInput(l) => l.specialize_signature(ctx, ty),
            CircuitLibFunc::GetDescriptor(l) => l.specialize_signature(ctx, ty),
            CircuitLibFunc::InitCircuitData(l) => l.specialize_signature(ctx, ty),
        }
    }

    /// Specializes the libfunc with `args`: a single type, the circuit.
    pub fn specialize<C: SignatureSpecializationContext + ?Sized>(
        &self,
        ctx: &C,
        args: &[GenericArg],
    ) -> (r: Result<CircuitConcreteLibfunc, SpecializationError>)
        ensures
            match r {
                Ok(c) => same_libfunc(*self, c) && single_type_spec(args.deep_view()) == Ok::<
                    ConcreteTypeId,
                    SpecializationError,
                >(concrete_libfunc_parts(c).ty) && circuit_libfunc_spec(ctx, *self, args.deep_view())
                    == Ok::<SignatureModel, ErrorModel>(
                    concrete_libfunc_parts(c).signature.deep_view(),
                ),
                Err(e) => circuit_libfunc_spec(ctx, *self, args.deep_view()) == Err::<
                    SignatureModel,
                    ErrorModel,
                >(e.deep_view()),
            },
    {
        let ty = args_as_single_type(args)?;
        let signature = self.specialize_signature(ctx, args)?;
        let parts = SignatureAndTypeConcreteLibfunc { ty, signature };
        match self {
            CircuitLibFunc::FillInput(_) => Ok(CircuitConcreteLibfunc::FillInput(parts)),
            CircuitLibFunc::GetDescriptor(_) => Ok(CircuitConcreteLibfunc::GetDescriptor(parts)),
            CircuitLibFunc::InitCircuitData(_) => Ok(CircuitConcreteLibfunc::InitCircuitData(parts)),
        }
    }
}


// ---------------------------------------------------------------------------------------------
// Laws of the hierarchies.
// ---------------------------------------------------------------------------------------------

/// A circuit type found by its name specializes to a type of that name, with the generic
/// arguments it was given.
pub proof fn law_type_keeps_its_name<C: TypeSpecializationContext + ?Sized>(
    ctx: &C,
    name: Seq<char>,
    args: Seq<GenericArgModel>,
)
    requires
        circuit_type_named(name) is Some,
        circuit_type_spec(ctx, circuit_type_named(name)->Some_0, args) is Ok,
    ensures
        circuit_type_spec(ctx, circuit_type_named(name)->Some_0, args)->Ok_0.long_id.generic_id
            == name,
        circuit_type_spec(ctx, circuit_type_named(name)->Some_0, args)->Ok_0.long_id.generic_args
            == args,
{
}

/// What specializing each circuit type gives and checks: the builtins take no argument, are
/// storable and neither droppable nor duplicatable; an input takes an index that is a `usize`;
/// a gate takes two circuit inputs or gates; the types built on a circuit take a circuit, are
/// storable and droppable, and the descriptor (like the circuit) is duplicatable too; no circuit
/// type is zero sized.
pub proof fn law_type_specialization<C: TypeSpecializationContext + ?Sized>(
    ctx: &C,
    t: CircuitType,
    args: Seq<GenericArgModel>,
)
    ensures
        ({
            let r = circuit_type_spec(ctx, t, args);
            let info = r->Ok_0;
            let is_circuit_arg = args.len() == 1 && args[0] is Type && ctx.type_info_of(
                args[0]->Type_0,
            ) is Some && ctx.type_info_of(args[0]->Type_0)->Some_0.long_id.generic_id
                == circuit_name();
            let is_component = |a: GenericArgModel|
                a is Type && ctx.type_info_of(a->Type_0) is Some && (ctx.type_info_of(
                    a->Type_0,
                )->Some_0.long_id.generic_id == circuit_input_name() || ctx.type_info_of(
                    a->Type_0,
                )->Some_0.long_id.generic_id == add_mod_gate_name());
            &&& r is Ok ==> !info.zero_sized
            &&& match t {
                CircuitType::AddMod(_) | CircuitType::MulMod(_) => {
                    &&& r is Ok <==> args.len() == 0
                    &&& r is Ok ==> info.storable && !info.droppable && !info.duplicatable
                },
                CircuitType::CircuitInput(_) => {
                    &&& r is Ok <==> (args.len() == 1 && args[0] is Value && 0 <= args[0]->Value_0
                        <= usize::MAX)
                    &&& r is Ok ==> !info.storable && !info.droppable && !info.duplicatable
                },
                CircuitType::AddModGate(_) => {
                    &&& r is Ok <==> (args.len() == 2 && is_component(args[0]) && is_component(
                        args[1],
                    ))
                    &&& r is Ok ==> !info.storable && !info.droppable && !info.duplicatable
                },
                CircuitType::CircuitData(_) | CircuitType::CircuitOutput(
                    _,
                ) | CircuitType::CircuitInputAccumulator(_) => {
                    &&& r is Ok <==> is_circuit_arg
                    &&& r is Ok ==> info.storable && info.droppable && !info.duplicatable
                },
                CircuitType::CircuitDescriptor(_) => {
                    &&& r is Ok <==> is_circuit_arg
                    &&& r is Ok ==> info.storable && info.droppable && info.duplicatable
                },
                CircuitType::Circuit(_) => {
                    &&& r is Ok <==> concrete_circuit_spec(ctx, args) is Ok
                    &&& r is Ok ==> info.storable && info.droppable && info.duplicatable
                },
            }
        }),
{
    reveal_with_fuel(crate::circuit::components_spec, 3);
    if args.len() == 2 {
        assert(args.drop_first()[0] == args[1]);
        assert(args.drop_first().drop_first().len() == 0);
    }
}

/// A concrete circuit type is of the kind of the generic type it specializes.
pub proof fn law_same_kind_is_same_variant(t: CircuitType, c: CircuitTypeConcrete)
    requires
        same_kind(t, c),
    ensures
        t is AddMod <==> c is AddMod,
        t is MulMod <==> c is MulMod,
        t is AddModGate <==> c is AddModGate,
        t is Circuit <==> c is Circuit,
        t is CircuitData <==> c is CircuitData,
        t is CircuitOutput <==> c is CircuitOutput,
        t is CircuitDescriptor <==> c is CircuitDescriptor,
        t is CircuitInput <==> c is CircuitInput,
        t is CircuitInputAccumulator <==> c is CircuitInputAccumulator,
{
}

/// A concrete circuit libfunc is of the kind of the generic libfunc it specializes.
pub proof fn law_same_libfunc_is_same_variant(l: CircuitLibFunc, c: CircuitConcreteLibfunc)
    requires
        same_libfunc(l, c),
    ensures
        l is FillInput <==> c is FillInput,
        l is GetDescriptor <==> c is GetDescriptor,
        l is InitCircuitData <==> c is InitCircuitData,
{
}

/// A circuit libfunc found by its name, specialized with a single type, has the signature of
/// the libfunc of that name for that type.
pub proof fn law_libfunc_signature_by_name<C: SignatureSpecializationContext + ?Sized>(
    ctx: &C,
    name: Seq<char>,
    ty: ConcreteTypeId,
)
    requires
        circuit_libfunc_named(name) is Some,
    ensures
        ({
            let r = circuit_libfunc_spec(
                ctx,
                circuit_libfunc_named(name)->Some_0,
                seq![GenericArgModel::Type(ty)],
            );
            &&& name == "fill_circuit_input"@ ==> r == fill_circuit_input_spec(ctx, ty)
            &&& name == "get_circuit_descriptor"@ ==> r == get_circuit_descriptor_spec(ctx, ty)
            &&& name == "init_circuit_data"@ ==> r == init_circuit_data_spec(ctx, ty)
        }),
{
    reveal_strlit("fill_circuit_input");
    reveal_strlit("get_circuit_descriptor");
    reveal_strlit("init_circuit_data");
    assert("fill_circuit_input"@ != "get_circuit_descriptor"@) by {
        assert("fill_circuit_input"@[0] != "get_circuit_descriptor"@[0]);
    }
    assert("fill_circuit_input"@ != "init_circuit_data"@) by {
        assert("fill_circuit_input"@[0] != "init_circuit_data"@[0]);
    }
    assert("get_circuit_descriptor"@ != "init_circuit_data"@) by {
        assert("get_circuit_descriptor"@[0] != "init_circuit_data"@[0]);
    }
    let args = seq![GenericArgModel::Type(ty)];
    assert(args.len() == 1 && args[0] == GenericArgModel::Type(ty));
    assert(single_type_spec(args) == Ok::<ConcreteTypeId, SpecializationError>(ty));
}

/// The shape of the signature of each circuit libfunc specialized with the circuit `ty`:
/// `fill_circuit_input` takes the accumulator and the four limbs, and either gives the
/// accumulator back (falling through) or the data of the circuit; `init_circuit_data` takes the
/// 96-bit range check (which may be added a constant) and gives it back with the accumulator;
/// `get_circuit_descriptor` takes nothing and gives the descriptor in a new temporary.
pub proof fn law_libfunc_signature_shape<C: SignatureSpecializationContext + ?Sized>(
    ctx: &C,
    l: CircuitLibFunc,
    args: Seq<GenericArgModel>,
)
    requires
        circuit_libfunc_spec(ctx, l, args) is Ok,
    ensures
        ({
            let sig = circuit_libfunc_spec(ctx, l, args)->Ok_0;
            let ty = args[0]->Type_0;
            let circuit_arg = seq![GenericArgModel::Type(ty)];
            &&& args.len() == 1 && args[0] is Type
            &&& match l {
                CircuitLibFunc::FillInput(_) => {
                    &&& sig.params.len() == 2
                    &&& sig.branches.len() == 2
                    &&& sig.fallthrough == Some(0usize)
                    &&& ctx.concrete_type_of(circuit_input_accumulator_name(), circuit_arg)
                        == Some(sig.params[0].ty)
                    &&& ctx.concrete_type_of(
                        bounded_int_name(),
                        u96_args(),
                    ) is Some
                    &&& ctx.concrete_type_of(
                        struct_type_name(),
                        limbs_args(ctx.concrete_type_of(bounded_int_name(), u96_args())->Some_0),
                    ) == Some(sig.params[1].ty)
                    &&& sig.branches[0].vars.len() == 1
                    &&& sig.branches[0].vars[0].ty == sig.params[0].ty
                    &&& sig.branches[0].vars[0].ref_info == OutputVarReferenceInfo::SimpleDerefs
                    &&& sig.branches[1].vars.len() == 1
                    &&& ctx.concrete_type_of(circuit_data_name(), circuit_arg) == Some(
                        sig.branches[1].vars[0].ty,
                    )
                    &&& sig.branches[1].vars[0].ref_info == OutputVarReferenceInfo::SimpleDerefs
                    &&& sig.branches[0].ap_change == SierraApChange::Known { new_vars_only: false }
                    &&& sig.branches[1].ap_change == SierraApChange::Known { new_vars_only: false }
                },
                CircuitLibFunc::InitCircuitData(_) => {
                    &&& sig.params.len() == 1
                    &&& ctx.concrete_type_of(range_check96_name(), Seq::empty()) == Some(
                        sig.params[0].ty,
                    )
                    &&& sig.params[0].allow_add_const
                    &&& sig.branches.len() == 1
                    &&& sig.fallthrough == Some(0usize)
                    &&& sig.branches[0].vars.len() == 2
                    &&& sig.branches[0].vars[0].ty == sig.params[0].ty
                    &&& ctx.concrete_type_of(circuit_input_accumulator_name(), circuit_arg)
                        == Some(sig.branches[0].vars[1].ty)
                    &&& sig.branches[0].ap_change == SierraApChange::Known { new_vars_only: true }
                },
                CircuitLibFunc::GetDescriptor(_) => {
                    &&& sig.params.len() == 0
                    &&& sig.branches.len() == 1
                    &&& sig.fallthrough == Some(0usize)
                    &&& sig.branches[0].vars.len() == 1
                    &&& ctx.concrete_type_of(circuit_descriptor_name(), circuit_arg) == Some(
                        sig.branches[0].vars[0].ty,
                    )
                    &&& sig.branches[0].vars[0].ref_info == OutputVarReferenceInfo::NewTempVar {
                        idx: 0,
                    }
                    &&& sig.branches[0].ap_change == SierraApChange::Known { new_vars_only: false }
                },
            }
        }),
{
    assert(single_type_spec(args) is Ok);
    assert(seq![GenericArgModel::Type(args[0]->Type_0)] =~= args);
}

} // verus!
