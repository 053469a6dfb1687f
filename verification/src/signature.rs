//! Libfunc signatures, and the signatures of the circuit libfuncs.
use vstd::prelude::*;

use crate::circuit::{
    circuit_data_name, circuit_descriptor_name, circuit_input_accumulator_name, tuple_name,
    CircuitData, CircuitDescriptor, CircuitInputAccumulator,
};
use crate::ids::{
    copy_args, BigIntValue, ConcreteTypeId, GenericArg, GenericArgModel, GenericTypeId, UserTypeId,
    digits_value,
};
use crate::types::{
    struct_type_id, struct_type_name, ErrorModel, SpecializationError, TypeSpecializationContext,
};

verus! {

/// The kind of a deferred output.
#[derive(Clone, Copy, Debug, PartialEq, Eq, Structural)]
pub enum DeferredOutputKind {
    /// The output is a constant.
    Const,
    /// The output is the addition of a constant to one of the parameters.
    AddConst { param_idx: usize },
    /// The output is not one of the above (e.g. plain addition).
    Generic,
}

/// How an output variable of a libfunc refers to memory.
#[derive(Clone, Copy, Debug, PartialEq, Eq, Structural)]
pub enum OutputVarReferenceInfo {
    /// The output value is exactly the same as one of the parameters.
    SameAsParam { param_idx: usize },
    /// The output value is a part of one of the parameters.
    PartialParam { param_idx: usize },
    /// The output was allocated as a temporary variable, at the given position in the newly
    /// allocated memory.
    NewTempVar { idx: usize },
    /// The output was allocated as a local variable.
    NewLocalVar,
    /// The output is the result of a computation that is deferred.
    Deferred(DeferredOutputKind),
    /// All the output cells are of the form `[ap/fp + const]`.
    SimpleDerefs,
    /// The output is of size 0.
    ZeroSized,
}

/// The change of the ap register made by a libfunc.
#[derive(Clone, Copy, Debug, PartialEq, Eq, Structural)]
pub enum SierraApChange {
    /// The change is not known at compile time.
    Unknown,
    /// The change is known at compile time; `new_vars_only` tells whether only the new output
    /// variables move it.
    Known { new_vars_only: bool },
    /// The libfunc is a branch alignment.
    BranchAlign,
}

/// The signature of a parameter of a libfunc.
#[derive(Clone, Copy, Debug, PartialEq, Eq, Structural)]
pub struct ParamSignature {
    pub ty: ConcreteTypeId,
    /// The parameter may be a deferred value.
    pub allow_deferred: bool,
    /// The parameter may be the addition of a constant to a value.
    pub allow_add_const: bool,
    /// The parameter may be a constant.
    pub allow_const: bool,
}

impl ParamSignature {
    /// A parameter of type `ty` that allows nothing else.
    pub fn new(ty: ConcreteTypeId) -> (r: ParamSignature)
        ensures
            r == (ParamSignature {
                ty,
                allow_deferred: false,
                allow_add_const: false,
                allow_const: false,
            }),
    {
        ParamSignature { ty, allow_deferred: false, allow_add_const: false, allow_const: false }
    }

    /// The same parameter, that also allows the addition of a constant.
    pub fn with_allow_add_const(self) -> (r: ParamSignature)
        ensures
            r == (ParamSignature { allow_add_const: true, ..self }),
    {
        ParamSignature { allow_add_const: true, ..self }
    }
}

/// An output variable of a libfunc.
#[derive(Clone, Copy, Debug, PartialEq, Eq, Structural)]
pub struct OutputVarInfo {
    pub ty: ConcreteTypeId,
    pub ref_info: OutputVarReferenceInfo,
}

/// The signature of a branch of a libfunc.
#[derive(Clone, Debug, PartialEq, Eq)]
pub struct BranchSignature {
    pub vars: Vec<OutputVarInfo>,
    pub ap_change: SierraApChange,
}

/// The signature of a libfunc.
#[derive(Clone, Debug, PartialEq, Eq)]
pub struct LibfuncSignature {
    pub param_signatures: Vec<ParamSignature>,
    pub branch_signatures: Vec<BranchSignature>,
    /// The index of the branch that falls through, if any.
    pub fallthrough: Option<usize>,
}

/// The mathematical model of a branch signature.
pub struct BranchModel {
    pub vars: Seq<OutputVarInfo>,
    pub ap_change: SierraApChange,
}

/// The mathematical model of a libfunc signature.
pub struct SignatureModel {
    pub params: Seq<ParamSignature>,
    pub branches: Seq<BranchModel>,
    pub fallthrough: Option<usize>,
}

impl DeepView for BranchSignature {
    type V = BranchModel;

    open spec fn deep_view(&self) -> BranchModel {
        BranchModel { vars: self.vars@, ap_change: self.ap_change }
    }
}

impl DeepView for LibfuncSignature {
    type V = SignatureModel;

    open spec fn deep_view(&self) -> SignatureModel {
        SignatureModel {
            params: self.param_signatures@,
            branches: self.branch_signatures.deep_view(),
            fallthrough: self.fallthrough,
        }
    }
}

/// The model of the signature of a libfunc with a single branch that falls through.
pub open spec fn non_branch_model(
    params: Seq<ParamSignature>,
    vars: Seq<OutputVarInfo>,
    ap_change: SierraApChange,
) -> SignatureModel {
    SignatureModel {
        params,
        branches: seq![BranchModel { vars, ap_change }],
        fallthrough: Some(0),
    }
}

impl LibfuncSignature {
    /// The signature of a libfunc with a single branch, that falls through.
    pub fn new_non_branch_ex(
        param_signatures: Vec<ParamSignature>,
        output_info: Vec<OutputVarInfo>,
        ap_change: SierraApChange,
    ) -> (r: LibfuncSignature)
        ensures
            r.deep_view() == non_branch_model(param_signatures@, output_info@, ap_change),
    {
        let ghost vars = output_info@;
        let mut branch_signatures: Vec<BranchSignature> = Vec::new();
        branch_signatures.push(BranchSignature { vars: output_info, ap_change });
        let r = LibfuncSignature { param_signatures, branch_signatures, fallthrough: Some(0) };
        assert(r.branch_signatures.deep_view() =~= seq![BranchModel { vars, ap_change }]);
        r
    }

    /// The signature of a libfunc with a single branch, that falls through, whose parameters
    /// are of the types `input_types` and allow nothing else.
    pub fn new_non_branch(
        input_types: Vec<ConcreteTypeId>,
        output_info: Vec<OutputVarInfo>,
        ap_change: SierraApChange,
    ) -> (r: LibfuncSignature)
        ensures
            r.deep_view() == non_branch_model(
                input_types@.map_values(
                    |ty: ConcreteTypeId|
                        ParamSignature {
                            ty,
                            allow_deferred: false,
                            allow_add_const: false,
                            allow_const: false,
                        },
                ),
                output_info@,
                ap_change,
            ),
    {
        let mut params: Vec<ParamSignature> = Vec::new();
        let mut i: usize = 0;
        while i < input_types.len()
            invariant
                i <= input_types.len(),
                params@ =~= input_types@.subrange(0, i as int).map_values(
                    |ty: ConcreteTypeId|
                        ParamSignature {
                            ty,
                            allow_deferred: false,
                            allow_add_const: false,
                            allow_const: false,
                        },
                ),
            decreases input_types.len() - i,
        {
            params.push(ParamSignature::new(input_types[i]));
            i = i + 1;
        }
        assert(input_types@.subrange(0, input_types@.len() as int) =~= input_types@);
        LibfuncSignature::new_non_branch_ex(params, output_info, ap_change)
    }
}

/// What libfunc signature specialization reads: the types already declared, by long id.
pub trait SignatureSpecializationContext: TypeSpecializationContext {
    /// The concrete type of the generic type `id` with the arguments `args`, if declared.
    spec fn concrete_type_of(&self, id: Seq<char>, args: Seq<GenericArgModel>) -> Option<
        ConcreteTypeId,
    >;

    /// Returns the concrete type of the generic type `id` with the arguments `generic_args`.
    fn try_get_concrete_type(&self, id: GenericTypeId, generic_args: &[GenericArg]) -> (r: Option<
        ConcreteTypeId,
    >)
        ensures
            r == self.concrete_type_of(id@, generic_args.deep_view()),
    ;

    /// Returns the concrete type of the generic type `id` with the arguments `generic_args`, or
    /// the error that it was not declared.
    fn get_concrete_type(&self, id: GenericTypeId, generic_args: &[GenericArg]) -> (r: Result<
        ConcreteTypeId,
        SpecializationError,
    >)
        ensures
            match r {
                Ok(t) => self.concrete_type_of(id@, generic_args.deep_view()) == Some(t),
                Err(e) => self.concrete_type_of(id@, generic_args.deep_view()) is None
                    && e.deep_view() == ErrorModel::TypeWasNotDeclared(
                    id@,
                    generic_args.deep_view(),
                ),
            },
    {
        match self.try_get_concrete_type(id.duplicate(), generic_args) {
            Some(t) => Ok(t),
            None => Err(SpecializationError::TypeWasNotDeclared(id, copy_args(generic_args))),
        }
    }
}

/// The concrete type of `id` with `args`, or the error that it was not declared.
pub open spec fn declared_spec<C: SignatureSpecializationContext + ?Sized>(
    ctx: &C,
    id: Seq<char>,
    args: Seq<GenericArgModel>,
) -> Result<ConcreteTypeId, ErrorModel> {
    match ctx.concrete_type_of(id, args) {
        Some(t) => Ok(t),
        None => Err(ErrorModel::TypeWasNotDeclared(id, args)),
    }
}

/// The name of the generic type of bounded integers.
pub open spec fn bounded_int_name() -> Seq<char> {
    "BoundedInt"@
}

/// The name of the generic type of the 96-bit range check builtin.
pub open spec fn range_check96_name() -> Seq<char> {
    "RangeCheck96"@
}

/// Returns the concrete type of the integers between `min` and `max`.
pub fn bounded_int_ty<C: SignatureSpecializationContext + ?Sized>(
    ctx: &C,
    min: BigIntValue,
    max: BigIntValue,
) -> (r: Result<ConcreteTypeId, SpecializationError>)
    ensures
        match r {
            Ok(t) => declared_spec(
                ctx,
                bounded_int_name(),
                seq![GenericArgModel::Value(min@), GenericArgModel::Value(max@)],
            ) == Ok::<ConcreteTypeId, ErrorModel>(t),
            Err(e) => declared_spec(
                ctx,
                bounded_int_name(),
                seq![GenericArgModel::Value(min@), GenericArgModel::Value(max@)],
            ) == Err::<ConcreteTypeId, ErrorModel>(e.deep_view()),
        },
{
    let mut args: Vec<GenericArg> = Vec::new();
    args.push(GenericArg::Value(min));
    args.push(GenericArg::Value(max));
    assert(args.deep_view() =~= seq![GenericArgModel::Value(min@), GenericArgModel::Value(max@)]);
    ctx.get_concrete_type(GenericTypeId::new_inline("BoundedInt"), args.as_slice())
}

/// The largest 96-bit unsigned integer, `2^96 - 1`.
pub fn u96_max_value() -> (r: BigIntValue)
    ensures
        r@ == 0x1_0000_0000_0000_0000_0000_0000 - 1,
{
    let mut digits: Vec<u32> = Vec::new();
    digits.push(0xffff_ffff);
    digits.push(0xffff_ffff);
    digits.push(0xffff_ffff);
    proof {
        let d = digits@;
        assert(d.drop_first().drop_first().drop_first() =~= Seq::<u32>::empty());
        assert(digits_value(d.drop_first().drop_first().drop_first()) == 0);
        assert(d.drop_first().drop_first()[0] == 0xffff_ffff);
        assert(d.drop_first()[0] == 0xffff_ffff);
        assert(digits_value(d.drop_first().drop_first()) == 0xffff_ffff);
        assert(digits_value(d.drop_first()) == 0xffff_ffff + 0x1_0000_0000 * 0xffff_ffffint);
        assert(digits_value(d) == 0xffff_ffff + 0x1_0000_0000 * (0xffff_ffff + 0x1_0000_0000
            * 0xffff_ffffint));
    }
    BigIntValue { negative: false, digits }
}

/// Returns the id of the generic type of the 96-bit range check builtin.
pub fn range_check96_type_id() -> (r: GenericTypeId)
    ensures
        r@ == range_check96_name(),
{
    GenericTypeId::new_inline("RangeCheck96")
}

/// The single generic argument `Type(ty)`.
fn single_type_arg(ty: ConcreteTypeId) -> (r: Vec<GenericArg>)
    ensures
        r.deep_view() == seq![GenericArgModel::Type(ty)],
{
    let mut args: Vec<GenericArg> = Vec::new();
    args.push(GenericArg::Type(ty));
    assert(args.deep_view() =~= seq![GenericArgModel::Type(ty)]);
    args
}

// ---------------------------------------------------------------------------------------------
// init_circuit_data.
// ---------------------------------------------------------------------------------------------

/// The signature of `init_circuit_data` for the circuit `ty`, or the error met.
pub open spec fn init_circuit_data_spec<C: SignatureSpecializationContext + ?Sized>(
    ctx: &C,
    ty: ConcreteTypeId,
) -> Result<SignatureModel, ErrorModel> {
    match declared_spec(ctx, range_check96_name(), Seq::empty()) {
        Err(e) => Err(e),
        Ok(rc96) => match declared_spec(
            ctx,
            circuit_input_accumulator_name(),
            seq![GenericArgModel::Type(ty)],
        ) {
            Err(e) => Err(e),
            Ok(acc) => Ok(
                non_branch_model(
                    seq![
                        ParamSignature {
                            ty: rc96,
                            allow_deferred: false,
                            allow_add_const: true,
                            allow_const: false,
                        },
                    ],
                    seq![
                        OutputVarInfo {
                            ty: rc96,
                            ref_info: OutputVarReferenceInfo::Deferred(
                                DeferredOutputKind::AddConst { param_idx: 0 },
                            ),
                        },
                        OutputVarInfo {
                            ty: acc,
                            ref_info: OutputVarReferenceInfo::Deferred(DeferredOutputKind::Generic),
                        },
                    ],
                    SierraApChange::Known { new_vars_only: true },
                ),
            ),
        },
    }
}

/// Libfunc for initializing the input data for running an instance of the circuit.
#[derive(Default)]
pub struct InitCircuitDataLibFuncWrapped {}

impl InitCircuitDataLibFuncWrapped {
    /// The id of the libfunc.
    pub fn str_id() -> (r: &'static str)
        ensures
            r@ == "init_circuit_data"@,
    {
        "init_circuit_data"
    }

    /// The signature of the libfunc for the circuit `ty`.
    pub fn specialize_signature<C: SignatureSpecializationContext + ?Sized>(
        &self,
        ctx: &C,
        ty: ConcreteTypeId,
    ) -> (r: Result<LibfuncSignature, SpecializationError>)
        ensures
            match r {
                Ok(sig) => init_circuit_data_spec(ctx, ty) == Ok::<SignatureModel, ErrorModel>(
                    sig.deep_view(),
                ),
                Err(e) => init_circuit_data_spec(ctx, ty) == Err::<SignatureModel, ErrorModel>(
                    e.deep_view(),
                ),
            },
    {
        let no_args: Vec<GenericArg> = Vec::new();
        assert(no_args.deep_view() =~= Seq::<GenericArgModel>::empty());
        let range_check96_type = ctx.get_concrete_type(range_check96_type_id(), no_args.as_slice())?;
        let acc_args = single_type_arg(ty);
        let circuit_input_accumulator_ty = ctx.get_concrete_type(
            CircuitInputAccumulator::id(),
            acc_args.as_slice(),
        )?;
        let mut params: Vec<ParamSignature> = Vec::new();
        params.push(ParamSignature::new(range_check96_type).with_allow_add_const());
        let mut outputs: Vec<OutputVarInfo> = Vec::new();
        outputs.push(
            OutputVarInfo {
                ty: range_check96_type,
                ref_info: OutputVarReferenceInfo::Deferred(
                    DeferredOutputKind::AddConst { param_idx: 0 },
                ),
            },
        );
        outputs.push(
            OutputVarInfo {
                ty: circuit_input_accumulator_ty,
                ref_info: OutputVarReferenceInfo::Deferred(DeferredOutputKind::Generic),
            },
        );
        let sig = LibfuncSignature::new_non_branch_ex(
            params,
            outputs,
            SierraApChange::Known { new_vars_only: true },
        );
        proof {
            assert(sig.deep_view().params =~= seq![
                ParamSignature {
                    ty: range_check96_type,
                    allow_deferred: false,
                    allow_add_const: true,
                    allow_const: false,
                },
            ]);
            assert(sig.deep_view().branches[0].vars =~= seq![
                OutputVarInfo {
                    ty: range_check96_type,
                    ref_info: OutputVarReferenceInfo::Deferred(
                        DeferredOutputKind::AddConst { param_idx: 0 },
                    ),
                },
                OutputVarInfo {
                    ty: circuit_input_accumulator_ty,
                    ref_info: OutputVarReferenceInfo::Deferred(DeferredOutputKind::Generic),
                },
            ]);
        }
        Ok(sig)
    }
}

// ---------------------------------------------------------------------------------------------
// fill_circuit_input.
// ---------------------------------------------------------------------------------------------

/// The generic arguments of the type of the values of an input: a tuple of four 96-bit limbs.
pub open spec fn limbs_args(u96: ConcreteTypeId) -> Seq<GenericArgModel> {
    seq![
        GenericArgModel::UserType(tuple_name()),
        GenericArgModel::Type(u96),
        GenericArgModel::Type(u96),
        GenericArgModel::Type(u96),
        GenericArgModel::Type(u96),
    ]
}

/// The generic arguments of the type of 96-bit unsigned integers.
pub open spec fn u96_args() -> Seq<GenericArgModel> {
    seq![
        GenericArgModel::Value(0),
        GenericArgModel::Value(0x1_0000_0000_0000_0000_0000_0000 - 1),
    ]
}

/// The signature of `fill_circuit_input` for the circuit `ty`, or the error met.
pub open spec fn fill_circuit_input_spec<C: SignatureSpecializationContext + ?Sized>(
    ctx: &C,
    ty: ConcreteTypeId,
) -> Result<SignatureModel, ErrorModel> {
    match declared_spec(ctx, circuit_input_accumulator_name(), seq![GenericArgModel::Type(ty)]) {
        Err(e) => Err(e),
        Ok(acc) => match declared_spec(ctx, circuit_data_name(), seq![GenericArgModel::Type(ty)]) {
            Err(e) => Err(e),
            Ok(data) => match declared_spec(ctx, bounded_int_name(), u96_args()) {
                Err(e) => Err(e),
                Ok(u96) => match declared_spec(ctx, struct_type_name(), limbs_args(u96)) {
                    Err(e) => Err(e),
                    Ok(val) => Ok(
                        SignatureModel {
                            params: seq![
                                ParamSignature {
                                    ty: acc,
                                    allow_deferred: false,
                                    allow_add_const: false,
                                    allow_const: false,
                                },
                                ParamSignature {
                                    ty: val,
                                    allow_deferred: false,
                                    allow_add_const: false,
                                    allow_const: false,
                                },
                            ],
                            branches: seq![
                                BranchModel {
                                    vars: seq![
                                        OutputVarInfo {
                                            ty: acc,
                                            ref_info: OutputVarReferenceInfo::SimpleDerefs,
                                        },
                                    ],
                                    ap_change: SierraApChange::Known { new_vars_only: false },
                                },
                                BranchModel {
                                    vars: seq![
                                        OutputVarInfo {
                                            ty: data,
                                            ref_info: OutputVarReferenceInfo::SimpleDerefs,
                                        },
                                    ],
                                    ap_change: SierraApChange::Known { new_vars_only: false },
                                },
                            ],
                            fallthrough: Some(0),
                        },
                    ),
                },
            },
        },
    }
}

/// Libfunc for filling an input in the circuit instance's data.
#[derive(Default)]
pub struct FillCircuitInputLibFuncWrapped {}

impl FillCircuitInputLibFuncWrapped {
    /// The id of the libfunc.
    pub fn str_id() -> (r: &'static str)
        ensures
            r@ == "fill_circuit_input"@,
    {
        "fill_circuit_input"
    }

    /// The signature of the libfunc for the circuit `ty`: it takes the accumulator and the four
    /// limbs of an input, and either gives the accumulator back (more inputs to fill) or the
    /// data of the circuit (all inputs were filled).
    pub fn specialize_signature<C: SignatureSpecializationContext + ?Sized>(
        &self,
        ctx: &C,
        ty: ConcreteTypeId,
    ) -> (r: Result<LibfuncSignature, SpecializationError>)
        ensures
            match r {
                Ok(sig) => fill_circuit_input_spec(ctx, ty) == Ok::<SignatureModel, ErrorModel>(
                    sig.deep_view(),
                ),
                Err(e) => fill_circuit_input_spec(ctx, ty) == Err::<SignatureModel, ErrorModel>(
                    e.deep_view(),
                ),
            },
    {
        let acc_args = single_type_arg(ty);
        let circuit_input_accumulator_ty = ctx.get_concrete_type(
            CircuitInputAccumulator::id(),
            acc_args.as_slice(),
        )?;
        let data_args = single_type_arg(ty);
        let circuit_data_ty = ctx.get_concrete_type(CircuitData::id(), data_args.as_slice())?;
        let u96_ty = bounded_int_ty(ctx, BigIntValue::zero(), u96_max_value())?;
        let mut val_args: Vec<GenericArg> = Vec::new();
        val_args.push(GenericArg::UserType(UserTypeId::from_string("Tuple")));
        val_args.push(GenericArg::Type(u96_ty));
        val_args.push(GenericArg::Type(u96_ty));
        val_args.push(GenericArg::Type(u96_ty));
        val_args.push(GenericArg::Type(u96_ty));
        assert(val_args.deep_view() =~= limbs_args(u96_ty));
        let val_ty = ctx.get_concrete_type(struct_type_id(), val_args.as_slice())?;
        let mut params: Vec<ParamSignature> = Vec::new();
        params.push(ParamSignature::new(circuit_input_accumulator_ty));
        params.push(ParamSignature::new(val_ty));
        let mut more_vars: Vec<OutputVarInfo> = Vec::new();
        more_vars.push(
            OutputVarInfo {
                ty: circuit_input_accumulator_ty,
                ref_info: OutputVarReferenceInfo::SimpleDerefs,
            },
        );
        let mut done_vars: Vec<OutputVarInfo> = Vec::new();
        done_vars.push(
            OutputVarInfo { ty: circuit_data_ty, ref_info: OutputVarReferenceInfo::SimpleDerefs },
        );
        let mut branch_signatures: Vec<BranchSignature> = Vec::new();
        // More inputs to fill.
        branch_signatures.push(
            BranchSignature {
                vars: more_vars,
                ap_change: SierraApChange::Known { new_vars_only: false },
            },
        );
        // All inputs were filled.
        branch_signatures.push(
            BranchSignature {
                vars: done_vars,
                ap_change: SierraApChange::Known { new_vars_only: false },
            },
        );
        let sig = LibfuncSignature { param_signatures: params, branch_signatures, fallthrough: Some(0) };
        proof {
            assert(sig.deep_view().params =~= seq![
                ParamSignature {
                    ty: circuit_input_accumulator_ty,
                    allow_deferred: false,
                    allow_add_const: false,
                    allow_const: false,
                },
                ParamSignature {
                    ty: val_ty,
                    allow_deferred: false,
                    allow_add_const: false,
                    allow_const: false,
                },
            ]);
            assert(sig.deep_view().branches[0].vars =~= seq![
                OutputVarInfo {
                    ty: circuit_input_accumulator_ty,
                    ref_info: OutputVarReferenceInfo::SimpleDerefs,
                },
            ]);
            assert(sig.deep_view().branches[1].vars =~= seq![
                OutputVarInfo { ty: circuit_data_ty, ref_info: OutputVarReferenceInfo::SimpleDerefs },
            ]);
            assert(sig.deep_view().branches =~= seq![
                BranchModel {
                    vars: seq![
                        OutputVarInfo {
                            ty: circuit_input_accumulator_ty,
                            ref_info: OutputVarReferenceInfo::SimpleDerefs,
                        },
                    ],
                    ap_change: SierraApChange::Known { new_vars_only: false },
                },
                BranchModel {
                    vars: seq![
                        OutputVarInfo {
                            ty: circuit_data_ty,
                            ref_info: OutputVarReferenceInfo::SimpleDerefs,
                        },
                    ],
                    ap_change: SierraApChange::Known { new_vars_only: false },
                },
            ]);
        }
        Ok(sig)
    }
}

// ---------------------------------------------------------------------------------------------
// get_circuit_descriptor.
// ---------------------------------------------------------------------------------------------

/// The signature of `get_circuit_descriptor` for the circuit `ty`, or the error met.
pub open spec fn get_circuit_descriptor_spec<C: SignatureSpecializationContext + ?Sized>(
    ctx: &C,
    ty: ConcreteTypeId,
) -> Result<SignatureModel, ErrorModel> {
    match declared_spec(ctx, circuit_descriptor_name(), seq![GenericArgModel::Type(ty)]) {
        Err(e) => Err(e),
        Ok(desc) => Ok(
            non_branch_model(
                Seq::empty(),
                seq![OutputVarInfo { ty: desc, ref_info: OutputVarReferenceInfo::NewTempVar { idx: 0 } }],
                SierraApChange::Known { new_vars_only: false },
            ),
        ),
    }
}

/// A zero-input function that returns a handle to the offsets of a circuit.
#[derive(Default)]
pub struct GetCircuitDescriptorLibFuncWrapped {}

impl GetCircuitDescriptorLibFuncWrapped {
    /// The id of the libfunc.
    pub fn str_id() -> (r: &'static str)
        ensures
            r@ == "get_circuit_descriptor"@,
    {
        "get_circuit_descriptor"
    }

    /// The signature of the libfunc for the circuit `ty`.
    pub fn specialize_signature<C: SignatureSpecializationContext + ?Sized>(
        &self,
        ctx: &C,
        ty: ConcreteTypeId,
    ) -> (r: Result<LibfuncSignature, SpecializationError>)
        ensures
            match r {
                Ok(sig) => get_circuit_descriptor_spec(ctx, ty) == Ok::<SignatureModel, ErrorModel>(
                    sig.deep_view(),
                ),
                Err(e) => get_circuit_descriptor_spec(ctx, ty) == Err::<SignatureModel, ErrorModel>(
                    e.deep_view(),
                ),
            },
    {
        let desc_args = single_type_arg(ty);
        let circuit_descriptor_ty = ctx.get_concrete_type(
            CircuitDescriptor::id(),
            desc_args.as_slice(),
        )?;
        let mut outputs: Vec<OutputVarInfo> = Vec::new();
        outputs.push(
            OutputVarInfo {
                ty: circuit_descriptor_ty,
                ref_info: OutputVarReferenceInfo::NewTempVar { idx: 0 },
            },
        );
        let inputs: Vec<ConcreteTypeId> = Vec::new();
        let sig = LibfuncSignature::new_non_branch(
            inputs,
            outputs,
            SierraApChange::Known { new_vars_only: false },
        );
        proof {
            assert(inputs@.map_values(
                |ty: ConcreteTypeId|
                    ParamSignature {
                        ty,
                        allow_deferred: false,
                        allow_add_const: false,
                        allow_const: false,
                    },
            ) =~= Seq::<ParamSignature>::empty());
            assert(outputs@ =~= seq![
                OutputVarInfo {
                    ty: circuit_descriptor_ty,
                    ref_info: OutputVarReferenceInfo::NewTempVar { idx: 0 },
                },
            ]);
        }
        Ok(sig)
    }
}

} // verus!
