//! Type information, specialization errors and the context that specialization reads.
use vstd::prelude::*;

use crate::ids::{BigIntValue, ConcreteTypeId, GenericArg, GenericArgModel, GenericTypeId};

verus! {

/// The long id of a concrete type: its generic type and the generic arguments it was
/// specialized with.
#[derive(Clone, Debug, PartialEq, Eq)]
pub struct ConcreteTypeLongId {
    pub generic_id: GenericTypeId,
    pub generic_args: Vec<GenericArg>,
}

/// The mathematical model of a long id.
pub struct LongIdModel {
    pub generic_id: Seq<char>,
    pub generic_args: Seq<GenericArgModel>,
}

impl DeepView for ConcreteTypeLongId {
    type V = LongIdModel;

    open spec fn deep_view(&self) -> LongIdModel {
        LongIdModel { generic_id: self.generic_id@, generic_args: self.generic_args.deep_view() }
    }
}

/// Information on a concrete type.
#[derive(Clone, Debug, PartialEq, Eq)]
pub struct TypeInfo {
    pub long_id: ConcreteTypeLongId,
    pub storable: bool,
    pub droppable: bool,
    pub duplicatable: bool,
    pub zero_sized: bool,
}

/// The mathematical model of the information on a concrete type.
pub struct TypeInfoModel {
    pub long_id: LongIdModel,
    pub storable: bool,
    pub droppable: bool,
    pub duplicatable: bool,
    pub zero_sized: bool,
}

impl DeepView for TypeInfo {
    type V = TypeInfoModel;

    open spec fn deep_view(&self) -> TypeInfoModel {
        TypeInfoModel {
            long_id: self.long_id.deep_view(),
            storable: self.storable,
            droppable: self.droppable,
            duplicatable: self.duplicatable,
            zero_sized: self.zero_sized,
        }
    }
}

/// The model of the information of a type with the given generic id and arguments and the
/// given flags, in the order `duplicatable`, `droppable`, `storable`, `zero_sized`.
pub open spec fn info_model(
    generic_id: Seq<char>,
    generic_args: Seq<GenericArgModel>,
    duplicatable: bool,
    droppable: bool,
    storable: bool,
    zero_sized: bool,
) -> TypeInfoModel {
    TypeInfoModel {
        long_id: LongIdModel { generic_id, generic_args },
        storable,
        droppable,
        duplicatable,
        zero_sized,
    }
}

/// Errors of type and libfunc specialization.
#[derive(Clone, Debug, PartialEq, Eq)]
pub enum SpecializationError {
    UnsupportedGenericArg,
    WrongNumberOfGenericArgs,
    MissingTypeInfo(ConcreteTypeId),
    TypeWasNotDeclared(GenericTypeId, Vec<GenericArg>),
}

/// The mathematical model of a specialization error.
pub enum ErrorModel {
    UnsupportedGenericArg,
    WrongNumberOfGenericArgs,
    MissingTypeInfo(ConcreteTypeId),
    TypeWasNotDeclared(Seq<char>, Seq<GenericArgModel>),
}

impl DeepView for SpecializationError {
    type V = ErrorModel;

    open spec fn deep_view(&self) -> ErrorModel {
        match self {
            SpecializationError::UnsupportedGenericArg => ErrorModel::UnsupportedGenericArg,
            SpecializationError::WrongNumberOfGenericArgs => ErrorModel::WrongNumberOfGenericArgs,
            SpecializationError::MissingTypeInfo(t) => ErrorModel::MissingTypeInfo(*t),
            SpecializationError::TypeWasNotDeclared(g, a) => ErrorModel::TypeWasNotDeclared(
                g@,
                a.deep_view(),
            ),
        }
    }
}

/// What type specialization reads: the information of the types already declared.
pub trait TypeSpecializationContext {
    /// The information of the type `id`, if it is known.
    spec fn type_info_of(&self, id: ConcreteTypeId) -> Option<TypeInfoModel>;

    /// Returns the information of the type `id`, if it is known.
    fn try_get_type_info(&self, id: ConcreteTypeId) -> (r: Option<TypeInfo>)
        ensures
            match r {
                Some(info) => self.type_info_of(id) == Some(info.deep_view()),
                None => self.type_info_of(id) is None,
            },
    ;

    /// Returns the information of the type `id`, or `MissingTypeInfo(id)`.
    fn get_type_info(&self, id: ConcreteTypeId) -> (r: Result<TypeInfo, SpecializationError>)
        ensures
            match r {
                Ok(info) => self.type_info_of(id) == Some(info.deep_view()),
                Err(e) => self.type_info_of(id) is None && e == SpecializationError::MissingTypeInfo(
                    id,
                ),
            },
    {
        match self.try_get_type_info(id) {
            Some(info) => Ok(info),
            None => Err(SpecializationError::MissingTypeInfo(id)),
        }
    }
}

/// The single type argument of `args`, or the error that `args_as_single_type` returns.
pub open spec fn single_type_spec(args: Seq<GenericArgModel>) -> Result<
    ConcreteTypeId,
    SpecializationError,
> {
    if args.len() != 1 {
        Err(SpecializationError::WrongNumberOfGenericArgs)
    } else {
        match args[0] {
            GenericArgModel::Type(ty) => Ok(ty),
            _ => Err(SpecializationError::UnsupportedGenericArg),
        }
    }
}

/// Returns the single argument of `args` if it is a type.
pub fn args_as_single_type(args: &[GenericArg]) -> (r: Result<ConcreteTypeId, SpecializationError>)
    ensures
        r == single_type_spec(args.deep_view()),
{
    if args.len() != 1 {
        return Err(SpecializationError::WrongNumberOfGenericArgs);
    }
    match &args[0] {
        GenericArg::Type(ty) => Ok(*ty),
        _ => Err(SpecializationError::UnsupportedGenericArg),
    }
}

/// Returns the single argument of `args` if it is a value.
pub fn args_as_single_value(args: &[GenericArg]) -> (r: Result<BigIntValue, SpecializationError>)
    ensures
        match r {
            Ok(v) => args.deep_view().len() == 1 && args.deep_view()[0] == GenericArgModel::Value(
                v@,
            ),
            Err(e) => if args.deep_view().len() != 1 {
                e == SpecializationError::WrongNumberOfGenericArgs
            } else {
                !(args.deep_view()[0] is Value) && e == SpecializationError::UnsupportedGenericArg
            },
        },
{
    if args.len() != 1 {
        return Err(SpecializationError::WrongNumberOfGenericArgs);
    }
    match &args[0] {
        GenericArg::Value(v) => Ok(v.duplicate()),
        _ => Err(SpecializationError::UnsupportedGenericArg),
    }
}

/// The name of the generic type of structs.
pub open spec fn struct_type_name() -> Seq<char> {
    "Struct"@
}

/// Returns the id of the generic type of structs.
pub fn struct_type_id() -> (r: GenericTypeId)
    ensures
        r@ == struct_type_name(),
{
    GenericTypeId::new_inline("Struct")
}

/// The generic arguments of the struct type `ty`, or the error that `extract_type_generic_args`
/// returns for it.
pub open spec fn struct_args_spec<C: TypeSpecializationContext + ?Sized>(
    ctx: &C,
    ty: ConcreteTypeId,
) -> Result<Seq<GenericArgModel>, SpecializationError> {
    match ctx.type_info_of(ty) {
        None => Err(SpecializationError::MissingTypeInfo(ty)),
        Some(info) => if info.long_id.generic_id == struct_type_name() {
            Ok(info.long_id.generic_args)
        } else {
            Err(SpecializationError::UnsupportedGenericArg)
        },
    }
}

/// Returns the generic arguments of `ty` if it is a struct type.
pub fn extract_struct_generic_args<C: TypeSpecializationContext + ?Sized>(
    ctx: &C,
    ty: ConcreteTypeId,
) -> (r: Result<Vec<GenericArg>, SpecializationError>)
    ensures
        match r {
            Ok(args) => struct_args_spec(ctx, ty) == Ok::<Seq<GenericArgModel>, SpecializationError>(
                args.deep_view(),
            ),
            Err(e) => struct_args_spec(ctx, ty) == Err::<Seq<GenericArgModel>, SpecializationError>(
                e,
            ),
        },
{
    let info = ctx.get_type_info(ty)?;
    if info.long_id.generic_id != struct_type_id() {
        Err(SpecializationError::UnsupportedGenericArg)
    } else {
        Ok(info.long_id.generic_args)
    }
}

} // verus!
