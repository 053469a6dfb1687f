//! Identifiers and generic arguments of Sierra types, with their mathematical models.
use vstd::prelude::*;
use vstd::string::StringExecFns;
use num_bigint::{BigInt, Sign};
use num_traits::ToPrimitive;

verus! {

/// The id of a generic type, such as `CircuitInput` or `AddModGate`: its name.
#[derive(Clone, Debug, Eq, Hash)]
pub struct GenericTypeId(pub String);

impl View for GenericTypeId {
    type V = Seq<char>;

    open spec fn view(&self) -> Seq<char> {
        self.0@
    }
}

impl GenericTypeId {
    /// Creates a generic type id from its name.
    pub fn new_inline(name: &str) -> (r: GenericTypeId)
        ensures
            r@ == name@,
    {
        GenericTypeId(String::from_str(name))
    }

    /// A copy of this id.
    pub fn duplicate(&self) -> (r: GenericTypeId)
        ensures
            r@ == self@,
    {
        GenericTypeId(self.0.clone())
    }
}

impl PartialEq for GenericTypeId {
    fn eq(&self, other: &Self) -> (r: bool) {
        self.0 == other.0
    }
}

impl vstd::std_specs::cmp::PartialEqSpecImpl for GenericTypeId {
    open spec fn obeys_eq_spec() -> bool {
        true
    }

    open spec fn eq_spec(&self, other: &GenericTypeId) -> bool {
        self@ == other@
    }
}

/// The id of a generic libfunc, such as `fill_circuit_input`: its name.
#[derive(Clone, Debug, Eq, Hash)]
pub struct GenericLibfuncId(pub String);

impl View for GenericLibfuncId {
    type V = Seq<char>;

    open spec fn view(&self) -> Seq<char> {
        self.0@
    }
}

impl GenericLibfuncId {
    /// Creates a generic libfunc id from its name.
    pub fn new_inline(name: &str) -> (r: GenericLibfuncId)
        ensures
            r@ == name@,
    {
        GenericLibfuncId(String::from_str(name))
    }
}

impl PartialEq for GenericLibfuncId {
    fn eq(&self, other: &Self) -> (r: bool) {
        self.0 == other.0
    }
}

impl vstd::std_specs::cmp::PartialEqSpecImpl for GenericLibfuncId {
    open spec fn obeys_eq_spec() -> bool {
        true
    }

    open spec fn eq_spec(&self, other: &GenericLibfuncId) -> bool {
        self@ == other@
    }
}

/// The id of a user type (such as `Tuple`), identified by its name.
#[derive(Clone, Debug, Eq, Hash)]
pub struct UserTypeId(pub String);

impl View for UserTypeId {
    type V = Seq<char>;

    open spec fn view(&self) -> Seq<char> {
        self.0@
    }
}

impl UserTypeId {
    /// Creates a user type id from its name.
    pub fn from_string(name: &str) -> (r: UserTypeId)
        ensures
            r@ == name@,
    {
        UserTypeId(String::from_str(name))
    }

    /// A copy of this id.
    pub fn duplicate(&self) -> (r: UserTypeId)
        ensures
            r@ == self@,
    {
        UserTypeId(self.0.clone())
    }
}

impl PartialEq for UserTypeId {
    fn eq(&self, other: &Self) -> (r: bool) {
        self.0 == other.0
    }
}

impl vstd::std_specs::cmp::PartialEqSpecImpl for UserTypeId {
    open spec fn obeys_eq_spec() -> bool {
        true
    }

    open spec fn eq_spec(&self, other: &UserTypeId) -> bool {
        self@ == other@
    }
}

/// The id of a concrete type in a program.
#[derive(Clone, Copy, Debug, PartialEq, Eq, Structural, Hash)]
pub struct ConcreteTypeId {
    pub id: u64,
}

/// The id of a user function in a program.
#[derive(Clone, Copy, Debug, PartialEq, Eq, Structural, Hash)]
pub struct FunctionId {
    pub id: u64,
}

/// The id of a concrete libfunc in a program.
#[derive(Clone, Copy, Debug, PartialEq, Eq, Structural, Hash)]
pub struct ConcreteLibfuncId {
    pub id: u64,
}

/// The value of little-endian base 2^32 digits.
pub open spec fn digits_value(digits: Seq<u32>) -> int
    decreases digits.len(),
{
    if digits.len() == 0 {
        0
    } else {
        digits[0] + 0x1_0000_0000 * digits_value(digits.drop_first())
    }
}

/// An integer of any size: a sign and the little-endian base 2^32 digits of its magnitude.
#[derive(Clone, Debug, PartialEq, Eq, Hash)]
pub struct BigIntValue {
    pub negative: bool,
    pub digits: Vec<u32>,
}

impl View for BigIntValue {
    type V = int;

    open spec fn view(&self) -> int {
        if self.negative {
            -digits_value(self.digits@)
        } else {
            digits_value(self.digits@)
        }
    }
}

impl BigIntValue {
    /// The integer zero.
    pub fn zero() -> (r: BigIntValue)
        ensures
            r@ == 0,
    {
        BigIntValue { negative: false, digits: Vec::new() }
    }

    /// The value of a `u64`.
    pub fn from_u64(v: u64) -> (r: BigIntValue)
        ensures
            r@ == v,
            !r.negative,
    {
        let lo: u32 = (v % 0x1_0000_0000) as u32;
        let hi: u32 = (v / 0x1_0000_0000) as u32;
        let mut digits: Vec<u32> = Vec::new();
        digits.push(lo);
        digits.push(hi);
        proof {
            assert(digits@.drop_first().drop_first() =~= Seq::<u32>::empty());
            assert(digits_value(digits@.drop_first().drop_first()) == 0);
            assert(digits_value(digits@.drop_first()) == hi);
        }
        BigIntValue { negative: false, digits }
    }

    /// The value `-v` of a `u64` `v`.
    pub fn from_negated_u64(v: u64) -> (r: BigIntValue)
        ensures
            r@ == -v,
    {
        let mut r = BigIntValue::from_u64(v);
        r.negative = true;
        r
    }

    /// A copy of this value.
    pub fn duplicate(&self) -> (r: BigIntValue)
        ensures
            r@ == self@,
            r.digits@ == self.digits@,
            r.negative == self.negative,
    {
        let mut digits: Vec<u32> = Vec::new();
        let mut i: usize = 0;
        while i < self.digits.len()
            invariant
                i <= self.digits.len(),
                digits@ == self.digits@.subrange(0, i as int),
            decreases self.digits.len() - i,
        {
            digits.push(self.digits[i]);
            i = i + 1;
        }
        assert(digits@ == self.digits@);
        BigIntValue { negative: self.negative, digits }
    }
}

/// Calls `num_bigint::BigInt::from_slice` on the sign and digits of `v`, then
/// `num_traits::ToPrimitive::to_usize` on the result: the contract claims that the result is
/// `Some(x)` exactly when the value of `v` is a `usize` `x`, and `None` otherwise.
#[verifier::external_body]
pub(crate) fn big_int_to_usize(v: &BigIntValue) -> (r: Option<usize>)
    ensures
        r == (if 0 <= v@ <= usize::MAX {
            Some(v@ as usize)
        } else {
            None::<usize>
        }),
{
    let sign = match v.negative {
        true => Sign::Minus,
        false => Sign::Plus,
    };
    BigInt::from_slice(sign, &v.digits).to_usize()
}

/// A generic argument of a type or a libfunc.
#[derive(Clone, Debug, PartialEq, Eq, Hash)]
pub enum GenericArg {
    UserType(UserTypeId),
    Type(ConcreteTypeId),
    Value(BigIntValue),
    UserFunc(FunctionId),
    Libfunc(ConcreteLibfuncId),
}

/// The mathematical model of a generic argument.
pub enum GenericArgModel {
    UserType(Seq<char>),
    Type(ConcreteTypeId),
    Value(int),
    UserFunc(FunctionId),
    Libfunc(ConcreteLibfuncId),
}

impl DeepView for GenericArg {
    type V = GenericArgModel;

    open spec fn deep_view(&self) -> GenericArgModel {
        match self {
            GenericArg::UserType(u) => GenericArgModel::UserType(u@),
            GenericArg::Type(t) => GenericArgModel::Type(*t),
            GenericArg::Value(v) => GenericArgModel::Value(v@),
            GenericArg::UserFunc(f) => GenericArgModel::UserFunc(*f),
            GenericArg::Libfunc(l) => GenericArgModel::Libfunc(*l),
        }
    }
}

impl GenericArg {
    /// A copy of this argument.
    pub fn duplicate(&self) -> (r: GenericArg)
        ensures
            r.deep_view() == self.deep_view(),
    {
        match self {
            GenericArg::UserType(u) => GenericArg::UserType(u.duplicate()),
            GenericArg::Type(t) => GenericArg::Type(*t),
            GenericArg::Value(v) => GenericArg::Value(v.duplicate()),
            GenericArg::UserFunc(f) => GenericArg::UserFunc(*f),
            GenericArg::Libfunc(l) => GenericArg::Libfunc(*l),
        }
    }
}

/// A copy of a list of generic arguments.
pub fn copy_args(args: &[GenericArg]) -> (r: Vec<GenericArg>)
    ensures
        r.deep_view() == args.deep_view(),
{
    let mut r: Vec<GenericArg> = Vec::new();
    let mut i: usize = 0;
    while i < args.len()
        invariant
            i <= args.len(),
            r@.len() == i,
            forall|j: int| 0 <= j < i ==> r@[j].deep_view() == args@[j].deep_view(),
        decreases args.len() - i,
    {
        let a = args[i].duplicate();
        let ghost prev = r@;
        r.push(a);
        proof {
            assert(r@ == prev.push(a));
            assert(a.deep_view() == args@[i as int].deep_view());
            assert forall|j: int| 0 <= j <= i implies r@[j].deep_view() == args@[j].deep_view() by {
                if j < i {
                    assert(r@[j] == prev[j]);
                }
            }
        }
        i = i + 1;
    }
    assert(r.deep_view() =~= args.deep_view());
    r
}

} // verus!
