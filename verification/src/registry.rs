//! A registry of declared types: the contexts that specialization reads, in memory.
use vstd::prelude::*;

use crate::ids::{digits_value, BigIntValue, ConcreteTypeId, GenericArg, GenericArgModel, GenericTypeId};
use crate::signature::SignatureSpecializationContext;
use crate::types::{ConcreteTypeLongId, LongIdModel, TypeInfo, TypeInfoModel, TypeSpecializationContext};

verus! {

/// The `i`th digit of `d`, or 0 beyond its end.
pub open spec fn digit_at(d: Seq<u32>, i: int) -> int {
    if 0 <= i < d.len() {
        d[i] as int
    } else {
        0
    }
}

/// The digits of `d` but the first, if any.
pub open spec fn digits_tail(d: Seq<u32>) -> Seq<u32> {
    if d.len() == 0 {
        d
    } else {
        d.drop_first()
    }
}

proof fn lemma_digits_value_nonneg(d: Seq<u32>)
    ensures
        digits_value(d) >= 0,
    decreases d.len(),
{
    if d.len() > 0 {
        lemma_digits_value_nonneg(d.drop_first());
    }
}

/// Two digit sequences have the same value exactly when they have the same digits, where a
/// missing digit counts as 0.
proof fn lemma_digits_value_eq(a: Seq<u32>, b: Seq<u32>)
    ensures
        (digits_value(a) == digits_value(b)) <==> (forall|i: int| #![trigger digit_at(a, i)] #![trigger digit_at(b, i)] digit_at(a, i) == digit_at(b, i)),
    decreases a.len() + b.len(),
{
    let ta = digits_tail(a);
    let tb = digits_tail(b);
    assert(digits_value(a) == digit_at(a, 0) + 0x1_0000_0000 * digits_value(ta));
    assert(digits_value(b) == digit_at(b, 0) + 0x1_0000_0000 * digits_value(tb));
    assert forall|i: int| i >= 0 implies #[trigger] digit_at(ta, i) == digit_at(a, i + 1) by {}
    assert forall|i: int| i >= 0 implies #[trigger] digit_at(tb, i) == digit_at(b, i + 1) by {}
    if a.len() == 0 && b.len() == 0 {
        assert forall|i: int| #![trigger digit_at(a, i)] #![trigger digit_at(b, i)] digit_at(a, i) == digit_at(b, i) by {}
    } else {
        lemma_digits_value_eq(ta, tb);
        if digits_value(a) == digits_value(b) {
            let a0 = digit_at(a, 0);
            let b0 = digit_at(b, 0);
            let x = digits_value(ta);
            let y = digits_value(tb);
            assert(0 <= a0 < 0x1_0000_0000 && 0 <= b0 < 0x1_0000_0000);
            assert(a0 == b0 && x == y) by (nonlinear_arith)
                requires
                    a0 + 0x1_0000_0000 * x == b0 + 0x1_0000_0000 * y,
                    0 <= a0 < 0x1_0000_0000,
                    0 <= b0 < 0x1_0000_0000,
            ;
            assert forall|i: int| #![trigger digit_at(a, i)] #![trigger digit_at(b, i)] digit_at(a, i) == digit_at(b, i) by {
                if i > 0 {
                    assert(digit_at(ta, i - 1) == digit_at(tb, i - 1));
                }
            }
        }
        if forall|i: int| #![trigger digit_at(a, i)] #![trigger digit_at(b, i)] digit_at(a, i) == digit_at(b, i) {
            assert(digit_at(a, 0) == digit_at(b, 0));
            assert forall|i: int| #![trigger digit_at(ta, i)] #![trigger digit_at(tb, i)] digit_at(ta, i) == digit_at(tb, i) by {
                if i >= 0 {
                    assert(digit_at(a, i + 1) == digit_at(b, i + 1));
                }
            }
        }
    }
}

/// Whether the digits of `a` and `b` agree, a missing digit counting as 0.
fn digits_equal(a: &Vec<u32>, b: &Vec<u32>) -> (r: bool)
    ensures
        r == (digits_value(a@) == digits_value(b@)),
{
    proof {
        lemma_digits_value_eq(a@, b@);
    }
    let n: usize = if a.len() < b.len() {
        b.len()
    } else {
        a.len()
    };
    let mut i: usize = 0;
    while i < n
        invariant
            i <= n,
            n == a@.len() || n == b@.len(),
            a@.len() <= n && b@.len() <= n,
            forall|j: int| 0 <= j < i ==> digit_at(a@, j) == digit_at(b@, j),
        decreases n - i,
    {
        let x: u32 = if i < a.len() {
            a[i]
        } else {
            0
        };
        let y: u32 = if i < b.len() {
            b[i]
        } else {
            0
        };
        if x != y {
            proof {
                lemma_digits_value_eq(a@, b@);
                assert(digit_at(a@, i as int) != digit_at(b@, i as int));
            }
            return false;
        }
        i = i + 1;
    }
    assert forall|j: int| #![trigger digit_at(a@, j)] #![trigger digit_at(b@, j)] digit_at(a@, j) == digit_at(b@, j) by {
        if !(0 <= j < i) {
            assert(digit_at(a@, j) == 0 && digit_at(b@, j) == 0);
        }
    }
    true
}

impl BigIntValue {
    /// Whether two values are the same integer.
    pub fn value_eq(&self, other: &BigIntValue) -> (r: bool)
        ensures
            r == (self@ == other@),
    {
        proof {
            lemma_digits_value_nonneg(self.digits@);
            lemma_digits_value_nonneg(other.digits@);
        }
        let same_magnitude = digits_equal(&self.digits, &other.digits);
        if self.negative == other.negative {
            same_magnitude
        } else {
            let empty: Vec<u32> = Vec::new();
            proof {
                assert(digits_value(empty@) == 0);
            }
            same_magnitude && digits_equal(&self.digits, &empty)
        }
    }
}

/// Whether two generic arguments have the same model.
pub fn arg_eq(a: &GenericArg, b: &GenericArg) -> (r: bool)
    ensures
        r == (a.deep_view() == b.deep_view()),
{
    match (a, b) {
        (GenericArg::UserType(x), GenericArg::UserType(y)) => x.0 == y.0,
        (GenericArg::Type(x), GenericArg::Type(y)) => x.id == y.id,
        (GenericArg::Value(x), GenericArg::Value(y)) => x.value_eq(y),
        (GenericArg::UserFunc(x), GenericArg::UserFunc(y)) => x.id == y.id,
        (GenericArg::Libfunc(x), GenericArg::Libfunc(y)) => x.id == y.id,
        _ => false,
    }
}

/// Whether two lists of generic arguments have the same model.
pub fn args_eq(a: &[GenericArg], b: &[GenericArg]) -> (r: bool)
    ensures
        r == (a.deep_view() == b.deep_view()),
{
    if a.len() != b.len() {
        assert(a.deep_view().len() != b.deep_view().len());
        return false;
    }
    let mut i: usize = 0;
    while i < a.len()
        invariant
            i <= a.len(),
            a.len() == b.len(),
            forall|j: int| 0 <= j < i ==> a.deep_view()[j] == b.deep_view()[j],
        decreases a.len() - i,
    {
        if !arg_eq(&a[i], &b[i]) {
            assert(a.deep_view()[i as int] != b.deep_view()[i as int]);
            return false;
        }
        i = i + 1;
    }
    assert(a.deep_view() =~= b.deep_view());
    true
}

impl TypeInfo {
    /// A copy of this information.
    pub fn duplicate(&self) -> (r: TypeInfo)
        ensures
            r.deep_view() == self.deep_view(),
    {
        TypeInfo {
            long_id: ConcreteTypeLongId {
                generic_id: self.long_id.generic_id.duplicate(),
                generic_args: crate::ids::copy_args(self.long_id.generic_args.as_slice()),
            },
            storable: self.storable,
            droppable: self.droppable,
            duplicatable: self.duplicatable,
            zero_sized: self.zero_sized,
        }
    }
}

/// The information of the first declaration of `id` among `types`.
pub open spec fn lookup_info(types: Seq<(ConcreteTypeId, TypeInfo)>, id: ConcreteTypeId) -> Option<
    TypeInfoModel,
>
    decreases types.len(),
{
    if types.len() == 0 {
        None
    } else if types[0].0 == id {
        Some(types[0].1.deep_view())
    } else {
        lookup_info(types.drop_first(), id)
    }
}

/// The first type declared among `types` with the generic type `id` and the arguments `args`.
pub open spec fn lookup_type(
    types: Seq<(ConcreteTypeId, TypeInfo)>,
    id: Seq<char>,
    args: Seq<GenericArgModel>,
) -> Option<ConcreteTypeId>
    decreases types.len(),
{
    if types.len() == 0 {
        None
    } else if types[0].1.deep_view().long_id == (LongIdModel { generic_id: id, generic_args: args }) {
        Some(types[0].0)
    } else {
        lookup_type(types.drop_first(), id, args)
    }
}

/// The declared types of a program, in the order of their declaration.
pub struct TypeRegistry {
    types: Vec<(ConcreteTypeId, TypeInfo)>,
}

impl View for TypeRegistry {
    type V = Seq<(ConcreteTypeId, TypeInfo)>;

    closed spec fn view(&self) -> Seq<(ConcreteTypeId, TypeInfo)> {
        self.types@
    }
}

impl TypeRegistry {
    /// A registry with no type.
    pub fn new() -> (r: TypeRegistry)
        ensures
            r@.len() == 0,
    {
        TypeRegistry { types: Vec::new() }
    }

    /// Declares the type `id` with the information `info`.
    pub fn declare(&mut self, id: ConcreteTypeId, info: TypeInfo)
        ensures
            final(self)@ == old(self)@.push((id, info)),
    {
        self.types.push((id, info));
    }
}

impl TypeSpecializationContext for TypeRegistry {
    open spec fn type_info_of(&self, id: ConcreteTypeId) -> Option<TypeInfoModel> {
        lookup_info(self@, id)
    }

    fn try_get_type_info(&self, id: ConcreteTypeId) -> (r: Option<TypeInfo>) {
        let mut i: usize = 0;
        assert(self.types@.subrange(0, self.types@.len() as int) =~= self.types@);
        while i < self.types.len()
            invariant
                i <= self.types@.len(),
                lookup_info(self.types@, id) == lookup_info(self.types@.subrange(i as int, self.types@.len() as int), id),
            decreases self.types.len() - i,
        {
            let ghost rest = self.types@.subrange(i as int, self.types@.len() as int);
            assert(rest.drop_first() =~= self.types@.subrange(i + 1, self.types@.len() as int));
            if self.types[i].0.id == id.id {
                return Some(self.types[i].1.duplicate());
            }
            i = i + 1;
        }
        None
    }
}

impl SignatureSpecializationContext for TypeRegistry {
    open spec fn concrete_type_of(&self, id: Seq<char>, args: Seq<GenericArgModel>) -> Option<
        ConcreteTypeId,
    > {
        lookup_type(self@, id, args)
    }

    fn try_get_concrete_type(&self, id: GenericTypeId, generic_args: &[GenericArg]) -> (r: Option<
        ConcreteTypeId,
    >) {
        let mut i: usize = 0;
        assert(self.types@.subrange(0, self.types@.len() as int) =~= self.types@);
        while i < self.types.len()
            invariant
                i <= self.types@.len(),
                lookup_type(self.types@, id@, generic_args.deep_view()) == lookup_type(
                    self.types@.subrange(i as int, self.types@.len() as int),
                    id@,
                    generic_args.deep_view(),
                ),
            decreases self.types.len() - i,
        {
            let ghost rest = self.types@.subrange(i as int, self.types@.len() as int);
            assert(rest.drop_first() =~= self.types@.subrange(i + 1, self.types@.len() as int));
            let entry = &self.types[i];
            let entry_args = entry.1.long_id.generic_args.as_slice();
            assert(entry_args.deep_view() =~= entry.1.long_id.generic_args.deep_view());
            if entry.1.long_id.generic_id.0 == id.0 && args_eq(entry_args, generic_args) {
                return Some(entry.0);
            }
            i = i + 1;
        }
        None
    }
}

} // verus!
