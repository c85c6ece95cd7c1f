//! The built-in scalar functions.

use vstd::prelude::*;
use crate::data::{DataType, Datum, Session, Value};
use crate::functions::{
    Function, FunctionDefinition, FunctionSignature, FunctionType, ReturnTypeResolver,
};
use crate::functions::registry::Registry;

pub mod boolean;
pub mod casts;
pub mod maths;

verus! {

/// A built-in scalar function.
#[derive(Debug, PartialEq, Eq, Structural, Clone, Copy)]
pub enum ScalarFunction {
    And,
    Or,
    Not,
    Equal,
    NotEqual,
    Less,
    LessOrEqual,
    Greater,
    GreaterOrEqual,
    Between,
    IsTrue,
    IsFalse,
    IsNotTrue,
    IsNotFalse,
    IsNull,
    IsNotNull,
    ToBooleanFromBoolean,
    ToBooleanFromText,
    ToIntFromBoolean,
    ToIntFromInt,
    ToIntFromBigInt,
    ToIntFromDecimal,
    ToIntFromText,
    ToIntFromJson,
    ToBigIntFromInt,
    ToBigIntFromBigInt,
    ToBigIntFromText,
    ToDecimalFromInt,
    ToDecimalFromBigInt,
    ToDecimalFromDecimal,
    ToDecimalFromText,
    ToTextFromText,
    AddInteger,
    AddBigint,
    AddDecimal,
    MultiplyInteger,
    MultiplyBigint,
    MultiplyDecimal,
}

impl Function for ScalarFunction {
    open spec fn spec_execute(&self, ret: DataType, args: Seq<Value>) -> Value {
        match self {
            ScalarFunction::And => (boolean::logic::And {  }).spec_execute(ret, args),
            ScalarFunction::Or => (boolean::logic::Or {  }).spec_execute(ret, args),
            ScalarFunction::Not => (boolean::logic::Not {  }).spec_execute(ret, args),
            ScalarFunction::Equal => (boolean::comparisons::Equal {  }).spec_execute(ret, args),
            ScalarFunction::NotEqual => (boolean::ne::NE {  }).spec_execute(ret, args),
            ScalarFunction::Less => (boolean::comparisons::Less {  }).spec_execute(ret, args),
            ScalarFunction::LessOrEqual => (boolean::comparisons::LessOrEqual {  }).spec_execute(
                ret,
                args,
            ),
            ScalarFunction::Greater => (boolean::comparisons::Greater {  }).spec_execute(ret, args),
            ScalarFunction::GreaterOrEqual => (
            boolean::comparisons::GreaterOrEqual {  }).spec_execute(ret, args),
            ScalarFunction::Between => (boolean::between::Between {  }).spec_execute(ret, args),
            ScalarFunction::IsTrue => (boolean::is::IsTrue {  }).spec_execute(ret, args),
            ScalarFunction::IsFalse => (boolean::is::IsFalse {  }).spec_execute(ret, args),
            ScalarFunction::IsNotTrue => (boolean::is::IsNotTrue {  }).spec_execute(ret, args),
            ScalarFunction::IsNotFalse => (boolean::is::IsNotFalse {  }).spec_execute(ret, args),
            ScalarFunction::IsNull => (boolean::is::IsNull {  }).spec_execute(ret, args),
            ScalarFunction::IsNotNull => (boolean::is::IsNotNull {  }).spec_execute(ret, args),
            ScalarFunction::ToBooleanFromBoolean => (
            casts::to_bool::ToBooleanFromBoolean {  }).spec_execute(ret, args),
            ScalarFunction::ToBooleanFromText => (
            casts::to_bool::ToBooleanFromText {  }).spec_execute(ret, args),
            ScalarFunction::ToIntFromBoolean => (casts::to_int::ToIntFromBoolean {  }).spec_execute(
                ret,
                args,
            ),
            ScalarFunction::ToIntFromInt => (casts::to_int::ToIntFromInt {  }).spec_execute(
                ret,
                args,
            ),
            ScalarFunction::ToIntFromBigInt => (casts::to_int::ToIntFromBigInt {  }).spec_execute(
                ret,
                args,
            ),
            ScalarFunction::ToIntFromDecimal => (casts::to_int::ToIntFromDecimal {  }).spec_execute(
                ret,
                args,
            ),
            ScalarFunction::ToIntFromText => (casts::to_int::ToIntFromText {  }).spec_execute(
                ret,
                args,
            ),
            ScalarFunction::ToIntFromJson => (casts::to_int::ToIntFromJson {  }).spec_execute(
                ret,
                args,
            ),
            ScalarFunction::ToBigIntFromInt => (
            casts::to_bigint::ToBigIntFromInt {  }).spec_execute(ret, args),
            ScalarFunction::ToBigIntFromBigInt => (
            casts::to_bigint::ToBigIntFromBigInt {  }).spec_execute(ret, args),
            ScalarFunction::ToBigIntFromText => (
            casts::to_bigint::ToBigIntFromText {  }).spec_execute(ret, args),
            ScalarFunction::ToDecimalFromInt => (
            casts::to_decimal::ToDecimalFromInt {  }).spec_execute(ret, args),
            ScalarFunction::ToDecimalFromBigInt => (
            casts::to_decimal::ToDecimalFromBigInt {  }).spec_execute(ret, args),
            ScalarFunction::ToDecimalFromDecimal => (
            casts::to_decimal::ToDecimalFromDecimal {  }).spec_execute(ret, args),
            ScalarFunction::ToDecimalFromText => (
            casts::to_decimal::ToDecimalFromText {  }).spec_execute(ret, args),
            ScalarFunction::ToTextFromText => (casts::to_text::ToTextFromText {  }).spec_execute(
                ret,
                args,
            ),
            ScalarFunction::AddInteger => (maths::add::AddInteger {  }).spec_execute(ret, args),
            ScalarFunction::AddBigint => (maths::add::AddBigint {  }).spec_execute(ret, args),
            ScalarFunction::AddDecimal => (maths::add::AddDecimal {  }).spec_execute(ret, args),
            ScalarFunction::MultiplyInteger => (
            maths::multiply::MultiplyInteger {  }).spec_execute(ret, args),
            ScalarFunction::MultiplyBigint => (maths::multiply::MultiplyBigint {  }).spec_execute(
                ret,
                args,
            ),
            ScalarFunction::MultiplyDecimal => (
            maths::multiply::MultiplyDecimal {  }).spec_execute(ret, args),
        }
    }

    fn execute(&self, session: &Session, signature: &FunctionSignature, args: &[Datum]) -> (r:
        Datum<'static>)
    {
        match self {
            ScalarFunction::And => (boolean::logic::And {  }).execute(session, signature, args),
            ScalarFunction::Or => (boolean::logic::Or {  }).execute(session, signature, args),
            ScalarFunction::Not => (boolean::logic::Not {  }).execute(session, signature, args),
            ScalarFunction::Equal => (boolean::comparisons::Equal {  }).execute(
                session,
                signature,
                args,
            ),
            ScalarFunction::NotEqual => (boolean::ne::NE {  }).execute(session, signature, args),
            ScalarFunction::Less => (boolean::comparisons::Less {  }).execute(
                session,
                signature,
                args,
            ),
            ScalarFunction::LessOrEqual => (boolean::comparisons::LessOrEqual {  }).execute(
                session,
                signature,
                args,
            ),
            ScalarFunction::Greater => (boolean::comparisons::Greater {  }).execute(
                session,
                signature,
                args,
            ),
            ScalarFunction::GreaterOrEqual => (boolean::comparisons::GreaterOrEqual {  }).execute(
                session,
                signature,
                args,
            ),
            ScalarFunction::Between => (boolean::between::Between {  }).execute(
                session,
                signature,
                args,
            ),
            ScalarFunction::IsTrue => (boolean::is::IsTrue {  }).execute(session, signature, args),
            ScalarFunction::IsFalse => (boolean::is::IsFalse {  }).execute(
                session,
                signature,
                args,
            ),
            ScalarFunction::IsNotTrue => (boolean::is::IsNotTrue {  }).execute(
                session,
                signature,
                args,
            ),
            ScalarFunction::IsNotFalse => (boolean::is::IsNotFalse {  }).execute(
                session,
                signature,
                args,
            ),
            ScalarFunction::IsNull => (boolean::is::IsNull {  }).execute(session, signature, args),
            ScalarFunction::IsNotNull => (boolean::is::IsNotNull {  }).execute(
                session,
                signature,
                args,
            ),
            ScalarFunction::ToBooleanFromBoolean => (
            casts::to_bool::ToBooleanFromBoolean {  }).execute(session, signature, args),
            ScalarFunction::ToBooleanFromText => (casts::to_bool::ToBooleanFromText {  }).execute(
                session,
                signature,
                args,
            ),
            ScalarFunction::ToIntFromBoolean => (casts::to_int::ToIntFromBoolean {  }).execute(
                session,
                signature,
                args,
            ),
            ScalarFunction::ToIntFromInt => (casts::to_int::ToIntFromInt {  }).execute(
                session,
                signature,
                args,
            ),
            ScalarFunction::ToIntFromBigInt => (casts::to_int::ToIntFromBigInt {  }).execute(
                session,
                signature,
                args,
            ),
            ScalarFunction::ToIntFromDecimal => (casts::to_int::ToIntFromDecimal {  }).execute(
                session,
                signature,
                args,
            ),
            ScalarFunction::ToIntFromText => (casts::to_int::ToIntFromText {  }).execute(
                session,
                signature,
                args,
            ),
            ScalarFunction::ToIntFromJson => (casts::to_int::ToIntFromJson {  }).execute(
                session,
                signature,
                args,
            ),
            ScalarFunction::ToBigIntFromInt => (casts::to_bigint::ToBigIntFromInt {  }).execute(
                session,
                signature,
                args,
            ),
            ScalarFunction::ToBigIntFromBigInt => (
            casts::to_bigint::ToBigIntFromBigInt {  }).execute(session, signature, args),
            ScalarFunction::ToBigIntFromText => (casts::to_bigint::ToBigIntFromText {  }).execute(
                session,
                signature,
                args,
            ),
            ScalarFunction::ToDecimalFromInt => (casts::to_decimal::ToDecimalFromInt {  }).execute(
                session,
                signature,
                args,
            ),
            ScalarFunction::ToDecimalFromBigInt => (
            casts::to_decimal::ToDecimalFromBigInt {  }).execute(session, signature, args),
            ScalarFunction::ToDecimalFromDecimal => (
            casts::to_decimal::ToDecimalFromDecimal {  }).execute(session, signature, args),
            ScalarFunction::ToDecimalFromText => (
            casts::to_decimal::ToDecimalFromText {  }).execute(session, signature, args),
            ScalarFunction::ToTextFromText => (casts::to_text::ToTextFromText {  }).execute(
                session,
                signature,
                args,
            ),
            ScalarFunction::AddInteger => (maths::add::AddInteger {  }).execute(
                session,
                signature,
                args,
            ),
            ScalarFunction::AddBigint => (maths::add::AddBigint {  }).execute(
                session,
                signature,
                args,
            ),
            ScalarFunction::AddDecimal => (maths::add::AddDecimal {  }).execute(
                session,
                signature,
                args,
            ),
            ScalarFunction::MultiplyInteger => (maths::multiply::MultiplyInteger {  }).execute(
                session,
                signature,
                args,
            ),
            ScalarFunction::MultiplyBigint => (maths::multiply::MultiplyBigint {  }).execute(
                session,
                signature,
                args,
            ),
            ScalarFunction::MultiplyDecimal => (maths::multiply::MultiplyDecimal {  }).execute(
                session,
                signature,
                args,
            ),
        }
    }
}

/// What a definition says: its name, the types of its parameters, its
/// return type, the resolver of its return type where it has one, and
/// the function behind it.
pub struct DefinitionView {
    pub name: Seq<char>,
    pub args: Seq<DataType>,
    pub ret: DataType,
    pub resolver: Option<ReturnTypeResolver>,
    pub function: FunctionType,
}

/// What a definition says.
pub open spec fn definition_view(definition: FunctionDefinition) -> DefinitionView {
    DefinitionView {
        name: definition.signature.name@,
        args: definition.signature.args@,
        ret: definition.signature.ret,
        resolver: definition.custom_return_type_resolver,
        function: definition.function,
    }
}

/// The definition of a scalar function with a fixed return type.
pub open spec fn scalar_view(
    name: Seq<char>,
    args: Seq<DataType>,
    ret: DataType,
    function: ScalarFunction,
) -> DefinitionView {
    DefinitionView { name, args, ret, resolver: None, function: FunctionType::Scalar(function) }
}

/// The definition of a scalar function whose return type a resolver
/// computes from the types of the arguments.
pub open spec fn resolved_view(
    name: Seq<char>,
    args: Seq<DataType>,
    resolver: ReturnTypeResolver,
    function: ScalarFunction,
) -> DefinitionView {
    DefinitionView {
        name,
        args,
        ret: resolver.spec_resolve(args),
        resolver: Some(resolver),
        function: FunctionType::Scalar(function),
    }
}

/// The definitions of a scalar function that takes `arity` arguments of
/// one type, one definition for each of the given types, in their order.
pub open spec fn for_types(
    name: Seq<char>,
    types: Seq<DataType>,
    arity: nat,
    ret: DataType,
    function: ScalarFunction,
) -> Seq<DefinitionView> {
    Seq::new(
        types.len(),
        |i: int| scalar_view(name, Seq::new(arity, |k: int| types[i]), ret, function),
    )
}

/// Whether a registry holds what it held before, followed by the listed
/// definitions in their order, and nothing else.
pub open spec fn registered(
    before: Seq<FunctionDefinition>,
    after: Seq<FunctionDefinition>,
    list: Seq<DefinitionView>,
) -> bool {
    &&& after.len() == before.len() + list.len()
    &&& after.subrange(0, before.len() as int) == before
    &&& forall|i: int|
        0 <= i < list.len() ==> #[trigger] list[i] == definition_view(after[before.len() + i])
}

/// Registering one list and then another registers the first followed by
/// the second.
pub proof fn lemma_registered_twice(
    a: Seq<FunctionDefinition>,
    b: Seq<FunctionDefinition>,
    c: Seq<FunctionDefinition>,
    first: Seq<DefinitionView>,
    second: Seq<DefinitionView>,
)
    requires
        registered(a, b, first),
        registered(b, c, second),
    ensures
        registered(a, c, first + second),
{
    assert forall|i: int| 0 <= i < a.len() implies c[i] == a[i] by {
        assert(b.subrange(0, a.len() as int)[i] == b[i]);
        assert(c.subrange(0, b.len() as int)[i] == c[i]);
    }
    assert(c.subrange(0, a.len() as int) =~= a);
    let both = first + second;
    assert forall|i: int| 0 <= i < both.len() implies #[trigger] both[i] == definition_view(
        c[a.len() + i],
    ) by {
        if i < first.len() {
            assert(both[i] == first[i]);
            assert(c.subrange(0, b.len() as int)[a.len() + i] == c[a.len() + i]);
        } else {
            assert(both[i] == second[i - first.len()]);
        }
    }
}

/// Registers a scalar function once for each of the given types, taking
/// `arity` arguments of that type.
pub fn register_for_types(
    registry: &mut Registry,
    name: &'static str,
    types: &[DataType],
    arity: usize,
    ret: DataType,
    function: ScalarFunction,
)
    ensures
        registered(
            old(registry)@,
            final(registry)@,
            for_types(name@, types@, arity as nat, ret, function),
        ),
{
    let mut i: usize = 0;
    assert(registry@.subrange(0, registry@.len() as int) =~= registry@);
    while i < types.len()
        invariant
            i <= types@.len(),
            registered(
                old(registry)@,
                registry@,
                for_types(name@, types@.subrange(0, i as int), arity as nat, ret, function),
            ),
        decreases types@.len() - i,
    {
        let mut args: Vec<DataType> = Vec::new();
        let mut k: usize = 0;
        while k < arity
            invariant
                k <= arity,
                i < types@.len(),
                args@ == Seq::new(k as nat, |x: int| types@[i as int]),
            decreases arity - k,
        {
            args.push(types[i]);
            assert(args@ =~= Seq::new((k + 1) as nat, |x: int| types@[i as int]));
            k += 1;
        }
        let ghost before = registry@;
        register_scalar(registry, name, args, ret, function);
        proof {
            let done = for_types(name@, types@.subrange(0, i as int), arity as nat, ret, function);
            let next = for_types(name@, types@.subrange(0, i + 1), arity as nat, ret, function);
            lemma_registered_twice(
                old(registry)@,
                before,
                registry@,
                done,
                seq![scalar_view(name@, args@, ret, function)],
            );
            assert(Seq::new(arity as nat, |k: int| types@.subrange(0, i + 1)[i as int])
                =~= args@);
            assert(done + seq![scalar_view(name@, args@, ret, function)] =~= next) by {
                assert forall|j: int| 0 <= j < i implies done[j] == next[j] by {
                    assert(Seq::new(arity as nat, |k: int| types@.subrange(0, i as int)[j])
                        =~= Seq::new(arity as nat, |k: int| types@.subrange(0, i + 1)[j]));
                }
            }
        }
        i += 1;
    }
    assert(types@.subrange(0, types@.len() as int) =~= types@);
}

/// Registers one scalar function.
pub fn register_scalar(
    registry: &mut Registry,
    name: &'static str,
    args: Vec<DataType>,
    ret: DataType,
    function: ScalarFunction,
)
    ensures
        registered(
            old(registry)@,
            final(registry)@,
            seq![scalar_view(name@, args@, ret, function)],
        ),
{
    let ghost before = registry@;
    registry.register_function(
        FunctionDefinition::new(name, args, ret, FunctionType::Scalar(function)),
    );
    assert(registry@.subrange(0, before.len() as int) =~= before);
}

/// Registers one scalar function whose return type a resolver computes.
pub fn register_resolved(
    registry: &mut Registry,
    name: &'static str,
    args: Vec<DataType>,
    resolver: ReturnTypeResolver,
    function: ScalarFunction,
)
    ensures
        registered(
            old(registry)@,
            final(registry)@,
            seq![resolved_view(name@, args@, resolver, function)],
        ),
{
    let ghost before = registry@;
    registry.register_function(
        FunctionDefinition::new_with_type_resolver(
            name,
            args,
            resolver,
            FunctionType::Scalar(function),
        ),
    );
    assert(registry@.subrange(0, before.len() as int) =~= before);
}

/// A list of one type.
pub fn one(a: DataType) -> (v: Vec<DataType>)
    ensures
        v@ == seq![a],
{
    let mut v: Vec<DataType> = Vec::new();
    v.push(a);
    v
}

/// A list of two types.
pub fn two(a: DataType, b: DataType) -> (v: Vec<DataType>)
    ensures
        v@ == seq![a, b],
{
    let mut v: Vec<DataType> = Vec::new();
    v.push(a);
    v.push(b);
    v
}

/// The built-in scalar functions, in the order in which they are
/// registered: the boolean functions, the casts and the arithmetic.
pub open spec fn spec_builtins() -> Seq<DefinitionView> {
    boolean::spec_builtins() + casts::spec_builtins() + maths::spec_builtins()
}

/// Registers the built-in scalar functions.
pub fn register_builtins(registry: &mut Registry)
    ensures
        registered(old(registry)@, final(registry)@, spec_builtins()),
{
    let ghost s0 = registry@;
    boolean::register_builtins(registry);
    let ghost s1 = registry@;
    casts::register_builtins(registry);
    let ghost s2 = registry@;
    maths::register_builtins(registry);
    proof {
        lemma_registered_twice(s0, s1, s2, boolean::spec_builtins(), casts::spec_builtins());
        lemma_registered_twice(
            s0,
            s2,
            registry@,
            boolean::spec_builtins() + casts::spec_builtins(),
            maths::spec_builtins(),
        );
    }
}

} // verus!
