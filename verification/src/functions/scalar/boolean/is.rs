use vstd::prelude::*;
use crate::data::{DataType, Datum, Session, Value};
use crate::functions::{Function, FunctionSignature};
use crate::functions::registry::Registry;
use crate::functions::scalar::{
    for_types,
    lemma_registered_twice,
    one,
    register_for_types,
    register_scalar,
    registered,
    scalar_view,
    DefinitionView,
    ScalarFunction,
};

verus! {

/// `a IS TRUE`: never null.
#[derive(Debug)]
pub struct IsTrue {}

/// `a IS FALSE`: never null.
#[derive(Debug)]
pub struct IsFalse {}

/// `a IS NOT TRUE`: never null.
#[derive(Debug)]
pub struct IsNotTrue {}

/// `a IS NOT FALSE`: never null.
#[derive(Debug)]
pub struct IsNotFalse {}

/// `a IS NULL`.
#[derive(Debug)]
pub struct IsNull {}

/// `a IS NOT NULL`.
#[derive(Debug)]
pub struct IsNotNull {}

impl Function for IsTrue {
    open spec fn spec_execute(&self, ret: DataType, args: Seq<Value>) -> Value {
        Value::Boolean(args.len() >= 1 && args[0] == Value::Boolean(true))
    }

    fn execute(&self, _session: &Session, _signature: &FunctionSignature, args: &[Datum]) -> (r:
        Datum<'static>)
    {
        Datum::Boolean(args.len() >= 1 && args[0].as_maybe_boolean() == Some(true))
    }
}

impl Function for IsFalse {
    open spec fn spec_execute(&self, ret: DataType, args: Seq<Value>) -> Value {
        Value::Boolean(args.len() >= 1 && args[0] == Value::Boolean(false))
    }

    fn execute(&self, _session: &Session, _signature: &FunctionSignature, args: &[Datum]) -> (r:
        Datum<'static>)
    {
        Datum::Boolean(args.len() >= 1 && args[0].as_maybe_boolean() == Some(false))
    }
}

impl Function for IsNotTrue {
    open spec fn spec_execute(&self, ret: DataType, args: Seq<Value>) -> Value {
        Value::Boolean(!(args.len() >= 1 && args[0] == Value::Boolean(true)))
    }

    fn execute(&self, _session: &Session, _signature: &FunctionSignature, args: &[Datum]) -> (r:
        Datum<'static>)
    {
        Datum::Boolean(!(args.len() >= 1 && args[0].as_maybe_boolean() == Some(true)))
    }
}

impl Function for IsNotFalse {
    open spec fn spec_execute(&self, ret: DataType, args: Seq<Value>) -> Value {
        Value::Boolean(!(args.len() >= 1 && args[0] == Value::Boolean(false)))
    }

    fn execute(&self, _session: &Session, _signature: &FunctionSignature, args: &[Datum]) -> (r:
        Datum<'static>)
    {
        Datum::Boolean(!(args.len() >= 1 && args[0].as_maybe_boolean() == Some(false)))
    }
}

impl Function for IsNull {
    open spec fn spec_execute(&self, ret: DataType, args: Seq<Value>) -> Value {
        Value::Boolean(args.len() >= 1 && args[0] is Null)
    }

    fn execute(&self, _session: &Session, _signature: &FunctionSignature, args: &[Datum]) -> (r:
        Datum<'static>)
    {
        Datum::Boolean(args.len() >= 1 && args[0].is_null())
    }
}

impl Function for IsNotNull {
    open spec fn spec_execute(&self, ret: DataType, args: Seq<Value>) -> Value {
        Value::Boolean(!(args.len() >= 1 && args[0] is Null))
    }

    fn execute(&self, _session: &Session, _signature: &FunctionSignature, args: &[Datum]) -> (r:
        Datum<'static>)
    {
        Datum::Boolean(!(args.len() >= 1 && args[0].is_null()))
    }
}

/// The types that `isnull` and `isnotnull` are defined on.
pub open spec fn spec_types() -> Seq<DataType> {
    seq![
        DataType::Boolean,
        DataType::Integer,
        DataType::BigInt,
        DataType::Decimal(0, 0),
        DataType::Text,
        DataType::Date,
        DataType::Timestamp,
        DataType::Json,
        DataType::ByteA,
    ]
}

/// The definitions of the tests of a truth value, on a boolean.
pub open spec fn truth_tests() -> Seq<DefinitionView> {
    seq![
        scalar_view(
            "istrue"@,
            seq![DataType::Boolean],
            DataType::Boolean,
            ScalarFunction::IsTrue,
        ),
        scalar_view(
            "isfalse"@,
            seq![DataType::Boolean],
            DataType::Boolean,
            ScalarFunction::IsFalse,
        ),
        scalar_view(
            "isnottrue"@,
            seq![DataType::Boolean],
            DataType::Boolean,
            ScalarFunction::IsNotTrue,
        ),
        scalar_view(
            "isnotfalse"@,
            seq![DataType::Boolean],
            DataType::Boolean,
            ScalarFunction::IsNotFalse,
        ),
    ]
}

/// The definitions of one test for null: one argument, for each of the
/// types.
pub open spec fn null_test(name: Seq<char>, function: ScalarFunction) -> Seq<DefinitionView> {
    for_types(name, spec_types(), 1, DataType::Boolean, function)
}

/// The definitions of the tests of a truth value and of the tests for
/// null, in this order.
pub open spec fn spec_builtins() -> Seq<DefinitionView> {
    truth_tests() + null_test("isnull"@, ScalarFunction::IsNull) + null_test(
        "isnotnull"@,
        ScalarFunction::IsNotNull,
    )
}

pub fn register_builtins(registry: &mut Registry)
    ensures
        registered(old(registry)@, final(registry)@, spec_builtins()),
{
    let types = [
        DataType::Boolean,
        DataType::Integer,
        DataType::BigInt,
        DataType::Decimal(0, 0),
        DataType::Text,
        DataType::Date,
        DataType::Timestamp,
        DataType::Json,
        DataType::ByteA,
    ];
    assert(types@ =~= spec_types());
    let ghost s0 = registry@;
    register_scalar(
        registry,
        "istrue",
        one(DataType::Boolean),
        DataType::Boolean,
        ScalarFunction::IsTrue,
    );
    let ghost s1 = registry@;
    register_scalar(
        registry,
        "isfalse",
        one(DataType::Boolean),
        DataType::Boolean,
        ScalarFunction::IsFalse,
    );
    let ghost s2 = registry@;
    register_scalar(
        registry,
        "isnottrue",
        one(DataType::Boolean),
        DataType::Boolean,
        ScalarFunction::IsNotTrue,
    );
    let ghost s3 = registry@;
    register_scalar(
        registry,
        "isnotfalse",
        one(DataType::Boolean),
        DataType::Boolean,
        ScalarFunction::IsNotFalse,
    );
    let ghost s4 = registry@;
    register_for_types(
        registry,
        "isnull",
        types.as_slice(),
        1,
        DataType::Boolean,
        ScalarFunction::IsNull,
    );
    let ghost s5 = registry@;
    register_for_types(
        registry,
        "isnotnull",
        types.as_slice(),
        1,
        DataType::Boolean,
        ScalarFunction::IsNotNull,
    );
    proof {
        lemma_registered_twice(s0, s1, s2, seq![truth_tests()[0]], seq![truth_tests()[1]]);
        let l2 = seq![truth_tests()[0]] + seq![truth_tests()[1]];
        lemma_registered_twice(s0, s2, s3, l2, seq![truth_tests()[2]]);
        lemma_registered_twice(s0, s3, s4, l2 + seq![truth_tests()[2]], seq![truth_tests()[3]]);
        let l4 = l2 + seq![truth_tests()[2]] + seq![truth_tests()[3]];
        lemma_registered_twice(s0, s4, s5, l4, null_test("isnull"@, ScalarFunction::IsNull));
        let l5 = l4 + null_test("isnull"@, ScalarFunction::IsNull);
        lemma_registered_twice(
            s0,
            s5,
            registry@,
            l5,
            null_test("isnotnull"@, ScalarFunction::IsNotNull),
        );
        assert(l5 + null_test("isnotnull"@, ScalarFunction::IsNotNull) =~= spec_builtins());
    }
}

} // verus!
