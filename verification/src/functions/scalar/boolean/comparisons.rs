use vstd::prelude::*;
use crate::data::{Comparison, DataType, Datum, Session, Value};
use crate::data::datum::{value_compare, value_sql_eq};
use crate::functions::{Function, FunctionSignature};
use crate::functions::registry::Registry;
use crate::functions::scalar::{
    for_types,
    lemma_registered_twice,
    register_for_types,
    registered,
    DefinitionView,
    ScalarFunction,
};

verus! {

/// `a = b`.
#[derive(Debug)]
pub struct Equal {}

/// `a < b`.
#[derive(Debug)]
pub struct Less {}

/// `a <= b`.
#[derive(Debug)]
pub struct LessOrEqual {}

/// `a > b`.
#[derive(Debug)]
pub struct Greater {}

/// `a >= b`.
#[derive(Debug)]
pub struct GreaterOrEqual {}

impl Function for Equal {
    open spec fn spec_execute(&self, ret: DataType, args: Seq<Value>) -> Value {
        if args.len() < 2 || args[0] is Null || args[1] is Null {
            Value::Null
        } else {
            Value::Boolean(value_sql_eq(args[0], args[1], false))
        }
    }

    fn execute(&self, _session: &Session, _signature: &FunctionSignature, args: &[Datum]) -> (r:
        Datum<'static>)
    {
        if args.len() < 2 || args[0].is_null() || args[1].is_null() {
            Datum::Null
        } else {
            Datum::Boolean(args[0].sql_eq(&args[1], false))
        }
    }
}

impl Function for Less {
    open spec fn spec_execute(&self, ret: DataType, args: Seq<Value>) -> Value {
        if args.len() < 2 || args[0] is Null || args[1] is Null {
            Value::Null
        } else {
            Value::Boolean(value_compare(args[0], args[1]) == Comparison::Less)
        }
    }

    fn execute(&self, _session: &Session, _signature: &FunctionSignature, args: &[Datum]) -> (r:
        Datum<'static>)
    {
        if args.len() < 2 || args[0].is_null() || args[1].is_null() {
            Datum::Null
        } else {
            Datum::Boolean(args[0].compare(&args[1]) == Comparison::Less)
        }
    }
}

impl Function for LessOrEqual {
    open spec fn spec_execute(&self, ret: DataType, args: Seq<Value>) -> Value {
        if args.len() < 2 || args[0] is Null || args[1] is Null {
            Value::Null
        } else {
            Value::Boolean(value_compare(args[0], args[1]) != Comparison::Greater)
        }
    }

    fn execute(&self, _session: &Session, _signature: &FunctionSignature, args: &[Datum]) -> (r:
        Datum<'static>)
    {
        if args.len() < 2 || args[0].is_null() || args[1].is_null() {
            Datum::Null
        } else {
            Datum::Boolean(args[0].compare(&args[1]) != Comparison::Greater)
        }
    }
}

impl Function for Greater {
    open spec fn spec_execute(&self, ret: DataType, args: Seq<Value>) -> Value {
        if args.len() < 2 || args[0] is Null || args[1] is Null {
            Value::Null
        } else {
            Value::Boolean(value_compare(args[0], args[1]) == Comparison::Greater)
        }
    }

    fn execute(&self, _session: &Session, _signature: &FunctionSignature, args: &[Datum]) -> (r:
        Datum<'static>)
    {
        if args.len() < 2 || args[0].is_null() || args[1].is_null() {
            Datum::Null
        } else {
            Datum::Boolean(args[0].compare(&args[1]) == Comparison::Greater)
        }
    }
}

impl Function for GreaterOrEqual {
    open spec fn spec_execute(&self, ret: DataType, args: Seq<Value>) -> Value {
        if args.len() < 2 || args[0] is Null || args[1] is Null {
            Value::Null
        } else {
            Value::Boolean(value_compare(args[0], args[1]) != Comparison::Less)
        }
    }

    fn execute(&self, _session: &Session, _signature: &FunctionSignature, args: &[Datum]) -> (r:
        Datum<'static>)
    {
        if args.len() < 2 || args[0].is_null() || args[1].is_null() {
            Datum::Null
        } else {
            Datum::Boolean(args[0].compare(&args[1]) != Comparison::Less)
        }
    }
}

/// The types that the comparisons are defined on.
pub open spec fn spec_types() -> Seq<DataType> {
    seq![
        DataType::Boolean,
        DataType::Integer,
        DataType::BigInt,
        DataType::Decimal(0, 0),
        DataType::Text,
        DataType::Date,
        DataType::Timestamp,
    ]
}

/// The definitions of one comparison: two arguments of one type, for each
/// of the types.
pub open spec fn comparison(name: Seq<char>, function: ScalarFunction) -> Seq<DefinitionView> {
    for_types(name, spec_types(), 2, DataType::Boolean, function)
}

/// The definitions of `=`, `<`, `<=`, `>` and `>=`, in this order.
pub open spec fn spec_builtins() -> Seq<DefinitionView> {
    comparison("="@, ScalarFunction::Equal)
        + comparison("<"@, ScalarFunction::Less)
        + comparison("<="@, ScalarFunction::LessOrEqual)
        + comparison(">"@, ScalarFunction::Greater)
        + comparison(">="@, ScalarFunction::GreaterOrEqual)
}

pub fn register_builtins(registry: &mut Registry)
    ensures
        registered(old(registry)@, final(registry)@, spec_builtins()),
{
    let types = [
        DataType::Boolean,
        DataType::Integer,
        DataType::BigInt,
        DataType::Decimal(0, 0),
        DataType::Text,
        DataType::Date,
        DataType::Timestamp,
    ];
    assert(types@ =~= spec_types());
    let ghost s0 = registry@;
    register_for_types(
        registry,
        "=",
        types.as_slice(),
        2,
        DataType::Boolean,
        ScalarFunction::Equal,
    );
    let ghost s1 = registry@;
    register_for_types(registry, "<", types.as_slice(), 2, DataType::Boolean, ScalarFunction::Less);
    let ghost s2 = registry@;
    register_for_types(
        registry,
        "<=",
        types.as_slice(),
        2,
        DataType::Boolean,
        ScalarFunction::LessOrEqual,
    );
    let ghost s3 = registry@;
    register_for_types(
        registry,
        ">",
        types.as_slice(),
        2,
        DataType::Boolean,
        ScalarFunction::Greater,
    );
    let ghost s4 = registry@;
    register_for_types(
        registry,
        ">=",
        types.as_slice(),
        2,
        DataType::Boolean,
        ScalarFunction::GreaterOrEqual,
    );
    proof {
        lemma_registered_twice(
            s0,
            s1,
            s2,
            comparison("="@, ScalarFunction::Equal),
            comparison("<"@, ScalarFunction::Less),
        );
        let l2 = comparison("="@, ScalarFunction::Equal) + comparison("<"@, ScalarFunction::Less);
        lemma_registered_twice(s0, s2, s3, l2, comparison("<="@, ScalarFunction::LessOrEqual));
        let l3 = l2 + comparison("<="@, ScalarFunction::LessOrEqual);
        lemma_registered_twice(s0, s3, s4, l3, comparison(">"@, ScalarFunction::Greater));
        let l4 = l3 + comparison(">"@, ScalarFunction::Greater);
        lemma_registered_twice(
            s0,
            s4,
            registry@,
            l4,
            comparison(">="@, ScalarFunction::GreaterOrEqual),
        );
        assert(l4 + comparison(">="@, ScalarFunction::GreaterOrEqual) =~= spec_builtins());
    }
}

} // verus!
