use vstd::prelude::*;
use crate::data::{DataType, Datum, Session, Value};
use crate::data::datum::value_sql_eq;
use crate::functions::{Function, FunctionSignature};
use crate::functions::registry::Registry;
use crate::functions::scalar::{
    for_types,
    register_for_types,
    registered,
    DefinitionView,
    ScalarFunction,
};

verus! {

/// `a != b`.
#[derive(Debug)]
pub struct NE {}

impl Function for NE {
    open spec fn spec_execute(&self, ret: DataType, args: Seq<Value>) -> Value {
        if args.len() < 2 || args[0] is Null || args[1] is Null {
            Value::Null
        } else {
            Value::Boolean(!value_sql_eq(args[0], args[1], false))
        }
    }

    fn execute(&self, _session: &Session, _signature: &FunctionSignature, args: &[Datum]) -> (r:
        Datum<'static>)
    {
        if args.len() < 2 || args[0].is_null() || args[1].is_null() {
            Datum::Null
        } else {
            Datum::Boolean(!args[0].sql_eq(&args[1], false))
        }
    }
}

/// The types that `!=` is defined on.
pub open spec fn spec_types() -> Seq<DataType> {
    seq![
        DataType::Boolean,
        DataType::Integer,
        DataType::BigInt,
        DataType::Decimal(0, 0),
        DataType::Text,
    ]
}

/// The definitions of `!=`: two arguments of one type.
pub open spec fn spec_builtins() -> Seq<DefinitionView> {
    for_types("!="@, spec_types(), 2, DataType::Boolean, ScalarFunction::NotEqual)
}

pub fn register_builtins(registry: &mut Registry)
    ensures
        registered(old(registry)@, final(registry)@, spec_builtins()),
{
    let types = [
        DataType::Boolean,
        DataType::Integer,
        DataType::BigInt,
        DataType::Decimal(0, 0),
        DataType::Text,
    ];
    assert(types@ =~= spec_types());
    register_for_types(
        registry,
        "!=",
        types.as_slice(),
        2,
        DataType::Boolean,
        ScalarFunction::NotEqual,
    );
}

} // verus!
