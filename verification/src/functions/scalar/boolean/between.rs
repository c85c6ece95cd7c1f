use vstd::prelude::*;
use crate::data::{Comparison, DataType, Datum, Session, Value};
use crate::data::datum::value_compare;
use crate::functions::{Function, FunctionSignature};
use crate::functions::registry::Registry;
use crate::functions::scalar::{
    for_types,
    register_for_types,
    registered,
    DefinitionView,
    ScalarFunction,
};

verus! {

/// `a BETWEEN b AND c`: whether `a` lies between `b` and `c`, both included.
#[derive(Debug)]
pub struct Between {}

impl Function for Between {
    open spec fn spec_execute(&self, ret: DataType, args: Seq<Value>) -> Value {
        if args.len() < 3 || args[0] is Null || args[1] is Null || args[2] is Null {
            Value::Null
        } else {
            Value::Boolean(
                value_compare(args[0], args[1]) != Comparison::Less && value_compare(
                    args[0],
                    args[2],
                ) != Comparison::Greater,
            )
        }
    }

    fn execute(&self, _session: &Session, _signature: &FunctionSignature, args: &[Datum]) -> (r:
        Datum<'static>)
    {
        if args.len() < 3 || args[0].is_null() || args[1].is_null() || args[2].is_null() {
            Datum::Null
        } else {
            Datum::Boolean(
                args[0].compare(&args[1]) != Comparison::Less && args[0].compare(&args[2])
                    != Comparison::Greater,
            )
        }
    }
}

/// The types that `between` is defined on.
pub open spec fn spec_types() -> Seq<DataType> {
    seq![
        DataType::Boolean,
        DataType::Integer,
        DataType::BigInt,
        DataType::Decimal(0, 0),
        DataType::Text,
        DataType::Date,
    ]
}

/// The definitions of `between`: three arguments of one type.
pub open spec fn spec_builtins() -> Seq<DefinitionView> {
    for_types("between"@, spec_types(), 3, DataType::Boolean, ScalarFunction::Between)
}

pub fn register_builtins(registry: &mut Registry)
    ensures
        registered(old(registry)@, final(registry)@, spec_builtins()),
{
    let types = [
        DataType::Boolean,
        DataType::Integer,
        DataType::BigInt,
        DataType::Decimal(0, 0),
        DataType::Text,
        DataType::Date,
    ];
    assert(types@ =~= spec_types());
    register_for_types(
        registry,
        "between",
        types.as_slice(),
        3,
        DataType::Boolean,
        ScalarFunction::Between,
    );
}

} // verus!
