use vstd::prelude::*;
use crate::data::{DataType, Datum, Session, Value};
use crate::data::text::{bounded_integer_value, parse_integer};
use crate::functions::{Function, FunctionSignature};
use crate::functions::registry::Registry;
use crate::functions::scalar::{
    lemma_registered_twice,
    one,
    register_scalar,
    registered,
    scalar_view,
    DefinitionView,
    ScalarFunction,
};

verus! {

#[derive(Debug)]
pub struct ToBigIntFromInt {}

impl Function for ToBigIntFromInt {
    open spec fn spec_execute(&self, ret: DataType, args: Seq<Value>) -> Value {
        if args.len() >= 1 {
            match args[0] {
                Value::Integer(a) => Value::BigInt(a as i64),
                _ => Value::Null,
            }
        } else {
            Value::Null
        }
    }

    fn execute(&self, _session: &Session, _signature: &FunctionSignature, args: &[Datum]) -> (r:
        Datum<'static>)
    {
        if args.len() < 1 {
            return Datum::Null;
        }
        match args[0].as_maybe_integer() {
            Some(a) => Datum::BigInt(a as i64),
            None => Datum::Null,
        }
    }
}

#[derive(Debug)]
pub struct ToBigIntFromBigInt {}

impl Function for ToBigIntFromBigInt {
    open spec fn spec_execute(&self, ret: DataType, args: Seq<Value>) -> Value {
        if args.len() >= 1 {
            args[0]
        } else {
            Value::Null
        }
    }

    fn execute(&self, _session: &Session, _signature: &FunctionSignature, args: &[Datum]) -> (r:
        Datum<'static>)
    {
        if args.len() >= 1 {
            args[0].as_static()
        } else {
            Datum::Null
        }
    }
}

#[derive(Debug)]
pub struct ToBigIntFromText {}

impl Function for ToBigIntFromText {
    open spec fn spec_execute(&self, ret: DataType, args: Seq<Value>) -> Value {
        if args.len() >= 1 {
            match args[0] {
                Value::Bytes(a) => match bounded_integer_value(a, i64::MIN as int, i64::MAX as int) {
                    Some(v) => Value::BigInt(v as i64),
                    None => Value::Null,
                },
                _ => Value::Null,
            }
        } else {
            Value::Null
        }
    }

    fn execute(&self, _session: &Session, _signature: &FunctionSignature, args: &[Datum]) -> (r:
        Datum<'static>)
    {
        if args.len() < 1 {
            return Datum::Null;
        }
        if let Some(a) = args[0].as_maybe_text() {
            match parse_integer(a, i64::MIN, i64::MAX) {
                Some(v) => Datum::BigInt(v),
                None => Datum::Null,
            }
        } else {
            Datum::Null
        }
    }
}

/// The definitions of the cast to a big integer.
pub open spec fn spec_builtins() -> Seq<DefinitionView> {
    seq![
        scalar_view(
            "to_bigint"@,
            seq![DataType::Integer],
            DataType::BigInt,
            ScalarFunction::ToBigIntFromInt,
        ),
        scalar_view(
            "to_bigint"@,
            seq![DataType::BigInt],
            DataType::BigInt,
            ScalarFunction::ToBigIntFromBigInt,
        ),
        scalar_view(
            "to_bigint"@,
            seq![DataType::Text],
            DataType::BigInt,
            ScalarFunction::ToBigIntFromText,
        ),
    ]
}

pub fn register_builtins(registry: &mut Registry)
    ensures
        registered(old(registry)@, final(registry)@, spec_builtins()),
{
    let ghost s0 = registry@;
    register_scalar(
        registry,
        "to_bigint",
        one(DataType::Integer),
        DataType::BigInt,
        ScalarFunction::ToBigIntFromInt,
    );
    let ghost s1 = registry@;
    register_scalar(
        registry,
        "to_bigint",
        one(DataType::BigInt),
        DataType::BigInt,
        ScalarFunction::ToBigIntFromBigInt,
    );
    let ghost s2 = registry@;
    register_scalar(
        registry,
        "to_bigint",
        one(DataType::Text),
        DataType::BigInt,
        ScalarFunction::ToBigIntFromText,
    );
    proof {
        lemma_registered_twice(s0, s1, s2, seq![spec_builtins()[0]], seq![spec_builtins()[1]]);
        let l2 = seq![spec_builtins()[0]] + seq![spec_builtins()[1]];
        lemma_registered_twice(s0, s2, registry@, l2, seq![spec_builtins()[2]]);
        assert(l2 + seq![spec_builtins()[2]] =~= spec_builtins());
    }
}

} // verus!
