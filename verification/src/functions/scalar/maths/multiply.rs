use vstd::prelude::*;
use crate::data::{DataType, Datum, Session, Value};
use crate::data::decimal::{decimal_product, in_range};
use crate::functions::{
    Function,
    FunctionDefinition,
    FunctionSignature,
    FunctionType,
    ReturnTypeResolver,
};
use crate::functions::registry::Registry;
use crate::functions::scalar::{
    lemma_registered_twice,
    register_resolved,
    register_scalar,
    registered,
    resolved_view,
    scalar_view,
    two,
    DefinitionView,
    ScalarFunction,
};

verus! {

/// The product of two integers; it wraps around where it does not fit.
#[derive(Debug)]
pub struct MultiplyInteger {}

impl Function for MultiplyInteger {
    open spec fn spec_execute(&self, ret: DataType, args: Seq<Value>) -> Value {
        if args.len() >= 2 {
            match (args[0], args[1]) {
                (Value::Integer(a), Value::Integer(b)) => Value::Integer(a.wrapping_mul(b)),
                _ => Value::Null,
            }
        } else {
            Value::Null
        }
    }

    fn execute(&self, _session: &Session, _signature: &FunctionSignature, args: &[Datum]) -> (r:
        Datum<'static>)
    {
        if args.len() < 2 {
            return Datum::Null;
        }
        if let (Some(a), Some(b)) = (args[0].as_maybe_integer(), args[1].as_maybe_integer()) {
            Datum::Integer(a.wrapping_mul(b))
        } else {
            Datum::Null
        }
    }
}

/// The product of two big integers; it wraps around where it does not fit.
#[derive(Debug)]
pub struct MultiplyBigint {}

impl Function for MultiplyBigint {
    open spec fn spec_execute(&self, ret: DataType, args: Seq<Value>) -> Value {
        if args.len() >= 2 {
            match (args[0], args[1]) {
                (Value::BigInt(a), Value::BigInt(b)) => Value::BigInt(a.wrapping_mul(b)),
                _ => Value::Null,
            }
        } else {
            Value::Null
        }
    }

    fn execute(&self, _session: &Session, _signature: &FunctionSignature, args: &[Datum]) -> (r:
        Datum<'static>)
    {
        if args.len() < 2 {
            return Datum::Null;
        }
        if let (Some(a), Some(b)) = (args[0].as_maybe_bigint(), args[1].as_maybe_bigint()) {
            Datum::BigInt(a.wrapping_mul(b))
        } else {
            Datum::Null
        }
    }
}

/// The product of two decimals, or null where it cannot be held.
#[derive(Debug)]
pub struct MultiplyDecimal {}

impl Function for MultiplyDecimal {
    open spec fn spec_execute(&self, ret: DataType, args: Seq<Value>) -> Value {
        if args.len() >= 2 {
            match (args[0], args[1]) {
                (Value::Decimal(m1, s1), Value::Decimal(m2, s2)) => match in_range(
                    decimal_product(m1, s1 as int, m2, s2 as int),
                ) {
                    Some((m, s)) => Value::Decimal(m, s),
                    None => Value::Null,
                },
                _ => Value::Null,
            }
        } else {
            Value::Null
        }
    }

    fn execute(&self, _session: &Session, _signature: &FunctionSignature, args: &[Datum]) -> (r:
        Datum<'static>)
    {
        if args.len() < 2 {
            return Datum::Null;
        }
        if let (Some(a), Some(b)) = (args[0].as_maybe_decimal(), args[1].as_maybe_decimal()) {
            // The scale of a product never passes the largest scale.
            match a.checked_mul(&b) {
                Some(product) => Datum::Decimal(product),
                None => Datum::Null,
            }
        } else {
            Datum::Null
        }
    }
}

/// The definitions of `*`: on integers, on big integers, and on decimals,
/// where the type of the product is computed from those of the arguments.
pub open spec fn spec_builtins() -> Seq<DefinitionView> {
    seq![
        scalar_view(
            "*"@,
            seq![DataType::Integer, DataType::Integer],
            DataType::Integer,
            ScalarFunction::MultiplyInteger,
        ),
        scalar_view(
            "*"@,
            seq![DataType::BigInt, DataType::BigInt],
            DataType::BigInt,
            ScalarFunction::MultiplyBigint,
        ),
        resolved_view(
            "*"@,
            seq![DataType::Decimal(0, 0), DataType::Decimal(0, 0)],
            ReturnTypeResolver::DecimalProduct,
            ScalarFunction::MultiplyDecimal,
        ),
    ]
}

pub fn register_builtins(registry: &mut Registry)
    ensures
        registered(old(registry)@, final(registry)@, spec_builtins()),
{
    let ghost s0 = registry@;
    register_scalar(
        registry,
        "*",
        two(DataType::Integer, DataType::Integer),
        DataType::Integer,
        ScalarFunction::MultiplyInteger,
    );
    let ghost s1 = registry@;
    register_scalar(
        registry,
        "*",
        two(DataType::BigInt, DataType::BigInt),
        DataType::BigInt,
        ScalarFunction::MultiplyBigint,
    );
    let ghost s2 = registry@;
    register_resolved(
        registry,
        "*",
        two(DataType::Decimal(0, 0), DataType::Decimal(0, 0)),
        ReturnTypeResolver::DecimalProduct,
        ScalarFunction::MultiplyDecimal,
    );
    proof {
        lemma_registered_twice(s0, s1, s2, seq![spec_builtins()[0]], seq![spec_builtins()[1]]);
        let l2 = seq![spec_builtins()[0]] + seq![spec_builtins()[1]];
        lemma_registered_twice(s0, s2, registry@, l2, seq![spec_builtins()[2]]);
        assert(l2 + seq![spec_builtins()[2]] =~= spec_builtins());
    }
}

} // verus!
