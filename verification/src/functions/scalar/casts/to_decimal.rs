use vstd::prelude::*;
use crate::data::{DataType, Datum, Decimal, Session, Value};
use crate::data::decimal::{decimal_parsed, decimal_rescaled, in_range};
use crate::functions::{Function, FunctionSignature};
use crate::functions::registry::Registry;
use crate::functions::scalar::{
    lemma_registered_twice,
    one,
    register_scalar,
    registered,
    scalar_view,
    DefinitionView,
    ScalarFunction,
};

verus! {

/// A decimal brought to the scale of the type it is cast to: rounded where
/// digits are lost, null where it cannot be held. A type that is no
/// decimal leaves it as it is.
pub open spec fn cast_decimal(mantissa: int, scale: nat, ret: DataType) -> Value {
    match ret {
        DataType::Decimal(_, s) => match in_range(
            Some(
                decimal_rescaled(
                    mantissa,
                    scale as int,
                    if s <= 28 {
                        s as int
                    } else {
                        28
                    },
                ),
            ),
        ) {
            Some((m, s)) => Value::Decimal(m, s),
            None => Value::Null,
        },
        _ => Value::Decimal(mantissa, scale),
    }
}

/// Brings a decimal to the scale of the type it is cast to.
pub fn fit_decimal(d: Decimal, ret: DataType) -> (r: Datum<'static>)
    ensures
        r@ == cast_decimal(d.spec_mantissa(), d.spec_scale(), ret),
{
    match ret {
        DataType::Decimal(_, s) => match d.rescale(s as u32) {
            Some(fitted) => Datum::Decimal(fitted),
            None => Datum::Null,
        },
        _ => Datum::Decimal(d),
    }
}

#[derive(Debug)]
pub struct ToDecimalFromInt {}

impl Function for ToDecimalFromInt {
    open spec fn spec_execute(&self, ret: DataType, args: Seq<Value>) -> Value {
        if args.len() >= 1 {
            match args[0] {
                Value::Integer(a) => cast_decimal(a as int, 0, ret),
                _ => Value::Null,
            }
        } else {
            Value::Null
        }
    }

    fn execute(&self, _session: &Session, signature: &FunctionSignature, args: &[Datum]) -> (r:
        Datum<'static>)
    {
        if args.len() < 1 {
            return Datum::Null;
        }
        match args[0].as_maybe_integer() {
            Some(a) => fit_decimal(Decimal::new(a as i64, 0), signature.ret),
            None => Datum::Null,
        }
    }
}

#[derive(Debug)]
pub struct ToDecimalFromBigInt {}

impl Function for ToDecimalFromBigInt {
    open spec fn spec_execute(&self, ret: DataType, args: Seq<Value>) -> Value {
        if args.len() >= 1 {
            match args[0] {
                Value::BigInt(a) => cast_decimal(a as int, 0, ret),
                _ => Value::Null,
            }
        } else {
            Value::Null
        }
    }

    fn execute(&self, _session: &Session, signature: &FunctionSignature, args: &[Datum]) -> (r:
        Datum<'static>)
    {
        if args.len() < 1 {
            return Datum::Null;
        }
        match args[0].as_maybe_bigint() {
            Some(a) => fit_decimal(Decimal::new(a, 0), signature.ret),
            None => Datum::Null,
        }
    }
}

#[derive(Debug)]
pub struct ToDecimalFromDecimal {}

impl Function for ToDecimalFromDecimal {
    open spec fn spec_execute(&self, ret: DataType, args: Seq<Value>) -> Value {
        if args.len() >= 1 {
            match args[0] {
                Value::Decimal(m, s) => cast_decimal(m, s, ret),
                _ => Value::Null,
            }
        } else {
            Value::Null
        }
    }

    fn execute(&self, _session: &Session, signature: &FunctionSignature, args: &[Datum]) -> (r:
        Datum<'static>)
    {
        if args.len() < 1 {
            return Datum::Null;
        }
        match args[0].as_maybe_decimal() {
            Some(a) => fit_decimal(a, signature.ret),
            None => Datum::Null,
        }
    }
}

/// The decimal that a text holds, brought to the scale of the cast.
#[derive(Debug)]
pub struct ToDecimalFromText {}

impl Function for ToDecimalFromText {
    open spec fn spec_execute(&self, ret: DataType, args: Seq<Value>) -> Value {
        if args.len() >= 1 {
            match args[0] {
                Value::Bytes(a) => match in_range(decimal_parsed(a)) {
                    Some((m, s)) => cast_decimal(m, s, ret),
                    None => Value::Null,
                },
                _ => Value::Null,
            }
        } else {
            Value::Null
        }
    }

    fn execute(&self, _session: &Session, signature: &FunctionSignature, args: &[Datum]) -> (r:
        Datum<'static>)
    {
        if args.len() < 1 {
            return Datum::Null;
        }
        match args[0].as_maybe_text() {
            Some(a) => match Decimal::parse(a) {
                Some(d) => fit_decimal(d, signature.ret),
                None => Datum::Null,
            },
            None => Datum::Null,
        }
    }
}

/// The definitions of the cast to a decimal.
pub open spec fn spec_builtins() -> Seq<DefinitionView> {
    seq![
        scalar_view(
            "to_decimal"@,
            seq![DataType::Integer],
            DataType::Decimal(0, 0),
            ScalarFunction::ToDecimalFromInt,
        ),
        scalar_view(
            "to_decimal"@,
            seq![DataType::BigInt],
            DataType::Decimal(0, 0),
            ScalarFunction::ToDecimalFromBigInt,
        ),
        scalar_view(
            "to_decimal"@,
            seq![DataType::Decimal(0, 0)],
            DataType::Decimal(0, 0),
            ScalarFunction::ToDecimalFromDecimal,
        ),
        scalar_view(
            "to_decimal"@,
            seq![DataType::Text],
            DataType::Decimal(0, 0),
            ScalarFunction::ToDecimalFromText,
        ),
    ]
}

pub fn register_builtins(registry: &mut Registry)
    ensures
        registered(old(registry)@, final(registry)@, spec_builtins()),
{
    let ghost s0 = registry@;
    register_scalar(
        registry,
        "to_decimal",
        one(DataType::Integer),
        DataType::Decimal(0, 0),
        ScalarFunction::ToDecimalFromInt,
    );
    let ghost s1 = registry@;
    register_scalar(
        registry,
        "to_decimal",
        one(DataType::BigInt),
        DataType::Decimal(0, 0),
        ScalarFunction::ToDecimalFromBigInt,
    );
    let ghost s2 = registry@;
    register_scalar(
        registry,
        "to_decimal",
        one(DataType::Decimal(0, 0)),
        DataType::Decimal(0, 0),
        ScalarFunction::ToDecimalFromDecimal,
    );
    let ghost s3 = registry@;
    register_scalar(
        registry,
        "to_decimal",
        one(DataType::Text),
        DataType::Decimal(0, 0),
        ScalarFunction::ToDecimalFromText,
    );
    proof {
        lemma_registered_twice(s0, s1, s2, seq![spec_builtins()[0]], seq![spec_builtins()[1]]);
        let l2 = seq![spec_builtins()[0]] + seq![spec_builtins()[1]];
        lemma_registered_twice(s0, s2, s3, l2, seq![spec_builtins()[2]]);
        lemma_registered_twice(
            s0,
            s3,
            registry@,
            l2 + seq![spec_builtins()[2]],
            seq![spec_builtins()[3]],
        );
        assert(l2 + seq![spec_builtins()[2]] + seq![spec_builtins()[3]] =~= spec_builtins());
    }
}

} // verus!
