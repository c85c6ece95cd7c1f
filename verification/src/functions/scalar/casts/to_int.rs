use vstd::prelude::*;
use crate::data::{DataType, Datum, Session, Value};
use crate::data::decimal::truncated;
use crate::data::json::{number_content, string_content, Json};
use crate::data::text::{bounded_integer_value, parse_integer};
use crate::functions::{Function, FunctionSignature};
use crate::functions::registry::Registry;
use crate::functions::scalar::{
    lemma_registered_twice,
    one,
    register_scalar,
    registered,
    scalar_view,
    DefinitionView,
    ScalarFunction,
};

verus! {

#[derive(Debug)]
pub struct ToIntFromBoolean {}

impl Function for ToIntFromBoolean {
    open spec fn spec_execute(&self, ret: DataType, args: Seq<Value>) -> Value {
        if args.len() >= 1 {
            match args[0] {
                Value::Boolean(a) => Value::Integer(
                    if a {
                        1
                    } else {
                        0
                    },
                ),
                _ => Value::Null,
            }
        } else {
            Value::Null
        }
    }

    fn execute(&self, _session: &Session, _signature: &FunctionSignature, args: &[Datum]) -> (r:
        Datum<'static>)
    {
        if args.len() < 1 {
            return Datum::Null;
        }
        if let Some(a) = args[0].as_maybe_boolean() {
            Datum::Integer(
                if a {
                    1
                } else {
                    0
                },
            )
        } else {
            Datum::Null
        }
    }
}

#[derive(Debug)]
pub struct ToIntFromInt {}

impl Function for ToIntFromInt {
    open spec fn spec_execute(&self, ret: DataType, args: Seq<Value>) -> Value {
        if args.len() >= 1 {
            args[0]
        } else {
            Value::Null
        }
    }

    fn execute(&self, _session: &Session, _signature: &FunctionSignature, args: &[Datum]) -> (r:
        Datum<'static>)
    {
        if args.len() >= 1 {
            args[0].as_static()
        } else {
            Datum::Null
        }
    }
}

/// The low 32 bits of a big integer, as a signed number.
pub open spec fn low_bits(a: i64) -> i32 {
    let m = a as int % 0x1_0000_0000;
    if m >= 0x8000_0000 {
        (m - 0x1_0000_0000) as i32
    } else {
        m as i32
    }
}

/// A big integer cut down to its low 32 bits.
#[derive(Debug)]
pub struct ToIntFromBigInt {}

impl Function for ToIntFromBigInt {
    open spec fn spec_execute(&self, ret: DataType, args: Seq<Value>) -> Value {
        if args.len() >= 1 {
            match args[0] {
                Value::BigInt(a) => Value::Integer(low_bits(a)),
                _ => Value::Null,
            }
        } else {
            Value::Null
        }
    }

    fn execute(&self, _session: &Session, _signature: &FunctionSignature, args: &[Datum]) -> (r:
        Datum<'static>)
    {
        if args.len() < 1 {
            return Datum::Null;
        }
        if let Some(a) = args[0].as_maybe_bigint() {
            let m: i128 = (a as i128 + 0x8000_0000_0000_0000) % 0x1_0000_0000;
            if m >= 0x8000_0000 {
                Datum::Integer((m - 0x1_0000_0000) as i32)
            } else {
                Datum::Integer(m as i32)
            }
        } else {
            Datum::Null
        }
    }
}

/// The whole part of a decimal, or null where it does not fit.
#[derive(Debug)]
pub struct ToIntFromDecimal {}

impl Function for ToIntFromDecimal {
    open spec fn spec_execute(&self, ret: DataType, args: Seq<Value>) -> Value {
        if args.len() >= 1 {
            match args[0] {
                Value::Decimal(m, s) => {
                    let t = truncated(m, s);
                    if i32::MIN <= t <= i32::MAX {
                        Value::Integer(t as i32)
                    } else {
                        Value::Null
                    }
                },
                _ => Value::Null,
            }
        } else {
            Value::Null
        }
    }

    fn execute(&self, _session: &Session, _signature: &FunctionSignature, args: &[Datum]) -> (r:
        Datum<'static>)
    {
        if args.len() < 1 {
            return Datum::Null;
        }
        if let Some(a) = args[0].as_maybe_decimal() {
            match a.to_i32() {
                Some(i) => Datum::Integer(i),
                None => Datum::Null,
            }
        } else {
            Datum::Null
        }
    }
}

/// The integer that a text holds, or null.
pub open spec fn integer_of_text(text: Seq<u8>) -> Value {
    match bounded_integer_value(text, i32::MIN as int, i32::MAX as int) {
        Some(v) => Value::Integer(v as i32),
        None => Value::Null,
    }
}

fn text_to_integer(text: &[u8]) -> (r: Datum<'static>)
    ensures
        r@ == integer_of_text(text@),
{
    match parse_integer(text, i32::MIN as i64, i32::MAX as i64) {
        Some(v) => Datum::Integer(v as i32),
        None => Datum::Null,
    }
}

#[derive(Debug)]
pub struct ToIntFromText {}

impl Function for ToIntFromText {
    open spec fn spec_execute(&self, ret: DataType, args: Seq<Value>) -> Value {
        if args.len() >= 1 {
            match args[0] {
                Value::Bytes(a) => integer_of_text(a),
                _ => Value::Null,
            }
        } else {
            Value::Null
        }
    }

    fn execute(&self, _session: &Session, _signature: &FunctionSignature, args: &[Datum]) -> (r:
        Datum<'static>)
    {
        if args.len() < 1 {
            return Datum::Null;
        }
        if let Some(a) = args[0].as_maybe_text() {
            text_to_integer(a)
        } else {
            Datum::Null
        }
    }
}

/// A JSON number cut to its whole part, or a JSON string read as an integer.
#[derive(Debug)]
pub struct ToIntFromJson {}

impl Function for ToIntFromJson {
    open spec fn spec_execute(&self, ret: DataType, args: Seq<Value>) -> Value {
        if args.len() >= 1 {
            match args[0] {
                Value::Bytes(a) => match number_content(a) {
                    Some((m, s)) => {
                        let t = truncated(m, s);
                        if i32::MIN <= t <= i32::MAX {
                            Value::Integer(t as i32)
                        } else {
                            Value::Null
                        }
                    },
                    None => match string_content(a) {
                        Some(text) => integer_of_text(text),
                        None => Value::Null,
                    },
                },
                _ => Value::Null,
            }
        } else {
            Value::Null
        }
    }

    fn execute(&self, _session: &Session, _signature: &FunctionSignature, args: &[Datum]) -> (r:
        Datum<'static>)
    {
        if args.len() < 1 {
            return Datum::Null;
        }
        // We need to try both the json::number and the json::text
        if let Some(a) = args[0].as_maybe_bytea() {
            let json = Json::from_bytes(a);
            match json.get_number() {
                Some(d) => match d.to_i32() {
                    Some(i) => Datum::Integer(i),
                    None => Datum::Null,
                },
                None => match json.get_string() {
                    Some(text) => text_to_integer(text),
                    None => Datum::Null,
                },
            }
        } else {
            Datum::Null
        }
    }
}

/// The definitions of the cast to an integer.
pub open spec fn spec_builtins() -> Seq<DefinitionView> {
    seq![
        scalar_view(
            "to_int"@,
            seq![DataType::Boolean],
            DataType::Integer,
            ScalarFunction::ToIntFromBoolean,
        ),
        scalar_view(
            "to_int"@,
            seq![DataType::Integer],
            DataType::Integer,
            ScalarFunction::ToIntFromInt,
        ),
        scalar_view(
            "to_int"@,
            seq![DataType::BigInt],
            DataType::Integer,
            ScalarFunction::ToIntFromBigInt,
        ),
        scalar_view(
            "to_int"@,
            seq![DataType::Decimal(0, 0)],
            DataType::Integer,
            ScalarFunction::ToIntFromDecimal,
        ),
        scalar_view(
            "to_int"@,
            seq![DataType::Text],
            DataType::Integer,
            ScalarFunction::ToIntFromText,
        ),
        scalar_view(
            "to_int"@,
            seq![DataType::Json],
            DataType::Integer,
            ScalarFunction::ToIntFromJson,
        ),
    ]
}

pub fn register_builtins(registry: &mut Registry)
    ensures
        registered(old(registry)@, final(registry)@, spec_builtins()),
{
    let ghost s0 = registry@;
    register_scalar(
        registry,
        "to_int",
        one(DataType::Boolean),
        DataType::Integer,
        ScalarFunction::ToIntFromBoolean,
    );
    let ghost s1 = registry@;
    register_scalar(
        registry,
        "to_int",
        one(DataType::Integer),
        DataType::Integer,
        ScalarFunction::ToIntFromInt,
    );
    let ghost s2 = registry@;
    register_scalar(
        registry,
        "to_int",
        one(DataType::BigInt),
        DataType::Integer,
        ScalarFunction::ToIntFromBigInt,
    );
    let ghost s3 = registry@;
    register_scalar(
        registry,
        "to_int",
        one(DataType::Decimal(0, 0)),
        DataType::Integer,
        ScalarFunction::ToIntFromDecimal,
    );
    let ghost s4 = registry@;
    register_scalar(
        registry,
        "to_int",
        one(DataType::Text),
        DataType::Integer,
        ScalarFunction::ToIntFromText,
    );
    let ghost s5 = registry@;
    register_scalar(
        registry,
        "to_int",
        one(DataType::Json),
        DataType::Integer,
        ScalarFunction::ToIntFromJson,
    );
    proof {
        lemma_registered_twice(s0, s1, s2, seq![spec_builtins()[0]], seq![spec_builtins()[1]]);
        let l2 = seq![spec_builtins()[0]] + seq![spec_builtins()[1]];
        lemma_registered_twice(s0, s2, s3, l2, seq![spec_builtins()[2]]);
        lemma_registered_twice(s0, s3, s4, l2 + seq![spec_builtins()[2]], seq![spec_builtins()[3]]);
        let l4 = l2 + seq![spec_builtins()[2]] + seq![spec_builtins()[3]];
        lemma_registered_twice(s0, s4, s5, l4, seq![spec_builtins()[4]]);
        lemma_registered_twice(
            s0,
            s5,
            registry@,
            l4 + seq![spec_builtins()[4]],
            seq![spec_builtins()[5]],
        );
        assert(l4 + seq![spec_builtins()[4]] + seq![spec_builtins()[5]] =~= spec_builtins());
    }
}

} // verus!
