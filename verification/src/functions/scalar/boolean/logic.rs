use vstd::prelude::*;
use crate::data::{DataType, Datum, Session, Value};
use crate::functions::{Function, FunctionSignature};
use crate::functions::registry::Registry;
use crate::functions::scalar::{
    lemma_registered_twice,
    one,
    register_scalar,
    registered,
    scalar_view,
    two,
    DefinitionView,
    ScalarFunction,
};

verus! {

/// `a AND b`: null where either side is null.
#[derive(Debug)]
pub struct And {}

/// `a OR b`: null where either side is null.
#[derive(Debug)]
pub struct Or {}

/// `NOT a`.
#[derive(Debug)]
pub struct Not {}

impl Function for And {
    open spec fn spec_execute(&self, ret: DataType, args: Seq<Value>) -> Value {
        if args.len() >= 2 {
            match (args[0], args[1]) {
                (Value::Boolean(a), Value::Boolean(b)) => Value::Boolean(a && b),
                _ => Value::Null,
            }
        } else {
            Value::Null
        }
    }

    fn execute(&self, _session: &Session, _signature: &FunctionSignature, args: &[Datum]) -> (r:
        Datum<'static>)
    {
        if args.len() < 2 {
            return Datum::Null;
        }
        match (args[0].as_maybe_boolean(), args[1].as_maybe_boolean()) {
            (Some(a), Some(b)) => Datum::Boolean(a && b),
            _ => Datum::Null,
        }
    }
}

impl Function for Or {
    open spec fn spec_execute(&self, ret: DataType, args: Seq<Value>) -> Value {
        if args.len() >= 2 {
            match (args[0], args[1]) {
                (Value::Boolean(a), Value::Boolean(b)) => Value::Boolean(a || b),
                _ => Value::Null,
            }
        } else {
            Value::Null
        }
    }

    fn execute(&self, _session: &Session, _signature: &FunctionSignature, args: &[Datum]) -> (r:
        Datum<'static>)
    {
        if args.len() < 2 {
            return Datum::Null;
        }
        match (args[0].as_maybe_boolean(), args[1].as_maybe_boolean()) {
            (Some(a), Some(b)) => Datum::Boolean(a || b),
            _ => Datum::Null,
        }
    }
}

impl Function for Not {
    open spec fn spec_execute(&self, ret: DataType, args: Seq<Value>) -> Value {
        if args.len() >= 1 {
            match args[0] {
                Value::Boolean(a) => Value::Boolean(!a),
                _ => Value::Null,
            }
        } else {
            Value::Null
        }
    }

    fn execute(&self, _session: &Session, _signature: &FunctionSignature, args: &[Datum]) -> (r:
        Datum<'static>)
    {
        if args.len() < 1 {
            return Datum::Null;
        }
        match args[0].as_maybe_boolean() {
            Some(a) => Datum::Boolean(!a),
            None => Datum::Null,
        }
    }
}

/// The definitions of `and`, `or` and `not`.
pub open spec fn spec_builtins() -> Seq<DefinitionView> {
    seq![
        scalar_view(
            "and"@,
            seq![DataType::Boolean, DataType::Boolean],
            DataType::Boolean,
            ScalarFunction::And,
        ),
        scalar_view(
            "or"@,
            seq![DataType::Boolean, DataType::Boolean],
            DataType::Boolean,
            ScalarFunction::Or,
        ),
        scalar_view("not"@, seq![DataType::Boolean], DataType::Boolean, ScalarFunction::Not),
    ]
}

pub fn register_builtins(registry: &mut Registry)
    ensures
        registered(old(registry)@, final(registry)@, spec_builtins()),
{
    let ghost s0 = registry@;
    register_scalar(
        registry,
        "and",
        two(DataType::Boolean, DataType::Boolean),
        DataType::Boolean,
        ScalarFunction::And,
    );
    let ghost s1 = registry@;
    register_scalar(
        registry,
        "or",
        two(DataType::Boolean, DataType::Boolean),
        DataType::Boolean,
        ScalarFunction::Or,
    );
    let ghost s2 = registry@;
    register_scalar(
        registry,
        "not",
        one(DataType::Boolean),
        DataType::Boolean,
        ScalarFunction::Not,
    );
    proof {
        lemma_registered_twice(s0, s1, s2, seq![spec_builtins()[0]], seq![spec_builtins()[1]]);
        let l2 = seq![spec_builtins()[0]] + seq![spec_builtins()[1]];
        lemma_registered_twice(s0, s2, registry@, l2, seq![spec_builtins()[2]]);
        assert(l2 + seq![spec_builtins()[2]] =~= spec_builtins());
    }
}

} // verus!
