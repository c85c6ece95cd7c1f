use vstd::prelude::*;
use vstd::string::StringSliceAdditionalSpecFns;
use crate::data::{DataType, Datum, Session, Value};
use crate::data::text::{eq_ignore_case, spec_eq_ignore_case};
use crate::functions::{Function, FunctionSignature};
use crate::functions::registry::Registry;
use crate::functions::scalar::{
    lemma_registered_twice,
    one,
    register_scalar,
    registered,
    scalar_view,
    DefinitionView,
    ScalarFunction,
};

verus! {

#[derive(Debug)]
pub struct ToBooleanFromBoolean {}

impl Function for ToBooleanFromBoolean {
    open spec fn spec_execute(&self, ret: DataType, args: Seq<Value>) -> Value {
        if args.len() >= 1 {
            args[0]
        } else {
            Value::Null
        }
    }

    fn execute(&self, _session: &Session, _signature: &FunctionSignature, args: &[Datum]) -> (r:
        Datum<'static>)
    {
        if args.len() >= 1 {
            args[0].as_static()
        } else {
            Datum::Null
        }
    }
}

/// The text `true` or `false`, in any case of its letters, as a boolean.
#[derive(Debug)]
pub struct ToBooleanFromText {}

impl Function for ToBooleanFromText {
    open spec fn spec_execute(&self, ret: DataType, args: Seq<Value>) -> Value {
        if args.len() >= 1 {
            match args[0] {
                Value::Bytes(a) => if spec_eq_ignore_case(a, "true".spec_bytes()) {
                    Value::Boolean(true)
                } else if spec_eq_ignore_case(a, "false".spec_bytes()) {
                    Value::Boolean(false)
                } else {
                    Value::Null
                },
                _ => Value::Null,
            }
        } else {
            Value::Null
        }
    }

    fn execute(&self, _session: &Session, _signature: &FunctionSignature, args: &[Datum]) -> (r:
        Datum<'static>)
    {
        if args.len() < 1 {
            return Datum::Null;
        }
        if let Some(a) = args[0].as_maybe_text() {
            if eq_ignore_case(a, "true".as_bytes()) {
                Datum::Boolean(true)
            } else if eq_ignore_case(a, "false".as_bytes()) {
                Datum::Boolean(false)
            } else {
                Datum::Null
            }
        } else {
            Datum::Null
        }
    }
}

/// The definitions of the cast to a boolean.
pub open spec fn spec_builtins() -> Seq<DefinitionView> {
    seq![
        scalar_view(
            "to_bool"@,
            seq![DataType::Boolean],
            DataType::Boolean,
            ScalarFunction::ToBooleanFromBoolean,
        ),
        scalar_view(
            "to_bool"@,
            seq![DataType::Text],
            DataType::Boolean,
            ScalarFunction::ToBooleanFromText,
        ),
    ]
}

pub fn register_builtins(registry: &mut Registry)
    ensures
        registered(old(registry)@, final(registry)@, spec_builtins()),
{
    let ghost s0 = registry@;
    register_scalar(
        registry,
        "to_bool",
        one(DataType::Boolean),
        DataType::Boolean,
        ScalarFunction::ToBooleanFromBoolean,
    );
    let ghost s1 = registry@;
    register_scalar(
        registry,
        "to_bool",
        one(DataType::Text),
        DataType::Boolean,
        ScalarFunction::ToBooleanFromText,
    );
    proof {
        lemma_registered_twice(
            s0,
            s1,
            registry@,
            seq![spec_builtins()[0]],
            seq![spec_builtins()[1]],
        );
        assert(seq![spec_builtins()[0]] + seq![spec_builtins()[1]] =~= spec_builtins());
    }
}

} // verus!
