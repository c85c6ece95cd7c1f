use vstd::prelude::*;
use crate::data::{DataType, Datum, Session, Value};
use crate::functions::{Function, FunctionSignature};
use crate::functions::registry::Registry;
use crate::functions::scalar::{
    one,
    register_scalar,
    registered,
    scalar_view,
    DefinitionView,
    ScalarFunction,
};

verus! {

#[derive(Debug)]
pub struct ToTextFromText {}

impl Function for ToTextFromText {
    open spec fn spec_execute(&self, ret: DataType, args: Seq<Value>) -> Value {
        if args.len() >= 1 {
            args[0]
        } else {
            Value::Null
        }
    }

    fn execute(&self, _session: &Session, _signature: &FunctionSignature, args: &[Datum]) -> (r:
        Datum<'static>)
    {
        if args.len() >= 1 {
            args[0].as_static()
        } else {
            Datum::Null
        }
    }
}

/// The definition of the cast to a text.
pub open spec fn spec_builtins() -> Seq<DefinitionView> {
    seq![
        scalar_view(
            "to_text"@,
            seq![DataType::Text],
            DataType::Text,
            ScalarFunction::ToTextFromText,
        ),
    ]
}

pub fn register_builtins(registry: &mut Registry)
    ensures
        registered(old(registry)@, final(registry)@, spec_builtins()),
{
    register_scalar(
        registry,
        "to_text",
        one(DataType::Text),
        DataType::Text,
        ScalarFunction::ToTextFromText,
    );
}

} // verus!
