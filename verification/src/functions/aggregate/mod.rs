//! The built-in aggregate functions.

use vstd::prelude::*;
use crate::data::{DataType, Datum, Value};
use crate::functions::{AggregateFunction, FunctionDefinition, FunctionSignature, FunctionType};
use crate::functions::registry::Registry;
use crate::functions::scalar::{lemma_registered_twice, one, registered, DefinitionView};

verus! {

/// A built-in aggregate function.
#[derive(Debug, PartialEq, Eq, Structural, Clone, Copy)]
pub enum AggregateFunctionKind {
    /// Counts rows: all of them without an argument, else those whose
    /// argument is not null.
    Count,
    /// Adds up integers into a big integer.
    Sum,
}

/// Counts rows, each as often as its frequency says.
#[derive(Debug)]
pub struct Count {}

/// Adds up integers or big integers, each as often as its frequency says.
#[derive(Debug)]
pub struct Sum {}

/// The big integer that a state holds, zero for any other state.
pub open spec fn state_value(state: Value) -> i64 {
    match state {
        Value::BigInt(n) => n,
        _ => 0,
    }
}

fn read_state(state: &Vec<Datum<'static>>) -> (n: i64)
    requires
        state@.len() == 1,
    ensures
        n == state_value(state@[0]@),
{
    match state[0].as_maybe_bigint() {
        Some(n) => n,
        None => 0,
    }
}

fn write_state(state: &mut Vec<Datum<'static>>, value: Datum<'static>)
    ensures
        final(state)@.len() == 1,
        final(state)@[0] == value,
{
    state.clear();
    state.push(value);
}

impl AggregateFunction for Count {
    open spec fn spec_initial(&self) -> Value {
        Value::BigInt(0)
    }

    open spec fn spec_apply(&self, state: Value, args: Seq<Value>, freq: i64) -> Value {
        if args.len() == 0 || !(args[0] is Null) {
            Value::BigInt(state_value(state).wrapping_add(freq))
        } else {
            Value::BigInt(state_value(state))
        }
    }

    open spec fn spec_merge(&self, state: Value, input_state: Value) -> Value {
        Value::BigInt(state_value(state).wrapping_add(state_value(input_state)))
    }

    fn state_size(&self) -> (n: usize) {
        1
    }

    fn initialize(&self, state: &mut Vec<Datum<'static>>) {
        write_state(state, Datum::BigInt(0));
    }

    fn apply(
        &self,
        _signature: &FunctionSignature,
        args: &[Datum],
        freq: i64,
        state: &mut Vec<Datum<'static>>,
    ) {
        let current = read_state(state);
        if args.len() == 0 || !args[0].is_null() {
            write_state(state, Datum::BigInt(current.wrapping_add(freq)));
        } else {
            write_state(state, Datum::BigInt(current));
        }
    }

    fn merge(
        &self,
        _signature: &FunctionSignature,
        input_state: &[Datum<'static>],
        state: &mut Vec<Datum<'static>>,
    ) {
        let current = read_state(state);
        let other = match input_state[0].as_maybe_bigint() {
            Some(n) => n,
            None => 0,
        };
        write_state(state, Datum::BigInt(current.wrapping_add(other)));
    }

    fn finalize(&self, _signature: &FunctionSignature, state: &[Datum<'static>]) -> (r: Datum<
        'static,
    >) {
        state[0].as_static()
    }

    fn supports_retract(&self) -> bool {
        true
    }
}

/// The number that a row adds to a sum: its argument times its frequency.
pub open spec fn summand(args: Seq<Value>, freq: i64) -> Option<i64> {
    if args.len() == 0 {
        None
    } else {
        match args[0] {
            Value::Integer(a) => Some((a as i64).wrapping_mul(freq)),
            Value::BigInt(a) => Some(a.wrapping_mul(freq)),
            _ => None,
        }
    }
}

impl AggregateFunction for Sum {
    open spec fn spec_initial(&self) -> Value {
        Value::Null
    }

    open spec fn spec_apply(&self, state: Value, args: Seq<Value>, freq: i64) -> Value {
        match summand(args, freq) {
            Some(n) => Value::BigInt(state_value(state).wrapping_add(n)),
            None => state,
        }
    }

    open spec fn spec_merge(&self, state: Value, input_state: Value) -> Value {
        match input_state {
            Value::BigInt(n) => Value::BigInt(state_value(state).wrapping_add(n)),
            _ => state,
        }
    }

    fn state_size(&self) -> (n: usize) {
        1
    }

    fn initialize(&self, state: &mut Vec<Datum<'static>>) {
        write_state(state, Datum::Null);
    }

    fn apply(
        &self,
        _signature: &FunctionSignature,
        args: &[Datum],
        freq: i64,
        state: &mut Vec<Datum<'static>>,
    ) {
        if args.len() == 0 {
            return ;
        }
        let n = match &args[0] {
            Datum::Integer(a) => (*a as i64).wrapping_mul(freq),
            Datum::BigInt(a) => a.wrapping_mul(freq),
            _ => {
                return ;
            },
        };
        let current = read_state(state);
        write_state(state, Datum::BigInt(current.wrapping_add(n)));
    }

    fn merge(
        &self,
        _signature: &FunctionSignature,
        input_state: &[Datum<'static>],
        state: &mut Vec<Datum<'static>>,
    ) {
        match input_state[0].as_maybe_bigint() {
            Some(n) => {
                let current = read_state(state);
                write_state(state, Datum::BigInt(current.wrapping_add(n)));
            },
            None => {},
        }
    }

    fn finalize(&self, _signature: &FunctionSignature, state: &[Datum<'static>]) -> (r: Datum<
        'static,
    >) {
        state[0].as_static()
    }

    fn supports_retract(&self) -> bool {
        true
    }
}

impl AggregateFunction for AggregateFunctionKind {
    open spec fn spec_initial(&self) -> Value {
        match self {
            AggregateFunctionKind::Count => (Count {  }).spec_initial(),
            AggregateFunctionKind::Sum => (Sum {  }).spec_initial(),
        }
    }

    open spec fn spec_apply(&self, state: Value, args: Seq<Value>, freq: i64) -> Value {
        match self {
            AggregateFunctionKind::Count => (Count {  }).spec_apply(state, args, freq),
            AggregateFunctionKind::Sum => (Sum {  }).spec_apply(state, args, freq),
        }
    }

    open spec fn spec_merge(&self, state: Value, input_state: Value) -> Value {
        match self {
            AggregateFunctionKind::Count => (Count {  }).spec_merge(state, input_state),
            AggregateFunctionKind::Sum => (Sum {  }).spec_merge(state, input_state),
        }
    }

    fn state_size(&self) -> (n: usize) {
        1
    }

    fn initialize(&self, state: &mut Vec<Datum<'static>>) {
        match self {
            AggregateFunctionKind::Count => (Count {  }).initialize(state),
            AggregateFunctionKind::Sum => (Sum {  }).initialize(state),
        }
    }

    fn apply(
        &self,
        signature: &FunctionSignature,
        args: &[Datum],
        freq: i64,
        state: &mut Vec<Datum<'static>>,
    ) {
        match self {
            AggregateFunctionKind::Count => (Count {  }).apply(signature, args, freq, state),
            AggregateFunctionKind::Sum => (Sum {  }).apply(signature, args, freq, state),
        }
    }

    fn merge(
        &self,
        signature: &FunctionSignature,
        input_state: &[Datum<'static>],
        state: &mut Vec<Datum<'static>>,
    ) {
        match self {
            AggregateFunctionKind::Count => (Count {  }).merge(signature, input_state, state),
            AggregateFunctionKind::Sum => (Sum {  }).merge(signature, input_state, state),
        }
    }

    fn finalize(&self, signature: &FunctionSignature, state: &[Datum<'static>]) -> (r: Datum<
        'static,
    >) {
        state[0].as_static()
    }

    fn supports_retract(&self) -> bool {
        true
    }
}

/// The definition of an aggregate function.
pub open spec fn aggregate_view(
    name: Seq<char>,
    args: Seq<DataType>,
    ret: DataType,
    function: AggregateFunctionKind,
) -> DefinitionView {
    DefinitionView { name, args, ret, resolver: None, function: FunctionType::Aggregate(function) }
}

fn register_aggregate(
    registry: &mut Registry,
    name: &'static str,
    args: Vec<DataType>,
    ret: DataType,
    function: AggregateFunctionKind,
)
    ensures
        registered(
            old(registry)@,
            final(registry)@,
            seq![aggregate_view(name@, args@, ret, function)],
        ),
{
    let ghost before = registry@;
    registry.register_function(
        FunctionDefinition::new(name, args, ret, FunctionType::Aggregate(function)),
    );
    assert(registry@.subrange(0, before.len() as int) =~= before);
}

/// The built-in aggregate functions, in the order in which they are
/// registered: `count` of all rows and of the rows with a value of each
/// type, and `sum` of integers and of big integers.
pub open spec fn spec_builtins() -> Seq<DefinitionView> {
    seq![
        aggregate_view("count"@, Seq::empty(), DataType::BigInt, AggregateFunctionKind::Count),
        aggregate_view(
            "count"@,
            seq![DataType::Boolean],
            DataType::BigInt,
            AggregateFunctionKind::Count,
        ),
        aggregate_view(
            "count"@,
            seq![DataType::Integer],
            DataType::BigInt,
            AggregateFunctionKind::Count,
        ),
        aggregate_view(
            "count"@,
            seq![DataType::BigInt],
            DataType::BigInt,
            AggregateFunctionKind::Count,
        ),
        aggregate_view(
            "count"@,
            seq![DataType::Decimal(0, 0)],
            DataType::BigInt,
            AggregateFunctionKind::Count,
        ),
        aggregate_view(
            "count"@,
            seq![DataType::Text],
            DataType::BigInt,
            AggregateFunctionKind::Count,
        ),
        aggregate_view(
            "sum"@,
            seq![DataType::Integer],
            DataType::BigInt,
            AggregateFunctionKind::Sum,
        ),
        aggregate_view(
            "sum"@,
            seq![DataType::BigInt],
            DataType::BigInt,
            AggregateFunctionKind::Sum,
        ),
    ]
}

pub fn register_builtins(registry: &mut Registry)
    ensures
        registered(old(registry)@, final(registry)@, spec_builtins()),
{
    let ghost s0 = registry@;
    register_aggregate(
        registry,
        "count",
        Vec::new(),
        DataType::BigInt,
        AggregateFunctionKind::Count,
    );
    let ghost s1 = registry@;
    register_aggregate(
        registry,
        "count",
        one(DataType::Boolean),
        DataType::BigInt,
        AggregateFunctionKind::Count,
    );
    let ghost s2 = registry@;
    register_aggregate(
        registry,
        "count",
        one(DataType::Integer),
        DataType::BigInt,
        AggregateFunctionKind::Count,
    );
    let ghost s3 = registry@;
    register_aggregate(
        registry,
        "count",
        one(DataType::BigInt),
        DataType::BigInt,
        AggregateFunctionKind::Count,
    );
    let ghost s4 = registry@;
    register_aggregate(
        registry,
        "count",
        one(DataType::Decimal(0, 0)),
        DataType::BigInt,
        AggregateFunctionKind::Count,
    );
    let ghost s5 = registry@;
    register_aggregate(
        registry,
        "count",
        one(DataType::Text),
        DataType::BigInt,
        AggregateFunctionKind::Count,
    );
    let ghost s6 = registry@;
    register_aggregate(
        registry,
        "sum",
        one(DataType::Integer),
        DataType::BigInt,
        AggregateFunctionKind::Sum,
    );
    let ghost s7 = registry@;
    register_aggregate(
        registry,
        "sum",
        one(DataType::BigInt),
        DataType::BigInt,
        AggregateFunctionKind::Sum,
    );
    proof {
        lemma_registered_twice(s0, s1, s2, seq![spec_builtins()[0]], seq![spec_builtins()[1]]);
        let l2 = seq![spec_builtins()[0]] + seq![spec_builtins()[1]];
        lemma_registered_twice(s0, s2, s3, l2, seq![spec_builtins()[2]]);
        lemma_registered_twice(s0, s3, s4, l2 + seq![spec_builtins()[2]], seq![spec_builtins()[3]]);
        let l4 = l2 + seq![spec_builtins()[2]] + seq![spec_builtins()[3]];
        lemma_registered_twice(s0, s4, s5, l4, seq![spec_builtins()[4]]);
        lemma_registered_twice(s0, s5, s6, l4 + seq![spec_builtins()[4]], seq![spec_builtins()[5]]);
        let l6 = l4 + seq![spec_builtins()[4]] + seq![spec_builtins()[5]];
        lemma_registered_twice(s0, s6, s7, l6, seq![spec_builtins()[6]]);
        lemma_registered_twice(
            s0,
            s7,
            registry@,
            l6 + seq![spec_builtins()[6]],
            seq![spec_builtins()[7]],
        );
        assert(l6 + seq![spec_builtins()[6]] + seq![spec_builtins()[7]] =~= spec_builtins());
    }
}

} // verus!
