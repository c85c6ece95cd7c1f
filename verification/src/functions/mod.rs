//! The catalog of functions: signatures, definitions and the built-in
//! scalar and aggregate functions.

use vstd::prelude::*;
use crate::data::{DataType, Datum, Session, Value};
use crate::data::tuple_iter::tuple_view;

pub mod aggregate;
pub mod registry;
pub mod scalar;

pub use aggregate::AggregateFunctionKind;
pub use registry::Registry;
pub use scalar::ScalarFunction;

verus! {

/// The signature for a function. Signatures are scanned to find a match during planning.
/// The planner may up-cast values to make them fit if needed.
/// For decimal types etc the matching process will ignore the type parameters.
/// When using this to lookup a function the ret type is populated
#[derive(Debug, Eq, PartialEq, Clone)]
pub struct FunctionSignature<'a> {
    pub name: &'a str,
    pub args: Vec<DataType>,
    pub ret: DataType,
}

/// Computes the return type of a function from the types of its arguments,
/// where the declared one does not say enough (the precision and scale of
/// a decimal).
#[derive(Debug, PartialEq, Eq, Structural, Clone, Copy)]
pub enum ReturnTypeResolver {
    /// The type of a sum or a difference of decimals.
    DecimalSum,
    /// The type of a product of decimals.
    DecimalProduct,
    /// The type of the first argument.
    FirstArgument,
}

/// The definition of a function, enough info for resolving types etc
#[derive(Debug)]
pub struct FunctionDefinition {
    pub signature: FunctionSignature<'static>,
    pub custom_return_type_resolver: Option<ReturnTypeResolver>,
    pub function: FunctionType,
}

#[derive(Debug)]
pub enum FunctionType {
    Scalar(ScalarFunction),
    Aggregate(AggregateFunctionKind),
    // A compound function is one where we actually just do type checking for,
    // and we then return this structure of sub-functions that the planner will
    // substitute in in place of the call that was written and then redo the
    // function resolution as per normal.
    Compound(CompoundFunction),
}

#[derive(Debug, Eq, PartialEq)]
pub struct CompoundFunction {
    pub function_name: &'static str,
    pub args: Vec<CompoundFunctionArg>,
}

#[derive(Debug, Eq, PartialEq)]
pub enum CompoundFunctionArg {
    Function(CompoundFunction),
    Input(usize),
}

/// Whether two compound functions are the same rewriting.
pub open spec fn same_compound(a: CompoundFunction, b: CompoundFunction) -> bool
    decreases a,
{
    &&& a.function_name == b.function_name
    &&& a.args@.len() == b.args@.len()
    &&& forall|i: int|
        0 <= i < a.args@.len() ==> match (#[trigger] a.args@[i], b.args@[i]) {
            (CompoundFunctionArg::Function(f), CompoundFunctionArg::Function(g)) => same_compound(
                f,
                g,
            ),
            (CompoundFunctionArg::Input(x), CompoundFunctionArg::Input(y)) => x == y,
            _ => false,
        }
}

/// Whether two functions are the same.
pub open spec fn same_function(a: FunctionType, b: FunctionType) -> bool {
    match (a, b) {
        (FunctionType::Scalar(f), FunctionType::Scalar(g)) => f == g,
        (FunctionType::Aggregate(f), FunctionType::Aggregate(g)) => f == g,
        (FunctionType::Compound(f), FunctionType::Compound(g)) => same_compound(f, g),
        _ => false,
    }
}

impl Clone for CompoundFunction {
    fn clone(&self) -> (r: Self)
        ensures
            same_compound(*self, r),
        decreases self,
    {
        let mut args: Vec<CompoundFunctionArg> = Vec::new();
        let mut i: usize = 0;
        while i < self.args.len()
            invariant
                i <= self.args@.len(),
                args@.len() == i,
                forall|k: int|
                    0 <= k < i ==> match (#[trigger] self.args@[k], args@[k]) {
                        (
                            CompoundFunctionArg::Function(f),
                            CompoundFunctionArg::Function(g),
                        ) => same_compound(f, g),
                        (CompoundFunctionArg::Input(x), CompoundFunctionArg::Input(y)) => x == y,
                        _ => false,
                    },
            decreases self.args@.len() - i,
        {
            proof {
                vstd::std_specs::vec::axiom_vec_index_decreases(self.args, i as int);
            }
            let arg = match &self.args[i] {
                CompoundFunctionArg::Function(f) => CompoundFunctionArg::Function(f.clone()),
                CompoundFunctionArg::Input(index) => CompoundFunctionArg::Input(*index),
            };
            args.push(arg);
            i += 1;
        }
        CompoundFunction { function_name: self.function_name, args }
    }
}

impl Clone for CompoundFunctionArg {
    fn clone(&self) -> (r: Self)
        ensures
            match (*self, r) {
                (CompoundFunctionArg::Function(f), CompoundFunctionArg::Function(g)) => same_compound(
                    f,
                    g,
                ),
                (CompoundFunctionArg::Input(x), CompoundFunctionArg::Input(y)) => x == y,
                _ => false,
            },
    {
        match self {
            CompoundFunctionArg::Function(f) => CompoundFunctionArg::Function(f.clone()),
            CompoundFunctionArg::Input(index) => CompoundFunctionArg::Input(*index),
        }
    }
}

impl Clone for FunctionType {
    fn clone(&self) -> (r: Self)
        ensures
            same_function(*self, r),
    {
        match self {
            FunctionType::Scalar(f) => FunctionType::Scalar(*f),
            FunctionType::Aggregate(f) => FunctionType::Aggregate(*f),
            FunctionType::Compound(f) => FunctionType::Compound(f.clone()),
        }
    }
}

/// The smaller of two bytes.
pub open spec fn spec_min_u8(a: int, b: int) -> u8 {
    if a <= b {
        a as u8
    } else {
        b as u8
    }
}

impl ReturnTypeResolver {
    /// The return type for the given argument types.
    ///
    /// For a sum of decimals of precisions `p1`, `p2` and scales `s1`, `s2`:
    /// the scale is the larger scale and the precision is
    /// `max(p1 - s1, p2 - s2) + max(s1, s2) + 1`, at most 28. For a product:
    /// precision `p1 + p2` and scale `s1 + s2`, each at most 28. Where only
    /// one side is a decimal, its type is the result.
    pub open spec fn spec_resolve(self, args: Seq<DataType>) -> DataType {
        if args.len() < 1 {
            DataType::Null
        } else if self == ReturnTypeResolver::FirstArgument || args.len() < 2 {
            args[0]
        } else {
            match (args[0], args[1]) {
                (DataType::Decimal(p1, s1), DataType::Decimal(p2, s2)) => match self {
                    ReturnTypeResolver::DecimalSum => {
                        let s = if s1 >= s2 {
                            s1
                        } else {
                            s2
                        };
                        let whole = if p1 - s1 >= p2 - s2 {
                            p1 - s1
                        } else {
                            p2 - s2
                        };
                        let whole = if whole < 0 {
                            0
                        } else {
                            whole
                        };
                        DataType::Decimal(spec_min_u8(whole + s + 1, 28), s)
                    },
                    _ => DataType::Decimal(spec_min_u8(p1 + p2, 28), spec_min_u8(s1 + s2, 28)),
                },
                // One side of the expression is a null constant, a bit of a bogus query...
                (DataType::Decimal(p, s), _) => DataType::Decimal(p, s),
                (_, DataType::Decimal(p, s)) => DataType::Decimal(p, s),
                _ => args[0],
            }
        }
    }

    pub fn resolve(&self, args: &[DataType]) -> (r: DataType)
        ensures
            r == self.spec_resolve(args@),
    {
        if args.len() < 1 {
            return DataType::Null;
        }
        if *self == ReturnTypeResolver::FirstArgument || args.len() < 2 {
            return args[0];
        }
        match (args[0], args[1]) {
            (DataType::Decimal(p1, s1), DataType::Decimal(p2, s2)) => match self {
                ReturnTypeResolver::DecimalSum => {
                    let s = if s1 >= s2 {
                        s1
                    } else {
                        s2
                    };
                    let w1: i32 = p1 as i32 - s1 as i32;
                    let w2: i32 = p2 as i32 - s2 as i32;
                    let whole = if w1 >= w2 {
                        w1
                    } else {
                        w2
                    };
                    let whole = if whole < 0 {
                        0
                    } else {
                        whole
                    };
                    let p = whole + s as i32 + 1;
                    DataType::Decimal(
                        if p <= 28 {
                            p as u8
                        } else {
                            28
                        },
                        s,
                    )
                },
                _ => {
                    let p = p1 as u32 + p2 as u32;
                    let s = s1 as u32 + s2 as u32;
                    DataType::Decimal(
                        if p <= 28 {
                            p as u8
                        } else {
                            28
                        },
                        if s <= 28 {
                            s as u8
                        } else {
                            28
                        },
                    )
                },
            },
            (DataType::Decimal(p, s), _) => DataType::Decimal(p, s),
            (_, DataType::Decimal(p, s)) => DataType::Decimal(p, s),
            _ => args[0],
        }
    }
}

impl FunctionType {
    /// Helper for tests, unwraps the scalar function inside
    pub fn as_scalar(&self) -> (f: ScalarFunction)
        requires
            self is Scalar,
        ensures
            *self == FunctionType::Scalar(f),
    {
        match self {
            FunctionType::Scalar(f) => *f,
            _ => vstd::pervasive::unreached(),
        }
    }

    /// Helper for tests, unwraps the aggregate function inside
    pub fn as_aggregate(&self) -> (f: AggregateFunctionKind)
        requires
            self is Aggregate,
        ensures
            *self == FunctionType::Aggregate(f),
    {
        match self {
            FunctionType::Aggregate(f) => *f,
            _ => vstd::pervasive::unreached(),
        }
    }
}

impl FunctionDefinition {
    pub fn new(name: &'static str, args: Vec<DataType>, ret: DataType, function: FunctionType) -> (d:
        Self)
        ensures
            d.signature.name == name,
            d.signature.args == args,
            d.signature.ret == ret,
            d.custom_return_type_resolver is None,
            d.function == function,
    {
        FunctionDefinition {
            signature: FunctionSignature { name, args, ret },
            custom_return_type_resolver: None,
            function,
        }
    }

    pub fn new_with_type_resolver(
        name: &'static str,
        args: Vec<DataType>,
        return_type_resolver: ReturnTypeResolver,
        function: FunctionType,
    ) -> (d: Self)
        ensures
            d.signature.name == name,
            d.signature.args == args,
            d.signature.ret == return_type_resolver.spec_resolve(args@),
            d.custom_return_type_resolver == Some(return_type_resolver),
            d.function == function,
    {
        let ret = return_type_resolver.resolve(args.as_slice());
        FunctionDefinition {
            signature: FunctionSignature { name, args, ret },
            custom_return_type_resolver: Some(return_type_resolver),
            function,
        }
    }
}

/// A function implementation
pub trait Function {
    /// What the function gives for the values of its arguments, under a
    /// signature whose return type is `ret`.
    spec fn spec_execute(&self, ret: DataType, args: Seq<Value>) -> Value;

    fn execute(&self, session: &Session, signature: &FunctionSignature, args: &[Datum]) -> (r:
        Datum<'static>)
        ensures
            r@ == self.spec_execute(signature.ret, tuple_view(args@)),
    ;
}

/// A function implementation for aggregate functions.
pub trait AggregateFunction {
    /// The state before any row.
    spec fn spec_initial(&self) -> Value;

    /// The state after a row with the given argument values and frequency.
    spec fn spec_apply(&self, state: Value, args: Seq<Value>, freq: i64) -> Value;

    /// The state that stands for the rows behind two states.
    spec fn spec_merge(&self, state: Value, input_state: Value) -> Value;

    /// Returns the size of the state (in number of datums) needed by this
    /// aggregate function
    fn state_size(&self) -> (n: usize)
        ensures
            n == 1,
    ;

    /// Initializes the initial state
    fn initialize(&self, state: &mut Vec<Datum<'static>>)
        ensures
            final(state)@.len() == 1,
            final(state)@[0]@ == self.spec_initial(),
    ;

    /// Applies the new input to the state, for retractable
    /// aggregates the freq is simply negative
    fn apply(
        &self,
        signature: &FunctionSignature,
        args: &[Datum],
        freq: i64,
        state: &mut Vec<Datum<'static>>,
    )
        requires
            old(state)@.len() == 1,
        ensures
            final(state)@.len() == 1,
            final(state)@[0]@ == self.spec_apply(old(state)@[0]@, tuple_view(args@), freq),
    ;

    /// Merges two states together.
    fn merge(
        &self,
        signature: &FunctionSignature,
        input_state: &[Datum<'static>],
        state: &mut Vec<Datum<'static>>,
    )
        requires
            old(state)@.len() == 1,
            input_state@.len() == 1,
        ensures
            final(state)@.len() == 1,
            final(state)@[0]@ == self.spec_merge(old(state)@[0]@, input_state@[0]@),
    ;

    /// Render the final result from the state
    fn finalize(&self, signature: &FunctionSignature, state: &[Datum<'static>]) -> (r: Datum<
        'static,
    >)
        requires
            state@.len() == 1,
        ensures
            r@ == state@[0]@,
    ;

    /// Can we undo records from this aggregate. Postgres calls these
    /// moving-aggregates, as well as supporting streaming group bys
    /// with allot less state it also makes window functions fast and
    /// efficient
    fn supports_retract(&self) -> bool;
}

/// The built-in functions, in the order in which they are registered:
/// the aggregate functions, then the scalar functions.
pub open spec fn spec_builtins() -> Seq<scalar::DefinitionView> {
    aggregate::spec_builtins() + scalar::spec_builtins()
}

/// Registers every built-in function: afterwards the registry holds what
/// it held, followed by the built-in functions.
pub fn register_builtins(registry: &mut Registry)
    ensures
        scalar::registered(old(registry)@, final(registry)@, spec_builtins()),
{
    let ghost s0 = registry@;
    aggregate::register_builtins(registry);
    let ghost s1 = registry@;
    scalar::register_builtins(registry);
    proof {
        scalar::lemma_registered_twice(
            s0,
            s1,
            registry@,
            aggregate::spec_builtins(),
            scalar::spec_builtins(),
        );
    }
}

} // verus!
