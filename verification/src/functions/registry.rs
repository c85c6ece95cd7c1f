//! The registry of functions and the resolution of a call to one of them.

use vstd::prelude::*;
use crate::data::DataType;
use crate::functions::{same_function, FunctionDefinition, FunctionSignature, FunctionType};
use crate::functions::scalar::registered;

verus! {

/// Indexes function definitions by name.
#[derive(Debug)]
pub struct Registry {
    functions: Vec<FunctionDefinition>,
}

impl View for Registry {
    type V = Seq<FunctionDefinition>;

    closed spec fn view(&self) -> Seq<FunctionDefinition> {
        self.functions@
    }
}

/// What it costs to hand a value of type `from` to a parameter declared as
/// `to`: nothing where the kinds agree, more the further the value has to
/// be widened, and no way at all where it cannot be. Null fits everywhere;
/// an integer widens to a big integer and on to a decimal; text and JSON
/// are never converted without a cast.
pub open spec fn spec_widening_cost(from: DataType, to: DataType) -> Option<nat> {
    if from.spec_same_kind(to) {
        Some(0)
    } else {
        match (from, to) {
            (DataType::Null, _) => Some(1),
            (DataType::Integer, DataType::BigInt) => Some(1),
            (DataType::Integer, DataType::Decimal(_, _)) => Some(2),
            (DataType::BigInt, DataType::Decimal(_, _)) => Some(1),
            _ => None,
        }
    }
}

pub fn widening_cost(from: DataType, to: DataType) -> (r: Option<u32>)
    ensures
        match r {
            Some(c) => spec_widening_cost(from, to) == Some(c as nat) && c <= 2,
            None => spec_widening_cost(from, to) is None,
        },
{
    if from.same_kind(&to) {
        Some(0)
    } else {
        match (from, to) {
            (DataType::Null, _) => Some(1),
            (DataType::Integer, DataType::BigInt) => Some(1),
            (DataType::Integer, DataType::Decimal(_, _)) => Some(2),
            (DataType::BigInt, DataType::Decimal(_, _)) => Some(1),
            _ => None,
        }
    }
}

/// The cost of handing arguments of the given types to parameters declared
/// as `declared`, from argument `i` on; nothing where an argument does not
/// fit or the numbers differ.
pub open spec fn spec_match_cost(actual: Seq<DataType>, declared: Seq<DataType>, i: int) -> Option<
    nat,
>
    decreases actual.len() - i,
{
    if actual.len() != declared.len() {
        None
    } else if i < 0 || i >= actual.len() {
        Some(0)
    } else {
        match (spec_widening_cost(actual[i], declared[i]), spec_match_cost(actual, declared, i + 1)) {
            (Some(a), Some(b)) => Some(a + b),
            _ => None,
        }
    }
}

pub fn match_cost(actual: &[DataType], declared: &[DataType]) -> (r: Option<u128>)
    ensures
        match r {
            Some(c) => spec_match_cost(actual@, declared@, 0) == Some(c as nat),
            None => spec_match_cost(actual@, declared@, 0) is None,
        },
{
    if actual.len() != declared.len() {
        return None;
    }
    let n = actual.len();
    let mut total: u128 = 0;
    let mut i: usize = n;
    while i > 0
        invariant
            i <= n,
            n == actual@.len(),
            n == declared@.len(),
            spec_match_cost(actual@, declared@, i as int) == Some(total as nat),
            total <= 2 * (n - i),
        decreases i,
    {
        i -= 1;
        match widening_cost(actual[i], declared[i]) {
            Some(c) => {
                total = total + c as u128;
            },
            None => {
                proof {
                    lemma_no_match_from(actual@, declared@, i as int, 0);
                }
                return None;
            },
        }
    }
    Some(total)
}

/// Where one argument does not fit, the arguments do not fit from any
/// earlier one on either.
pub proof fn lemma_no_match_from(actual: Seq<DataType>, declared: Seq<DataType>, bad: int, i: int)
    requires
        actual.len() == declared.len(),
        0 <= i <= bad < actual.len(),
        spec_widening_cost(actual[bad], declared[bad]) is None,
    ensures
        spec_match_cost(actual, declared, i) is None,
    decreases bad - i,
{
    if i < bad {
        lemma_no_match_from(actual, declared, bad, i + 1);
    }
}

/// Whether a definition can take a call of the given name and argument types.
pub open spec fn candidate_cost(
    definition: FunctionDefinition,
    name: Seq<char>,
    args: Seq<DataType>,
) -> Option<nat> {
    if definition.signature.name@ == name {
        spec_match_cost(args, definition.signature.args@, 0)
    } else {
        None
    }
}

/// The definition that a call resolves to among the first `n`: the one
/// whose parameters the arguments reach at the least cost, and of several
/// such the one registered first.
pub open spec fn spec_best(
    definitions: Seq<FunctionDefinition>,
    name: Seq<char>,
    args: Seq<DataType>,
    n: int,
) -> Option<(int, nat)>
    decreases n,
{
    if n <= 0 || n > definitions.len() {
        None
    } else {
        let earlier = spec_best(definitions, name, args, n - 1);
        match candidate_cost(definitions[n - 1], name, args) {
            Some(cost) => match earlier {
                Some((index, best)) => if cost < best {
                    Some((n - 1, cost))
                } else {
                    earlier
                },
                None => Some((n - 1, cost)),
            },
            None => earlier,
        }
    }
}

/// The definition that a call resolves to is one that can take the call.
pub proof fn lemma_best_is_candidate(
    definitions: Seq<FunctionDefinition>,
    name: Seq<char>,
    args: Seq<DataType>,
    n: int,
)
    requires
        0 <= n <= definitions.len(),
    ensures
        spec_best(definitions, name, args, n) matches Some((i, cost)) ==> 0 <= i < n
            && candidate_cost(definitions[i], name, args) == Some(cost),
    decreases n,
{
    if n > 0 {
        lemma_best_is_candidate(definitions, name, args, n - 1);
    }
}

/// The precision of a decimal that takes an integer of any value: ten
/// digits and a sign.
pub const INTEGER_AS_DECIMAL_PRECISION: u8 = 11;

/// The precision of a decimal that takes a big integer of any value:
/// nineteen digits and a sign.
pub const BIGINT_AS_DECIMAL_PRECISION: u8 = 20;

/// The type that an argument is brought to for a parameter: the declared
/// type, but for a decimal parameter the type of the argument itself where
/// that is a decimal, and a decimal wide enough for the argument where that
/// is an integer.
pub open spec fn spec_resolved_arg(actual: DataType, declared: DataType) -> DataType {
    match (declared, actual) {
        (DataType::Decimal(_, _), DataType::Decimal(p, s)) => DataType::Decimal(p, s),
        (DataType::Decimal(_, _), DataType::Integer) => DataType::Decimal(
            INTEGER_AS_DECIMAL_PRECISION,
            0,
        ),
        (DataType::Decimal(_, _), DataType::BigInt) => DataType::Decimal(
            BIGINT_AS_DECIMAL_PRECISION,
            0,
        ),
        _ => declared,
    }
}

pub fn resolved_arg(actual: DataType, declared: DataType) -> (r: DataType)
    ensures
        r == spec_resolved_arg(actual, declared),
{
    match (declared, actual) {
        (DataType::Decimal(_, _), DataType::Decimal(p, s)) => DataType::Decimal(p, s),
        (DataType::Decimal(_, _), DataType::Integer) => DataType::Decimal(
            INTEGER_AS_DECIMAL_PRECISION,
            0,
        ),
        (DataType::Decimal(_, _), DataType::BigInt) => DataType::Decimal(
            BIGINT_AS_DECIMAL_PRECISION,
            0,
        ),
        _ => declared,
    }
}

/// The types that the arguments of a call are brought to.
pub open spec fn spec_resolved_args(actual: Seq<DataType>, declared: Seq<DataType>) -> Seq<
    DataType,
> {
    Seq::new(
        declared.len(),
        |i: int|
            if i < actual.len() {
                spec_resolved_arg(actual[i], declared[i])
            } else {
                declared[i]
            },
    )
}

/// The signature that a call with arguments of the given types takes on
/// under a definition: the name of the definition, the types that the
/// arguments are brought to, and the return type, which the resolver of
/// the definition computes from those types where it has one.
pub open spec fn spec_signature_matches(
    definition: FunctionDefinition,
    args: Seq<DataType>,
    signature: FunctionSignature<'static>,
) -> bool {
    &&& signature.name == definition.signature.name
    &&& signature.args@ == spec_resolved_args(args, definition.signature.args@)
    &&& signature.ret == match definition.custom_return_type_resolver {
        Some(resolver) => resolver.spec_resolve(signature.args@),
        None => definition.signature.ret,
    }
}

impl Registry {
    /// A registry, empty or with the built-in functions: with them it
    /// holds the built-in definitions, in their order, and nothing else.
    pub fn new(register_builtins: bool) -> (r: Registry)
        ensures
            registered(
                Seq::empty(),
                r@,
                if register_builtins {
                    crate::functions::spec_builtins()
                } else {
                    Seq::empty()
                },
            ),
    {
        let mut registry = Registry { functions: Vec::new() };
        assert(registry@.subrange(0, 0) =~= Seq::empty());
        if register_builtins {
            crate::functions::register_builtins(&mut registry);
        }
        registry
    }

    pub fn register_function(&mut self, function_definition: FunctionDefinition)
        ensures
            final(self)@ == old(self)@.push(function_definition),
    {
        self.functions.push(function_definition);
    }

    /// The number of definitions.
    pub fn len(&self) -> (n: usize)
        ensures
            n == self@.len(),
    {
        self.functions.len()
    }

    /// The definition at `index`, in the order of registration.
    pub fn definition(&self, index: usize) -> (d: &FunctionDefinition)
        requires
            index < self@.len(),
        ensures
            *d == self@[index as int],
    {
        &self.functions[index]
    }

    /// Finds the definition that a call of the given name with arguments of
    /// the given types resolves to.
    pub fn find(&self, name: &str, args: &[DataType]) -> (r: Option<usize>)
        ensures
            match r {
                Some(index) => spec_best(self@, name@, args@, self@.len() as int) matches Some(
                    (i, _),
                ) && i == index && index < self@.len(),
                None => spec_best(self@, name@, args@, self@.len() as int) is None,
            },
    {
        let mut best: Option<(usize, u128)> = None;
        let mut n: usize = 0;
        while n < self.functions.len()
            invariant
                n <= self.functions@.len(),
                match best {
                    Some((index, cost)) => spec_best(self@, name@, args@, n as int) == Some(
                        (index as int, cost as nat),
                    ) && index < n,
                    None => spec_best(self@, name@, args@, n as int) is None,
                },
            decreases self.functions@.len() - n,
        {
            let definition = &self.functions[n];
            if str_eq(definition.signature.name, name) {
                match match_cost(args, definition.signature.args.as_slice()) {
                    Some(cost) => {
                        match best {
                            Some((_, least)) => {
                                if cost < least {
                                    best = Some((n, cost));
                                }
                            },
                            None => {
                                best = Some((n, cost));
                            },
                        }
                    },
                    None => {},
                }
            }
            n += 1;
        }
        match best {
            Some((index, _)) => Some(index),
            None => None,
        }
    }

    /// The signature that a call with arguments of the given types takes
    /// on under the definition at `index`, and the function behind it.
    pub fn resolve_at(&self, index: usize, args: &[DataType]) -> (r: (
        FunctionSignature<'static>,
        FunctionType,
    ))
        requires
            index < self@.len(),
        ensures
            spec_signature_matches(self@[index as int], args@, r.0),
            same_function(self@[index as int].function, r.1),
    {
        let definition = &self.functions[index];
        let declared = definition.signature.args.as_slice();
        let mut resolved: Vec<DataType> = Vec::new();
        let mut i: usize = 0;
        while i < declared.len()
            invariant
                i <= declared@.len(),
                resolved@ == spec_resolved_args(args@, declared@).subrange(0, i as int),
            decreases declared@.len() - i,
        {
            let t = if i < args.len() {
                resolved_arg(args[i], declared[i])
            } else {
                declared[i]
            };
            resolved.push(t);
            assert(resolved@ =~= spec_resolved_args(args@, declared@).subrange(0, i + 1));
            i += 1;
        }
        assert(resolved@ =~= spec_resolved_args(args@, declared@));
        let ret = match definition.custom_return_type_resolver {
            Some(resolver) => resolver.resolve(resolved.as_slice()),
            None => definition.signature.ret,
        };
        let function = definition.function.clone();
        (FunctionSignature { name: definition.signature.name, args: resolved, ret }, function)
    }

    /// Resolves a call: the signature that the call takes on, with the
    /// types its arguments are to be brought to and its return type, and
    /// the function behind it. Nothing where no definition fits.
    pub fn resolve_function(&self, name: &str, args: &[DataType]) -> (r: Option<
        (FunctionSignature<'static>, FunctionType),
    >)
        ensures
            match r {
                Some((signature, function)) => spec_best(
                    self@,
                    name@,
                    args@,
                    self@.len() as int,
                ) matches Some((i, _)) && 0 <= i < self@.len() && spec_signature_matches(
                    self@[i],
                    args@,
                    signature,
                ) && same_function(self@[i].function, function) && signature.name@ == name@,
                None => spec_best(self@, name@, args@, self@.len() as int) is None,
            },
    {
        match self.find(name, args) {
            Some(index) => {
                proof {
                    lemma_best_is_candidate(self@, name@, args@, self@.len() as int);
                }
                Some(self.resolve_at(index, args))
            },
            None => None,
        }
    }
}

/// Whether two texts are the same.
pub fn str_eq(a: &str, b: &str) -> (r: bool)
    ensures
        r == (a@ == b@),
{
    proof {
        vstd::utf8::encode_utf8_decode_utf8(a@);
        vstd::utf8::encode_utf8_decode_utf8(b@);
    }
    crate::data::text::bytes_eq(a.as_bytes(), b.as_bytes())
}

} // verus!
