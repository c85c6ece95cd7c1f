//! What compiling an expression gives, stated over the models of
//! expressions.

use vstd::prelude::*;
use crate::ast::model::{model_compiled, model_type, model_types, ExpressionModel, SignatureModel};
use vstd::string::StringSliceAdditionalSpecFns;
use crate::ast::expr::identifier_text;
use crate::catalog::CatalogError;
use crate::storage::StorageError;
use crate::data::{DataType, Value};
use crate::data::text::lossy_text;
use crate::data::encoding_core::digit_count;
use crate::functions::{
    same_compound,
    CompoundFunction,
    CompoundFunctionArg,
    FunctionDefinition,
    FunctionType,
};
use crate::functions::registry::{spec_best, spec_resolved_args};
use crate::planner::{FieldView, PlannerError};

verus! {

/// An error of the catalog, as a value: the table that was not found,
/// with its database, the message of a store that cannot be read, or
/// another error.
pub enum CatalogFailure {
    TableNotFound(Seq<char>, Seq<char>),
    Unreadable(Seq<char>),
    Other,
}

/// An error of the planner, as a value: its kind and the text that it
/// carries.
pub enum Failure {
    FunctionNotFound(Seq<char>),
    AmbiguousColumn(Seq<char>),
    ColumnNotFound(Seq<char>),
    TypeMismatch(Seq<char>),
    InvalidValues(Seq<char>),
    AggregateMisuse(Seq<char>),
    Catalog(CatalogFailure),
}

/// An error of the catalog as the planner hands it on.
pub open spec fn catalog_failure_of(error: CatalogError) -> CatalogFailure {
    match error {
        CatalogError::TableNotFound(database, table) => CatalogFailure::TableNotFound(
            database@,
            table@,
        ),
        CatalogError::StorageError(StorageError::KeyValue(message)) => CatalogFailure::Unreadable(
            message@,
        ),
        _ => CatalogFailure::Other,
    }
}

/// An error as a value.
pub open spec fn failure_of(error: PlannerError) -> Failure {
    match error {
        PlannerError::FunctionNotFound(text) => Failure::FunctionNotFound(text@),
        PlannerError::AmbiguousColumn(text) => Failure::AmbiguousColumn(text@),
        PlannerError::ColumnNotFound(text) => Failure::ColumnNotFound(text@),
        PlannerError::TypeMismatch(text) => Failure::TypeMismatch(text@),
        PlannerError::InvalidValues(text) => Failure::InvalidValues(text@),
        PlannerError::AggregateMisuse(text) => Failure::AggregateMisuse(text@),
        PlannerError::Catalog(error) => Failure::Catalog(catalog_failure_of(error)),
    }
}

/// The text of a column reference: the qualifier, where it has one, a
/// point and the name, each quoted where it has to be.
pub open spec fn reference_text(qualifier: Option<Seq<char>>, alias: Seq<char>) -> Seq<char> {
    lossy_text(
        (match qualifier {
            Some(q) => identifier_text(vstd::utf8::encode_utf8(q)) + seq![46u8],
            None => Seq::empty(),
        }) + identifier_text(vstd::utf8::encode_utf8(alias)),
    )
}

/// The SQL names of the first `n` types of a list, with a comma and a
/// blank between them.
pub open spec fn types_text(types: Seq<DataType>, n: int) -> Seq<u8>
    decreases n,
{
    if n <= 0 || n > types.len() {
        Seq::empty()
    } else {
        types_text(types, n - 1) + (if n > 1 {
            ", ".spec_bytes()
        } else {
            Seq::empty()
        }) + types[n - 1].sql_name(true)
    }
}

/// The text `name(type, type, ...)` that names a call in an error.
pub open spec fn call_text(name: Seq<char>, types: Seq<DataType>) -> Seq<char> {
    lossy_text(
        vstd::utf8::encode_utf8(name) + "(".spec_bytes() + types_text(types, types.len() as int)
            + ")".spec_bytes(),
    )
}

/// Whether a field answers to a column reference: the names agree, and the
/// qualifiers too where the reference has one.
pub open spec fn answers_to(field: FieldView, qualifier: Option<Seq<char>>, alias: Seq<char>) -> bool {
    field.alias == alias && match qualifier {
        Some(q) => field.qualifier == Some(q),
        None => true,
    }
}

/// The number of fields among the first `n` that answer to a reference.
pub open spec fn answer_count(
    fields: Seq<FieldView>,
    qualifier: Option<Seq<char>>,
    alias: Seq<char>,
    n: int,
) -> nat
    decreases n,
{
    if n <= 0 || n > fields.len() {
        0
    } else {
        answer_count(fields, qualifier, alias, n - 1) + if answers_to(
            fields[n - 1],
            qualifier,
            alias,
        ) {
            1nat
        } else {
            0nat
        }
    }
}

/// The place of the last field among the first `n` that answers to a
/// reference; below zero where none does.
pub open spec fn last_answer(
    fields: Seq<FieldView>,
    qualifier: Option<Seq<char>>,
    alias: Seq<char>,
    n: int,
) -> int
    decreases n,
{
    if n <= 0 || n > fields.len() {
        -1
    } else if answers_to(fields[n - 1], qualifier, alias) {
        n - 1
    } else {
        last_answer(fields, qualifier, alias, n - 1)
    }
}

/// The column that a reference names among the fields of a source: the
/// one field that answers to it. A reference that no field answers to
/// finds no column; one that several answer to is ambiguous.
pub open spec fn spec_resolve_column(
    fields: Seq<FieldView>,
    qualifier: Option<Seq<char>>,
    alias: Seq<char>,
) -> Result<ExpressionModel, Failure> {
    let count = answer_count(fields, qualifier, alias, fields.len() as int);
    let place = last_answer(fields, qualifier, alias, fields.len() as int);
    if count == 0 {
        Err(Failure::ColumnNotFound(reference_text(qualifier, alias)))
    } else if count > 1 {
        Err(Failure::AmbiguousColumn(reference_text(qualifier, alias)))
    } else {
        Ok(ExpressionModel::CompiledColumnReference(place as usize, fields[place].data_type))
    }
}

/// The name of the function that casts to a type.
pub open spec fn spec_cast_name(datatype: DataType) -> Seq<char> {
    match datatype {
        DataType::Null => "to_null"@,
        DataType::Boolean => "to_bool"@,
        DataType::Integer => "to_int"@,
        DataType::BigInt => "to_bigint"@,
        DataType::Decimal(_, _) => "to_decimal"@,
        DataType::Text => "to_text"@,
        DataType::ByteA => "to_bytea"@,
        DataType::Json => "to_json"@,
        DataType::Date => "to_date"@,
        DataType::Timestamp => "to_timestamp"@,
        DataType::JsonPath => "to_jsonpath"@,
    }
}

/// An integer as a number without a sign.
pub open spec fn magnitude(i: int) -> nat {
    if i < 0 {
        (-i) as nat
    } else {
        i as nat
    }
}

/// An integer constant that a decimal parameter takes becomes a decimal
/// constant whose precision is that of its digits and its sign. Any other
/// argument stays as it is.
pub open spec fn spec_widen(arg: ExpressionModel, declared: DataType) -> ExpressionModel {
    match (arg, declared) {
        (
            ExpressionModel::Constant(Value::Integer(i), DataType::Integer),
            DataType::Decimal(_, _),
        ) => ExpressionModel::Constant(
            Value::Decimal(i as int, 0),
            DataType::Decimal((digit_count(magnitude(i as int)) + 1) as u8, 0),
        ),
        _ => arg,
    }
}

/// The arguments of a call, each widened for the parameter that takes it.
pub open spec fn spec_widen_all(
    args: Seq<ExpressionModel>,
    declared: Seq<DataType>,
) -> Seq<ExpressionModel> {
    Seq::new(
        args.len(),
        |i: int|
            if i < declared.len() {
                spec_widen(args[i], declared[i])
            } else {
                args[i]
            },
    )
}

/// The signature that a call with arguments of the given types takes on
/// under a definition.
pub open spec fn resolved_signature(
    definition: FunctionDefinition,
    types: Seq<DataType>,
) -> SignatureModel {
    let args = spec_resolved_args(types, definition.signature.args@);
    SignatureModel {
        name: definition.signature.name@,
        args,
        ret: match definition.custom_return_type_resolver {
            Some(resolver) => resolver.spec_resolve(args),
            None => definition.signature.ret,
        },
    }
}

/// The call of the scalar function that casts an expression to a type,
/// with the target as its return type. Where the registry has no such
/// function for the type of the expression, the given failure.
pub open spec fn spec_cast(
    arg: ExpressionModel,
    target: DataType,
    registry: Seq<FunctionDefinition>,
    failure: Failure,
) -> Result<ExpressionModel, Failure> {
    let actual = model_type(arg);
    match spec_best(registry, spec_cast_name(target), seq![actual], registry.len() as int) {
        Some((i, _)) => match registry[i].function {
            FunctionType::Scalar(f) => Ok(
                ExpressionModel::CompiledFunctionCall(
                    f,
                    seq![arg],
                    SignatureModel {
                        name: registry[i].signature.name@,
                        args: spec_resolved_args(seq![actual], registry[i].signature.args@),
                        ret: target,
                    },
                ),
            ),
            _ => Err(failure),
        },
        None => Err(failure),
    }
}

/// An argument brought to the type that a function declares: the
/// argument itself where its type is of the kind declared or null, and
/// else the cast of it.
pub open spec fn spec_coerce(
    arg: ExpressionModel,
    target: DataType,
    registry: Seq<FunctionDefinition>,
) -> Result<ExpressionModel, Failure> {
    let actual = model_type(arg);
    if actual.spec_same_kind(target) || actual == DataType::Null {
        Ok(arg)
    } else {
        spec_cast(
            arg,
            target,
            registry,
            Failure::TypeMismatch(call_text(spec_cast_name(target), seq![actual])),
        )
    }
}

/// A list with one more result at its end; the failure where either
/// fails, that of the new result first.
pub open spec fn followed_by<T>(before: Result<Seq<T>, Failure>, next: Result<T, Failure>) -> Result<
    Seq<T>,
    Failure,
> {
    match next {
        Err(failure) => Err(failure),
        Ok(e) => match before {
            Err(failure) => Err(failure),
            Ok(list) => Ok(list.push(e)),
        },
    }
}

/// The first `n` arguments of a call, each brought to the type declared
/// for it. Where several fail, the failure is that of the last.
pub open spec fn spec_coerce_all(
    args: Seq<ExpressionModel>,
    targets: Seq<DataType>,
    registry: Seq<FunctionDefinition>,
    n: int,
) -> Result<Seq<ExpressionModel>, Failure>
    decreases n,
{
    if n <= 0 || n > args.len() {
        Ok(Seq::empty())
    } else {
        followed_by(
            spec_coerce_all(args, targets, registry, n - 1),
            if n - 1 < targets.len() {
                spec_coerce(args[n - 1], targets[n - 1], registry)
            } else {
                Ok(args[n - 1])
            },
        )
    }
}

/// The call that a compound function stands for over its inputs. An
/// input that the call does not have is null.
pub open spec fn spec_expand(
    compound: CompoundFunction,
    inputs: Seq<ExpressionModel>,
) -> ExpressionModel
    decreases compound, 0int,
{
    ExpressionModel::FunctionCall(
        compound.function_name@,
        spec_expand_args(compound.args@, inputs, compound.args@.len() as int),
    )
}

/// The first `n` arguments of the call that a compound function stands
/// for.
pub open spec fn spec_expand_args(
    args: Seq<CompoundFunctionArg>,
    inputs: Seq<ExpressionModel>,
    n: int,
) -> Seq<ExpressionModel>
    decreases args, n,
{
    if n <= 0 || n > args.len() {
        Seq::empty()
    } else {
        spec_expand_args(args, inputs, n - 1).push(
            match args[n - 1] {
                CompoundFunctionArg::Function(inner) => spec_expand(inner, inputs),
                CompoundFunctionArg::Input(index) => if index < inputs.len() {
                    inputs[index as int]
                } else {
                    ExpressionModel::Constant(Value::Null, DataType::Null)
                },
            },
        )
    }
}

/// Compound functions that are the same rewriting stand for the same
/// call.
pub proof fn lemma_same_expand(a: CompoundFunction, b: CompoundFunction, inputs: Seq<ExpressionModel>)
    requires
        same_compound(a, b),
    ensures
        spec_expand(a, inputs) == spec_expand(b, inputs),
    decreases a, 0int,
{
    lemma_same_expand_args(a.args@, b.args@, inputs, a.args@.len() as int);
}

/// Arguments of compound functions that are the same rewritings stand for
/// the same arguments.
pub proof fn lemma_same_expand_args(
    a: Seq<CompoundFunctionArg>,
    b: Seq<CompoundFunctionArg>,
    inputs: Seq<ExpressionModel>,
    n: int,
)
    requires
        a.len() == b.len(),
        0 <= n <= a.len(),
        forall|i: int|
            0 <= i < a.len() ==> match (#[trigger] a[i], b[i]) {
                (CompoundFunctionArg::Function(f), CompoundFunctionArg::Function(g)) => same_compound(
                    f,
                    g,
                ),
                (CompoundFunctionArg::Input(x), CompoundFunctionArg::Input(y)) => x == y,
                _ => false,
            },
    ensures
        spec_expand_args(a, inputs, n) == spec_expand_args(b, inputs, n),
    decreases a, n,
{
    if n > 0 {
        vstd::seq::axiom_seq_index_decreases(a, n - 1);
        lemma_same_expand_args(a, b, inputs, n - 1);
        match (a[n - 1], b[n - 1]) {
            (CompoundFunctionArg::Function(f), CompoundFunctionArg::Function(g)) => {
                lemma_same_expand(f, g, inputs);
            },
            _ => {},
        }
    }
}

/// What resolving a call gives: the compiled call, or for a compound
/// function the call that it stands for, which is still to be compiled.
pub enum ResolvedModel {
    Compiled(ExpressionModel),
    Expanded(ExpressionModel),
}

/// The call of a function by name over compiled arguments, resolved.
///
/// The call goes to the definition that the registry resolves it to;
/// without one the function is not found. Integer constants that decimal
/// parameters take are widened, the signature is that which the call takes
/// on under the definition, and the arguments are brought to its types.
pub open spec fn spec_call(
    name: Seq<char>,
    args: Seq<ExpressionModel>,
    registry: Seq<FunctionDefinition>,
) -> Result<ResolvedModel, Failure> {
    match spec_best(registry, name, model_types(args), registry.len() as int) {
        None => Err(Failure::FunctionNotFound(call_text(name, model_types(args)))),
        Some((i, _)) => {
            let definition = registry[i];
            let widened = spec_widen_all(args, definition.signature.args@);
            let signature = resolved_signature(definition, model_types(widened));
            match definition.function {
                FunctionType::Scalar(f) => match spec_coerce_all(
                    widened,
                    signature.args,
                    registry,
                    widened.len() as int,
                ) {
                    Ok(coerced) => Ok(
                        ResolvedModel::Compiled(
                            ExpressionModel::CompiledFunctionCall(f, coerced, signature),
                        ),
                    ),
                    Err(failure) => Err(failure),
                },
                FunctionType::Aggregate(f) => match spec_coerce_all(
                    widened,
                    signature.args,
                    registry,
                    widened.len() as int,
                ) {
                    Ok(coerced) => Ok(
                        ResolvedModel::Compiled(
                            ExpressionModel::CompiledAggregate(f, coerced, signature),
                        ),
                    ),
                    Err(failure) => Err(failure),
                },
                FunctionType::Compound(compound) => Ok(
                    ResolvedModel::Expanded(spec_expand(compound, widened)),
                ),
            }
        },
    }
}

/// Whether the expressions of a list are compiled, from their models.
pub open spec fn models_compiled(list: Seq<ExpressionModel>) -> bool {
    forall|i: int| 0 <= i < list.len() ==> model_compiled(#[trigger] list[i])
}

/// An expression compiled against the fields of its source.
///
/// A constant and a column by offset stay. A column by name becomes the
/// column that the name resolves to. A call of a function by name has its
/// arguments compiled and is then resolved; where it resolves to a
/// compound function, the call that the function stands for is compiled
/// in its place, as long as `fuel` lasts. A cast becomes the call of the
/// casting function over its compiled operand. A call that is compiled
/// already stays where its arguments are compiled too.
pub open spec fn spec_compile(
    expr: ExpressionModel,
    fields: Seq<FieldView>,
    registry: Seq<FunctionDefinition>,
    fuel: nat,
) -> Result<ExpressionModel, Failure>
    decreases fuel, expr, 0int,
{
    match expr {
        ExpressionModel::Constant(_, _) => Ok(expr),
        ExpressionModel::CompiledColumnReference(_, _) => Ok(expr),
        ExpressionModel::ColumnReference(qualifier, alias, _) => spec_resolve_column(
            fields,
            qualifier,
            alias,
        ),
        ExpressionModel::FunctionCall(name, args) => match spec_compile_all(
            args,
            fields,
            registry,
            fuel,
            args.len() as int,
        ) {
            Err(failure) => Err(failure),
            Ok(compiled) => match spec_call(name, compiled, registry) {
                Err(failure) => Err(failure),
                Ok(ResolvedModel::Compiled(e)) => Ok(e),
                Ok(ResolvedModel::Expanded(e)) => if fuel == 0 {
                    Err(
                        Failure::FunctionNotFound(
                            "a compound function that does not come to an end"@,
                        ),
                    )
                } else {
                    spec_compile(e, fields, registry, (fuel - 1) as nat)
                },
            },
        },
        ExpressionModel::Cast(inner, target) => match spec_compile(*inner, fields, registry, fuel) {
            Err(failure) => Err(failure),
            Ok(compiled) => spec_cast(
                compiled,
                target,
                registry,
                Failure::FunctionNotFound(
                    call_text(spec_cast_name(target), seq![model_type(compiled)]),
                ),
            ),
        },
        ExpressionModel::CompiledFunctionCall(_, args, _) => if models_compiled(args) {
            Ok(expr)
        } else {
            Err(Failure::TypeMismatch("a call is compiled over arguments that are not"@))
        },
        ExpressionModel::CompiledAggregate(_, args, _) => if models_compiled(args) {
            Ok(expr)
        } else {
            Err(Failure::TypeMismatch("a call is compiled over arguments that are not"@))
        },
    }
}

/// The first `n` expressions of a list compiled. Where several fail, the
/// failure is that of the last.
pub open spec fn spec_compile_all(
    list: Seq<ExpressionModel>,
    fields: Seq<FieldView>,
    registry: Seq<FunctionDefinition>,
    fuel: nat,
    n: int,
) -> Result<Seq<ExpressionModel>, Failure>
    decreases fuel, list, n,
{
    if n <= 0 || n > list.len() {
        Ok(Seq::empty())
    } else {
        followed_by(
            spec_compile_all(list, fields, registry, fuel, n - 1),
            spec_compile(list[n - 1], fields, registry, fuel),
        )
    }
}

/// A result with more after what it holds.
pub open spec fn appended<T>(r: Result<Seq<T>, Failure>, more: Seq<T>) -> Result<Seq<T>, Failure> {
    match r {
        Ok(list) => Ok(list + more),
        Err(failure) => Err(failure),
    }
}

/// To add a result to a list and then more is to add it at the head of
/// what is more.
pub proof fn lemma_appended<T>(before: Result<Seq<T>, Failure>, next: T, more: Seq<T>)
    ensures
        appended(followed_by(before, Ok(next)), more) == appended(before, seq![next] + more),
{
    match before {
        Ok(list) => {
            assert(list.push(next) + more =~= list + (seq![next] + more));
        },
        Err(_) => {},
    }
}

/// Nothing more after a result leaves it as it is.
pub proof fn lemma_appended_nothing<T>(r: Result<Seq<T>, Failure>)
    ensures
        appended(r, Seq::empty()) == r,
{
    match r {
        Ok(list) => {
            assert(list + Seq::<T>::empty() =~= list);
        },
        Err(_) => {},
    }
}

} // verus!
