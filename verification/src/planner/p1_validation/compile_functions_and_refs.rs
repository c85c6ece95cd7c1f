//! Compiles expressions: functions are resolved in the registry, arguments
//! brought to the types that the functions declare, casts turned into
//! calls of `to_<type>`, and columns found by name in the fields of the
//! source.

use vstd::prelude::*;
use vstd::string::StringSliceAdditionalSpecFns;
use crate::ast::expr::{
    Cast,
    ColumnReference,
    CompiledAggregate,
    CompiledColumnReference,
    CompiledFunctionCall,
    Expression,
    FunctionCall,
};
use crate::ast::model::{
    lemma_models_of,
    lemma_models_push,
    lemma_same_model,
    model,
    model_type,
    model_types,
    models_of,
    text_model,
    ExpressionModel,
};
use crate::data::{DataType, Datum, Decimal};
use crate::data::encoding_core::count_digits;
use crate::data::text::{lossy_string, push_text};
use crate::functions::{CompoundFunction, CompoundFunctionArg, FunctionSignature, FunctionType};
use crate::functions::registry::Registry;
use crate::planner::{fields_view, Field, PlannerError};
use crate::planner::p1_validation::compile_model::{
    answer_count,
    answers_to,
    appended,
    failure_of,
    followed_by,
    last_answer,
    lemma_appended,
    lemma_same_expand,
    resolved_signature,
    spec_call,
    spec_cast,
    spec_cast_name,
    spec_coerce,
    spec_coerce_all,
    spec_compile,
    spec_compile_all,
    spec_expand,
    spec_expand_args,
    spec_resolve_column,
    spec_widen,
    spec_widen_all,
    types_text,
    Failure,
    ResolvedModel,
};
use crate::planner::utils::expr::{
    lemma_all_compiled,
    lemma_model_type,
    lemma_model_types,
    lemma_models_compiled,
    lemma_models_compiled_list,
    reverse_expressions,
    spec_all_compiled,
    spec_compiled,
    spec_type_for_expression,
    type_for_expression,
};

verus! {

/// How many times a compound function may be rewritten inside itself.
pub const COMPOUND_DEPTH: u32 = 16;

/// What compiling gave, as a model: the model of the expression, or the
/// error as a value.
pub open spec fn outcome(r: Result<Expression, PlannerError>) -> Result<ExpressionModel, Failure> {
    match r {
        Ok(e) => Ok(model(e)),
        Err(error) => Err(failure_of(error)),
    }
}

/// What compiling a list gave, as a model.
pub open spec fn outcomes(r: Result<Vec<Expression>, PlannerError>) -> Result<
    Seq<ExpressionModel>,
    Failure,
> {
    match r {
        Ok(list) => Ok(models_of(list@)),
        Err(error) => Err(failure_of(error)),
    }
}

/// The models of a list that holds, in the other order, expressions whose
/// models are known.
pub proof fn lemma_restored(
    reversed: Seq<Expression>,
    restored: Seq<Expression>,
    expected: Seq<ExpressionModel>,
)
    requires
        restored.len() == reversed.len(),
        expected.len() == reversed.len(),
        forall|i: int|
            0 <= i < restored.len() ==> #[trigger] restored[i] == reversed[reversed.len() - 1 - i],
        forall|j: int|
            0 <= j < reversed.len() ==> model(#[trigger] reversed[j]) == expected[expected.len() - 1
                - j],
    ensures
        models_of(restored) == expected,
{
    lemma_models_of(restored);
    assert forall|i: int| 0 <= i < restored.len() implies #[trigger] models_of(restored)[i]
        == expected[i] by {
        assert(restored[i] == reversed[reversed.len() - 1 - i]);
        assert(model(reversed[reversed.len() - 1 - i]) == expected[expected.len() - 1 - (
        reversed.len() - 1 - i)]);
    }
    assert(models_of(restored) =~= expected);
}

fn answers(field: &Field, reference: &ColumnReference) -> (b: bool)
    ensures
        b == answers_to(field@, text_model(reference.qualifier), reference.alias@),
{
    if field.alias != reference.alias {
        return false;
    }
    match &reference.qualifier {
        Some(q) => match &field.qualifier {
            Some(fq) => *fq == *q,
            None => false,
        },
        None => true,
    }
}

/// The text of a reference, which names it in an error.
fn reference_text(reference: &ColumnReference) -> (text: String)
    ensures
        text@ == crate::planner::p1_validation::compile_model::reference_text(
            text_model(reference.qualifier),
            reference.alias@,
        ),
{
    let mut buf: Vec<u8> = Vec::new();
    reference.write_sql(&mut buf);
    lossy_string(buf.as_slice())
}

/// Finds the column that a reference names among the fields of a source.
/// The reference must name exactly one field.
pub fn resolve_column(fields: &Vec<Field>, reference: &ColumnReference) -> (r: Result<
    CompiledColumnReference,
    PlannerError,
>)
    ensures
        match r {
            Ok(column) => spec_resolve_column(
                fields_view(fields@),
                text_model(reference.qualifier),
                reference.alias@,
            ) == Ok::<ExpressionModel, Failure>(
                ExpressionModel::CompiledColumnReference(column.offset, column.datatype),
            ) && column.offset < fields@.len(),
            Err(error) => spec_resolve_column(
                fields_view(fields@),
                text_model(reference.qualifier),
                reference.alias@,
            ) == Err::<ExpressionModel, Failure>(failure_of(error)),
        },
{
    let ghost views = fields_view(fields@);
    let ghost qualifier = text_model(reference.qualifier);
    let mut found: Option<usize> = None;
    let mut count: usize = 0;
    let mut i: usize = 0;
    while i < fields.len()
        invariant
            i <= fields@.len(),
            views == fields_view(fields@),
            qualifier == text_model(reference.qualifier),
            count == answer_count(views, qualifier, reference.alias@, i as int),
            count <= i,
            match found {
                Some(k) => k < i && k == last_answer(views, qualifier, reference.alias@, i as int),
                None => last_answer(views, qualifier, reference.alias@, i as int) == -1,
            },
            count > 0 ==> found is Some,
        decreases fields@.len() - i,
    {
        assert(views[i as int] == fields@[i as int]@);
        if answers(&fields[i], reference) {
            found = Some(i);
            count += 1;
        }
        i += 1;
    }
    if count == 0 {
        Err(PlannerError::ColumnNotFound(reference_text(reference)))
    } else if count > 1 {
        Err(PlannerError::AmbiguousColumn(reference_text(reference)))
    } else {
        match found {
            Some(k) => {
                assert(views[k as int] == fields@[k as int]@);
                Ok(CompiledColumnReference { offset: k, datatype: fields[k].data_type })
            },
            None => Err(PlannerError::ColumnNotFound(reference_text(reference))),
        }
    }
}

/// The name of the function that casts to a type.
pub fn cast_function_name(datatype: DataType) -> (name: &'static str)
    ensures
        name@ == spec_cast_name(datatype),
{
    match datatype {
        DataType::Null => "to_null",
        DataType::Boolean => "to_bool",
        DataType::Integer => "to_int",
        DataType::BigInt => "to_bigint",
        DataType::Decimal(_, _) => "to_decimal",
        DataType::Text => "to_text",
        DataType::ByteA => "to_bytea",
        DataType::Json => "to_json",
        DataType::Date => "to_date",
        DataType::Timestamp => "to_timestamp",
        DataType::JsonPath => "to_jsonpath",
    }
}

/// The text `name(type, type, ...)` that names a call in an error.
fn call_text(name: &str, types: &Vec<DataType>) -> (text: String)
    ensures
        text@ == crate::planner::p1_validation::compile_model::call_text(name@, types@),
{
    let mut buf: Vec<u8> = Vec::new();
    push_text(&mut buf, name);
    push_text(&mut buf, "(");
    let ghost start = buf@;
    let mut i: usize = 0;
    while i < types.len()
        invariant
            i <= types@.len(),
            start == name.spec_bytes() + "(".spec_bytes(),
            buf@ == start + types_text(types@, i as int),
        decreases types@.len() - i,
    {
        let ghost before = buf@;
        if i > 0 {
            push_text(&mut buf, ", ");
        }
        types[i].write_sql(true, &mut buf);
        assert(buf@ =~= start + types_text(types@, i + 1));
        i += 1;
    }
    push_text(&mut buf, ")");
    assert(buf@ =~= vstd::utf8::encode_utf8(name@) + "(".spec_bytes() + types_text(
        types@,
        types@.len() as int,
    ) + ")".spec_bytes());
    lossy_string(buf.as_slice())
}

/// The types of a list of expressions.
pub fn types_of(args: &Vec<Expression>) -> (types: Vec<DataType>)
    ensures
        types@ == model_types(models_of(args@)),
{
    let mut types: Vec<DataType> = Vec::new();
    let mut i: usize = 0;
    while i < args.len()
        invariant
            i <= args@.len(),
            types@.len() == i,
            forall|k: int| 0 <= k < i ==> #[trigger] types@[k] == spec_type_for_expression(args@[k]),
        decreases args@.len() - i,
    {
        types.push(type_for_expression(&args[i]));
        i += 1;
    }
    proof {
        lemma_model_types(args@);
        assert(types@ =~= model_types(models_of(args@)));
    }
    types
}

/// An integer constant that a decimal parameter takes becomes a decimal
/// constant whose precision is that of its digits and its sign. Any other
/// argument stays as it is.
pub fn widen_constant(arg: Expression, declared: DataType) -> (r: Expression)
    ensures
        model(r) == spec_widen(model(arg), declared),
        spec_compiled(arg) ==> spec_compiled(r),
{
    match (arg, declared) {
        (Expression::Constant(Datum::Integer(i), DataType::Integer), DataType::Decimal(_, _)) => {
            let magnitude: u128 = if i < 0 {
                (-(i as i64)) as u128
            } else {
                i as u128
            };
            let digits = count_digits(magnitude);
            Expression::Constant(
                Datum::Decimal(Decimal::new(i as i64, 0)),
                DataType::Decimal((digits + 1) as u8, 0),
            )
        },
        (arg, _) => arg,
    }
}

/// The call of the function that casts a compiled expression to a type;
/// nothing where the registry has no scalar function that does.
fn cast_call(arg: Expression, target: DataType, registry: &Registry) -> (r: Result<
    Expression,
    Vec<DataType>,
>)
    requires
        spec_compiled(arg),
    ensures
        match r {
            Ok(e) => spec_compiled(e) && forall|failure: Failure|
                spec_cast(model(arg), target, registry@, failure) == Ok::<ExpressionModel, Failure>(
                    model(e),
                ),
            Err(types) => types@ == seq![model_type(model(arg))] && forall|failure: Failure|
                spec_cast(model(arg), target, registry@, failure) == Err::<ExpressionModel, Failure>(
                    failure,
                ),
        },
{
    let actual = type_for_expression(&arg);
    let name = cast_function_name(target);
    let mut types: Vec<DataType> = Vec::new();
    types.push(actual);
    proof {
        lemma_model_type(arg);
        assert(types@ =~= seq![actual]);
    }
    match registry.resolve_function(name, types.as_slice()) {
        Some((signature, FunctionType::Scalar(function))) => {
            let mut args: Vec<Expression> = Vec::new();
            args.push(arg);
            proof {
                lemma_all_compiled(args@, 1);
                lemma_models_of(args@);
                assert(models_of(args@) =~= seq![model(arg)]);
            }
            Ok(
                Expression::CompiledFunctionCall(
                    CompiledFunctionCall {
                        function,
                        args,
                        signature: Box::new(
                            FunctionSignature {
                                name: signature.name,
                                args: signature.args,
                                ret: target,
                            },
                        ),
                    },
                ),
            )
        },
        _ => Err(types),
    }
}

/// Wraps an argument in the cast that brings it to the type a function
/// declares, where its own type is of another kind and not null.
fn coerce(arg: Expression, target: DataType, registry: &Registry) -> (r: Result<
    Expression,
    PlannerError,
>)
    requires
        spec_compiled(arg),
    ensures
        outcome(r) == spec_coerce(model(arg), target, registry@),
        r matches Ok(e) ==> spec_compiled(e),
{
    let actual = type_for_expression(&arg);
    proof {
        lemma_model_type(arg);
    }
    if actual.same_kind(&target) || actual == DataType::Null {
        return Ok(arg);
    }
    match cast_call(arg, target, registry) {
        Ok(e) => Ok(e),
        Err(types) => Err(PlannerError::TypeMismatch(call_text(cast_function_name(target), &types))),
    }
}

/// Builds the call that a compound function stands for over its inputs.
fn expand_compound(compound: &CompoundFunction, inputs: &Vec<Expression>) -> (r: Expression)
    ensures
        model(r) == spec_expand(*compound, models_of(inputs@)),
    decreases compound,
{
    let mut args: Vec<Expression> = Vec::new();
    let mut i: usize = 0;
    proof {
        lemma_models_of(args@);
        assert(models_of(args@) =~= Seq::<ExpressionModel>::empty());
    }
    while i < compound.args.len()
        invariant
            i <= compound.args@.len(),
            args@.len() == i,
            models_of(args@) == spec_expand_args(compound.args@, models_of(inputs@), i as int),
        decreases compound.args@.len() - i,
    {
        proof {
            vstd::std_specs::vec::axiom_vec_index_decreases(compound.args, i as int);
            lemma_models_of(inputs@);
        }
        let arg = match &compound.args[i] {
            CompoundFunctionArg::Function(inner) => expand_compound(inner, inputs),
            CompoundFunctionArg::Input(index) => {
                if *index < inputs.len() {
                    let copy = inputs[*index].clone();
                    proof {
                        lemma_same_model(inputs@[*index as int], copy);
                    }
                    copy
                } else {
                    Expression::Constant(Datum::Null, DataType::Null)
                }
            },
        };
        proof {
            lemma_models_push(args@, arg);
        }
        args.push(arg);
        i += 1;
    }
    Expression::FunctionCall(
        FunctionCall { function_name: compound.function_name.to_owned(), args },
    )
}

fn compile_list(
    list: Vec<Expression>,
    fields: &Vec<Field>,
    registry: &Registry,
    fuel: u32,
) -> (r: Result<Vec<Expression>, PlannerError>)
    ensures
        outcomes(r) == spec_compile_all(
            models_of(list@),
            fields_view(fields@),
            registry@,
            fuel as nat,
            list@.len() as int,
        ),
        r matches Ok(compiled) ==> compiled@.len() == list@.len() && spec_all_compiled(
            compiled@,
            compiled@.len() as int,
        ),
    decreases fuel, list,
{
    let mut rest = list;
    let ghost all = rest@;
    let ghost inputs = models_of(all);
    let ghost views = fields_view(fields@);
    let ghost done: Seq<ExpressionModel> = Seq::empty();
    let mut reversed: Vec<Expression> = Vec::new();
    proof {
        lemma_models_of(all);
        let whole = spec_compile_all(inputs, views, registry@, fuel as nat, all.len() as int);
        match whole {
            Ok(x) => {
                assert(x + done =~= x);
            },
            Err(_) => {},
        }
    }
    while rest.len() > 0
        invariant
            rest@.len() <= all.len(),
            rest@ == all.subrange(0, rest@.len() as int),
            reversed@.len() + rest@.len() == all.len(),
            all == list@,
            inputs == models_of(all),
            inputs.len() == all.len(),
            views == fields_view(fields@),
            done.len() == reversed@.len(),
            forall|j: int|
                0 <= j < reversed@.len() ==> model(#[trigger] reversed@[j]) == done[done.len() - 1
                    - j],
            forall|k: int| 0 <= k < reversed@.len() ==> spec_compiled(#[trigger] reversed@[k]),
            spec_compile_all(inputs, views, registry@, fuel as nat, all.len() as int) == appended(
                spec_compile_all(inputs, views, registry@, fuel as nat, rest@.len() as int),
                done,
            ),
        decreases rest@.len(),
    {
        proof {
            vstd::seq::axiom_seq_index_decreases(all, rest@.len() - 1);
            lemma_models_of(all);
        }
        let ghost before = spec_compile_all(
            inputs,
            views,
            registry@,
            fuel as nat,
            rest@.len() - 1,
        );
        let e = rest.pop().unwrap();
        assert(e == all[rest@.len() as int]);
        assert(rest@ =~= all.subrange(0, rest@.len() as int));
        assert(inputs[rest@.len() as int] == model(e));
        match compile_expression(e, fields, registry, fuel) {
            Ok(compiled) => {
                proof {
                    lemma_appended(before, model(compiled), done);
                    done = seq![model(compiled)] + done;
                }
                reversed.push(compiled);
            },
            Err(error) => {
                return Err(error);
            },
        }
    }
    let ghost turned = reversed@;
    let result = reverse_expressions(reversed);
    proof {
        lemma_restored(turned, result@, done);
        assert(Seq::<ExpressionModel>::empty() + done =~= done);
        assert forall|k: int| 0 <= k < result@.len() implies spec_compiled(#[trigger] result@[k]) by {
            assert(result@[k] == turned[turned.len() - 1 - k]);
        }
        lemma_all_compiled(result@, result@.len() as int);
    }
    Ok(result)
}

/// Brings the arguments of a call to the types that its signature declares.
fn coerce_list(list: Vec<Expression>, targets: &Vec<DataType>, registry: &Registry) -> (r: Result<
    Vec<Expression>,
    PlannerError,
>)
    requires
        spec_all_compiled(list@, list@.len() as int),
    ensures
        outcomes(r) == spec_coerce_all(
            models_of(list@),
            targets@,
            registry@,
            list@.len() as int,
        ),
        r matches Ok(coerced) ==> coerced@.len() == list@.len() && spec_all_compiled(
            coerced@,
            coerced@.len() as int,
        ),
{
    let mut rest = list;
    let ghost all = rest@;
    let ghost inputs = models_of(all);
    let ghost done: Seq<ExpressionModel> = Seq::empty();
    let mut reversed: Vec<Expression> = Vec::new();
    proof {
        lemma_models_of(all);
        let whole = spec_coerce_all(inputs, targets@, registry@, all.len() as int);
        match whole {
            Ok(x) => {
                assert(x + done =~= x);
            },
            Err(_) => {},
        }
    }
    while rest.len() > 0
        invariant
            rest@.len() <= all.len(),
            rest@ == all.subrange(0, rest@.len() as int),
            reversed@.len() + rest@.len() == all.len(),
            all == list@,
            spec_all_compiled(all, all.len() as int),
            inputs == models_of(all),
            inputs.len() == all.len(),
            done.len() == reversed@.len(),
            forall|j: int|
                0 <= j < reversed@.len() ==> model(#[trigger] reversed@[j]) == done[done.len() - 1
                    - j],
            forall|k: int| 0 <= k < reversed@.len() ==> spec_compiled(#[trigger] reversed@[k]),
            spec_coerce_all(inputs, targets@, registry@, all.len() as int) == appended(
                spec_coerce_all(inputs, targets@, registry@, rest@.len() as int),
                done,
            ),
        decreases rest@.len(),
    {
        let index = rest.len() - 1;
        proof {
            crate::planner::utils::expr::lemma_all_compiled_at(
                all,
                all.len() as int,
                index as int,
            );
            lemma_models_of(all);
        }
        let ghost before = spec_coerce_all(inputs, targets@, registry@, index as int);
        let e = rest.pop().unwrap();
        assert(e == all[index as int]);
        assert(rest@ =~= all.subrange(0, rest@.len() as int));
        assert(inputs[index as int] == model(e));
        assert(spec_coerce_all(inputs, targets@, registry@, index + 1) == followed_by(
            before,
            if index < targets@.len() {
                spec_coerce(inputs[index as int], targets@[index as int], registry@)
            } else {
                Ok(inputs[index as int])
            },
        ));
        let coerced = if index < targets.len() {
            match coerce(e, targets[index], registry) {
                Ok(c) => c,
                Err(error) => {
                    return Err(error);
                },
            }
        } else {
            e
        };
        proof {
            lemma_appended(before, model(coerced), done);
            done = seq![model(coerced)] + done;
        }
        reversed.push(coerced);
    }
    let ghost turned = reversed@;
    let result = reverse_expressions(reversed);
    proof {
        lemma_restored(turned, result@, done);
        assert(Seq::<ExpressionModel>::empty() + done =~= done);
        assert forall|k: int| 0 <= k < result@.len() implies spec_compiled(#[trigger] result@[k]) by {
            assert(result@[k] == turned[turned.len() - 1 - k]);
        }
        lemma_all_compiled(result@, result@.len() as int);
    }
    Ok(result)
}

/// Turns integer constants into decimal constants where the definition
/// that the call resolves to declares a decimal.
fn widen_list(list: Vec<Expression>, declared: &Vec<DataType>) -> (r: Vec<Expression>)
    requires
        spec_all_compiled(list@, list@.len() as int),
    ensures
        r@.len() == list@.len(),
        models_of(r@) == spec_widen_all(models_of(list@), declared@),
        spec_all_compiled(r@, r@.len() as int),
{
    let mut rest = list;
    let ghost all = rest@;
    let ghost inputs = models_of(all);
    let mut reversed: Vec<Expression> = Vec::new();
    proof {
        lemma_models_of(all);
    }
    while rest.len() > 0
        invariant
            rest@.len() <= all.len(),
            rest@ == all.subrange(0, rest@.len() as int),
            reversed@.len() + rest@.len() == all.len(),
            spec_all_compiled(all, all.len() as int),
            inputs == models_of(all),
            inputs.len() == all.len(),
            forall|j: int|
                0 <= j < reversed@.len() ==> model(#[trigger] reversed@[j]) == spec_widen_all(
                    inputs,
                    declared@,
                )[all.len() - 1 - j],
            forall|k: int| 0 <= k < reversed@.len() ==> spec_compiled(#[trigger] reversed@[k]),
        decreases rest@.len(),
    {
        let index = rest.len() - 1;
        proof {
            crate::planner::utils::expr::lemma_all_compiled_at(
                all,
                all.len() as int,
                index as int,
            );
            lemma_models_of(all);
        }
        let e = rest.pop().unwrap();
        assert(e == all[index as int]);
        assert(rest@ =~= all.subrange(0, rest@.len() as int));
        assert(inputs[index as int] == model(e));
        let widened = if index < declared.len() {
            widen_constant(e, declared[index])
        } else {
            e
        };
        reversed.push(widened);
    }
    let ghost turned = reversed@;
    let result = reverse_expressions(reversed);
    proof {
        lemma_restored(turned, result@, spec_widen_all(inputs, declared@));
        assert forall|k: int| 0 <= k < result@.len() implies spec_compiled(#[trigger] result@[k]) by {
            assert(result@[k] == turned[turned.len() - 1 - k]);
        }
        lemma_all_compiled(result@, result@.len() as int);
    }
    result
}

/// A copy of a list of types.
fn clone_types(types: &Vec<DataType>) -> (r: Vec<DataType>)
    ensures
        r@ == types@,
{
    let mut r: Vec<DataType> = Vec::new();
    let mut i: usize = 0;
    while i < types.len()
        invariant
            i <= types@.len(),
            r@ == types@.subrange(0, i as int),
        decreases types@.len() - i,
    {
        r.push(types[i]);
        assert(r@ =~= types@.subrange(0, i + 1));
        i += 1;
    }
    assert(types@.subrange(0, i as int) =~= types@);
    r
}

/// What resolving a call gives: the compiled call, or for a compound
/// function the call that it stands for, which is still to be compiled.
pub enum Resolved {
    Compiled(Expression),
    Expanded(Expression),
}

/// What resolving a call gave, as a model.
pub open spec fn resolved_outcome(r: Result<Resolved, PlannerError>) -> Result<
    ResolvedModel,
    Failure,
> {
    match r {
        Ok(Resolved::Compiled(e)) => Ok(ResolvedModel::Compiled(model(e))),
        Ok(Resolved::Expanded(e)) => Ok(ResolvedModel::Expanded(model(e))),
        Err(error) => Err(failure_of(error)),
    }
}

/// Resolves a call of `name` over compiled arguments.
fn compile_call(name: &str, args: Vec<Expression>, registry: &Registry) -> (r: Result<
    Resolved,
    PlannerError,
>)
    requires
        spec_all_compiled(args@, args@.len() as int),
    ensures
        resolved_outcome(r) == spec_call(name@, models_of(args@), registry@),
        r matches Ok(Resolved::Compiled(e)) ==> spec_compiled(e),
{
    let ghost inputs = models_of(args@);
    let types = types_of(&args);
    let index = match registry.find(name, types.as_slice()) {
        Some(index) => index,
        None => {
            return Err(PlannerError::FunctionNotFound(call_text(name, &types)));
        },
    };
    let declared = clone_types(&registry.definition(index).signature.args);
    let args = widen_list(args, &declared);
    let types = types_of(&args);
    let (signature, function) = registry.resolve_at(index, types.as_slice());
    let ghost definition = registry@[index as int];
    let ghost widened = models_of(args@);
    proof {
        lemma_models_of(args@);
        assert(crate::ast::model::signature_model(signature) == resolved_signature(
            definition,
            types@,
        ));
        assert(widened == spec_widen_all(inputs, definition.signature.args@));
        assert(types@ == model_types(widened));
        assert(widened.len() == args@.len());
    }
    match function {
        FunctionType::Scalar(function) => {
            let args = match coerce_list(args, &signature.args, registry) {
                Ok(args) => args,
                Err(error) => {
                    return Err(error);
                },
            };
            Ok(
                Resolved::Compiled(
                    Expression::CompiledFunctionCall(
                        CompiledFunctionCall { function, args, signature: Box::new(signature) },
                    ),
                ),
            )
        },
        FunctionType::Aggregate(function) => {
            let args = match coerce_list(args, &signature.args, registry) {
                Ok(args) => args,
                Err(error) => {
                    return Err(error);
                },
            };
            Ok(
                Resolved::Compiled(
                    Expression::CompiledAggregate(
                        CompiledAggregate { function, args, signature: Box::new(signature) },
                    ),
                ),
            )
        },
        FunctionType::Compound(compound) => {
            proof {
                lemma_same_expand(
                    definition.function->Compound_0,
                    compound,
                    models_of(args@),
                );
            }
            Ok(Resolved::Expanded(expand_compound(&compound, &args)))
        },
    }
}

/// Compiles an expression against the fields of its source: what comes
/// back is the expression compiled, or the error that compiling it comes
/// to.
pub fn compile_expression(
    expr: Expression,
    fields: &Vec<Field>,
    registry: &Registry,
    fuel: u32,
) -> (r: Result<Expression, PlannerError>)
    ensures
        outcome(r) == spec_compile(model(expr), fields_view(fields@), registry@, fuel as nat),
        r matches Ok(e) ==> spec_compiled(e),
    decreases fuel, expr,
{
    match expr {
        Expression::Constant(datum, datatype) => Ok(Expression::Constant(datum, datatype)),
        Expression::CompiledColumnReference(column) => Ok(
            Expression::CompiledColumnReference(column),
        ),
        Expression::ColumnReference(reference) => {
            match resolve_column(fields, &reference) {
                Ok(column) => Ok(Expression::CompiledColumnReference(column)),
                Err(error) => Err(error),
            }
        },
        Expression::FunctionCall(call) => {
            assert(model(expr) == ExpressionModel::FunctionCall(
                call.function_name@,
                models_of(call.args@),
            ));
            proof {
                lemma_models_of(call.args@);
            }
            let args = match compile_list(call.args, fields, registry, fuel) {
                Ok(args) => args,
                Err(error) => {
                    return Err(error);
                },
            };
            match compile_call(call.function_name.as_str(), args, registry) {
                Ok(Resolved::Compiled(e)) => Ok(e),
                Ok(Resolved::Expanded(expanded)) => {
                    if fuel == 0 {
                        Err(
                            PlannerError::FunctionNotFound(
                                "a compound function that does not come to an end".to_owned(),
                            ),
                        )
                    } else {
                        compile_expression(expanded, fields, registry, (fuel - 1) as u32)
                    }
                },
                Err(error) => Err(error),
            }
        },
        Expression::Cast(cast) => {
            assert(model(expr) == ExpressionModel::Cast(Box::new(model(*cast.expr)), cast.datatype));
            let target = cast.datatype;
            let inner = match compile_expression(*cast.expr, fields, registry, fuel) {
                Ok(inner) => inner,
                Err(error) => {
                    return Err(error);
                },
            };
            match cast_call(inner, target, registry) {
                Ok(e) => Ok(e),
                Err(types) => Err(
                    PlannerError::FunctionNotFound(call_text(cast_function_name(target), &types)),
                ),
            }
        },
        Expression::CompiledFunctionCall(call) => {
            proof {
                lemma_models_compiled(call.args@, call.args@.len() as int);
                lemma_models_compiled_list(call.args@);
            }
            if crate::planner::utils::expr::all_compiled(&call.args) {
                Ok(Expression::CompiledFunctionCall(call))
            } else {
                Err(PlannerError::TypeMismatch("a call is compiled over arguments that are not".to_owned()))
            }
        },
        Expression::CompiledAggregate(call) => {
            proof {
                lemma_models_compiled(call.args@, call.args@.len() as int);
                lemma_models_compiled_list(call.args@);
            }
            if crate::planner::utils::expr::all_compiled(&call.args) {
                Ok(Expression::CompiledAggregate(call))
            } else {
                Err(PlannerError::TypeMismatch("a call is compiled over arguments that are not".to_owned()))
            }
        },
    }
}

} // verus!
