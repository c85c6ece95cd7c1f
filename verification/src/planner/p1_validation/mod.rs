//! Validation of a logical plan.
//!
//! A plan is validated from its leaves up. At each operator, in this
//! order: session variables are put in; expressions without a name are
//! given one; a table is looked up in the catalog; `*` is replaced by the
//! columns of the source; literal rows are brought to common column
//! types; expressions are compiled; a projection that holds an aggregate
//! becomes a grouping; and the types of predicates, of the branches of a
//! union and of the rows of an insert are checked.

use vstd::prelude::*;
use vstd::string::StringSliceAdditionalSpecFns;
use crate::ast::expr::{
    ColumnReference,
    Expression,
    FunctionCall,
    NamedExpression,
    SortExpression,
};
use crate::ast::rel::logical::{
    Filter,
    GroupBy,
    Join,
    Limit,
    LogicalOperator,
    Project,
    ResolvedTable,
    Sort,
    TableAlias,
    TableInsert,
    UnionAll,
    Values,
};
use crate::ast::model::{
    lemma_models_of,
    model,
    models_of,
    named_model,
    named_models,
    sort_model,
    sort_models,
    text_model,
    ExpressionModel,
    NamedModel,
    SortModel,
};
use crate::catalog::{table_model, Catalog, CatalogError};
use crate::data::{DataType, Datum, Session};
use crate::data::text::{lemma_digits_valid, nat_digits, push_text, push_u64, utf8_text};
use crate::data::tuple_iter::tuple_view;
use crate::executor::expression::{lemma_model_value, EvalScalar};
use crate::functions::registry::{widening_cost, Registry};
use crate::planner::{fields_view, Field, Planner, PlannerError};
use crate::planner::plan_model::{
    lemma_model_fields,
    lemma_plan_models_of,
    model_fields,
    named_types,
    plan_model,
    plan_models_of,
    rows_model,
    typed_names,
    PlanModel,
};
use crate::planner::utils::expr::{
    any_aggregate,
    contains_aggregate,
    lemma_model_type,
    reverse_expressions,
    spec_any_aggregate,
    spec_compiled,
    spec_contains_aggregate,
    type_for_expression,
};
use crate::planner::utils::logical::{
    fields_for_operator,
    lemma_all_validated,
    lemma_constant_rows,
    lemma_named_compiled,
    lemma_sort_compiled,
    spec_validated,
};
use crate::storage::StorageError;
use crate::storage::table::clone_columns;

pub mod compile_functions_and_refs;
pub mod compile_model;
pub mod validate_model;

use compile_functions_and_refs::{
    compile_expression,
    lemma_restored,
    outcome,
    outcomes,
    COMPOUND_DEPTH,
};
use compile_model::{appended, failure_of, lemma_appended, lemma_appended_nothing, Failure};
use validate_model::{
    branches_agree,
    column_name_bytes,
    compatible,
    model_contains_aggregate,
    model_nested_aggregate,
    models_any_aggregate,
    models_any_nested,
    named_any_aggregate,
    named_any_nested,
    spec_check_predicate,
    spec_common_type,
    spec_compile_named,
    spec_compile_plain,
    spec_compile_sort,
    spec_filter,
    spec_group_by,
    spec_insert,
    spec_join,
    spec_output,
    spec_predicate,
    spec_prepare,
    spec_project,
    invalid_columns,
    spec_resolve_table,
    spec_row,
    spec_row_columns,
    spec_rows,
    spec_sort,
    spec_union,
    spec_validate,
    spec_validate_all,
    spec_values,
    Context,
    field_reference,
    lemma_sub_vars_all,
    spec_alias,
    spec_column_name,
    spec_expand_stars,
    spec_normalize,
    spec_sub_vars,
    spec_sub_vars_all,
    star_columns,
};

verus! {

/// Puts the variables of the session into an expression: `database()` is
/// the current database and `connection_id()` the id of the connection.
pub fn sub_in_special_vars(expr: Expression, session: &Session) -> (r: Expression)
    ensures
        model(r) == spec_sub_vars(model(expr), session.current_database@, session.connection_id),
    decreases expr,
{
    match expr {
        Expression::FunctionCall(call) => {
            proof {
                lemma_models_of(call.args@);
            }
            if call.args.len() == 0 && crate::functions::registry::str_eq(
                call.function_name.as_str(),
                "database",
            ) {
                Expression::from_text(session.current_database.as_str())
            } else if call.args.len() == 0 && crate::functions::registry::str_eq(
                call.function_name.as_str(),
                "connection_id",
            ) {
                Expression::from_i64(session.connection_id as i64)
            } else {
                let args = sub_list(call.args, session);
                Expression::FunctionCall(FunctionCall { function_name: call.function_name, args })
            }
        },
        Expression::Cast(cast) => {
            let datatype = cast.datatype;
            Expression::Cast(
                crate::ast::expr::Cast {
                    expr: Box::new(sub_in_special_vars(*cast.expr, session)),
                    datatype,
                },
            )
        },
        other => other,
    }
}

fn sub_list(list: Vec<Expression>, session: &Session) -> (r: Vec<Expression>)
    ensures
        r@.len() == list@.len(),
        models_of(r@) == spec_sub_vars_all(
            models_of(list@),
            session.current_database@,
            session.connection_id,
            list@.len() as int,
        ),
    decreases list,
{
    let mut rest = list;
    let ghost all = rest@;
    let ghost inputs = models_of(all);
    let ghost expected = spec_sub_vars_all(
        inputs,
        session.current_database@,
        session.connection_id,
        all.len() as int,
    );
    let mut reversed: Vec<Expression> = Vec::new();
    proof {
        lemma_models_of(all);
        lemma_sub_vars_all(inputs, session.current_database@, session.connection_id, all.len() as int);
    }
    while rest.len() > 0
        invariant
            rest@.len() <= all.len(),
            rest@ == all.subrange(0, rest@.len() as int),
            reversed@.len() + rest@.len() == all.len(),
            all == list@,
            inputs == models_of(all),
            inputs.len() == all.len(),
            expected.len() == all.len(),
            forall|k: int|
                0 <= k < all.len() ==> #[trigger] expected[k] == spec_sub_vars(
                    inputs[k],
                    session.current_database@,
                    session.connection_id,
                ),
            forall|j: int|
                0 <= j < reversed@.len() ==> model(#[trigger] reversed@[j]) == expected[all.len()
                    - 1 - j],
        decreases rest@.len(),
    {
        proof {
            vstd::seq::axiom_seq_index_decreases(all, rest@.len() - 1);
            lemma_models_of(all);
        }
        let e = rest.pop().unwrap();
        assert(e == all[rest@.len() as int]);
        assert(rest@ =~= all.subrange(0, rest@.len() as int));
        assert(inputs[rest@.len() as int] == model(e));
        reversed.push(sub_in_special_vars(e, session));
    }
    let ghost turned = reversed@;
    let args = reverse_expressions(reversed);
    proof {
        lemma_restored(turned, args@, expected);
    }
    args
}

/// The name `_col<n>`.
pub fn column_name(n: usize) -> (name: String)
    ensures
        name@ == spec_column_name(n as nat),
{
    let mut bytes: Vec<u8> = Vec::new();
    push_text(&mut bytes, "_col");
    push_u64(&mut bytes, n as u64);
    proof {
        assert(bytes@ =~= column_name_bytes(n as nat));
        vstd::utf8::encode_utf8_valid_utf8("_col"@);
        lemma_digits_valid(n as nat);
        vstd::utf8::valid_utf8_concat("_col".spec_bytes(), nat_digits(n as nat));
    }
    match utf8_text(bytes.as_slice()) {
        Some(text) => {
            proof {
                vstd::utf8::encode_utf8_decode_utf8(text@);
            }
            text.to_owned()
        },
        None => "_col".to_owned(),
    }
}

/// Gives every expression of an output a name: a column reference
/// without one takes the name of its column, any other expression the
/// name `_col<N>`, where N is its place in the output, counted from one.
/// `*` stays without a name.
pub fn normalize_column_aliases(expressions: Vec<NamedExpression>) -> (r: Vec<NamedExpression>)
    ensures
        named_models(r@) == spec_normalize(named_models(expressions@)),
        r@.len() == expressions@.len(),
        forall|i: int|
            0 <= i < r@.len() ==> (#[trigger] r@[i]).expression == expressions@[i].expression,
{
    let mut rest = expressions;
    let ghost all = rest@;
    let mut reversed: Vec<NamedExpression> = Vec::new();
    while rest.len() > 0
        invariant
            rest@.len() <= all.len(),
            rest@ == all.subrange(0, rest@.len() as int),
            reversed@.len() + rest@.len() == all.len(),
            forall|k: int|
                0 <= k < reversed@.len() ==> {
                    let ne = #[trigger] reversed@[k];
                    let source = all[all.len() - 1 - k];
                    &&& ne.expression == source.expression
                    &&& text_model(ne.alias) == spec_alias(named_model(source), all.len() - k)
                },
        decreases rest@.len(),
    {
        let position = rest.len();
        let ne = rest.pop().unwrap();
        assert(ne == all[position - 1]);
        assert(rest@ =~= all.subrange(0, rest@.len() as int));
        let alias = match ne.alias {
            Some(alias) => Some(alias),
            None => match &ne.expression {
                Expression::ColumnReference(c) => if c.star {
                    None
                } else {
                    Some(c.alias.clone())
                },
                _ => Some(column_name(position)),
            },
        };
        reversed.push(NamedExpression { alias, expression: ne.expression });
    }
    let mut result: Vec<NamedExpression> = Vec::new();
    while reversed.len() > 0
        invariant
            result@.len() + reversed@.len() == all.len(),
            forall|k: int|
                0 <= k < reversed@.len() ==> {
                    let ne = #[trigger] reversed@[k];
                    let source = all[all.len() - 1 - k];
                    &&& ne.expression == source.expression
                    &&& text_model(ne.alias) == spec_alias(named_model(source), all.len() - k)
                },
            forall|k: int|
                0 <= k < result@.len() ==> {
                    let ne = #[trigger] result@[k];
                    let source = all[k];
                    &&& ne.expression == source.expression
                    &&& text_model(ne.alias) == spec_alias(named_model(source), k + 1)
                },
        decreases reversed@.len(),
    {
        let ne = reversed.pop().unwrap();
        result.push(ne);
    }
    proof {
        assert forall|i: int| 0 <= i < all.len() implies #[trigger] named_models(result@)[i]
            == spec_normalize(named_models(all))[i] by {
            assert(result@[i].expression == all[i].expression);
        }
        assert(named_models(result@) =~= spec_normalize(named_models(all)));
    }
    result
}

/// The references to the fields that `*` takes in, added to an output.
fn push_star_columns(result: &mut Vec<NamedExpression>, qualifier: &Option<String>, fields: &Vec<Field>)
    ensures
        named_models(final(result)@) == named_models(old(result)@) + star_columns(
            text_model(*qualifier),
            fields_view(fields@),
            fields@.len() as int,
        ),
{
    let ghost start = named_models(result@);
    let ghost views = fields_view(fields@);
    let mut i: usize = 0;
    assert(named_models(result@) =~= start + star_columns(text_model(*qualifier), views, 0));
    while i < fields.len()
        invariant
            i <= fields@.len(),
            views == fields_view(fields@),
            named_models(result@) == start + star_columns(text_model(*qualifier), views, i as int),
        decreases fields@.len() - i,
    {
        let field = &fields[i];
        assert(views[i as int] == fields@[i as int]@);
        let wanted = match (qualifier, &field.qualifier) {
            (Some(q), Some(fq)) => *q == *fq,
            (Some(_), None) => false,
            (None, _) => true,
        };
        if wanted {
            let field_qualifier = match &field.qualifier {
                Some(q) => Some(q.clone()),
                None => None,
            };
            let ghost before = result@;
            let reference = NamedExpression {
                alias: Some(field.alias.clone()),
                expression: Expression::ColumnReference(
                    ColumnReference { qualifier: field_qualifier, alias: field.alias.clone(), star: false },
                ),
            };
            assert(named_model(reference) == field_reference(views[i as int]));
            result.push(reference);
            assert(named_models(result@) =~= named_models(before).push(named_model(reference)));
            assert(named_models(result@) =~= start + star_columns(
                text_model(*qualifier),
                views,
                i + 1,
            ));
        }
        i += 1;
    }
}

/// The named expressions of a list, in the other order.
fn reverse_named(list: Vec<NamedExpression>) -> (r: Vec<NamedExpression>)
    ensures
        r@.len() == list@.len(),
        forall|i: int| 0 <= i < r@.len() ==> #[trigger] r@[i] == list@[list@.len() - 1 - i],
{
    let mut rest = list;
    let ghost all = rest@;
    let mut result: Vec<NamedExpression> = Vec::new();
    while rest.len() > 0
        invariant
            rest@.len() <= all.len(),
            rest@ == all.subrange(0, rest@.len() as int),
            result@.len() + rest@.len() == all.len(),
            forall|i: int| 0 <= i < result@.len() ==> #[trigger] result@[i] == all[all.len() - 1 - i],
        decreases rest@.len(),
    {
        let e = rest.pop().unwrap();
        assert(e == all[rest@.len() as int]);
        assert(rest@ =~= all.subrange(0, rest@.len() as int));
        result.push(e);
    }
    result
}

/// Replaces each `*` in an output by references to the columns of the
/// source: all of them, or with a qualifier those under it.
pub fn expand_stars(expressions: Vec<NamedExpression>, fields: &Vec<Field>) -> (r: Vec<
    NamedExpression,
>)
    ensures
        named_models(r@) == spec_expand_stars(
            named_models(expressions@),
            fields_view(fields@),
            expressions@.len() as int,
        ),
{
    let ghost all = expressions@;
    let ghost inputs = named_models(all);
    let ghost views = fields_view(fields@);
    let mut result: Vec<NamedExpression> = Vec::new();
    let mut reversed = reverse_named(expressions);
    assert(named_models(result@) =~= spec_expand_stars(inputs, views, 0));
    while reversed.len() > 0
        invariant
            reversed@.len() <= all.len(),
            inputs == named_models(all),
            views == fields_view(fields@),
            forall|i: int|
                0 <= i < reversed@.len() ==> #[trigger] reversed@[i] == all[all.len() - 1 - i],
            named_models(result@) == spec_expand_stars(
                inputs,
                views,
                all.len() - reversed@.len(),
            ),
        decreases reversed@.len(),
    {
        let ghost place = all.len() - reversed@.len();
        let ghost before = result@;
        let ne = reversed.pop().unwrap();
        assert(ne == all[place]);
        assert(inputs[place] == named_model(ne));
        match ne.expression {
            Expression::ColumnReference(reference) => {
                if reference.star {
                    push_star_columns(&mut result, &reference.qualifier, fields);
                } else {
                    let kept = NamedExpression {
                        alias: ne.alias,
                        expression: Expression::ColumnReference(reference),
                    };
                    assert(named_model(kept) == inputs[place]);
                    result.push(kept);
                    assert(named_models(result@) =~= named_models(before) + seq![inputs[place]]);
                }
            },
            other => {
                let kept = NamedExpression { alias: ne.alias, expression: other };
                assert(named_model(kept) == inputs[place]);
                result.push(kept);
                assert(named_models(result@) =~= named_models(before) + seq![inputs[place]]);
            },
        }
    }
    result
}

/// What validation goes by besides the plan and the catalog.
pub open spec fn context_of(registry: Registry, session: Session) -> Context {
    Context {
        registry: registry@,
        database: session.current_database@,
        connection_id: session.connection_id,
    }
}

/// What validating a list of named expressions gave, as a model.
pub open spec fn named_outcomes(r: Result<Vec<NamedExpression>, PlannerError>) -> Result<
    Seq<NamedModel>,
    Failure,
> {
    match r {
        Ok(list) => Ok(named_models(list@)),
        Err(error) => Err(failure_of(error)),
    }
}

/// What validating a list of sort expressions gave, as a model.
pub open spec fn sort_outcomes(r: Result<Vec<SortExpression>, PlannerError>) -> Result<
    Seq<SortModel>,
    Failure,
> {
    match r {
        Ok(list) => Ok(sort_models(list@)),
        Err(error) => Err(failure_of(error)),
    }
}

/// What validating a plan gave, as a model.
pub open spec fn plan_outcome(r: Result<LogicalOperator, PlannerError>) -> Result<
    PlanModel,
    Failure,
> {
    match r {
        Ok(plan) => Ok(plan_model(plan)),
        Err(error) => Err(failure_of(error)),
    }
}

/// What validating a list of plans gave, as a model.
pub open spec fn plan_outcomes(r: Result<Vec<LogicalOperator>, PlannerError>) -> Result<
    Seq<PlanModel>,
    Failure,
> {
    match r {
        Ok(list) => Ok(plan_models_of(list@)),
        Err(error) => Err(failure_of(error)),
    }
}

/// Puts the variables of the session into an expression and compiles it
/// against the fields of its source.
fn prepare(expr: Expression, fields: &Vec<Field>, registry: &Registry, session: &Session) -> (r:
    Result<Expression, PlannerError>)
    ensures
        outcome(r) == spec_prepare(
            model(expr),
            fields_view(fields@),
            context_of(*registry, *session),
        ),
        r matches Ok(e) ==> spec_compiled(e),
{
    let prepared = sub_in_special_vars(expr, session);
    compile_expression(prepared, fields, registry, COMPOUND_DEPTH)
}

fn compile_named(
    expressions: Vec<NamedExpression>,
    fields: &Vec<Field>,
    registry: &Registry,
    session: &Session,
) -> (r: Result<Vec<NamedExpression>, PlannerError>)
    ensures
        named_outcomes(r) == spec_compile_named(
            named_models(expressions@),
            fields_view(fields@),
            context_of(*registry, *session),
            expressions@.len() as int,
        ),
        r matches Ok(compiled) ==> compiled@.len() == expressions@.len() && forall|k: int|
            0 <= k < compiled@.len() ==> spec_compiled((#[trigger] compiled@[k]).expression),
{
    let mut rest = expressions;
    let ghost all = rest@;
    let ghost inputs = named_models(all);
    let ghost views = fields_view(fields@);
    let ghost context = context_of(*registry, *session);
    let ghost done: Seq<NamedModel> = Seq::empty();
    let mut reversed: Vec<NamedExpression> = Vec::new();
    proof {
        lemma_appended_nothing(spec_compile_named(inputs, views, context, all.len() as int));
    }
    while rest.len() > 0
        invariant
            rest@.len() <= all.len(),
            rest@ == all.subrange(0, rest@.len() as int),
            reversed@.len() + rest@.len() == all.len(),
            all == expressions@,
            inputs == named_models(all),
            views == fields_view(fields@),
            context == context_of(*registry, *session),
            done.len() == reversed@.len(),
            forall|j: int|
                0 <= j < reversed@.len() ==> named_model(#[trigger] reversed@[j]) == done[done.len()
                    - 1 - j],
            forall|k: int|
                0 <= k < reversed@.len() ==> spec_compiled((#[trigger] reversed@[k]).expression),
            spec_compile_named(inputs, views, context, all.len() as int) == appended(
                spec_compile_named(inputs, views, context, rest@.len() as int),
                done,
            ),
        decreases rest@.len(),
    {
        let ghost before = spec_compile_named(inputs, views, context, rest@.len() - 1);
        let ne = rest.pop().unwrap();
        assert(ne == all[rest@.len() as int]);
        assert(rest@ =~= all.subrange(0, rest@.len() as int));
        assert(inputs[rest@.len() as int] == named_model(ne));
        match prepare(ne.expression, fields, registry, session) {
            Ok(expression) => {
                let compiled = NamedExpression { alias: ne.alias, expression };
                proof {
                    lemma_appended(before, named_model(compiled), done);
                    done = seq![named_model(compiled)] + done;
                }
                reversed.push(compiled);
            },
            Err(error) => {
                return Err(error);
            },
        }
    }
    let ghost turned = reversed@;
    let result = reverse_named(reversed);
    proof {
        assert(Seq::<NamedModel>::empty() + done =~= done);
        assert forall|i: int| 0 <= i < result@.len() implies #[trigger] named_models(result@)[i]
            == done[i] by {
            assert(result@[i] == turned[turned.len() - 1 - i]);
            assert(named_model(turned[turned.len() - 1 - i]) == done[done.len() - 1 - (turned.len()
                - 1 - i)]);
        }
        assert(named_models(result@) =~= done);
        assert forall|k: int| 0 <= k < result@.len() implies spec_compiled(
            (#[trigger] result@[k]).expression,
        ) by {
            assert(result@[k] == turned[turned.len() - 1 - k]);
        }
    }
    Ok(result)
}

fn compile_plain(
    expressions: Vec<Expression>,
    fields: &Vec<Field>,
    registry: &Registry,
    session: &Session,
) -> (r: Result<Vec<Expression>, PlannerError>)
    ensures
        outcomes(r) == spec_compile_plain(
            models_of(expressions@),
            fields_view(fields@),
            context_of(*registry, *session),
            expressions@.len() as int,
        ),
        r matches Ok(compiled) ==> compiled@.len() == expressions@.len() && forall|k: int|
            0 <= k < compiled@.len() ==> spec_compiled(#[trigger] compiled@[k]),
{
    let mut rest = expressions;
    let ghost all = rest@;
    let ghost inputs = models_of(all);
    let ghost views = fields_view(fields@);
    let ghost context = context_of(*registry, *session);
    let ghost done: Seq<ExpressionModel> = Seq::empty();
    let mut reversed: Vec<Expression> = Vec::new();
    proof {
        lemma_models_of(all);
        lemma_appended_nothing(spec_compile_plain(inputs, views, context, all.len() as int));
    }
    while rest.len() > 0
        invariant
            rest@.len() <= all.len(),
            rest@ == all.subrange(0, rest@.len() as int),
            reversed@.len() + rest@.len() == all.len(),
            all == expressions@,
            inputs == models_of(all),
            inputs.len() == all.len(),
            views == fields_view(fields@),
            context == context_of(*registry, *session),
            done.len() == reversed@.len(),
            forall|j: int|
                0 <= j < reversed@.len() ==> model(#[trigger] reversed@[j]) == done[done.len() - 1
                    - j],
            forall|k: int| 0 <= k < reversed@.len() ==> spec_compiled(#[trigger] reversed@[k]),
            spec_compile_plain(inputs, views, context, all.len() as int) == appended(
                spec_compile_plain(inputs, views, context, rest@.len() as int),
                done,
            ),
        decreases rest@.len(),
    {
        proof {
            lemma_models_of(all);
        }
        let ghost before = spec_compile_plain(inputs, views, context, rest@.len() - 1);
        let e = rest.pop().unwrap();
        assert(e == all[rest@.len() as int]);
        assert(rest@ =~= all.subrange(0, rest@.len() as int));
        assert(inputs[rest@.len() as int] == model(e));
        match prepare(e, fields, registry, session) {
            Ok(expression) => {
                proof {
                    lemma_appended(before, model(expression), done);
                    done = seq![model(expression)] + done;
                }
                reversed.push(expression);
            },
            Err(error) => {
                return Err(error);
            },
        }
    }
    let ghost turned = reversed@;
    let result = reverse_expressions(reversed);
    proof {
        lemma_restored(turned, result@, done);
        assert(Seq::<ExpressionModel>::empty() + done =~= done);
        assert forall|k: int| 0 <= k < result@.len() implies spec_compiled(#[trigger] result@[k]) by {
            assert(result@[k] == turned[turned.len() - 1 - k]);
        }
    }
    Ok(result)
}

/// The sort expressions of a list, in the other order.
fn reverse_sort(list: Vec<SortExpression>) -> (r: Vec<SortExpression>)
    ensures
        r@.len() == list@.len(),
        forall|i: int| 0 <= i < r@.len() ==> #[trigger] r@[i] == list@[list@.len() - 1 - i],
{
    let mut rest = list;
    let ghost all = rest@;
    let mut result: Vec<SortExpression> = Vec::new();
    while rest.len() > 0
        invariant
            rest@.len() <= all.len(),
            rest@ == all.subrange(0, rest@.len() as int),
            result@.len() + rest@.len() == all.len(),
            forall|i: int| 0 <= i < result@.len() ==> #[trigger] result@[i] == all[all.len() - 1 - i],
        decreases rest@.len(),
    {
        let e = rest.pop().unwrap();
        assert(e == all[rest@.len() as int]);
        assert(rest@ =~= all.subrange(0, rest@.len() as int));
        result.push(e);
    }
    result
}

/// An aggregate stands in an expression exactly where one stands in its
/// model.
pub proof fn lemma_model_aggregate(e: Expression)
    ensures
        model_contains_aggregate(model(e)) == spec_contains_aggregate(e),
    decreases e, 0int,
{
    match e {
        Expression::FunctionCall(f) => {
            lemma_models_of(f.args@);
            lemma_models_aggregate(f.args@, f.args@.len() as int);
        },
        Expression::CompiledFunctionCall(f) => {
            lemma_models_of(f.args@);
            lemma_models_aggregate(f.args@, f.args@.len() as int);
        },
        Expression::Cast(c) => {
            lemma_model_aggregate(*c.expr);
        },
        _ => {},
    }
}

/// An aggregate stands in the first expressions of a list exactly where
/// one stands in their models.
pub proof fn lemma_models_aggregate(list: Seq<Expression>, n: int)
    requires
        0 <= n <= list.len(),
    ensures
        models_any_aggregate(models_of(list), n) == spec_any_aggregate(list, n),
    decreases list, n,
{
    lemma_models_of(list);
    if n > 0 {
        vstd::seq::axiom_seq_index_decreases(list, n - 1);
        lemma_models_aggregate(list, n - 1);
        lemma_model_aggregate(list[n - 1]);
    }
}

fn compile_sort(
    expressions: Vec<SortExpression>,
    fields: &Vec<Field>,
    registry: &Registry,
    session: &Session,
) -> (r: Result<Vec<SortExpression>, PlannerError>)
    ensures
        sort_outcomes(r) == spec_compile_sort(
            sort_models(expressions@),
            fields_view(fields@),
            context_of(*registry, *session),
            expressions@.len() as int,
        ),
        r matches Ok(compiled) ==> compiled@.len() == expressions@.len() && forall|k: int|
            0 <= k < compiled@.len() ==> spec_compiled((#[trigger] compiled@[k]).expression),
{
    let mut rest = expressions;
    let ghost all = rest@;
    let ghost inputs = sort_models(all);
    let ghost views = fields_view(fields@);
    let ghost context = context_of(*registry, *session);
    let ghost done: Seq<SortModel> = Seq::empty();
    let mut reversed: Vec<SortExpression> = Vec::new();
    proof {
        lemma_appended_nothing(spec_compile_sort(inputs, views, context, all.len() as int));
    }
    while rest.len() > 0
        invariant
            rest@.len() <= all.len(),
            rest@ == all.subrange(0, rest@.len() as int),
            reversed@.len() + rest@.len() == all.len(),
            all == expressions@,
            inputs == sort_models(all),
            views == fields_view(fields@),
            context == context_of(*registry, *session),
            done.len() == reversed@.len(),
            forall|j: int|
                0 <= j < reversed@.len() ==> sort_model(#[trigger] reversed@[j]) == done[done.len()
                    - 1 - j],
            forall|k: int|
                0 <= k < reversed@.len() ==> spec_compiled((#[trigger] reversed@[k]).expression),
            spec_compile_sort(inputs, views, context, all.len() as int) == appended(
                spec_compile_sort(inputs, views, context, rest@.len() as int),
                done,
            ),
        decreases rest@.len(),
    {
        let ghost before = spec_compile_sort(inputs, views, context, rest@.len() - 1);
        let se = rest.pop().unwrap();
        assert(se == all[rest@.len() as int]);
        assert(rest@ =~= all.subrange(0, rest@.len() as int));
        assert(inputs[rest@.len() as int] == sort_model(se));
        match prepare(se.expression, fields, registry, session) {
            Ok(expression) => {
                proof {
                    lemma_model_aggregate(expression);
                }
                if contains_aggregate(&expression) {
                    return Err(
                        PlannerError::AggregateMisuse("an aggregate in a sort expression".to_owned()),
                    );
                }
                let compiled = SortExpression { ordering: se.ordering, expression };
                proof {
                    lemma_appended(before, sort_model(compiled), done);
                    done = seq![sort_model(compiled)] + done;
                }
                reversed.push(compiled);
            },
            Err(error) => {
                return Err(error);
            },
        }
    }
    let ghost turned = reversed@;
    let result = reverse_sort(reversed);
    proof {
        assert(Seq::<SortModel>::empty() + done =~= done);
        assert forall|i: int| 0 <= i < result@.len() implies #[trigger] sort_models(result@)[i]
            == done[i] by {
            assert(result@[i] == turned[turned.len() - 1 - i]);
            assert(sort_model(turned[turned.len() - 1 - i]) == done[done.len() - 1 - (turned.len()
                - 1 - i)]);
        }
        assert(sort_models(result@) =~= done);
        assert forall|k: int| 0 <= k < result@.len() implies spec_compiled(
            (#[trigger] result@[k]).expression,
        ) by {
            assert(result@[k] == turned[turned.len() - 1 - k]);
        }
    }
    Ok(result)
}

/// Whether an aggregate stands in one of the named expressions of a list.
fn any_named_aggregate(expressions: &Vec<NamedExpression>) -> (b: bool)
    ensures
        b == named_any_aggregate(named_models(expressions@), expressions@.len() as int),
{
    let mut i: usize = 0;
    let mut found = false;
    while i < expressions.len()
        invariant
            i <= expressions@.len(),
            found == named_any_aggregate(named_models(expressions@), i as int),
        decreases expressions@.len() - i,
    {
        proof {
            lemma_model_aggregate(expressions@[i as int].expression);
        }
        if contains_aggregate(&expressions[i].expression) {
            found = true;
        }
        i += 1;
    }
    found
}

/// Whether an aggregate stands among the arguments of an aggregate.
fn nested_aggregate(expr: &Expression) -> (b: bool)
    ensures
        b == model_nested_aggregate(model(*expr)),
    decreases expr,
{
    match expr {
        Expression::CompiledAggregate(call) => {
            proof {
                lemma_models_aggregate(call.args@, call.args@.len() as int);
                lemma_models_of(call.args@);
            }
            any_aggregate(&call.args)
        },
        Expression::CompiledFunctionCall(call) => {
            proof {
                lemma_models_of(call.args@);
            }
            any_nested_aggregate(&call.args)
        },
        _ => false,
    }
}

fn any_nested_aggregate(list: &Vec<Expression>) -> (b: bool)
    ensures
        b == models_any_nested(models_of(list@), list@.len() as int),
    decreases list,
{
    let mut i: usize = 0;
    let mut found = false;
    proof {
        lemma_models_of(list@);
    }
    while i < list.len()
        invariant
            i <= list@.len(),
            models_of(list@).len() == list@.len(),
            forall|k: int| 0 <= k < list@.len() ==> #[trigger] models_of(list@)[k] == model(list@[k]),
            found == models_any_nested(models_of(list@), i as int),
        decreases list@.len() - i,
    {
        proof {
            vstd::std_specs::vec::axiom_vec_index_decreases(*list, i as int);
        }
        if nested_aggregate(&list[i]) {
            found = true;
        }
        i += 1;
    }
    found
}

/// Checks that no aggregate stands among the arguments of another.
fn check_named_aggregates(expressions: &Vec<NamedExpression>) -> (r: Result<(), PlannerError>)
    ensures
        r is Err <==> named_any_nested(named_models(expressions@), expressions@.len() as int),
        r matches Err(error) ==> failure_of(error) == Failure::AggregateMisuse(
            "an aggregate inside an aggregate"@,
        ),
{
    let mut i: usize = 0;
    let mut found = false;
    while i < expressions.len()
        invariant
            i <= expressions@.len(),
            found == named_any_nested(named_models(expressions@), i as int),
        decreases expressions@.len() - i,
    {
        if nested_aggregate(&expressions[i].expression) {
            found = true;
        }
        i += 1;
    }
    if found {
        Err(PlannerError::AggregateMisuse("an aggregate inside an aggregate".to_owned()))
    } else {
        Ok(())
    }
}

/// Checks that a predicate is a boolean without aggregates.
fn check_predicate(predicate: &Expression) -> (r: Result<(), PlannerError>)
    ensures
        match r {
            Ok(_) => spec_check_predicate(model(*predicate)) is None,
            Err(error) => spec_check_predicate(model(*predicate)) == Some(failure_of(error)),
        },
{
    proof {
        lemma_model_type(*predicate);
        lemma_model_aggregate(*predicate);
    }
    let t = type_for_expression(predicate);
    if t != DataType::Boolean && t != DataType::Null {
        return Err(PlannerError::TypeMismatch("a predicate has to be a boolean".to_owned()));
    }
    if contains_aggregate(predicate) {
        return Err(PlannerError::AggregateMisuse("an aggregate in a predicate".to_owned()));
    }
    Ok(())
}

/// Compiles a predicate against the fields that it sees, and checks it.
fn compile_predicate(
    predicate: Expression,
    fields: &Vec<Field>,
    registry: &Registry,
    session: &Session,
) -> (r: Result<Expression, PlannerError>)
    ensures
        outcome(r) == spec_predicate(
            model(predicate),
            fields_view(fields@),
            context_of(*registry, *session),
        ),
        r matches Ok(e) ==> spec_compiled(e),
{
    let compiled = match prepare(predicate, fields, registry, session) {
        Ok(compiled) => compiled,
        Err(error) => {
            return Err(error);
        },
    };
    match check_predicate(&compiled) {
        Ok(_) => Ok(compiled),
        Err(error) => Err(error),
    }
}

/// The type that takes values of both types.
pub fn common_type(a: DataType, b: DataType) -> (r: Option<DataType>)
    ensures
        r == spec_common_type(a, b),
{
    if widening_cost(a, b).is_some() {
        Some(b)
    } else if widening_cost(b, a).is_some() {
        Some(a)
    } else {
        None
    }
}

/// What validating literal rows gave, as a model.
pub open spec fn values_outcome(r: Result<Values, PlannerError>) -> Result<PlanModel, Failure> {
    match r {
        Ok(values) => Ok(PlanModel::Values(rows_model(values.data@), typed_names(values.fields@))),
        Err(error) => Err(failure_of(error)),
    }
}

/// Where the literal rows from one row on are invalid, those from any
/// earlier row on are too, in the same way.
proof fn lemma_rows_fail(rows: Seq<Seq<ExpressionModel>>, context: Context, n: int, m: int)
    requires
        0 <= m <= n <= rows.len(),
        spec_rows(rows, context, n) is Err,
    ensures
        spec_rows(rows, context, m) == spec_rows(rows, context, n),
    decreases n - m,
{
    if m < n {
        lemma_rows_fail(rows, context, n, m + 1);
    }
}

/// Where the first columns of a literal row are invalid, the row is.
proof fn lemma_columns_fail(compiled: Seq<ExpressionModel>, types: Seq<DataType>, k: int, m: int)
    requires
        0 <= k <= m <= compiled.len(),
        compiled.len() == types.len(),
        spec_row_columns(compiled, types, k) is Err,
    ensures
        spec_row_columns(compiled, types, m) == spec_row_columns(compiled, types, k),
    decreases m - k,
{
    if k < m {
        lemma_columns_fail(compiled, types, k, m - 1);
    }
}

/// The columns of a literal row as constants, and the types of the
/// columns of the rows brought up to date.
fn row_constants(compiled: &Vec<Expression>, types: &mut Vec<DataType>, session: &Session) -> (r:
    Option<Vec<Expression>>)
    requires
        compiled@.len() == old(types)@.len(),
    ensures
        match r {
            Some(constants) => spec_row_columns(
                models_of(compiled@),
                old(types)@,
                compiled@.len() as int,
            ) == Ok::<(Seq<ExpressionModel>, Seq<DataType>), Failure>(
                (models_of(constants@), final(types)@),
            ) && forall|j: int| 0 <= j < constants@.len() ==> (#[trigger] constants@[j]) is Constant,
            None => spec_row_columns(models_of(compiled@), old(types)@, compiled@.len() as int)
                == Err::<(Seq<ExpressionModel>, Seq<DataType>), Failure>(invalid_columns()),
        },
{
    let ghost inputs = models_of(compiled@);
    let ghost before = types@;
    let mut constants: Vec<Expression> = Vec::new();
    let mut k: usize = 0;
    proof {
        lemma_models_of(compiled@);
        lemma_models_of(constants@);
        assert(models_of(constants@) =~= Seq::<ExpressionModel>::empty());
    }
    while k < compiled.len()
        invariant
            k <= compiled@.len(),
            compiled@.len() == types@.len(),
            compiled@.len() == before.len(),
            before == old(types)@,
            inputs == models_of(compiled@),
            inputs.len() == compiled@.len(),
            constants@.len() == k,
            forall|j: int| 0 <= j < constants@.len() ==> (#[trigger] constants@[j]) is Constant,
            spec_row_columns(inputs, before, k as int) == Ok::<
                (Seq<ExpressionModel>, Seq<DataType>),
                Failure,
            >((models_of(constants@), types@)),
        decreases compiled@.len() - k,
    {
        proof {
            lemma_models_of(compiled@);
            lemma_model_type(compiled@[k as int]);
            lemma_model_aggregate(compiled@[k as int]);
            lemma_model_value(compiled@[k as int], Seq::empty());
        }
        let ghost so_far = types@;
        let t = type_for_expression(&compiled[k]);
        let common = match common_type(types[k], t) {
            Some(common) => common,
            None => {
                proof {
                    assert(spec_row_columns(inputs, before, k + 1) == Err::<
                        (Seq<ExpressionModel>, Seq<DataType>),
                        Failure,
                    >(invalid_columns()));
                    lemma_columns_fail(inputs, before, k + 1, compiled@.len() as int);
                }
                return None;
            },
        };
        if contains_aggregate(&compiled[k]) {
            proof {
                assert(spec_row_columns(inputs, before, k + 1) == Err::<
                    (Seq<ExpressionModel>, Seq<DataType>),
                    Failure,
                >(invalid_columns()));
                lemma_columns_fail(inputs, before, k + 1, compiled@.len() as int);
            }
            return None;
        }
        types[k] = common;
        assert(types@ == so_far.update(k as int, common));
        let empty = no_datums();
        assert(tuple_view(empty@) =~= Seq::<crate::data::Value>::empty());
        let value = compiled[k].eval_scalar(session, empty);
        let constant = Expression::Constant(value, t);
        proof {
            crate::ast::model::lemma_models_push(constants@, constant);
        }
        constants.push(constant);
        k += 1;
    }
    Some(constants)
}

/// A literal row as constants, and the types of the columns brought up to
/// date; `first` says that no row has been taken yet.
fn validate_row(
    row: Vec<Expression>,
    types: &mut Vec<DataType>,
    first: bool,
    registry: &Registry,
    session: &Session,
) -> (r: Result<Vec<Expression>, PlannerError>)
    requires
        first ==> old(types)@.len() == 0,
    ensures
        match r {
            Ok(constants) => spec_row(
                models_of(row@),
                if first {
                    None
                } else {
                    Some(old(types)@)
                },
                context_of(*registry, *session),
            ) == Ok::<(Seq<ExpressionModel>, Seq<DataType>), Failure>(
                (models_of(constants@), final(types)@),
            ) && forall|j: int| 0 <= j < constants@.len() ==> (#[trigger] constants@[j]) is Constant,
            Err(error) => spec_row(
                models_of(row@),
                if first {
                    None
                } else {
                    Some(old(types)@)
                },
                context_of(*registry, *session),
            ) == Err::<(Seq<ExpressionModel>, Seq<DataType>), Failure>(failure_of(error)),
        },
{
    reveal(spec_row);
    let no_fields: Vec<Field> = Vec::new();
    assert(fields_view(no_fields@) =~= Seq::<crate::planner::FieldView>::empty());
    proof {
        lemma_models_of(row@);
    }
    let compiled = match compile_plain(row, &no_fields, registry, session) {
        Ok(compiled) => compiled,
        Err(error) => {
            return Err(error);
        },
    };
    proof {
        lemma_models_of(compiled@);
    }
    if first {
        let mut k: usize = 0;
        while k < compiled.len()
            invariant
                k <= compiled@.len(),
                types@.len() == k,
                forall|j: int| 0 <= j < k ==> #[trigger] types@[j] == DataType::Null,
            decreases compiled@.len() - k,
        {
            types.push(DataType::Null);
            k += 1;
        }
        assert(types@ =~= Seq::new(models_of(compiled@).len(), |i: int| DataType::Null));
    }
    if compiled.len() != types.len() {
        return Err(PlannerError::InvalidValues("rows of different length".to_owned()));
    }
    match row_constants(&compiled, types, session) {
        Some(constants) => Ok(constants),
        None => Err(
            PlannerError::InvalidValues(
                "a column without a common type, or an aggregate in a row".to_owned(),
            ),
        ),
    }
}

/// Compiles the rows of a `VALUES` list and brings them to common column
/// types. Every row has to have as many expressions as the last, each
/// expression has to come to a constant, and the expressions of a column
/// have to have a common type.
pub fn validate_values_types(values: Values, registry: &Registry, session: &Session) -> (r: Result<
    Values,
    PlannerError,
>)
    ensures
        values_outcome(r) == spec_values(rows_model(values.data@), context_of(*registry, *session)),
        r matches Ok(v) ==> crate::planner::utils::logical::spec_constant_rows(
            v.data@,
            v.data@.len() as int,
        ),
{
    reveal(spec_values);
    let ghost all = values.data@;
    let ghost inputs = rows_model(all);
    let ghost context = context_of(*registry, *session);
    let ghost done: Seq<Seq<ExpressionModel>> = Seq::empty();
    let mut rows = values.data;
    let mut reversed: Vec<Vec<Expression>> = Vec::new();
    let mut types: Vec<DataType> = Vec::new();
    let mut first = true;
    // The rows are taken from the last to the first.
    while rows.len() > 0
        invariant
            rows@.len() <= all.len(),
            rows@ == all.subrange(0, rows@.len() as int),
            reversed@.len() + rows@.len() == all.len(),
            all == values.data@,
            inputs == rows_model(all),
            context == context_of(*registry, *session),
            first ==> types@.len() == 0,
            done.len() == reversed@.len(),
            forall|j: int|
                0 <= j < reversed@.len() ==> models_of((#[trigger] reversed@[j])@) == done[done.len()
                    - 1 - j],
            forall|r: int, k: int|
                0 <= r < reversed@.len() && 0 <= k < reversed@[r]@.len() ==> (
                #[trigger] reversed@[r]@[k]) is Constant,
            spec_rows(inputs, context, rows@.len() as int) == Ok::<
                (Seq<Seq<ExpressionModel>>, Option<Seq<DataType>>),
                Failure,
            >(
                (
                    done,
                    if first {
                        None
                    } else {
                        Some(types@)
                    },
                ),
            ),
        decreases rows@.len(),
    {
        let ghost place = rows@.len() - 1;
        let row = rows.pop().unwrap();
        assert(row == all[place]);
        assert(rows@ =~= all.subrange(0, rows@.len() as int));
        assert(inputs[place] == models_of(row@));
        let constants = match validate_row(row, &mut types, first, registry, session) {
            Ok(constants) => constants,
            Err(error) => {
                proof {
                    assert(spec_rows(inputs, context, place) == Err::<
                        (Seq<Seq<ExpressionModel>>, Option<Seq<DataType>>),
                        Failure,
                    >(failure_of(error)));
                    lemma_rows_fail(inputs, context, place, 0);
                    reveal(spec_values);
                }
                return Err(error);
            },
        };
        first = false;
        proof {
            done = seq![models_of(constants@)] + done;
        }
        reversed.push(constants);
    }
    let ghost turned = reversed@;
    let mut data: Vec<Vec<Expression>> = Vec::new();
    while reversed.len() > 0
        invariant
            data@.len() + reversed@.len() == turned.len(),
            done.len() == turned.len(),
            forall|j: int|
                0 <= j < reversed@.len() ==> models_of((#[trigger] reversed@[j])@) == done[done.len()
                    - 1 - j],
            forall|j: int| 0 <= j < data@.len() ==> models_of((#[trigger] data@[j])@) == done[j],
            forall|r: int, k: int|
                0 <= r < reversed@.len() && 0 <= k < reversed@[r]@.len() ==> (
                #[trigger] reversed@[r]@[k]) is Constant,
            forall|r: int, k: int|
                0 <= r < data@.len() && 0 <= k < data@[r]@.len() ==> (#[trigger] data@[r]@[k])
                    is Constant,
        decreases reversed@.len(),
    {
        let row = reversed.pop().unwrap();
        data.push(row);
    }
    let fields = column_fields(&types);
    proof {
        lemma_constant_rows(data@, data@.len() as int);
        assert(rows_model(data@) =~= done);
        if first {
            assert(types@ =~= Seq::<DataType>::empty());
        }
        assert(rows@.len() == 0);
    }
    Ok(Values { data, fields })
}

/// Columns named `_col<N>` of the given types.
fn column_fields(types: &Vec<DataType>) -> (fields: Vec<(DataType, String)>)
    ensures
        typed_names(fields@) == Seq::new(
            types@.len(),
            |i: int| (types@[i], validate_model::spec_column_name((i + 1) as nat)),
        ),
{
    let mut fields: Vec<(DataType, String)> = Vec::new();
    let mut k: usize = 0;
    while k < types.len()
        invariant
            k <= types@.len(),
            fields@.len() == k,
            forall|j: int|
                0 <= j < k ==> (#[trigger] fields@[j]).0 == types@[j] && fields@[j].1@
                    == validate_model::spec_column_name((j + 1) as nat),
        decreases types@.len() - k,
    {
        fields.push((types[k], column_name(k + 1)));
        k += 1;
    }
    assert(typed_names(fields@) =~= Seq::new(
        types@.len(),
        |i: int| (types@[i], validate_model::spec_column_name((i + 1) as nat)),
    ));
    fields
}

/// An empty row.
fn no_datums() -> (r: &'static [Datum<'static>])
    ensures
        r@.len() == 0,
{
    let empty: &'static [Datum<'static>] = &[];
    empty
}

/// Looks a table up in the catalog; a table without a database is looked
/// up in the current database of the session.
pub fn resolve_table(
    catalog: &Catalog,
    database: Option<String>,
    table: String,
    session: &Session,
    registry: &Registry,
) -> (r: Result<LogicalOperator, PlannerError>)
    ensures
        plan_outcome(r) == spec_resolve_table(
            *catalog,
            text_model(database),
            table@,
            context_of(*registry, *session),
        ),
        r matches Ok(o) ==> o is ResolvedTable,
{
    reveal(spec_resolve_table);
    let found = match &database {
        Some(database) => catalog.table(database.as_str(), table.as_str()),
        None => catalog.table(session.current_database.as_str(), table.as_str()),
    };
    match found {
        Ok(table) => {
            let columns = clone_columns(table.columns());
            proof {
                let model = table_model(table);
                assert forall|i: int| 0 <= i < columns@.len() implies #[trigger] named_types(
                    columns@,
                )[i] == (vstd::utf8::decode_utf8(model.columns[i].0), model.columns[i].1) by {
                    vstd::utf8::encode_utf8_decode_utf8(table.spec_columns()[i].0@);
                }
                assert(named_types(columns@) =~= Seq::new(
                    model.columns.len(),
                    |i: int| (vstd::utf8::decode_utf8(model.columns[i].0), model.columns[i].1),
                ));
            }
            Ok(LogicalOperator::ResolvedTable(ResolvedTable { columns, table }))
        },
        Err(CatalogError::TableNotFound(database, table)) => Err(
            PlannerError::Catalog(CatalogError::TableNotFound(database, table)),
        ),
        Err(_) => Err(
            PlannerError::Catalog(
                CatalogError::StorageError(
                    StorageError::KeyValue("the catalog cannot be read".to_owned()),
                ),
            ),
        ),
    }
}

/// Whether two lists of fields have the same number of columns and each
/// pair of columns a common type.
fn fields_compatible(a: &Vec<Field>, b: &Vec<Field>) -> (r: bool)
    ensures
        r == compatible(fields_view(a@), fields_view(b@)),
{
    if a.len() != b.len() {
        return false;
    }
    let mut i: usize = 0;
    while i < a.len()
        invariant
            i <= a@.len(),
            a@.len() == b@.len(),
            forall|j: int|
                0 <= j < i ==> spec_common_type(
                    (#[trigger] fields_view(a@)[j]).data_type,
                    fields_view(b@)[j].data_type,
                ) is Some,
        decreases a@.len() - i,
    {
        if common_type(a[i].data_type, b[i].data_type).is_none() {
            assert(spec_common_type(
                fields_view(a@)[i as int].data_type,
                fields_view(b@)[i as int].data_type,
            ) is None);
            return false;
        }
        i += 1;
    }
    true
}

/// The plans of a list, in the other order.
fn reverse_plans(list: Vec<LogicalOperator>) -> (r: Vec<LogicalOperator>)
    ensures
        r@.len() == list@.len(),
        forall|i: int| 0 <= i < r@.len() ==> #[trigger] r@[i] == list@[list@.len() - 1 - i],
{
    let mut rest = list;
    let ghost all = rest@;
    let mut result: Vec<LogicalOperator> = Vec::new();
    while rest.len() > 0
        invariant
            rest@.len() <= all.len(),
            rest@ == all.subrange(0, rest@.len() as int),
            result@.len() + rest@.len() == all.len(),
            forall|i: int| 0 <= i < result@.len() ==> #[trigger] result@[i] == all[all.len() - 1 - i],
        decreases rest@.len(),
    {
        let e = rest.pop().unwrap();
        assert(e == all[rest@.len() as int]);
        assert(rest@ =~= all.subrange(0, rest@.len() as int));
        result.push(e);
    }
    result
}

fn validate_list(
    list: Vec<LogicalOperator>,
    catalog: &Catalog,
    registry: &Registry,
    session: &Session,
) -> (r: Result<Vec<LogicalOperator>, PlannerError>)
    ensures
        plan_outcomes(r) == spec_validate_all(
            plan_models_of(list@),
            *catalog,
            context_of(*registry, *session),
            list@.len() as int,
        ),
        r matches Ok(sources) ==> forall|k: int|
            0 <= k < sources@.len() ==> spec_validated(#[trigger] sources@[k]),
    decreases list,
{
    let mut rest = list;
    let ghost all = rest@;
    let ghost inputs = plan_models_of(all);
    let ghost context = context_of(*registry, *session);
    let ghost done: Seq<PlanModel> = Seq::empty();
    let mut reversed: Vec<LogicalOperator> = Vec::new();
    proof {
        lemma_plan_models_of(all);
        lemma_appended_nothing(spec_validate_all(inputs, *catalog, context, all.len() as int));
    }
    while rest.len() > 0
        invariant
            rest@.len() <= all.len(),
            rest@ == all.subrange(0, rest@.len() as int),
            reversed@.len() + rest@.len() == all.len(),
            all == list@,
            inputs == plan_models_of(all),
            inputs.len() == all.len(),
            context == context_of(*registry, *session),
            done.len() == reversed@.len(),
            forall|j: int|
                0 <= j < reversed@.len() ==> plan_model(#[trigger] reversed@[j]) == done[done.len()
                    - 1 - j],
            forall|k: int| 0 <= k < reversed@.len() ==> spec_validated(#[trigger] reversed@[k]),
            spec_validate_all(inputs, *catalog, context, all.len() as int) == appended(
                spec_validate_all(inputs, *catalog, context, rest@.len() as int),
                done,
            ),
        decreases rest@.len(),
    {
        proof {
            vstd::seq::axiom_seq_index_decreases(all, rest@.len() - 1);
            lemma_plan_models_of(all);
        }
        let ghost before = spec_validate_all(inputs, *catalog, context, rest@.len() - 1);
        let source = rest.pop().unwrap();
        assert(source == all[rest@.len() as int]);
        assert(rest@ =~= all.subrange(0, rest@.len() as int));
        assert(inputs[rest@.len() as int] == plan_model(source));
        match validate_operator(source, catalog, registry, session) {
            Ok(validated) => {
                proof {
                    lemma_appended(before, plan_model(validated), done);
                    done = seq![plan_model(validated)] + done;
                }
                reversed.push(validated);
            },
            Err(error) => {
                return Err(error);
            },
        }
    }
    let ghost turned = reversed@;
    let sources = reverse_plans(reversed);
    proof {
        assert(Seq::<PlanModel>::empty() + done =~= done);
        lemma_plan_models_of(sources@);
        assert forall|i: int| 0 <= i < sources@.len() implies #[trigger] plan_models_of(sources@)[i]
            == done[i] by {
            assert(sources@[i] == turned[turned.len() - 1 - i]);
            assert(plan_model(turned[turned.len() - 1 - i]) == done[done.len() - 1 - (turned.len()
                - 1 - i)]);
        }
        assert(plan_models_of(sources@) =~= done);
        assert forall|k: int| 0 <= k < sources@.len() implies spec_validated(
            #[trigger] sources@[k],
        ) by {
            assert(sources@[k] == turned[turned.len() - 1 - k]);
        }
    }
    Ok(sources)
}

/// Validates the output of an operator over its validated source.
fn validate_output(
    expressions: Vec<NamedExpression>,
    source: &LogicalOperator,
    registry: &Registry,
    session: &Session,
) -> (r: Result<Vec<NamedExpression>, PlannerError>)
    ensures
        named_outcomes(r) == spec_output(
            named_models(expressions@),
            plan_model(*source),
            context_of(*registry, *session),
        ),
        r matches Ok(compiled) ==> forall|k: int|
            0 <= k < compiled@.len() ==> spec_compiled((#[trigger] compiled@[k]).expression),
{
    reveal(spec_output);
    proof {
        lemma_model_fields(*source);
    }
    let fields = fields_for_operator(source);
    let named = normalize_column_aliases(expressions);
    let expanded = expand_stars(named, &fields);
    let compiled = match compile_named(expanded, &fields, registry, session) {
        Ok(compiled) => compiled,
        Err(error) => {
            return Err(error);
        },
    };
    match check_named_aggregates(&compiled) {
        Ok(_) => Ok(compiled),
        Err(error) => Err(error),
    }
}

/// Whether the branches of a union agree with the first in the number
/// and the types of their columns.
fn check_branches(sources: &Vec<LogicalOperator>) -> (r: bool)
    ensures
        r == branches_agree(plan_models_of(sources@)),
{
    proof {
        lemma_plan_models_of(sources@);
    }
    if sources.len() > 0 {
        let first = fields_for_operator(&sources[0]);
        proof {
            lemma_model_fields(sources@[0]);
        }
        let mut i: usize = 1;
        while i < sources.len()
            invariant
                1 <= i <= sources@.len(),
                plan_models_of(sources@).len() == sources@.len(),
                forall|k: int|
                    0 <= k < sources@.len() ==> #[trigger] plan_models_of(sources@)[k]
                        == plan_model(sources@[k]),
                fields_view(first@) == model_fields(plan_models_of(sources@)[0]),
                forall|j: int|
                    1 <= j < i ==> compatible(
                        model_fields(plan_models_of(sources@)[0]),
                        model_fields(#[trigger] plan_models_of(sources@)[j]),
                    ),
            decreases sources@.len() - i,
        {
            let other = fields_for_operator(&sources[i]);
            proof {
                lemma_model_fields(sources@[i as int]);
            }
            if !fields_compatible(&first, &other) {
                assert(!compatible(
                    model_fields(plan_models_of(sources@)[0]),
                    model_fields(plan_models_of(sources@)[i as int]),
                ));
                return false;
            }
            i += 1;
        }
    }
    true
}

/// Validates a projection over its validated source.
fn project_over(
    distinct: bool,
    expressions: Vec<NamedExpression>,
    source: LogicalOperator,
    registry: &Registry,
    session: &Session,
) -> (r: Result<LogicalOperator, PlannerError>)
    requires
        spec_validated(source),
    ensures
        plan_outcome(r) == spec_project(
            distinct,
            named_models(expressions@),
            plan_model(source),
            context_of(*registry, *session),
        ),
        r matches Ok(validated) ==> spec_validated(validated),
{
    reveal(spec_project);
    let expressions = match validate_output(expressions, &source, registry, session) {
        Ok(expressions) => expressions,
        Err(error) => {
            return Err(error);
        },
    };
    proof {
        lemma_named_compiled(expressions@, expressions@.len() as int);
    }
    // A projection with an aggregate in it is a grouping of all rows.
    if any_named_aggregate(&expressions) {
        let key_expressions: Vec<Expression> = Vec::new();
        proof {
            lemma_models_of(key_expressions@);
            assert(models_of(key_expressions@) =~= Seq::<ExpressionModel>::empty());
        }
        Ok(
            LogicalOperator::GroupBy(
                GroupBy { expressions, key_expressions, source: Box::new(source) },
            ),
        )
    } else {
        Ok(LogicalOperator::Project(Project { distinct, expressions, source: Box::new(source) }))
    }
}

/// Validates a grouping over its validated source.
fn group_over(
    expressions: Vec<NamedExpression>,
    keys: Vec<Expression>,
    source: LogicalOperator,
    registry: &Registry,
    session: &Session,
) -> (r: Result<LogicalOperator, PlannerError>)
    requires
        spec_validated(source),
    ensures
        plan_outcome(r) == spec_group_by(
            named_models(expressions@),
            models_of(keys@),
            plan_model(source),
            context_of(*registry, *session),
        ),
        r matches Ok(validated) ==> spec_validated(validated),
{
    reveal(spec_group_by);
    let expressions = match validate_output(expressions, &source, registry, session) {
        Ok(expressions) => expressions,
        Err(error) => {
            return Err(error);
        },
    };
    proof {
        lemma_model_fields(source);
        lemma_models_of(keys@);
    }
    let fields = fields_for_operator(&source);
    let key_expressions = match compile_plain(keys, &fields, registry, session) {
        Ok(keys) => keys,
        Err(error) => {
            return Err(error);
        },
    };
    proof {
        lemma_models_aggregate(key_expressions@, key_expressions@.len() as int);
        lemma_models_of(key_expressions@);
    }
    if any_aggregate(&key_expressions) {
        return Err(PlannerError::AggregateMisuse("an aggregate in a grouping key".to_owned()));
    }
    proof {
        lemma_named_compiled(expressions@, expressions@.len() as int);
        crate::planner::utils::expr::lemma_all_compiled(
            key_expressions@,
            key_expressions@.len() as int,
        );
    }
    Ok(LogicalOperator::GroupBy(GroupBy { expressions, key_expressions, source: Box::new(source) }))
}

/// Validates a filter over its validated source.
fn filter_over(
    predicate: Expression,
    source: LogicalOperator,
    registry: &Registry,
    session: &Session,
) -> (r: Result<LogicalOperator, PlannerError>)
    requires
        spec_validated(source),
    ensures
        plan_outcome(r) == spec_filter(
            model(predicate),
            plan_model(source),
            context_of(*registry, *session),
        ),
        r matches Ok(validated) ==> spec_validated(validated),
{
    reveal(spec_filter);
    proof {
        lemma_model_fields(source);
    }
    let fields = fields_for_operator(&source);
    let predicate = match compile_predicate(predicate, &fields, registry, session) {
        Ok(predicate) => predicate,
        Err(error) => {
            return Err(error);
        },
    };
    Ok(LogicalOperator::Filter(Filter { predicate, source: Box::new(source) }))
}

/// Validates a sort over its validated source.
fn sort_over(
    expressions: Vec<SortExpression>,
    source: LogicalOperator,
    registry: &Registry,
    session: &Session,
) -> (r: Result<LogicalOperator, PlannerError>)
    requires
        spec_validated(source),
    ensures
        plan_outcome(r) == spec_sort(
            sort_models(expressions@),
            plan_model(source),
            context_of(*registry, *session),
        ),
        r matches Ok(validated) ==> spec_validated(validated),
{
    reveal(spec_sort);
    proof {
        lemma_model_fields(source);
    }
    let fields = fields_for_operator(&source);
    let sort_expressions = match compile_sort(expressions, &fields, registry, session) {
        Ok(expressions) => expressions,
        Err(error) => {
            return Err(error);
        },
    };
    proof {
        lemma_sort_compiled(sort_expressions@, sort_expressions@.len() as int);
    }
    Ok(LogicalOperator::Sort(Sort { sort_expressions, source: Box::new(source) }))
}

/// Validates a union of validated branches.
fn union_over(sources: Vec<LogicalOperator>) -> (r: Result<LogicalOperator, PlannerError>)
    requires
        forall|k: int| 0 <= k < sources@.len() ==> spec_validated(#[trigger] sources@[k]),
    ensures
        plan_outcome(r) == spec_union(plan_models_of(sources@)),
        r matches Ok(validated) ==> spec_validated(validated),
{
    reveal(spec_union);
    // The branches have to agree in the number and the types of their columns.
    if !check_branches(&sources) {
        return Err(
            PlannerError::TypeMismatch("the branches of a union differ in their columns".to_owned()),
        );
    }
    proof {
        lemma_all_validated(sources@, sources@.len() as int);
    }
    Ok(LogicalOperator::UnionAll(UnionAll { sources }))
}

/// Validates an insert of validated rows into a validated target.
fn insert_over(table: LogicalOperator, source: LogicalOperator) -> (r: Result<
    LogicalOperator,
    PlannerError,
>)
    requires
        spec_validated(table),
        spec_validated(source),
    ensures
        plan_outcome(r) == spec_insert(plan_model(table), plan_model(source)),
        r matches Ok(validated) ==> spec_validated(validated),
{
    reveal(spec_insert);
    if !matches!(table, LogicalOperator::ResolvedTable(_)) {
        return Err(PlannerError::TypeMismatch("rows can be inserted into a table only".to_owned()));
    }
    proof {
        lemma_model_fields(table);
        lemma_model_fields(source);
    }
    let target = fields_for_operator(&table);
    let given = fields_for_operator(&source);
    if !fields_compatible(&given, &target) {
        return Err(
            PlannerError::TypeMismatch("the rows do not match the columns of the table".to_owned()),
        );
    }
    Ok(LogicalOperator::TableInsert(TableInsert { table: Box::new(table), source: Box::new(source) }))
}

/// Validates a join of validated sources.
fn join_over(
    left: LogicalOperator,
    right: LogicalOperator,
    on: Expression,
    join_type: crate::ast::rel::logical::JoinType,
    registry: &Registry,
    session: &Session,
) -> (r: Result<LogicalOperator, PlannerError>)
    requires
        spec_validated(left),
        spec_validated(right),
    ensures
        plan_outcome(r) == spec_join(
            plan_model(left),
            plan_model(right),
            model(on),
            join_type,
            context_of(*registry, *session),
        ),
        r matches Ok(validated) ==> spec_validated(validated),
{
    reveal(spec_join);
    proof {
        lemma_model_fields(left);
        lemma_model_fields(right);
    }
    let mut fields = fields_for_operator(&left);
    let mut right_fields = fields_for_operator(&right);
    let ghost left_views = fields_view(fields@);
    let ghost right_views = fields_view(right_fields@);
    fields.append(&mut right_fields);
    assert(fields_view(fields@) =~= left_views + right_views);
    let on = match compile_predicate(on, &fields, registry, session) {
        Ok(on) => on,
        Err(error) => {
            return Err(error);
        },
    };
    Ok(
        LogicalOperator::Join(
            Join { left: Box::new(left), right: Box::new(right), on, join_type },
        ),
    )
}

/// Validates a plan from its leaves up: what comes back is the plan
/// validated, or the error that validating it comes to.
pub fn validate_operator(
    query: LogicalOperator,
    catalog: &Catalog,
    registry: &Registry,
    session: &Session,
) -> (r: Result<LogicalOperator, PlannerError>)
    ensures
        plan_outcome(r) == spec_validate(
            plan_model(query),
            *catalog,
            context_of(*registry, *session),
        ),
        r matches Ok(validated) ==> spec_validated(validated),
    decreases query,
{
    match query {
        LogicalOperator::Single => Ok(LogicalOperator::Single),
        LogicalOperator::ResolvedTable(table) => Ok(LogicalOperator::ResolvedTable(table)),
        LogicalOperator::FileScan(file_scan) => Ok(LogicalOperator::FileScan(file_scan)),
        LogicalOperator::TableReference(reference) => resolve_table(
            catalog,
            reference.database,
            reference.table,
            session,
            registry,
        ),
        LogicalOperator::Values(values) => {
            match validate_values_types(values, registry, session) {
                Ok(values) => Ok(LogicalOperator::Values(values)),
                Err(error) => Err(error),
            }
        },
        LogicalOperator::Project(project) => {
            match validate_operator(*project.source, catalog, registry, session) {
                Ok(source) => project_over(
                    project.distinct,
                    project.expressions,
                    source,
                    registry,
                    session,
                ),
                Err(error) => Err(error),
            }
        },
        LogicalOperator::GroupBy(group_by) => {
            match validate_operator(*group_by.source, catalog, registry, session) {
                Ok(source) => group_over(
                    group_by.expressions,
                    group_by.key_expressions,
                    source,
                    registry,
                    session,
                ),
                Err(error) => Err(error),
            }
        },
        LogicalOperator::Filter(filter) => {
            match validate_operator(*filter.source, catalog, registry, session) {
                Ok(source) => filter_over(filter.predicate, source, registry, session),
                Err(error) => Err(error),
            }
        },
        LogicalOperator::Limit(limit) => {
            match validate_operator(*limit.source, catalog, registry, session) {
                Ok(source) => Ok(
                    LogicalOperator::Limit(
                        Limit { offset: limit.offset, limit: limit.limit, source: Box::new(source) },
                    ),
                ),
                Err(error) => Err(error),
            }
        },
        LogicalOperator::Sort(sort) => {
            match validate_operator(*sort.source, catalog, registry, session) {
                Ok(source) => sort_over(sort.sort_expressions, source, registry, session),
                Err(error) => Err(error),
            }
        },
        LogicalOperator::UnionAll(union_all) => {
            proof {
                lemma_plan_models_of(union_all.sources@);
            }
            match validate_list(union_all.sources, catalog, registry, session) {
                Ok(sources) => union_over(sources),
                Err(error) => Err(error),
            }
        },
        LogicalOperator::TableAlias(table_alias) => {
            match validate_operator(*table_alias.source, catalog, registry, session) {
                Ok(source) => Ok(
                    LogicalOperator::TableAlias(
                        TableAlias { alias: table_alias.alias, source: Box::new(source) },
                    ),
                ),
                Err(error) => Err(error),
            }
        },
        LogicalOperator::TableInsert(insert) => {
            let table = match validate_operator(*insert.table, catalog, registry, session) {
                Ok(table) => table,
                Err(error) => {
                    return Err(error);
                },
            };
            match validate_operator(*insert.source, catalog, registry, session) {
                Ok(source) => insert_over(table, source),
                Err(error) => Err(error),
            }
        },
        LogicalOperator::NegateFreq(source) => {
            match validate_operator(*source, catalog, registry, session) {
                Ok(source) => Ok(LogicalOperator::NegateFreq(Box::new(source))),
                Err(error) => Err(error),
            }
        },
        LogicalOperator::Join(join) => {
            let left = match validate_operator(*join.left, catalog, registry, session) {
                Ok(left) => left,
                Err(error) => {
                    return Err(error);
                },
            };
            match validate_operator(*join.right, catalog, registry, session) {
                Ok(right) => join_over(left, right, join.on, join.join_type, registry, session),
                Err(error) => Err(error),
            }
        },
    }
}

/// Validate the query, as part of the process of validating the query we will actually end up
/// doing all the catalog and function lookups and subbing them in.
impl Planner {
    /// What validating a plan gives: the plan validated against the
    /// catalog and the registry of this planner, or the error that
    /// validating it comes to, with the text that it carries.
    pub open spec fn spec_validate(self, query: LogicalOperator, session: Session) -> Result<
        PlanModel,
        Failure,
    > {
        spec_validate(
            plan_model(query),
            self.catalog,
            context_of(self.function_registry, session),
        )
    }

    pub fn validate(&self, query: LogicalOperator, session: &Session) -> (r: Result<
        LogicalOperator,
        PlannerError,
    >)
        ensures
            plan_outcome(r) == self.spec_validate(query, *session),
            r matches Ok(validated) ==> spec_validated(validated),
    {
        validate_operator(query, &self.catalog, &self.function_registry, session)
    }
}

} // verus!
