//! What the steps of validation give, stated over the models of
//! expressions.

use vstd::prelude::*;
use vstd::string::StringSliceAdditionalSpecFns;
use crate::ast::model::{model_type, ExpressionModel, NamedModel, SortModel};
use crate::catalog::{Catalog, Lookup};
use crate::data::{DataType, Value};
use crate::data::text::nat_digits;
use crate::executor::expression::model_value;
use crate::functions::FunctionDefinition;
use crate::functions::registry::spec_widening_cost;
use crate::planner::FieldView;
use crate::planner::p1_validation::compile_functions_and_refs::COMPOUND_DEPTH;
use crate::planner::p1_validation::compile_model::{
    followed_by, spec_compile, CatalogFailure, Failure,
};
use crate::planner::plan_model::{model_fields, PlanModel};

verus! {

/// An expression with the variables of a session put in: a call of
/// `database` without arguments is the name of the current database, as
/// text, and a call of `connection_id` without arguments the id of the
/// connection, as a big integer.
pub open spec fn spec_sub_vars(
    expr: ExpressionModel,
    database: Seq<char>,
    connection_id: u32,
) -> ExpressionModel
    decreases expr, 0int,
{
    match expr {
        ExpressionModel::FunctionCall(name, args) => if args.len() == 0 && name == "database"@ {
            ExpressionModel::Constant(Value::Bytes(vstd::utf8::encode_utf8(database)), DataType::Text)
        } else if args.len() == 0 && name == "connection_id"@ {
            ExpressionModel::Constant(Value::BigInt(connection_id as i64), DataType::BigInt)
        } else {
            ExpressionModel::FunctionCall(
                name,
                spec_sub_vars_all(args, database, connection_id, args.len() as int),
            )
        },
        ExpressionModel::Cast(inner, datatype) => ExpressionModel::Cast(
            Box::new(spec_sub_vars(*inner, database, connection_id)),
            datatype,
        ),
        _ => expr,
    }
}

/// The first `n` expressions of a list with the variables of a session
/// put in.
pub open spec fn spec_sub_vars_all(
    list: Seq<ExpressionModel>,
    database: Seq<char>,
    connection_id: u32,
    n: int,
) -> Seq<ExpressionModel>
    decreases list, n,
{
    if n <= 0 || n > list.len() {
        Seq::empty()
    } else {
        spec_sub_vars_all(list, database, connection_id, n - 1).push(
            spec_sub_vars(list[n - 1], database, connection_id),
        )
    }
}

/// The expressions of a list with the variables of a session put in are
/// as many as the list has, each in its place.
pub proof fn lemma_sub_vars_all(
    list: Seq<ExpressionModel>,
    database: Seq<char>,
    connection_id: u32,
    n: int,
)
    requires
        0 <= n <= list.len(),
    ensures
        spec_sub_vars_all(list, database, connection_id, n).len() == n,
        forall|k: int|
            0 <= k < n ==> #[trigger] spec_sub_vars_all(list, database, connection_id, n)[k]
                == spec_sub_vars(list[k], database, connection_id),
    decreases n,
{
    if n > 0 {
        lemma_sub_vars_all(list, database, connection_id, n - 1);
    }
}

/// The bytes of the name `_col<n>`.
pub open spec fn column_name_bytes(n: nat) -> Seq<u8> {
    "_col".spec_bytes() + nat_digits(n)
}

/// The name `_col<n>`.
pub open spec fn spec_column_name(n: nat) -> Seq<char> {
    vstd::utf8::decode_utf8(column_name_bytes(n))
}

/// The name of an expression of an output: its own where it has one; for
/// a reference to a column the name of the column, and none for `*`; for
/// any other expression `_col<N>`, where N is its place counted from one.
pub open spec fn spec_alias(named: NamedModel, place: int) -> Option<Seq<char>> {
    match named.alias {
        Some(alias) => Some(alias),
        None => match named.expression {
            ExpressionModel::ColumnReference(_, alias, star) => if star {
                None
            } else {
                Some(alias)
            },
            _ => Some(spec_column_name(place as nat)),
        },
    }
}

/// The expressions of an output, each with its name.
pub open spec fn spec_normalize(list: Seq<NamedModel>) -> Seq<NamedModel> {
    Seq::new(
        list.len(),
        |i: int| NamedModel { alias: spec_alias(list[i], i + 1), expression: list[i].expression },
    )
}

/// Whether `*`, under a qualifier or without one, takes in a field.
pub open spec fn star_takes(qualifier: Option<Seq<char>>, field: FieldView) -> bool {
    match (qualifier, field.qualifier) {
        (Some(q), Some(fq)) => q == fq,
        (Some(_), None) => false,
        (None, _) => true,
    }
}

/// The reference to a field by its name, under the name of the field.
pub open spec fn field_reference(field: FieldView) -> NamedModel {
    NamedModel {
        alias: Some(field.alias),
        expression: ExpressionModel::ColumnReference(field.qualifier, field.alias, false),
    }
}

/// References to those of the first `n` fields that `*` takes in, in
/// their order.
pub open spec fn star_columns(
    qualifier: Option<Seq<char>>,
    fields: Seq<FieldView>,
    n: int,
) -> Seq<NamedModel>
    decreases n,
{
    if n <= 0 || n > fields.len() {
        Seq::empty()
    } else if star_takes(qualifier, fields[n - 1]) {
        star_columns(qualifier, fields, n - 1).push(field_reference(fields[n - 1]))
    } else {
        star_columns(qualifier, fields, n - 1)
    }
}

/// What an expression of an output stands for once `*` is replaced: the
/// references to the fields that it takes in, or the expression itself.
pub open spec fn spec_expand_star(named: NamedModel, fields: Seq<FieldView>) -> Seq<NamedModel> {
    match named.expression {
        ExpressionModel::ColumnReference(qualifier, _, true) => star_columns(
            qualifier,
            fields,
            fields.len() as int,
        ),
        _ => seq![named],
    }
}

/// The first `n` expressions of an output with each `*` replaced by
/// references to the fields of the source that it takes in.
pub open spec fn spec_expand_stars(list: Seq<NamedModel>, fields: Seq<FieldView>, n: int) -> Seq<
    NamedModel,
>
    decreases n,
{
    if n <= 0 || n > list.len() {
        Seq::empty()
    } else {
        spec_expand_stars(list, fields, n - 1) + spec_expand_star(list[n - 1], fields)
    }
}

/// What validation goes by besides the plan and the catalog: the
/// functions of the registry, and the current database and the id of the
/// connection of the session.
pub struct Context {
    pub registry: Seq<FunctionDefinition>,
    pub database: Seq<char>,
    pub connection_id: u32,
}

/// An expression with the variables of the session put in, compiled
/// against the fields of its source.
pub open spec fn spec_prepare(
    expr: ExpressionModel,
    fields: Seq<FieldView>,
    context: Context,
) -> Result<ExpressionModel, Failure> {
    spec_compile(
        spec_sub_vars(expr, context.database, context.connection_id),
        fields,
        context.registry,
        COMPOUND_DEPTH as nat,
    )
}

/// The first `n` expressions of a list prepared and compiled. Where
/// several fail, the failure is that of the last.
pub open spec fn spec_compile_plain(
    list: Seq<ExpressionModel>,
    fields: Seq<FieldView>,
    context: Context,
    n: int,
) -> Result<Seq<ExpressionModel>, Failure>
    decreases n,
{
    if n <= 0 || n > list.len() {
        Ok(Seq::empty())
    } else {
        followed_by(
            spec_compile_plain(list, fields, context, n - 1),
            spec_prepare(list[n - 1], fields, context),
        )
    }
}

/// A named expression compiled, under the name that it had.
pub open spec fn spec_compile_one_named(
    named: NamedModel,
    fields: Seq<FieldView>,
    context: Context,
) -> Result<NamedModel, Failure> {
    match spec_prepare(named.expression, fields, context) {
        Ok(expression) => Ok(NamedModel { alias: named.alias, expression }),
        Err(failure) => Err(failure),
    }
}

/// The first `n` named expressions of a list compiled. Where several
/// fail, the failure is that of the last.
pub open spec fn spec_compile_named(
    list: Seq<NamedModel>,
    fields: Seq<FieldView>,
    context: Context,
    n: int,
) -> Result<Seq<NamedModel>, Failure>
    decreases n,
{
    if n <= 0 || n > list.len() {
        Ok(Seq::empty())
    } else {
        followed_by(
            spec_compile_named(list, fields, context, n - 1),
            spec_compile_one_named(list[n - 1], fields, context),
        )
    }
}

/// Whether an aggregate stands anywhere in an expression, from its model.
pub open spec fn model_contains_aggregate(m: ExpressionModel) -> bool
    decreases m, 0int,
{
    match m {
        ExpressionModel::CompiledAggregate(_, _, _) => true,
        ExpressionModel::FunctionCall(_, args) => models_any_aggregate(args, args.len() as int),
        ExpressionModel::CompiledFunctionCall(_, args, _) => models_any_aggregate(
            args,
            args.len() as int,
        ),
        ExpressionModel::Cast(inner, _) => model_contains_aggregate(*inner),
        _ => false,
    }
}

/// Whether an aggregate stands in one of the first `n` expressions of a
/// list.
pub open spec fn models_any_aggregate(list: Seq<ExpressionModel>, n: int) -> bool
    decreases list, n,
{
    if n <= 0 || n > list.len() {
        false
    } else {
        models_any_aggregate(list, n - 1) || model_contains_aggregate(list[n - 1])
    }
}

/// Whether an aggregate stands among the arguments of an aggregate.
pub open spec fn model_nested_aggregate(m: ExpressionModel) -> bool
    decreases m, 0int,
{
    match m {
        ExpressionModel::CompiledAggregate(_, args, _) => models_any_aggregate(
            args,
            args.len() as int,
        ),
        ExpressionModel::CompiledFunctionCall(_, args, _) => models_any_nested(
            args,
            args.len() as int,
        ),
        _ => false,
    }
}

/// Whether one of the first `n` expressions of a list has an aggregate
/// among the arguments of an aggregate.
pub open spec fn models_any_nested(list: Seq<ExpressionModel>, n: int) -> bool
    decreases list, n,
{
    if n <= 0 || n > list.len() {
        false
    } else {
        models_any_nested(list, n - 1) || model_nested_aggregate(list[n - 1])
    }
}

/// Whether an aggregate stands in one of the first `n` named expressions
/// of a list.
pub open spec fn named_any_aggregate(list: Seq<NamedModel>, n: int) -> bool
    decreases n,
{
    if n <= 0 || n > list.len() {
        false
    } else {
        named_any_aggregate(list, n - 1) || model_contains_aggregate(list[n - 1].expression)
    }
}

/// Whether one of the first `n` named expressions of a list has an
/// aggregate among the arguments of an aggregate.
pub open spec fn named_any_nested(list: Seq<NamedModel>, n: int) -> bool
    decreases n,
{
    if n <= 0 || n > list.len() {
        false
    } else {
        named_any_nested(list, n - 1) || model_nested_aggregate(list[n - 1].expression)
    }
}

/// A sort expression compiled, in the order that it had. An aggregate
/// cannot stand in it.
pub open spec fn spec_compile_one_sort(
    sort: SortModel,
    fields: Seq<FieldView>,
    context: Context,
) -> Result<SortModel, Failure> {
    match spec_prepare(sort.expression, fields, context) {
        Ok(expression) => if model_contains_aggregate(expression) {
            Err(Failure::AggregateMisuse("an aggregate in a sort expression"@))
        } else {
            Ok(SortModel { ordering: sort.ordering, expression })
        },
        Err(failure) => Err(failure),
    }
}

/// The first `n` sort expressions of a list compiled. Where several
/// fail, the failure is that of the last.
pub open spec fn spec_compile_sort(
    list: Seq<SortModel>,
    fields: Seq<FieldView>,
    context: Context,
    n: int,
) -> Result<Seq<SortModel>, Failure>
    decreases n,
{
    if n <= 0 || n > list.len() {
        Ok(Seq::empty())
    } else {
        followed_by(
            spec_compile_sort(list, fields, context, n - 1),
            spec_compile_one_sort(list[n - 1], fields, context),
        )
    }
}

/// What is wrong with a predicate: its type is neither boolean nor null,
/// or an aggregate stands in it.
pub open spec fn spec_check_predicate(predicate: ExpressionModel) -> Option<Failure> {
    let t = model_type(predicate);
    if t != DataType::Boolean && t != DataType::Null {
        Some(Failure::TypeMismatch("a predicate has to be a boolean"@))
    } else if model_contains_aggregate(predicate) {
        Some(Failure::AggregateMisuse("an aggregate in a predicate"@))
    } else {
        None
    }
}

/// A predicate compiled and checked.
pub open spec fn spec_predicate(
    predicate: ExpressionModel,
    fields: Seq<FieldView>,
    context: Context,
) -> Result<ExpressionModel, Failure> {
    match spec_prepare(predicate, fields, context) {
        Err(failure) => Err(failure),
        Ok(compiled) => match spec_check_predicate(compiled) {
            Some(failure) => Err(failure),
            None => Ok(compiled),
        },
    }
}

/// The type that takes values of both types; nothing where neither widens
/// to the other.
pub open spec fn spec_common_type(a: DataType, b: DataType) -> Option<DataType> {
    if spec_widening_cost(a, b) is Some {
        Some(b)
    } else if spec_widening_cost(b, a) is Some {
        Some(a)
    } else {
        None
    }
}

/// What rows fail with whose column has no common type or holds an
/// aggregate.
pub open spec fn invalid_columns() -> Failure {
    Failure::InvalidValues("a column without a common type, or an aggregate in a row"@)
}

/// The first `k` columns of a literal row as constants, and the types of
/// the columns after them: each expression is evaluated, and the type of
/// its column becomes the common type of what it was and the type of the
/// expression. A column without a common type and an aggregate make the
/// rows invalid.
pub open spec fn spec_row_columns(
    compiled: Seq<ExpressionModel>,
    types: Seq<DataType>,
    k: int,
) -> Result<(Seq<ExpressionModel>, Seq<DataType>), Failure>
    decreases k,
{
    if k <= 0 || k > compiled.len() || compiled.len() != types.len() {
        Ok((Seq::empty(), types))
    } else {
        match spec_row_columns(compiled, types, k - 1) {
            Err(failure) => Err(failure),
            Ok((constants, before)) => {
                let t = model_type(compiled[k - 1]);
                match spec_common_type(before[k - 1], t) {
                    None => Err(invalid_columns()),
                    Some(common) => if model_contains_aggregate(compiled[k - 1]) {
                        Err(invalid_columns())
                    } else {
                        Ok(
                            (
                                constants.push(
                                    ExpressionModel::Constant(
                                        model_value(compiled[k - 1], Seq::empty()),
                                        t,
                                    ),
                                ),
                                before.update(k - 1, common),
                            ),
                        )
                    },
                }
            },
        }
    }
}

/// A literal row as constants, and the types of the columns brought up
/// to date. The types start as null with the first row that is taken, and
/// every row has to be as long as that one.
#[verifier::opaque]
pub open spec fn spec_row(
    row: Seq<ExpressionModel>,
    types: Option<Seq<DataType>>,
    context: Context,
) -> Result<(Seq<ExpressionModel>, Seq<DataType>), Failure> {
    match spec_compile_plain(row, Seq::empty(), context, row.len() as int) {
        Err(failure) => Err(failure),
        Ok(compiled) => {
            let before = match types {
                Some(t) => t,
                None => Seq::new(compiled.len(), |i: int| DataType::Null),
            };
            if compiled.len() != before.len() {
                Err(Failure::InvalidValues("rows of different length"@))
            } else {
                spec_row_columns(compiled, before, compiled.len() as int)
            }
        },
    }
}

/// The literal rows from row `n` on as constants, and the types of the
/// columns as those rows give them; no types where there is no row. The
/// rows are taken from the last to the first.
pub open spec fn spec_rows(rows: Seq<Seq<ExpressionModel>>, context: Context, n: int) -> Result<
    (Seq<Seq<ExpressionModel>>, Option<Seq<DataType>>),
    Failure,
>
    decreases rows.len() - n,
{
    if n < 0 || n >= rows.len() {
        Ok((Seq::empty(), None))
    } else {
        match spec_rows(rows, context, n + 1) {
            Err(failure) => Err(failure),
            Ok((done, types)) => match spec_row(rows[n], types, context) {
                Err(failure) => Err(failure),
                Ok((constants, after)) => Ok((seq![constants] + done, Some(after))),
            },
        }
    }
}

/// Literal rows validated: the rows as constants, and columns named
/// `_col<N>` of the common types.
#[verifier::opaque]
pub open spec fn spec_values(rows: Seq<Seq<ExpressionModel>>, context: Context) -> Result<
    PlanModel,
    Failure,
> {
    match spec_rows(rows, context, 0) {
        Err(failure) => Err(failure),
        Ok((data, types)) => {
            let types = match types {
                Some(t) => t,
                None => Seq::empty(),
            };
            Ok(
                PlanModel::Values(
                    data,
                    Seq::new(types.len(), |i: int| (types[i], spec_column_name((i + 1) as nat))),
                ),
            )
        },
    }
}

/// A table looked up in the catalog; a table without a database is
/// looked up in the current database of the session.
#[verifier::opaque]
pub open spec fn spec_resolve_table(
    catalog: Catalog,
    database: Option<Seq<char>>,
    table: Seq<char>,
    context: Context,
) -> Result<PlanModel, Failure> {
    let database = match database {
        Some(d) => d,
        None => context.database,
    };
    match catalog.spec_table(vstd::utf8::encode_utf8(database), vstd::utf8::encode_utf8(table)) {
        Lookup::Found(found) => Ok(
            PlanModel::ResolvedTable(
                Seq::new(
                    found.columns.len(),
                    |i: int| (vstd::utf8::decode_utf8(found.columns[i].0), found.columns[i].1),
                ),
                found,
            ),
        ),
        Lookup::Missing => Err(Failure::Catalog(CatalogFailure::TableNotFound(database, table))),
        Lookup::Unreadable => Err(
            Failure::Catalog(CatalogFailure::Unreadable("the catalog cannot be read"@)),
        ),
    }
}

/// Whether two lists of fields have the same number of columns and each
/// pair of columns a common type.
pub open spec fn compatible(a: Seq<FieldView>, b: Seq<FieldView>) -> bool {
    a.len() == b.len() && forall|i: int|
        0 <= i < a.len() ==> spec_common_type((#[trigger] a[i]).data_type, b[i].data_type)
            is Some
}

/// Whether the branches of a union agree with the first in the number
/// and the types of their columns.
pub open spec fn branches_agree(sources: Seq<PlanModel>) -> bool {
    forall|i: int|
        1 <= i < sources.len() ==> compatible(
            model_fields(sources[0]),
            model_fields(#[trigger] sources[i]),
        )
}

/// An output validated over a validated source: names are given, `*` is
/// replaced, and the expressions are compiled; no aggregate may stand
/// among the arguments of another.
#[verifier::opaque]
pub open spec fn spec_output(
    expressions: Seq<NamedModel>,
    source: PlanModel,
    context: Context,
) -> Result<Seq<NamedModel>, Failure> {
    let fields = model_fields(source);
    let expanded = spec_expand_stars(
        spec_normalize(expressions),
        fields,
        expressions.len() as int,
    );
    match spec_compile_named(expanded, fields, context, expanded.len() as int) {
        Err(failure) => Err(failure),
        Ok(compiled) => if named_any_nested(compiled, compiled.len() as int) {
            Err(Failure::AggregateMisuse("an aggregate inside an aggregate"@))
        } else {
            Ok(compiled)
        },
    }
}

/// A projection over its validated source: one that holds an aggregate
/// becomes a grouping without keys.
#[verifier::opaque]
pub open spec fn spec_project(
    distinct: bool,
    expressions: Seq<NamedModel>,
    source: PlanModel,
    context: Context,
) -> Result<PlanModel, Failure> {
    match spec_output(expressions, source, context) {
        Err(failure) => Err(failure),
        Ok(compiled) => if named_any_aggregate(compiled, compiled.len() as int) {
            Ok(PlanModel::GroupBy(compiled, Seq::empty(), Box::new(source)))
        } else {
            Ok(PlanModel::Project(distinct, compiled, Box::new(source)))
        },
    }
}

/// A grouping over its validated source: its keys may hold no aggregate.
#[verifier::opaque]
pub open spec fn spec_group_by(
    expressions: Seq<NamedModel>,
    keys: Seq<ExpressionModel>,
    source: PlanModel,
    context: Context,
) -> Result<PlanModel, Failure> {
    match spec_output(expressions, source, context) {
        Err(failure) => Err(failure),
        Ok(compiled) => match spec_compile_plain(
            keys,
            model_fields(source),
            context,
            keys.len() as int,
        ) {
            Err(failure) => Err(failure),
            Ok(compiled_keys) => if models_any_aggregate(
                compiled_keys,
                compiled_keys.len() as int,
            ) {
                Err(Failure::AggregateMisuse("an aggregate in a grouping key"@))
            } else {
                Ok(PlanModel::GroupBy(compiled, compiled_keys, Box::new(source)))
            },
        },
    }
}

/// A filter over its validated source.
#[verifier::opaque]
pub open spec fn spec_filter(predicate: ExpressionModel, source: PlanModel, context: Context) -> Result<
    PlanModel,
    Failure,
> {
    match spec_predicate(predicate, model_fields(source), context) {
        Err(failure) => Err(failure),
        Ok(compiled) => Ok(PlanModel::Filter(compiled, Box::new(source))),
    }
}

/// A sort over its validated source.
#[verifier::opaque]
pub open spec fn spec_sort(expressions: Seq<SortModel>, source: PlanModel, context: Context) -> Result<
    PlanModel,
    Failure,
> {
    match spec_compile_sort(expressions, model_fields(source), context, expressions.len() as int) {
        Err(failure) => Err(failure),
        Ok(compiled) => Ok(PlanModel::Sort(compiled, Box::new(source))),
    }
}

/// A union of validated branches: they have to agree in their columns.
#[verifier::opaque]
pub open spec fn spec_union(validated: Seq<PlanModel>) -> Result<PlanModel, Failure> {
    if branches_agree(validated) {
        Ok(PlanModel::UnionAll(validated))
    } else {
        Err(Failure::TypeMismatch("the branches of a union differ in their columns"@))
    }
}

/// An insert of validated rows into a validated target: the target has
/// to be a table, and the rows have to match its columns.
#[verifier::opaque]
pub open spec fn spec_insert(table: PlanModel, source: PlanModel) -> Result<PlanModel, Failure> {
    if !(table is ResolvedTable) {
        Err(Failure::TypeMismatch("rows can be inserted into a table only"@))
    } else if !compatible(model_fields(source), model_fields(table)) {
        Err(Failure::TypeMismatch("the rows do not match the columns of the table"@))
    } else {
        Ok(PlanModel::TableInsert(Box::new(table), Box::new(source)))
    }
}

/// A join of validated sources: its condition sees the fields of the
/// left source followed by those of the right.
#[verifier::opaque]
pub open spec fn spec_join(
    left: PlanModel,
    right: PlanModel,
    on: ExpressionModel,
    join_type: crate::ast::rel::logical::JoinType,
    context: Context,
) -> Result<PlanModel, Failure> {
    match spec_predicate(on, model_fields(left) + model_fields(right), context) {
        Err(failure) => Err(failure),
        Ok(compiled) => Ok(PlanModel::Join(Box::new(left), Box::new(right), compiled, join_type)),
    }
}

/// A plan validated, from its leaves up.
///
/// A table is looked up in the catalog. Literal rows become constants of
/// common column types. The sources of every other operator are
/// validated first, the table of an insert before its rows and the left
/// source of a join before the right, and the operator is then validated
/// over them.
pub open spec fn spec_validate(plan: PlanModel, catalog: Catalog, context: Context) -> Result<
    PlanModel,
    Failure,
>
    decreases plan, 0int,
{
    match plan {
        PlanModel::Single => Ok(plan),
        PlanModel::ResolvedTable(_, _) => Ok(plan),
        PlanModel::FileScan(_, _) => Ok(plan),
        PlanModel::TableReference(database, table) => spec_resolve_table(
            catalog,
            database,
            table,
            context,
        ),
        PlanModel::Values(rows, _) => spec_values(rows, context),
        PlanModel::Project(distinct, expressions, source) => match spec_validate(
            *source,
            catalog,
            context,
        ) {
            Err(failure) => Err(failure),
            Ok(source) => spec_project(distinct, expressions, source, context),
        },
        PlanModel::GroupBy(expressions, keys, source) => match spec_validate(
            *source,
            catalog,
            context,
        ) {
            Err(failure) => Err(failure),
            Ok(source) => spec_group_by(expressions, keys, source, context),
        },
        PlanModel::Filter(predicate, source) => match spec_validate(*source, catalog, context) {
            Err(failure) => Err(failure),
            Ok(source) => spec_filter(predicate, source, context),
        },
        PlanModel::Limit(offset, limit, source) => match spec_validate(*source, catalog, context) {
            Err(failure) => Err(failure),
            Ok(source) => Ok(PlanModel::Limit(offset, limit, Box::new(source))),
        },
        PlanModel::Sort(expressions, source) => match spec_validate(*source, catalog, context) {
            Err(failure) => Err(failure),
            Ok(source) => spec_sort(expressions, source, context),
        },
        PlanModel::UnionAll(sources) => match spec_validate_all(
            sources,
            catalog,
            context,
            sources.len() as int,
        ) {
            Err(failure) => Err(failure),
            Ok(validated) => spec_union(validated),
        },
        PlanModel::TableAlias(alias, source) => match spec_validate(*source, catalog, context) {
            Err(failure) => Err(failure),
            Ok(source) => Ok(PlanModel::TableAlias(alias, Box::new(source))),
        },
        PlanModel::TableInsert(table, source) => match spec_validate(*table, catalog, context) {
            Err(failure) => Err(failure),
            Ok(table) => match spec_validate(*source, catalog, context) {
                Err(failure) => Err(failure),
                Ok(source) => spec_insert(table, source),
            },
        },
        PlanModel::NegateFreq(source) => match spec_validate(*source, catalog, context) {
            Err(failure) => Err(failure),
            Ok(source) => Ok(PlanModel::NegateFreq(Box::new(source))),
        },
        PlanModel::Join(left, right, on, join_type) => match spec_validate(*left, catalog, context) {
            Err(failure) => Err(failure),
            Ok(left) => match spec_validate(*right, catalog, context) {
                Err(failure) => Err(failure),
                Ok(right) => spec_join(left, right, on, join_type, context),
            },
        },
    }
}

/// The first `n` plans of a list validated. Where several fail, the
/// failure is that of the last.
pub open spec fn spec_validate_all(
    list: Seq<PlanModel>,
    catalog: Catalog,
    context: Context,
    n: int,
) -> Result<Seq<PlanModel>, Failure>
    decreases list, n,
{
    if n <= 0 || n > list.len() {
        Ok(Seq::empty())
    } else {
        followed_by(
            spec_validate_all(list, catalog, context, n - 1),
            spec_validate(list[n - 1], catalog, context),
        )
    }
}

} // verus!
