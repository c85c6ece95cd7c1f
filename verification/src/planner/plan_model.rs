//! The mathematical model of logical plans: trees of plain values, in
//! which two copies of a plan are one.

use vstd::prelude::*;
use crate::ast::expr::NamedExpression;
use crate::ast::model::{
    model,
    model_type,
    models_of,
    named_models,
    sort_models,
    text_model,
    ExpressionModel,
    NamedModel,
    SortModel,
};
use crate::ast::rel::logical::{JoinType, LogicalOperator, SerdeOptions};
use crate::catalog::{table_model, TableModel};
use crate::data::DataType;
use crate::planner::FieldView;
use crate::planner::utils::expr::lemma_model_type;
use crate::planner::utils::logical::{file_scan_field, named_fields, qualified, spec_fields};

verus! {

/// What a logical plan stands for.
pub enum PlanModel {
    Single,
    /// Whether the projection is distinct, its expressions, its source.
    Project(bool, Seq<NamedModel>, Box<PlanModel>),
    /// The expressions, the keys, the source.
    GroupBy(Seq<NamedModel>, Seq<ExpressionModel>, Box<PlanModel>),
    Filter(ExpressionModel, Box<PlanModel>),
    /// The offset, the limit, the source.
    Limit(i64, i64, Box<PlanModel>),
    Sort(Seq<SortModel>, Box<PlanModel>),
    /// The rows, and the types and names of the columns.
    Values(Seq<Seq<ExpressionModel>>, Seq<(DataType, Seq<char>)>),
    UnionAll(Seq<PlanModel>),
    /// The database, where one is named, and the table.
    TableReference(Option<Seq<char>>, Seq<char>),
    /// The names and types of the columns, and the table.
    ResolvedTable(Seq<(Seq<char>, DataType)>, TableModel),
    TableAlias(Seq<char>, Box<PlanModel>),
    /// The table and the source of the rows.
    TableInsert(Box<PlanModel>, Box<PlanModel>),
    NegateFreq(Box<PlanModel>),
    /// The directory, and how its files are read.
    FileScan(Seq<char>, SerdeOptions),
    /// The left source, the right source, the condition, the kind.
    Join(Box<PlanModel>, Box<PlanModel>, ExpressionModel, JoinType),
}

/// The models of rows of expressions.
pub open spec fn rows_model(rows: Seq<Vec<crate::ast::expr::Expression>>) -> Seq<
    Seq<ExpressionModel>,
> {
    Seq::new(rows.len(), |i: int| models_of(rows[i]@))
}

/// The types and names of columns.
pub open spec fn typed_names(fields: Seq<(DataType, String)>) -> Seq<(DataType, Seq<char>)> {
    Seq::new(fields.len(), |i: int| (fields[i].0, fields[i].1@))
}

/// The names and types of columns.
pub open spec fn named_types(columns: Seq<(String, DataType)>) -> Seq<(Seq<char>, DataType)> {
    Seq::new(columns.len(), |i: int| (columns[i].0@, columns[i].1))
}

/// The model of a plan.
pub open spec fn plan_model(operator: LogicalOperator) -> PlanModel
    decreases operator, 0int,
{
    match operator {
        LogicalOperator::Single => PlanModel::Single,
        LogicalOperator::Project(p) => PlanModel::Project(
            p.distinct,
            named_models(p.expressions@),
            Box::new(plan_model(*p.source)),
        ),
        LogicalOperator::GroupBy(g) => PlanModel::GroupBy(
            named_models(g.expressions@),
            models_of(g.key_expressions@),
            Box::new(plan_model(*g.source)),
        ),
        LogicalOperator::Filter(f) => PlanModel::Filter(
            model(f.predicate),
            Box::new(plan_model(*f.source)),
        ),
        LogicalOperator::Limit(l) => PlanModel::Limit(
            l.offset,
            l.limit,
            Box::new(plan_model(*l.source)),
        ),
        LogicalOperator::Sort(s) => PlanModel::Sort(
            sort_models(s.sort_expressions@),
            Box::new(plan_model(*s.source)),
        ),
        LogicalOperator::Values(v) => PlanModel::Values(rows_model(v.data@), typed_names(v.fields@)),
        LogicalOperator::UnionAll(u) => PlanModel::UnionAll(
            plan_models(u.sources@, u.sources@.len() as int),
        ),
        LogicalOperator::TableReference(t) => PlanModel::TableReference(
            text_model(t.database),
            t.table@,
        ),
        LogicalOperator::ResolvedTable(t) => PlanModel::ResolvedTable(
            named_types(t.columns@),
            table_model(t.table),
        ),
        LogicalOperator::TableAlias(a) => PlanModel::TableAlias(
            a.alias@,
            Box::new(plan_model(*a.source)),
        ),
        LogicalOperator::TableInsert(t) => PlanModel::TableInsert(
            Box::new(plan_model(*t.table)),
            Box::new(plan_model(*t.source)),
        ),
        LogicalOperator::NegateFreq(source) => PlanModel::NegateFreq(
            Box::new(plan_model(*source)),
        ),
        LogicalOperator::FileScan(f) => PlanModel::FileScan(f.directory@, f.serde_options),
        LogicalOperator::Join(j) => PlanModel::Join(
            Box::new(plan_model(*j.left)),
            Box::new(plan_model(*j.right)),
            model(j.on),
            j.join_type,
        ),
    }
}

/// The models of the first `n` plans of a list.
pub open spec fn plan_models(list: Seq<LogicalOperator>, n: int) -> Seq<PlanModel>
    decreases list, n,
{
    if n <= 0 || n > list.len() {
        Seq::empty()
    } else {
        plan_models(list, n - 1).push(plan_model(list[n - 1]))
    }
}

/// The models of the plans of a list.
pub open spec fn plan_models_of(list: Seq<LogicalOperator>) -> Seq<PlanModel> {
    plan_models(list, list.len() as int)
}

/// The models of the first `n` plans of a list are `n`, each the model of
/// the plan in its place.
pub proof fn lemma_plan_models(list: Seq<LogicalOperator>, n: int)
    requires
        0 <= n <= list.len(),
    ensures
        plan_models(list, n).len() == n,
        forall|k: int| 0 <= k < n ==> #[trigger] plan_models(list, n)[k] == plan_model(list[k]),
    decreases n,
{
    if n > 0 {
        lemma_plan_models(list, n - 1);
    }
}

/// The models of a list of plans are given place by place.
pub proof fn lemma_plan_models_of(list: Seq<LogicalOperator>)
    ensures
        plan_models_of(list).len() == list.len(),
        forall|k: int|
            0 <= k < list.len() ==> #[trigger] plan_models_of(list)[k] == plan_model(list[k]),
{
    lemma_plan_models(list, list.len() as int);
}

/// The models of a list of plans with one more plan.
pub proof fn lemma_plan_models_push(list: Seq<LogicalOperator>, plan: LogicalOperator)
    ensures
        plan_models_of(list.push(plan)) == plan_models_of(list).push(plan_model(plan)),
{
    lemma_plan_models_of(list);
    lemma_plan_models_of(list.push(plan));
    assert(plan_models_of(list.push(plan)) =~= plan_models_of(list).push(plan_model(plan)));
}

/// The models of a list of plans without its last plan.
pub proof fn lemma_plan_models_drop_last(list: Seq<LogicalOperator>)
    requires
        list.len() > 0,
    ensures
        plan_models_of(list.drop_last()) == plan_models_of(list).drop_last(),
        plan_models_of(list).last() == plan_model(list.last()),
{
    lemma_plan_models_of(list);
    lemma_plan_models_of(list.drop_last());
    assert(plan_models_of(list.drop_last()) =~= plan_models_of(list).drop_last());
}

/// The fields of a list of named expressions, from their models. An
/// expression without a name has the empty name.
pub open spec fn model_named_fields(expressions: Seq<NamedModel>) -> Seq<FieldView> {
    Seq::new(
        expressions.len(),
        |i: int|
            FieldView {
                qualifier: None,
                alias: match expressions[i].alias {
                    Some(a) => a,
                    None => Seq::empty(),
                },
                data_type: model_type(expressions[i].expression),
            },
    )
}

/// The fields that a plan puts out, from its model. A table that is not
/// resolved yet has none.
pub open spec fn model_fields(plan: PlanModel) -> Seq<FieldView>
    decreases plan,
{
    match plan {
        PlanModel::Project(_, expressions, _) => model_named_fields(expressions),
        PlanModel::GroupBy(expressions, _, _) => model_named_fields(expressions),
        PlanModel::Filter(_, source) => model_fields(*source),
        PlanModel::Limit(_, _, source) => model_fields(*source),
        PlanModel::Sort(_, source) => model_fields(*source),
        PlanModel::Values(_, fields) => Seq::new(
            fields.len(),
            |i: int| FieldView { qualifier: None, alias: fields[i].1, data_type: fields[i].0 },
        ),
        PlanModel::TableAlias(alias, source) => qualified(model_fields(*source), alias),
        PlanModel::UnionAll(sources) => if sources.len() > 0 {
            model_fields(sources[0])
        } else {
            Seq::empty()
        },
        PlanModel::ResolvedTable(columns, _) => Seq::new(
            columns.len(),
            |i: int| FieldView { qualifier: None, alias: columns[i].0, data_type: columns[i].1 },
        ),
        PlanModel::NegateFreq(source) => model_fields(*source),
        PlanModel::Single | PlanModel::TableInsert(_, _) | PlanModel::TableReference(_, _) => Seq::empty(),
        PlanModel::FileScan(_, _) => seq![file_scan_field()],
        PlanModel::Join(left, right, _, _) => model_fields(*left) + model_fields(*right),
    }
}

/// The fields of named expressions are the fields of their models.
pub proof fn lemma_named_fields(expressions: Seq<NamedExpression>)
    ensures
        model_named_fields(named_models(expressions)) == named_fields(expressions),
{
    assert forall|i: int| 0 <= i < expressions.len() implies #[trigger] model_named_fields(
        named_models(expressions),
    )[i] == named_fields(expressions)[i] by {
        lemma_model_type(expressions[i].expression);
    }
    assert(model_named_fields(named_models(expressions)) =~= named_fields(expressions));
}

/// The fields of a plan are the fields of its model.
pub proof fn lemma_model_fields(operator: LogicalOperator)
    ensures
        model_fields(plan_model(operator)) == spec_fields(operator),
    decreases operator,
{
    match operator {
        LogicalOperator::Project(p) => {
            lemma_named_fields(p.expressions@);
        },
        LogicalOperator::GroupBy(g) => {
            lemma_named_fields(g.expressions@);
        },
        LogicalOperator::Filter(f) => {
            lemma_model_fields(*f.source);
        },
        LogicalOperator::Limit(l) => {
            lemma_model_fields(*l.source);
        },
        LogicalOperator::Sort(s) => {
            lemma_model_fields(*s.source);
        },
        LogicalOperator::Values(v) => {
            assert(model_fields(plan_model(operator)) =~= spec_fields(operator));
        },
        LogicalOperator::TableAlias(a) => {
            lemma_model_fields(*a.source);
        },
        LogicalOperator::UnionAll(u) => {
            if u.sources@.len() > 0 {
                vstd::seq::axiom_seq_index_decreases(u.sources@, 0);
                lemma_plan_models_of(u.sources@);
                lemma_model_fields(u.sources@[0]);
            } else {
                lemma_plan_models_of(u.sources@);
            }
        },
        LogicalOperator::ResolvedTable(t) => {
            assert(model_fields(plan_model(operator)) =~= spec_fields(operator));
        },
        LogicalOperator::NegateFreq(source) => {
            lemma_model_fields(*source);
        },
        LogicalOperator::Join(j) => {
            lemma_model_fields(*j.left);
            lemma_model_fields(*j.right);
        },
        _ => {},
    }
}

} // verus!
