//! Helpers on operators: the fields that an operator puts out and the
//! fields that its expressions see.

use vstd::prelude::*;
use crate::ast::expr::{CompiledColumnReference, Expression, NamedExpression};
use crate::ast::rel::logical::{LogicalOperator, Project};
use crate::data::DataType;
use crate::planner::{fields_view, Field, FieldView};
use crate::planner::utils::expr::{
    spec_all_compiled,
    spec_compiled,
    spec_type_for_expression,
    type_for_expression,
};
use crate::ast::expr::SortExpression;

verus! {

/// The fields of a list of named expressions. An expression without a name
/// has the empty name.
pub open spec fn named_fields(expressions: Seq<NamedExpression>) -> Seq<FieldView> {
    Seq::new(
        expressions.len(),
        |i: int|
            FieldView {
                qualifier: None,
                alias: match expressions[i].alias {
                    Some(a) => a@,
                    None => Seq::empty(),
                },
                data_type: spec_type_for_expression(expressions[i].expression),
            },
    )
}

/// Fields under a table alias: each takes the alias as its qualifier.
pub open spec fn qualified(fields: Seq<FieldView>, alias: Seq<char>) -> Seq<FieldView> {
    Seq::new(
        fields.len(),
        |i: int|
            FieldView { qualifier: Some(alias), alias: fields[i].alias, data_type: fields[i].data_type },
    )
}

/// The one field of a scan of files: the column `data`, a JSON document.
pub open spec fn file_scan_field() -> FieldView {
    FieldView { qualifier: None, alias: "data"@, data_type: DataType::Json }
}

/// The fields that an operator puts out. A table that is not resolved yet
/// has none.
pub open spec fn spec_fields(operator: LogicalOperator) -> Seq<FieldView>
    decreases operator,
{
    match operator {
        LogicalOperator::Project(project) => named_fields(project.expressions@),
        LogicalOperator::GroupBy(group_by) => named_fields(group_by.expressions@),
        LogicalOperator::Filter(filter) => spec_fields(*filter.source),
        LogicalOperator::Limit(limit) => spec_fields(*limit.source),
        LogicalOperator::Sort(sort) => spec_fields(*sort.source),
        LogicalOperator::Values(values) => Seq::new(
            values.fields@.len(),
            |i: int|
                FieldView {
                    qualifier: None,
                    alias: values.fields@[i].1@,
                    data_type: values.fields@[i].0,
                },
        ),
        LogicalOperator::TableAlias(table_alias) => qualified(
            spec_fields(*table_alias.source),
            table_alias.alias@,
        ),
        LogicalOperator::UnionAll(union_all) => if union_all.sources@.len() > 0 {
            spec_fields(union_all.sources@[0])
        } else {
            Seq::empty()
        },
        LogicalOperator::ResolvedTable(table) => Seq::new(
            table.columns@.len(),
            |i: int|
                FieldView {
                    qualifier: None,
                    alias: table.columns@[i].0@,
                    data_type: table.columns@[i].1,
                },
        ),
        LogicalOperator::NegateFreq(source) => spec_fields(*source),
        LogicalOperator::Single
        | LogicalOperator::TableInsert(_)
        | LogicalOperator::TableReference(_) => Seq::empty(),
        LogicalOperator::FileScan(_) => seq![file_scan_field()],
        LogicalOperator::Join(join) => spec_fields(*join.left) + spec_fields(*join.right),
    }
}

/// The views of fields after one more field.
pub proof fn lemma_fields_view_push(fields: Seq<Field>, field: Field)
    ensures
        fields_view(fields.push(field)) == fields_view(fields).push(field@),
{
    assert(fields_view(fields.push(field)) =~= fields_view(fields).push(field@));
}

/// The first `i + 1` of a sequence are the first `i` and the next.
pub proof fn lemma_subrange_push<A>(s: Seq<A>, i: int)
    requires
        0 <= i < s.len(),
    ensures
        s.subrange(0, i + 1) == s.subrange(0, i).push(s[i]),
{
    assert(s.subrange(0, i + 1) =~= s.subrange(0, i).push(s[i]));
}

fn fields_of_named(expressions: &Vec<NamedExpression>) -> (fields: Vec<Field>)
    ensures
        fields_view(fields@) == named_fields(expressions@),
{
    let mut fields: Vec<Field> = Vec::new();
    let mut i: usize = 0;
    while i < expressions.len()
        invariant
            i <= expressions@.len(),
            fields_view(fields@) == named_fields(expressions@).subrange(0, i as int),
        decreases expressions@.len() - i,
    {
        let ne = &expressions[i];
        let alias = match &ne.alias {
            Some(a) => a.clone(),
            None => String::new(),
        };
        let field = Field {
            qualifier: None,
            alias,
            data_type: type_for_expression(&ne.expression),
        };
        proof {
            lemma_fields_view_push(fields@, field);
            lemma_subrange_push(named_fields(expressions@), i as int);
            assert(field@ == named_fields(expressions@)[i as int]);
        }
        fields.push(field);
        i += 1;
    }
    assert(named_fields(expressions@).subrange(0, i as int) =~= named_fields(expressions@));
    fields
}

/// Returns the fields for an operator.
pub fn fields_for_operator(operator: &LogicalOperator) -> (fields: Vec<Field>)
    ensures
        fields_view(fields@) == spec_fields(*operator),
    decreases operator,
{
    match operator {
        LogicalOperator::Project(project) => fields_of_named(&project.expressions),
        LogicalOperator::GroupBy(group_by) => fields_of_named(&group_by.expressions),
        LogicalOperator::Filter(filter) => fields_for_operator(&*filter.source),
        LogicalOperator::Limit(limit) => fields_for_operator(&*limit.source),
        LogicalOperator::Sort(sort) => fields_for_operator(&*sort.source),
        LogicalOperator::Values(values) => {
            let mut fields: Vec<Field> = Vec::new();
            let mut i: usize = 0;
            while i < values.fields.len()
                invariant
                    i <= values.fields@.len(),
                    fields_view(fields@) == spec_fields(*operator).subrange(0, i as int),
                    operator == LogicalOperator::Values(*values),
                decreases values.fields@.len() - i,
            {
                let field = Field {
                    qualifier: None,
                    alias: values.fields[i].1.clone(),
                    data_type: values.fields[i].0,
                };
                proof {
                    lemma_fields_view_push(fields@, field);
                    lemma_subrange_push(spec_fields(*operator), i as int);
                    assert(field@ == spec_fields(*operator)[i as int]);
                }
                fields.push(field);
                i += 1;
            }
            assert(spec_fields(*operator).subrange(0, i as int) =~= spec_fields(*operator));
            fields
        },
        LogicalOperator::TableAlias(table_alias) => {
            let inner = fields_for_operator(&*table_alias.source);
            let mut fields: Vec<Field> = Vec::new();
            let mut i: usize = 0;
            while i < inner.len()
                invariant
                    i <= inner@.len(),
                    fields_view(inner@) == spec_fields(*table_alias.source),
                    fields_view(fields@) == qualified(
                        spec_fields(*table_alias.source),
                        table_alias.alias@,
                    ).subrange(0, i as int),
                decreases inner@.len() - i,
            {
                assert(fields_view(inner@)[i as int] == inner@[i as int]@);
                let field = Field {
                    qualifier: Some(table_alias.alias.clone()),
                    alias: inner[i].alias.clone(),
                    data_type: inner[i].data_type,
                };
                proof {
                    let target = qualified(spec_fields(*table_alias.source), table_alias.alias@);
                    lemma_fields_view_push(fields@, field);
                    lemma_subrange_push(target, i as int);
                    assert(field@ == target[i as int]);
                }
                fields.push(field);
                i += 1;
            }
            assert(qualified(spec_fields(*table_alias.source), table_alias.alias@).subrange(
                0,
                i as int,
            ) =~= qualified(spec_fields(*table_alias.source), table_alias.alias@));
            fields
        },
        LogicalOperator::UnionAll(union_all) => {
            if union_all.sources.len() > 0 {
                proof {
                    vstd::std_specs::vec::axiom_vec_index_decreases(union_all.sources, 0);
                }
                fields_for_operator(&union_all.sources[0])
            } else {
                let fields: Vec<Field> = Vec::new();
                assert(fields_view(fields@) =~~= Seq::empty());
                fields
            }
        },
        LogicalOperator::ResolvedTable(table) => {
            let mut fields: Vec<Field> = Vec::new();
            let mut i: usize = 0;
            while i < table.columns.len()
                invariant
                    i <= table.columns@.len(),
                    fields_view(fields@) == spec_fields(*operator).subrange(0, i as int),
                    operator == LogicalOperator::ResolvedTable(*table),
                decreases table.columns@.len() - i,
            {
                let field = Field {
                    qualifier: None,
                    alias: table.columns[i].0.clone(),
                    data_type: table.columns[i].1,
                };
                proof {
                    lemma_fields_view_push(fields@, field);
                    lemma_subrange_push(spec_fields(*operator), i as int);
                    assert(field@ == spec_fields(*operator)[i as int]);
                }
                fields.push(field);
                i += 1;
            }
            assert(spec_fields(*operator).subrange(0, i as int) =~= spec_fields(*operator));
            fields
        },
        LogicalOperator::NegateFreq(source) => fields_for_operator(&**source),
        LogicalOperator::Single
        | LogicalOperator::TableInsert(_)
        | LogicalOperator::TableReference(_) => {
            let fields: Vec<Field> = Vec::new();
            assert(fields_view(fields@) =~~= Seq::empty());
            fields
        },
        LogicalOperator::FileScan(_) => {
            let mut fields: Vec<Field> = Vec::new();
            fields.push(
                Field { qualifier: None, alias: "data".to_owned(), data_type: DataType::Json },
            );
            assert(fields_view(fields@) =~= seq![file_scan_field()]);
            fields
        },
        LogicalOperator::Join(join) => {
            let mut fields = fields_for_operator(&*join.left);
            let mut right = fields_for_operator(&*join.right);
            let ghost l = fields@;
            let ghost r = right@;
            fields.append(&mut right);
            assert(fields_view(fields@) =~~= fields_view(l) + fields_view(r));
            fields
        },
    }
}

/// The names of fields: qualifier and alias.
pub open spec fn names_of(fields: Seq<FieldView>) -> Seq<(Option<Seq<char>>, Seq<char>)> {
    Seq::new(fields.len(), |i: int| (fields[i].qualifier, fields[i].alias))
}

/// The views of a list of names.
pub open spec fn names_view(names: Seq<(Option<String>, String)>) -> Seq<
    (Option<Seq<char>>, Seq<char>),
> {
    Seq::new(
        names.len(),
        |i: int|
            (
                match names[i].0 {
                    Some(q) => Some(q@),
                    None => None,
                },
                names[i].1@,
            ),
    )
}

/// The names of the fields of an operator. Unlike the fields they can be
/// asked for before functions and types are resolved.
pub fn fieldnames_for_operator(operator: &LogicalOperator) -> (names: Vec<(Option<String>, String)>)
    ensures
        names_view(names@) == names_of(spec_fields(*operator)),
{
    let fields = fields_for_operator(operator);
    let mut names: Vec<(Option<String>, String)> = Vec::new();
    let mut i: usize = 0;
    while i < fields.len()
        invariant
            i <= fields@.len(),
            fields_view(fields@) == spec_fields(*operator),
            names_view(names@) == names_of(spec_fields(*operator)).subrange(0, i as int),
        decreases fields@.len() - i,
    {
        assert(fields_view(fields@)[i as int] == fields@[i as int]@);
        let qualifier = match &fields[i].qualifier {
            Some(q) => Some(q.clone()),
            None => None,
        };
        let name = (qualifier, fields[i].alias.clone());
        proof {
            let target = names_of(spec_fields(*operator));
            lemma_subrange_push(target, i as int);
            assert(names_view(names@.push(name)) =~= names_view(names@).push(target[i as int]));
        }
        names.push(name);
        i += 1;
    }
    assert(names_of(spec_fields(*operator)).subrange(0, i as int) =~= names_of(
        spec_fields(*operator),
    ));
    names
}

/// The fields that the expressions of an operator can see: those of its
/// source, of both its sources for a join.
pub open spec fn spec_source_fields(operator: LogicalOperator) -> Seq<FieldView> {
    match operator {
        LogicalOperator::Project(project) => spec_fields(*project.source),
        LogicalOperator::GroupBy(group_by) => spec_fields(*group_by.source),
        LogicalOperator::Filter(filter) => spec_fields(*filter.source),
        LogicalOperator::Limit(limit) => spec_fields(*limit.source),
        LogicalOperator::Sort(sort) => spec_fields(*sort.source),
        LogicalOperator::TableAlias(table_alias) => spec_fields(*table_alias.source),
        LogicalOperator::UnionAll(union_all) => spec_fields(operator),
        LogicalOperator::TableInsert(table_insert) => spec_fields(*table_insert.source),
        LogicalOperator::NegateFreq(source) => spec_fields(*source),
        // The on clause sees the columns the same as the operators above do.
        LogicalOperator::Join(_) => spec_fields(operator),
        LogicalOperator::Values(_)
        | LogicalOperator::Single
        | LogicalOperator::TableReference(_)
        | LogicalOperator::FileScan(_)
        | LogicalOperator::ResolvedTable(_) => Seq::empty(),
    }
}

/// Returns the source fields for an operator.
/// This is the fields that expressions in the operator can "see".
/// For now this is only going to be expressions from the immediate children.
pub fn source_fields_for_operator(operator: &LogicalOperator) -> (fields: Vec<Field>)
    ensures
        fields_view(fields@) == spec_source_fields(*operator),
{
    match operator {
        LogicalOperator::Project(project) => fields_for_operator(&*project.source),
        LogicalOperator::GroupBy(group_by) => fields_for_operator(&*group_by.source),
        LogicalOperator::Filter(filter) => fields_for_operator(&*filter.source),
        LogicalOperator::Limit(limit) => fields_for_operator(&*limit.source),
        LogicalOperator::Sort(sort) => fields_for_operator(&*sort.source),
        LogicalOperator::TableAlias(table_alias) => fields_for_operator(&*table_alias.source),
        LogicalOperator::UnionAll(_) => fields_for_operator(operator),
        LogicalOperator::TableInsert(table_insert) => fields_for_operator(&*table_insert.source),
        LogicalOperator::NegateFreq(source) => fields_for_operator(&**source),
        LogicalOperator::Join(_) => fields_for_operator(operator),
        LogicalOperator::Values(_)
        | LogicalOperator::Single
        | LogicalOperator::TableReference(_)
        | LogicalOperator::FileScan(_)
        | LogicalOperator::ResolvedTable(_) => {
            let fields: Vec<Field> = Vec::new();
            assert(fields_view(fields@) =~~= Seq::empty());
            fields
        },
    }
}

/// Takes an operator and returns a project that wraps it: one column
/// reference for each field of the operator, under the name of the field.
pub fn create_wrapping_project(operator: LogicalOperator) -> (project: Project)
    ensures
        *project.source == operator,
        !project.distinct,
        project.expressions@.len() == spec_fields(operator).len(),
        forall|i: int|
            0 <= i < project.expressions@.len() ==> {
                let ne = #[trigger] project.expressions@[i];
                &&& ne.alias matches Some(a) && a@ == spec_fields(operator)[i].alias
                &&& ne.expression == Expression::CompiledColumnReference(
                    CompiledColumnReference {
                        offset: i as usize,
                        datatype: spec_fields(operator)[i].data_type,
                    },
                )
            },
{
    let fields = fields_for_operator(&operator);
    let mut expressions: Vec<NamedExpression> = Vec::new();
    let mut i: usize = 0;
    while i < fields.len()
        invariant
            i <= fields@.len(),
            fields_view(fields@) == spec_fields(operator),
            expressions@.len() == i,
            forall|k: int|
                0 <= k < i ==> {
                    let ne = #[trigger] expressions@[k];
                    &&& ne.alias matches Some(a) && a@ == spec_fields(operator)[k].alias
                    &&& ne.expression == Expression::CompiledColumnReference(
                        CompiledColumnReference {
                            offset: k as usize,
                            datatype: spec_fields(operator)[k].data_type,
                        },
                    )
                },
        decreases fields@.len() - i,
    {
        assert(fields_view(fields@)[i as int] == fields@[i as int]@);
        expressions.push(
            NamedExpression {
                alias: Some(fields[i].alias.clone()),
                expression: Expression::CompiledColumnReference(
                    CompiledColumnReference { offset: i, datatype: fields[i].data_type },
                ),
            },
        );
        i += 1;
    }
    Project { distinct: false, expressions, source: Box::new(operator) }
}

/// Whether the first `n` named expressions of a list are compiled.
pub open spec fn spec_named_compiled(list: Seq<NamedExpression>, n: int) -> bool
    decreases n,
{
    if n <= 0 || n > list.len() {
        true
    } else {
        spec_named_compiled(list, n - 1) && spec_compiled(list[n - 1].expression)
    }
}

/// Whether the first `n` sort expressions of a list are compiled.
pub open spec fn spec_sort_compiled(list: Seq<SortExpression>, n: int) -> bool
    decreases n,
{
    if n <= 0 || n > list.len() {
        true
    } else {
        spec_sort_compiled(list, n - 1) && spec_compiled(list[n - 1].expression)
    }
}

/// Whether every expression in the first `n` rows is a constant.
pub open spec fn spec_constant_rows(rows: Seq<Vec<Expression>>, n: int) -> bool
    decreases n,
{
    if n <= 0 || n > rows.len() {
        true
    } else {
        spec_constant_rows(rows, n - 1) && forall|k: int|
            0 <= k < rows[n - 1]@.len() ==> (#[trigger] rows[n - 1]@[k]) is Constant
    }
}

/// Whether a plan has been validated: its tables are resolved, the target
/// of an insert is a table, literal rows hold constants only, and every
/// expression is compiled.
pub open spec fn spec_validated(operator: LogicalOperator) -> bool
    decreases operator, 0int,
{
    match operator {
        LogicalOperator::Single => true,
        LogicalOperator::Project(p) => spec_named_compiled(
            p.expressions@,
            p.expressions@.len() as int,
        ) && spec_validated(*p.source),
        LogicalOperator::GroupBy(g) => spec_named_compiled(
            g.expressions@,
            g.expressions@.len() as int,
        ) && spec_all_compiled(g.key_expressions@, g.key_expressions@.len() as int)
            && spec_validated(*g.source),
        LogicalOperator::Filter(f) => spec_compiled(f.predicate) && spec_validated(*f.source),
        LogicalOperator::Limit(l) => spec_validated(*l.source),
        LogicalOperator::Sort(s) => spec_sort_compiled(
            s.sort_expressions@,
            s.sort_expressions@.len() as int,
        ) && spec_validated(*s.source),
        LogicalOperator::Values(v) => spec_constant_rows(v.data@, v.data@.len() as int),
        LogicalOperator::UnionAll(u) => spec_all_validated(u.sources@, u.sources@.len() as int),
        LogicalOperator::TableReference(_) => false,
        LogicalOperator::ResolvedTable(_) => true,
        LogicalOperator::TableAlias(a) => spec_validated(*a.source),
        LogicalOperator::TableInsert(t) => *t.table is ResolvedTable && spec_validated(*t.source),
        LogicalOperator::NegateFreq(source) => spec_validated(*source),
        LogicalOperator::FileScan(_) => true,
        LogicalOperator::Join(j) => spec_compiled(j.on) && spec_validated(*j.left)
            && spec_validated(*j.right),
    }
}

/// Whether the first `n` plans of a list have been validated.
pub open spec fn spec_all_validated(list: Seq<LogicalOperator>, n: int) -> bool
    decreases list, n,
{
    if n <= 0 || n > list.len() {
        true
    } else {
        spec_all_validated(list, n - 1) && spec_validated(list[n - 1])
    }
}

pub proof fn lemma_all_validated(list: Seq<LogicalOperator>, n: int)
    requires
        0 <= n <= list.len(),
        forall|k: int| 0 <= k < n ==> spec_validated(#[trigger] list[k]),
    ensures
        spec_all_validated(list, n),
    decreases n,
{
    if n > 0 {
        lemma_all_validated(list, n - 1);
    }
}

pub proof fn lemma_named_compiled(list: Seq<NamedExpression>, n: int)
    requires
        0 <= n <= list.len(),
        forall|k: int| 0 <= k < n ==> spec_compiled((#[trigger] list[k]).expression),
    ensures
        spec_named_compiled(list, n),
    decreases n,
{
    if n > 0 {
        lemma_named_compiled(list, n - 1);
    }
}

pub proof fn lemma_sort_compiled(list: Seq<SortExpression>, n: int)
    requires
        0 <= n <= list.len(),
        forall|k: int| 0 <= k < n ==> spec_compiled((#[trigger] list[k]).expression),
    ensures
        spec_sort_compiled(list, n),
    decreases n,
{
    if n > 0 {
        lemma_sort_compiled(list, n - 1);
    }
}

pub proof fn lemma_constant_rows(rows: Seq<Vec<Expression>>, n: int)
    requires
        0 <= n <= rows.len(),
        forall|r: int, k: int|
            0 <= r < n && 0 <= k < rows[r]@.len() ==> (#[trigger] rows[r]@[k]) is Constant,
    ensures
        spec_constant_rows(rows, n),
    decreases n,
{
    if n > 0 {
        lemma_constant_rows(rows, n - 1);
    }
}

} // verus!
