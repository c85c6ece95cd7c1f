//! Helpers on expressions.

use vstd::prelude::*;
use crate::ast::expr::{
    same_expression,
    Cast,
    ColumnReference,
    CompiledAggregate,
    CompiledColumnReference,
    CompiledFunctionCall,
    Expression,
    FunctionCall,
};
use crate::ast::model::{
    lemma_models_of,
    model,
    model_compiled,
    model_type,
    model_types,
    models_of,
    ExpressionModel,
};
use crate::data::{DataType, Datum};
use crate::functions::{FunctionSignature, ScalarFunction};

verus! {

/// The type of an expression. An expression that is not compiled yet has
/// the type null.
pub open spec fn spec_type_for_expression(expr: Expression) -> DataType {
    match expr {
        Expression::Constant(_, datatype) => datatype,
        Expression::Cast(cast) => cast.datatype,
        Expression::CompiledFunctionCall(function_call) => function_call.signature.ret,
        Expression::CompiledAggregate(function_call) => function_call.signature.ret,
        Expression::CompiledColumnReference(column_reference) => column_reference.datatype,
        Expression::FunctionCall(_) | Expression::ColumnReference(_) => DataType::Null,
    }
}

/// Returns the datatype for an expression.
pub fn type_for_expression(expr: &Expression) -> (t: DataType)
    ensures
        t == spec_type_for_expression(*expr),
{
    match expr {
        Expression::Constant(_, datatype) => *datatype,
        Expression::Cast(cast) => cast.datatype,
        Expression::CompiledFunctionCall(function_call) => function_call.signature.ret,
        Expression::CompiledAggregate(function_call) => function_call.signature.ret,
        Expression::CompiledColumnReference(column_reference) => column_reference.datatype,
        Expression::FunctionCall(_) | Expression::ColumnReference(_) => DataType::Null,
    }
}

/// The conjuncts of a predicate: what stands between its `and`s, in their
/// order. The constant true has none.
pub open spec fn conjuncts(expr: Expression) -> Seq<Expression>
    decreases expr,
{
    match expr {
        Expression::CompiledFunctionCall(f) => if f.function == ScalarFunction::And && f.args@.len()
            == 2 {
            conjuncts(f.args@[0]) + conjuncts(f.args@[1])
        } else {
            seq![expr]
        },
        Expression::Constant(Datum::Boolean(true), _) => Seq::empty(),
        _ => seq![expr],
    }
}

/// Splits a predicate at its `and`s, adding the parts to `out` in their
/// order. The constant true has no parts.
pub fn decompose_into(expr: Expression, out: &mut Vec<Expression>)
    ensures
        final(out)@ == old(out)@ + conjuncts(expr),
    decreases expr,
{
    match expr {
        Expression::CompiledFunctionCall(f) => {
            if f.function == ScalarFunction::And && f.args.len() == 2 {
                let ghost whole = f.args@;
                let mut args = f.args;
                proof {
                    vstd::seq::axiom_seq_index_decreases(whole, 0);
                    vstd::seq::axiom_seq_index_decreases(whole, 1);
                }
                let second = args.pop().unwrap();
                let first = args.pop().unwrap();
                assert(first == whole[0]);
                assert(second == whole[1]);
                let ghost start = out@;
                decompose_into(first, out);
                decompose_into(second, out);
                assert(out@ =~= start + (conjuncts(first) + conjuncts(second)));
            } else {
                let ghost start = out@;
                out.push(Expression::CompiledFunctionCall(f));
                assert(out@ =~= start + seq![expr]);
            }
        },
        Expression::Constant(Datum::Boolean(true), _) => {
            assert(out@ =~= out@ + Seq::<Expression>::empty());
        },
        other => {
            let ghost start = out@;
            out.push(other);
            assert(out@ =~= start + seq![expr]);
        },
    }
}

/// Splits a predicate at its `and`s.
pub fn decompose_predicate(expr: Expression) -> (parts: Vec<Expression>)
    ensures
        parts@ == conjuncts(expr),
{
    let mut parts: Vec<Expression> = Vec::new();
    decompose_into(expr, &mut parts);
    assert(parts@ =~= conjuncts(expr));
    parts
}

/// The signature of the function `and`.
fn and_signature() -> (s: FunctionSignature<'static>)
    ensures
        s.name == "and",
        s.args@ == seq![DataType::Boolean, DataType::Boolean],
        s.ret == DataType::Boolean,
{
    let mut args: Vec<DataType> = Vec::new();
    args.push(DataType::Boolean);
    args.push(DataType::Boolean);
    assert(args@ =~= seq![DataType::Boolean, DataType::Boolean]);
    FunctionSignature { name: "and", args, ret: DataType::Boolean }
}

/// Whether an expression is the conjunction of a list of predicates: the
/// constant true for none, the predicate itself for one, and for more the
/// function `and` of the first and the conjunction of the others.
pub open spec fn is_combined(r: Expression, predicates: Seq<Expression>) -> bool
    decreases predicates.len(),
{
    if predicates.len() == 0 {
        r == Expression::Constant(Datum::Boolean(true), DataType::Boolean)
    } else if predicates.len() == 1 {
        r == predicates[0]
    } else {
        r matches Expression::CompiledFunctionCall(f) && f.function == ScalarFunction::And
            && f.signature.name == "and" && f.signature.args@ == seq![
            DataType::Boolean,
            DataType::Boolean,
        ] && f.signature.ret == DataType::Boolean && f.args@.len() == 2 && f.args@[0]
            == predicates[0] && is_combined(f.args@[1], predicates.skip(1))
    }
}

/// Joins predicates with `and`, the first outermost on the left. No
/// predicates give the constant true, one gives itself.
pub fn combine_predicates(predicates: Vec<Expression>) -> (r: Expression)
    ensures
        is_combined(r, predicates@),
{
    let mut rest = predicates;
    let mut combined: Option<Expression> = None;
    let ghost all = rest@;
    // The last predicate becomes the innermost right side.
    while rest.len() > 0
        invariant
            rest@.len() <= all.len(),
            rest@ == all.subrange(0, rest@.len() as int),
            combined is None <==> rest@.len() == all.len(),
            combined matches Some(e) ==> is_combined(
                e,
                all.subrange(rest@.len() as int, all.len() as int),
            ),
        decreases rest@.len(),
    {
        let next = rest.pop().unwrap();
        assert(rest@ =~= all.subrange(0, rest@.len() as int));
        assert(next == all[rest@.len() as int]);
        let ghost tail = all.subrange(rest@.len() as int, all.len() as int);
        assert(tail[0] == next);
        assert(tail.skip(1) =~= all.subrange(rest@.len() as int + 1, all.len() as int));
        combined = match combined {
            None => Some(next),
            Some(right) => {
                let mut args: Vec<Expression> = Vec::new();
                args.push(next);
                args.push(right);
                Some(
                    Expression::CompiledFunctionCall(
                        CompiledFunctionCall {
                            function: ScalarFunction::And,
                            args,
                            signature: Box::new(and_signature()),
                        },
                    ),
                )
            },
        };
    }
    assert(all.subrange(0, all.len() as int) =~= all);
    match combined {
        Some(e) => e,
        None => Expression::Constant(Datum::Boolean(true), DataType::Boolean),
    }
}

/// The smallest and the largest column offset that an expression refers
/// to; nothing where it refers to no column.
pub open spec fn spec_min_max(expr: Expression) -> Option<(usize, usize)>
    decreases expr, 0int,
{
    match expr {
        Expression::CompiledColumnReference(c) => Some((c.offset, c.offset)),
        Expression::FunctionCall(f) => spec_min_max_list(f.args@, f.args@.len() as int),
        Expression::CompiledFunctionCall(f) => spec_min_max_list(f.args@, f.args@.len() as int),
        Expression::CompiledAggregate(f) => spec_min_max_list(f.args@, f.args@.len() as int),
        Expression::Cast(c) => spec_min_max(*c.expr),
        _ => None,
    }
}

/// Two ranges of offsets taken together.
pub open spec fn merge_ranges(a: Option<(usize, usize)>, b: Option<(usize, usize)>) -> Option<
    (usize, usize),
> {
    match (a, b) {
        (Some((a0, a1)), Some((b0, b1))) => Some(
            (
                if a0 <= b0 {
                    a0
                } else {
                    b0
                },
                if a1 >= b1 {
                    a1
                } else {
                    b1
                },
            ),
        ),
        (Some(x), None) => Some(x),
        (None, y) => y,
    }
}

/// The range of offsets that the first `n` expressions of a list refer to.
pub open spec fn spec_min_max_list(list: Seq<Expression>, n: int) -> Option<(usize, usize)>
    decreases list, n,
{
    if n <= 0 || n > list.len() {
        None
    } else {
        merge_ranges(spec_min_max_list(list, n - 1), spec_min_max(list[n - 1]))
    }
}

fn merge(a: Option<(usize, usize)>, b: Option<(usize, usize)>) -> (r: Option<(usize, usize)>)
    ensures
        r == merge_ranges(a, b),
{
    match (a, b) {
        (Some((a0, a1)), Some((b0, b1))) => Some(
            (
                if a0 <= b0 {
                    a0
                } else {
                    b0
                },
                if a1 >= b1 {
                    a1
                } else {
                    b1
                },
            ),
        ),
        (Some(x), None) => Some(x),
        (None, y) => y,
    }
}

fn min_max_list(list: &Vec<Expression>) -> (r: Option<(usize, usize)>)
    ensures
        r == spec_min_max_list(list@, list@.len() as int),
    decreases list,
{
    let mut range: Option<(usize, usize)> = None;
    let mut i: usize = 0;
    while i < list.len()
        invariant
            i <= list@.len(),
            range == spec_min_max_list(list@, i as int),
        decreases list@.len() - i,
    {
        proof {
            vstd::std_specs::vec::axiom_vec_index_decreases(*list, i as int);
        }
        range = merge(range, min_max_column_deps_for_expression(&list[i]));
        i += 1;
    }
    range
}

/// The smallest and the largest column offset that an expression refers to.
pub fn min_max_column_deps_for_expression(expr: &Expression) -> (r: Option<(usize, usize)>)
    ensures
        r == spec_min_max(*expr),
    decreases expr,
{
    match expr {
        Expression::CompiledColumnReference(c) => Some((c.offset, c.offset)),
        Expression::FunctionCall(f) => min_max_list(&f.args),
        Expression::CompiledFunctionCall(f) => min_max_list(&f.args),
        Expression::CompiledAggregate(f) => min_max_list(&f.args),
        Expression::Cast(c) => min_max_column_deps_for_expression(&*c.expr),
        _ => None,
    }
}

/// An offset moved by `by`; an offset that would fall below zero or above
/// the largest one stays where the edge is.
pub open spec fn moved_offset(offset: usize, by: int) -> usize {
    if offset + by < 0 {
        0
    } else if offset + by > usize::MAX {
        usize::MAX
    } else {
        (offset + by) as usize
    }
}

fn move_offset(offset: usize, by: i64) -> (r: usize)
    ensures
        r == moved_offset(offset, by as int),
{
    let moved: i128 = offset as i128 + by as i128;
    if moved < 0 {
        0
    } else if moved > usize::MAX as i128 {
        usize::MAX
    } else {
        moved as usize
    }
}

/// What takes the place of the references to columns in an expression.
pub enum Substitution {
    /// The offset of each column moves by a distance.
    Moved(int),
    /// The column at an offset gives way to a copy of the expression that
    /// stands at that place of a list. A reference past the end of the
    /// list stays.
    Inlined(Seq<Expression>),
}

/// Whether `b` may stand in the place of a reference to a column.
pub open spec fn column_replaced(
    c: CompiledColumnReference,
    b: Expression,
    how: Substitution,
) -> bool {
    match how {
        Substitution::Moved(by) => b == Expression::CompiledColumnReference(
            CompiledColumnReference { offset: moved_offset(c.offset, by), datatype: c.datatype },
        ),
        Substitution::Inlined(list) => if c.offset < list.len() {
            same_expression(list[c.offset as int], b)
        } else {
            b == Expression::CompiledColumnReference(c)
        },
    }
}

/// Whether `b` is the expression `a` with its references to columns
/// replaced, and nothing else changed.
pub open spec fn replaced(a: Expression, b: Expression, how: Substitution) -> bool
    decreases a, 0int,
{
    match a {
        Expression::CompiledColumnReference(c) => column_replaced(c, b, how),
        Expression::FunctionCall(f) => b matches Expression::FunctionCall(g) && g.function_name
            == f.function_name && replaced_all(f.args@, g.args@, how, f.args@.len() as int),
        Expression::CompiledFunctionCall(f) => b matches Expression::CompiledFunctionCall(g)
            && g.function == f.function && g.signature == f.signature && replaced_all(
            f.args@,
            g.args@,
            how,
            f.args@.len() as int,
        ),
        Expression::CompiledAggregate(f) => b matches Expression::CompiledAggregate(g) && g.function
            == f.function && g.signature == f.signature && replaced_all(
            f.args@,
            g.args@,
            how,
            f.args@.len() as int,
        ),
        Expression::Cast(c) => b matches Expression::Cast(d) && d.datatype == c.datatype
            && replaced(*c.expr, *d.expr, how),
        _ => b == a,
    }
}

/// Whether two lists are of one length and each of the first `n`
/// expressions of `b` is that of `a` with its columns replaced.
pub open spec fn replaced_all(
    a: Seq<Expression>,
    b: Seq<Expression>,
    how: Substitution,
    n: int,
) -> bool
    decreases a, n,
{
    if a.len() != b.len() {
        false
    } else if n <= 0 || n > a.len() {
        true
    } else {
        replaced_all(a, b, how, n - 1) && replaced(a[n - 1], b[n - 1], how)
    }
}

/// Lists whose expressions are replaced place by place are replaced.
pub proof fn lemma_replaced_all(a: Seq<Expression>, b: Seq<Expression>, how: Substitution, n: int)
    requires
        a.len() == b.len(),
        0 <= n <= a.len(),
        forall|k: int| 0 <= k < n ==> replaced(#[trigger] a[k], b[k], how),
    ensures
        replaced_all(a, b, how, n),
    decreases n,
{
    if n > 0 {
        lemma_replaced_all(a, b, how, n - 1);
    }
}

/// Moves every column offset in the expressions of a list by `by`.
pub fn move_list(list: Vec<Expression>, by: i64) -> (r: Vec<Expression>)
    ensures
        r@.len() == list@.len(),
        replaced_all(list@, r@, Substitution::Moved(by as int), list@.len() as int),
    decreases list,
{
    let mut rest = list;
    let ghost all = rest@;
    let ghost how = Substitution::Moved(by as int);
    let mut reversed: Vec<Expression> = Vec::new();
    while rest.len() > 0
        invariant
            rest@.len() <= all.len(),
            rest@ == all.subrange(0, rest@.len() as int),
            reversed@.len() + rest@.len() == all.len(),
            all == list@,
            how == Substitution::Moved(by as int),
            forall|k: int|
                0 <= k < reversed@.len() ==> replaced(
                    all[all.len() - 1 - k],
                    #[trigger] reversed@[k],
                    how,
                ),
        decreases rest@.len(),
    {
        proof {
            vstd::seq::axiom_seq_index_decreases(all, rest@.len() - 1);
        }
        let e = rest.pop().unwrap();
        assert(e == all[rest@.len() as int]);
        assert(rest@ =~= all.subrange(0, rest@.len() as int));
        reversed.push(move_column_references(e, by));
    }
    let mut result: Vec<Expression> = Vec::new();
    while reversed.len() > 0
        invariant
            result@.len() + reversed@.len() == all.len(),
            forall|k: int|
                0 <= k < reversed@.len() ==> replaced(
                    all[all.len() - 1 - k],
                    #[trigger] reversed@[k],
                    how,
                ),
            forall|k: int| 0 <= k < result@.len() ==> replaced(all[k], #[trigger] result@[k], how),
        decreases reversed@.len(),
    {
        let e = reversed.pop().unwrap();
        result.push(e);
    }
    proof {
        assert forall|k: int| 0 <= k < all.len() implies replaced(#[trigger] all[k], result@[k], how) by {
            assert(replaced(all[k], result@[k], how));
        }
        lemma_replaced_all(all, result@, how, all.len() as int);
    }
    result
}

/// Moves every column offset in an expression by `by`.
pub fn move_column_references(expr: Expression, by: i64) -> (r: Expression)
    ensures
        replaced(expr, r, Substitution::Moved(by as int)),
    decreases expr,
{
    match expr {
        Expression::CompiledColumnReference(c) => Expression::CompiledColumnReference(
            CompiledColumnReference { offset: move_offset(c.offset, by), datatype: c.datatype },
        ),
        Expression::FunctionCall(f) => Expression::FunctionCall(
            FunctionCall { function_name: f.function_name, args: move_list(f.args, by) },
        ),
        Expression::CompiledFunctionCall(f) => Expression::CompiledFunctionCall(
            CompiledFunctionCall {
                function: f.function,
                args: move_list(f.args, by),
                signature: f.signature,
            },
        ),
        Expression::CompiledAggregate(f) => Expression::CompiledAggregate(
            CompiledAggregate {
                function: f.function,
                args: move_list(f.args, by),
                signature: f.signature,
            },
        ),
        Expression::Cast(c) => {
            let datatype = c.datatype;
            Expression::Cast(
                Cast { expr: Box::new(move_column_references(*c.expr, by)), datatype },
            )
        },
        other => other,
    }
}

/// The expressions that a list of references refers to.
pub open spec fn targets(references: Seq<&Expression>) -> Seq<Expression> {
    Seq::new(references.len(), |i: int| *references[i])
}

/// Puts the expressions of a projection in the place of the column
/// references in each expression of a list.
pub fn inline_list(list: Vec<Expression>, replacements: &Vec<&Expression>) -> (r: Vec<Expression>)
    ensures
        r@.len() == list@.len(),
        replaced_all(list@, r@, Substitution::Inlined(targets(replacements@)), list@.len() as int),
    decreases list,
{
    let mut rest = list;
    let ghost all = rest@;
    let ghost how = Substitution::Inlined(targets(replacements@));
    let mut reversed: Vec<Expression> = Vec::new();
    while rest.len() > 0
        invariant
            rest@.len() <= all.len(),
            rest@ == all.subrange(0, rest@.len() as int),
            reversed@.len() + rest@.len() == all.len(),
            all == list@,
            how == Substitution::Inlined(targets(replacements@)),
            forall|k: int|
                0 <= k < reversed@.len() ==> replaced(
                    all[all.len() - 1 - k],
                    #[trigger] reversed@[k],
                    how,
                ),
        decreases rest@.len(),
    {
        proof {
            vstd::seq::axiom_seq_index_decreases(all, rest@.len() - 1);
        }
        let e = rest.pop().unwrap();
        assert(e == all[rest@.len() as int]);
        assert(rest@ =~= all.subrange(0, rest@.len() as int));
        reversed.push(inline_expression(e, replacements));
    }
    let mut result: Vec<Expression> = Vec::new();
    while reversed.len() > 0
        invariant
            result@.len() + reversed@.len() == all.len(),
            forall|k: int|
                0 <= k < reversed@.len() ==> replaced(
                    all[all.len() - 1 - k],
                    #[trigger] reversed@[k],
                    how,
                ),
            forall|k: int| 0 <= k < result@.len() ==> replaced(all[k], #[trigger] result@[k], how),
        decreases reversed@.len(),
    {
        let e = reversed.pop().unwrap();
        result.push(e);
    }
    proof {
        assert forall|k: int| 0 <= k < all.len() implies replaced(#[trigger] all[k], result@[k], how) by {
            assert(replaced(all[k], result@[k], how));
        }
        lemma_replaced_all(all, result@, how, all.len() as int);
    }
    result
}

/// Puts the expressions of a projection in the place of the column
/// references to them: a reference to column `i` becomes a copy of
/// `replacements[i]`. A reference past the end of the list stays.
pub fn inline_expression(expr: Expression, replacements: &Vec<&Expression>) -> (r: Expression)
    ensures
        replaced(expr, r, Substitution::Inlined(targets(replacements@))),
    decreases expr,
{
    match expr {
        Expression::CompiledColumnReference(c) => {
            if c.offset < replacements.len() {
                let target: &Expression = replacements[c.offset];
                target.clone()
            } else {
                Expression::CompiledColumnReference(c)
            }
        },
        Expression::FunctionCall(f) => Expression::FunctionCall(
            FunctionCall { function_name: f.function_name, args: inline_list(f.args, replacements) },
        ),
        Expression::CompiledFunctionCall(f) => Expression::CompiledFunctionCall(
            CompiledFunctionCall {
                function: f.function,
                args: inline_list(f.args, replacements),
                signature: f.signature,
            },
        ),
        Expression::CompiledAggregate(f) => Expression::CompiledAggregate(
            CompiledAggregate {
                function: f.function,
                args: inline_list(f.args, replacements),
                signature: f.signature,
            },
        ),
        Expression::Cast(c) => {
            let datatype = c.datatype;
            Expression::Cast(Cast { expr: Box::new(inline_expression(*c.expr, replacements)), datatype })
        },
        other => other,
    }
}

/// The expressions of a list, in the other order.
pub fn reverse_expressions(list: Vec<Expression>) -> (r: Vec<Expression>)
    ensures
        r@.len() == list@.len(),
        forall|i: int| 0 <= i < r@.len() ==> #[trigger] r@[i] == list@[list@.len() - 1 - i],
{
    let mut rest = list;
    let ghost all = rest@;
    let mut result: Vec<Expression> = Vec::new();
    while rest.len() > 0
        invariant
            rest@.len() <= all.len(),
            rest@ == all.subrange(0, rest@.len() as int),
            result@.len() + rest@.len() == all.len(),
            forall|i: int| 0 <= i < result@.len() ==> #[trigger] result@[i] == all[all.len() - 1 - i],
        decreases rest@.len(),
    {
        let e = rest.pop().unwrap();
        assert(e == all[rest@.len() as int]);
        assert(rest@ =~= all.subrange(0, rest@.len() as int));
        result.push(e);
    }
    result
}

/// Whether an aggregate stands anywhere in an expression.
pub open spec fn spec_contains_aggregate(expr: Expression) -> bool
    decreases expr, 0int,
{
    match expr {
        Expression::CompiledAggregate(_) => true,
        Expression::FunctionCall(f) => spec_any_aggregate(f.args@, f.args@.len() as int),
        Expression::CompiledFunctionCall(f) => spec_any_aggregate(f.args@, f.args@.len() as int),
        Expression::Cast(c) => spec_contains_aggregate(*c.expr),
        _ => false,
    }
}

/// Whether an aggregate stands in one of the first `n` expressions of a list.
pub open spec fn spec_any_aggregate(list: Seq<Expression>, n: int) -> bool
    decreases list, n,
{
    if n <= 0 || n > list.len() {
        false
    } else {
        spec_any_aggregate(list, n - 1) || spec_contains_aggregate(list[n - 1])
    }
}

/// Whether an aggregate stands in one of the expressions of a list.
pub fn any_aggregate(list: &Vec<Expression>) -> (b: bool)
    ensures
        b == spec_any_aggregate(list@, list@.len() as int),
    decreases list,
{
    let mut found = false;
    let mut i: usize = 0;
    while i < list.len()
        invariant
            i <= list@.len(),
            found == spec_any_aggregate(list@, i as int),
        decreases list@.len() - i,
    {
        proof {
            vstd::std_specs::vec::axiom_vec_index_decreases(*list, i as int);
        }
        let here = contains_aggregate(&list[i]);
        found = found || here;
        i += 1;
    }
    found
}

/// Whether an aggregate stands anywhere in an expression.
pub fn contains_aggregate(expr: &Expression) -> (b: bool)
    ensures
        b == spec_contains_aggregate(*expr),
    decreases expr,
{
    match expr {
        Expression::CompiledAggregate(_) => true,
        Expression::FunctionCall(f) => any_aggregate(&f.args),
        Expression::CompiledFunctionCall(f) => any_aggregate(&f.args),
        Expression::Cast(c) => contains_aggregate(&*c.expr),
        _ => false,
    }
}

/// Whether an expression is compiled through and through: constants,
/// columns by offset, and resolved functions over compiled arguments.
pub open spec fn spec_compiled(expr: Expression) -> bool
    decreases expr, 0int,
{
    match expr {
        Expression::Constant(_, _) => true,
        Expression::CompiledColumnReference(_) => true,
        Expression::CompiledFunctionCall(f) => spec_all_compiled(f.args@, f.args@.len() as int),
        Expression::CompiledAggregate(f) => spec_all_compiled(f.args@, f.args@.len() as int),
        _ => false,
    }
}

/// Whether the first `n` expressions of a list are compiled.
pub open spec fn spec_all_compiled(list: Seq<Expression>, n: int) -> bool
    decreases list, n,
{
    if n <= 0 || n > list.len() {
        true
    } else {
        spec_all_compiled(list, n - 1) && spec_compiled(list[n - 1])
    }
}

pub proof fn lemma_all_compiled(list: Seq<Expression>, n: int)
    requires
        0 <= n <= list.len(),
        forall|k: int| 0 <= k < n ==> spec_compiled(#[trigger] list[k]),
    ensures
        spec_all_compiled(list, n),
    decreases n,
{
    if n > 0 {
        lemma_all_compiled(list, n - 1);
    }
}

pub proof fn lemma_all_compiled_at(list: Seq<Expression>, n: int, k: int)
    requires
        spec_all_compiled(list, n),
        0 <= k < n <= list.len(),
    ensures
        spec_compiled(list[k]),
    decreases n,
{
    if k < n - 1 {
        lemma_all_compiled_at(list, n - 1, k);
    }
}

/// Whether an expression is compiled.
pub fn is_compiled(expr: &Expression) -> (b: bool)
    ensures
        b == spec_compiled(*expr),
    decreases expr,
{
    match expr {
        Expression::Constant(_, _) => true,
        Expression::CompiledColumnReference(_) => true,
        Expression::CompiledFunctionCall(f) => all_compiled(&f.args),
        Expression::CompiledAggregate(f) => all_compiled(&f.args),
        _ => false,
    }
}

/// Whether the expressions of a list are compiled.
pub fn all_compiled(list: &Vec<Expression>) -> (b: bool)
    ensures
        b == spec_all_compiled(list@, list@.len() as int),
    decreases list,
{
    let mut ok = true;
    let mut i: usize = 0;
    while i < list.len()
        invariant
            i <= list@.len(),
            ok == spec_all_compiled(list@, i as int),
        decreases list@.len() - i,
    {
        proof {
            vstd::std_specs::vec::axiom_vec_index_decreases(*list, i as int);
        }
        let here = is_compiled(&list[i]);
        ok = ok && here;
        i += 1;
    }
    ok
}

/// The type of an expression is the type of its model.
pub proof fn lemma_model_type(e: Expression)
    ensures
        model_type(model(e)) == spec_type_for_expression(e),
{
}

/// The types of a list of expressions are the types of their models.
pub proof fn lemma_model_types(list: Seq<Expression>)
    ensures
        model_types(models_of(list)) == Seq::new(
            list.len(),
            |i: int| spec_type_for_expression(list[i]),
        ),
{
    lemma_models_of(list);
    assert forall|i: int| 0 <= i < list.len() implies model_type(#[trigger] models_of(list)[i])
        == spec_type_for_expression(list[i]) by {
        lemma_model_type(list[i]);
    }
    assert(model_types(models_of(list)) =~= Seq::new(
        list.len(),
        |i: int| spec_type_for_expression(list[i]),
    ));
}

/// An expression is compiled exactly where its model is.
pub proof fn lemma_model_compiled(e: Expression)
    ensures
        model_compiled(model(e)) == spec_compiled(e),
    decreases e, 0int,
{
    match e {
        Expression::CompiledFunctionCall(f) => {
            lemma_models_compiled(f.args@, f.args@.len() as int);
            lemma_models_compiled_list(f.args@);
            let ms = models_of(f.args@);
            assert(model(e) matches ExpressionModel::CompiledFunctionCall(_, args, _) && args == ms);
            assert(model_compiled(model(e)) == (forall|i: int|
                0 <= i < ms.len() ==> model_compiled(#[trigger] ms[i])));
            assert(spec_compiled(e) == spec_all_compiled(f.args@, f.args@.len() as int));
        },
        Expression::CompiledAggregate(f) => {
            lemma_models_compiled(f.args@, f.args@.len() as int);
            lemma_models_compiled_list(f.args@);
            let ms = models_of(f.args@);
            assert(model(e) matches ExpressionModel::CompiledAggregate(_, args, _) && args == ms);
            assert(model_compiled(model(e)) == (forall|i: int|
                0 <= i < ms.len() ==> model_compiled(#[trigger] ms[i])));
            assert(spec_compiled(e) == spec_all_compiled(f.args@, f.args@.len() as int));
        },
        _ => {},
    }
}

/// The models of a list are compiled exactly where the model of each
/// expression of the list is.
pub proof fn lemma_models_compiled_list(list: Seq<Expression>)
    ensures
        (forall|i: int| 0 <= i < models_of(list).len() ==> model_compiled(#[trigger] models_of(list)[i]))
            == (forall|i: int| 0 <= i < list.len() ==> model_compiled(model(#[trigger] list[i]))),
{
    lemma_models_of(list);
    let ms = models_of(list);
    if forall|i: int| 0 <= i < ms.len() ==> model_compiled(#[trigger] ms[i]) {
        assert forall|i: int| 0 <= i < list.len() implies model_compiled(model(#[trigger] list[i])) by {
            assert(model_compiled(ms[i]));
        }
    }
    if forall|i: int| 0 <= i < list.len() ==> model_compiled(model(#[trigger] list[i])) {
        assert forall|i: int| 0 <= i < ms.len() implies model_compiled(#[trigger] ms[i]) by {
            assert(model_compiled(model(list[i])));
        }
    }
}

/// The first expressions of a list are compiled exactly where their
/// models are.
pub proof fn lemma_models_compiled(list: Seq<Expression>, n: int)
    requires
        0 <= n <= list.len(),
    ensures
        spec_all_compiled(list, n) == (forall|i: int|
            0 <= i < n ==> model_compiled(model(#[trigger] list[i]))),
    decreases list, n,
{
    if n > 0 {
        vstd::seq::axiom_seq_index_decreases(list, n - 1);
        lemma_models_compiled(list, n - 1);
        lemma_model_compiled(list[n - 1]);
        if spec_all_compiled(list, n) {
            assert forall|i: int| 0 <= i < n implies model_compiled(model(#[trigger] list[i])) by {
                if i < n - 1 {
                } else {
                }
            }
        }
    }
}

} // verus!
