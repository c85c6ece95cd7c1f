//! Predicate pushdown.

use vstd::prelude::*;
use crate::ast::expr::{
    clone_expressions,
    lemma_same_expression,
    lemma_same_expressions,
    same_expression,
    same_expressions,
    Expression,
    NamedExpression,
};
use crate::ast::rel::logical::{
    Filter,
    GroupBy,
    Join,
    JoinType,
    Limit,
    LogicalOperator,
    Project,
    Sort,
    TableAlias,
    TableInsert,
    UnionAll,
};
use crate::planner::p4_pit_planning::expressions_of;
use crate::planner::utils::expr::{
    combine_predicates,
    conjuncts,
    decompose_predicate,
    inline_list,
    is_combined,
    min_max_column_deps_for_expression,
    move_list,
    replaced_all,
    reverse_expressions,
    spec_min_max,
    targets,
    Substitution,
};
use crate::planner::utils::logical::{fieldnames_for_operator, names_of, spec_fields};

verus! {

/// Whether `r` is an operator in a filter on the conjunction of the
/// predicates, or, where there are no predicates, the operator itself:
/// the operator that is in it.
pub open spec fn filter_around(r: LogicalOperator, predicates: Seq<Expression>) -> Option<
    LogicalOperator,
> {
    if predicates.len() == 0 {
        Some(r)
    } else {
        match r {
            LogicalOperator::Filter(f) => if is_combined(f.predicate, predicates) {
                Some(*f.source)
            } else {
                None
            },
            _ => None,
        }
    }
}

/// Where a predicate goes at a join.
pub enum Side {
    /// Into the left source.
    Left,
    /// Into the right source.
    Right,
    /// Into the condition of the join.
    Keep,
    /// Into a filter around the join.
    Wrap,
}

/// Whether a predicate goes to a side of a join. The predicate comes
/// from above the join or is a conjunct of its condition.
///
/// At an inner join the two are treated alike: what needs columns of the
/// left source only goes left, what needs columns of the right source only
/// goes right, what needs both stays in the condition, and what needs no
/// column goes to both sides. At a left outer join a predicate from above
/// goes left where it needs columns of the left source only, to both sides
/// where it needs none, and else into a filter around the join; a conjunct
/// of the condition goes right where it needs no column of the left
/// source, and else stays.
pub open spec fn goes_to(
    predicate: Expression,
    left_len: usize,
    join_type: JoinType,
    from_above: bool,
    side: Side,
) -> bool {
    match spec_min_max(predicate) {
        None => if join_type is Inner || from_above {
            side is Left || side is Right
        } else {
            side is Right
        },
        Some((min, max)) => if join_type is Inner {
            if max < left_len {
                side is Left
            } else if min >= left_len {
                side is Right
            } else {
                side is Keep
            }
        } else if from_above {
            if max < left_len {
                side is Left
            } else {
                side is Wrap
            }
        } else {
            if min >= left_len {
                side is Right
            } else {
                side is Keep
            }
        },
    }
}

/// The predicates of a list that go to a side of a join, in their order.
pub open spec fn placed(
    list: Seq<Expression>,
    left_len: usize,
    join_type: JoinType,
    from_above: bool,
    side: Side,
) -> Seq<Expression>
    decreases list.len(),
{
    if list.len() == 0 {
        Seq::empty()
    } else {
        let before = placed(list.drop_last(), left_len, join_type, from_above, side);
        if goes_to(list.last(), left_len, join_type, from_above, side) {
            before.push(list.last())
        } else {
            before
        }
    }
}

/// What goes to a side of a join: of the predicates from above, and then
/// of the conjuncts of its condition.
pub open spec fn share(
    predicates: Seq<Expression>,
    on: Expression,
    left_len: usize,
    join_type: JoinType,
    side: Side,
) -> Seq<Expression> {
    placed(predicates, left_len, join_type, true, side) + placed(
        conjuncts(on),
        left_len,
        join_type,
        false,
        side,
    )
}

/// The distance by which the offsets of a predicate move that goes into
/// the right source of a join.
pub open spec fn right_shift(left_len: usize) -> int {
    if left_len <= i64::MAX {
        -(left_len as int)
    } else {
        i64::MIN as int
    }
}

/// Whether `r` is the operator with the predicates pushed into it as far
/// as they go.
///
/// A filter goes: its conjuncts join the predicates from above. A sort and
/// a negation let the predicates through unchanged, a union into each of
/// its sources. A projection lets them through with its expressions in
/// the place of the references to its columns. A join sends each
/// predicate and each conjunct of its condition to the side that it goes
/// to; the offsets of those that go right are counted from the start of
/// the right source. Every other operator stops the predicates: they stay
/// in a filter around it, and pushing starts again below it.
pub open spec fn pushed(
    operator: LogicalOperator,
    predicates: Seq<Expression>,
    r: LogicalOperator,
) -> bool
    decreases operator, 0int,
{
    match operator {
        LogicalOperator::Filter(f) => pushed(*f.source, predicates + conjuncts(f.predicate), r),
        LogicalOperator::Sort(s) => r matches LogicalOperator::Sort(q) && q.sort_expressions
            == s.sort_expressions && pushed(*s.source, predicates, *q.source),
        LogicalOperator::NegateFreq(source) => r matches LogicalOperator::NegateFreq(q) && pushed(
            *source,
            predicates,
            *q,
        ),
        LogicalOperator::Project(p) => r matches LogicalOperator::Project(q) && q.distinct
            == p.distinct && q.expressions == p.expressions && exists|inlined: Seq<Expression>|
            #[trigger] inlined.len() == predicates.len() && replaced_all(
                predicates,
                inlined,
                Substitution::Inlined(expressions_of(p.expressions@)),
                predicates.len() as int,
            ) && pushed(*p.source, inlined, *q.source),
        LogicalOperator::UnionAll(u) => r matches LogicalOperator::UnionAll(q) && pushed_all(
            u.sources@,
            predicates,
            q.sources@,
            u.sources@.len() as int,
        ),
        LogicalOperator::Join(j) => {
            let left_len = spec_fields(*j.left).len() as usize;
            filter_around(
                r,
                share(predicates, j.on, left_len, j.join_type, Side::Wrap),
            ) matches Some(LogicalOperator::Join(q)) && q.join_type == j.join_type && is_combined(
                q.on,
                share(predicates, j.on, left_len, j.join_type, Side::Keep),
            ) && (exists|left: Seq<Expression>|
                #[trigger] left.len() == share(
                    predicates,
                    j.on,
                    left_len,
                    j.join_type,
                    Side::Left,
                ).len() && same_expressions(
                    share(predicates, j.on, left_len, j.join_type, Side::Left),
                    left,
                    left.len() as int,
                ) && pushed(*j.left, left, *q.left)) && (exists|right: Seq<Expression>|
                #[trigger] right.len() == share(
                    predicates,
                    j.on,
                    left_len,
                    j.join_type,
                    Side::Right,
                ).len() && replaced_all(
                    share(predicates, j.on, left_len, j.join_type, Side::Right),
                    right,
                    Substitution::Moved(right_shift(left_len)),
                    right.len() as int,
                ) && pushed(*j.right, right, *q.right))
        },
        LogicalOperator::GroupBy(g) => filter_around(r, predicates) matches Some(
            LogicalOperator::GroupBy(q),
        ) && q.expressions == g.expressions && q.key_expressions == g.key_expressions && pushed(
            *g.source,
            Seq::empty(),
            *q.source,
        ),
        LogicalOperator::Limit(l) => filter_around(r, predicates) matches Some(
            LogicalOperator::Limit(q),
        ) && q.offset == l.offset && q.limit == l.limit && pushed(
            *l.source,
            Seq::empty(),
            *q.source,
        ),
        LogicalOperator::TableAlias(a) => filter_around(r, predicates) matches Some(
            LogicalOperator::TableAlias(q),
        ) && q.alias == a.alias && pushed(*a.source, Seq::empty(), *q.source),
        LogicalOperator::TableInsert(t) => filter_around(r, predicates) matches Some(
            LogicalOperator::TableInsert(q),
        ) && q.table == t.table && pushed(*t.source, Seq::empty(), *q.source),
        _ => filter_around(r, predicates) == Some(operator),
    }
}

/// Whether two lists are of one length and each of the first `n`
/// operators of `results` is that of `sources` with a copy of the
/// predicates pushed into it.
pub open spec fn pushed_all(
    sources: Seq<LogicalOperator>,
    predicates: Seq<Expression>,
    results: Seq<LogicalOperator>,
    n: int,
) -> bool
    decreases sources, n,
{
    if sources.len() != results.len() {
        false
    } else if n <= 0 || n > sources.len() {
        true
    } else {
        pushed_all(sources, predicates, results, n - 1) && pushed_copy(
            sources[n - 1],
            predicates,
            results[n - 1],
        )
    }
}

/// Whether an operator is a source with a copy of the predicates pushed
/// into it.
pub open spec fn pushed_copy(
    source: LogicalOperator,
    predicates: Seq<Expression>,
    result: LogicalOperator,
) -> bool
    decreases source, 1int,
{
    exists|copy: Seq<Expression>|
        #[trigger] copy.len() == predicates.len() && same_expressions(
            predicates,
            copy,
            predicates.len() as int,
        ) && pushed(source, copy, result)
}

/// Decomposes filters by splitting them at "ands" and then pushing each fragment down
/// as far as we can.
/// Filters come in two places.
/// 1. The where clauses (filter operators)
/// 2. Join conditions.
pub fn predicate_pushdown(operator: LogicalOperator) -> (r: LogicalOperator)
    ensures
        pushed(operator, Seq::empty(), r),
        spec_fields(r) == spec_fields(operator),
{
    pushdown_predicates_from_above(operator, Vec::new())
}

/// Wraps an operator in a filter on the given predicates, if there are any.
fn wrap_in_filter(operator: LogicalOperator, predicates: Vec<Expression>) -> (r: LogicalOperator)
    ensures
        spec_fields(r) == spec_fields(operator),
        filter_around(r, predicates@) == Some(operator),
{
    if predicates.len() == 0 {
        operator
    } else {
        LogicalOperator::Filter(
            Filter { predicate: combine_predicates(predicates), source: Box::new(operator) },
        )
    }
}

proof fn lemma_pushed_all(
    sources: Seq<LogicalOperator>,
    predicates: Seq<Expression>,
    results: Seq<LogicalOperator>,
    n: int,
)
    requires
        sources.len() == results.len(),
        0 <= n <= sources.len(),
        forall|k: int| 0 <= k < n ==> pushed_copy(#[trigger] sources[k], predicates, results[k]),
    ensures
        pushed_all(sources, predicates, results, n),
    decreases n,
{
    if n > 0 {
        lemma_pushed_all(sources, predicates, results, n - 1);
    }
}

fn push_into_all(sources: Vec<LogicalOperator>, predicates: &Vec<Expression>) -> (r: Vec<
    LogicalOperator,
>)
    ensures
        pushed_all(sources@, predicates@, r@, sources@.len() as int),
        r@.len() == sources@.len(),
        forall|i: int| 0 <= i < r@.len() ==> spec_fields(#[trigger] r@[i]) == spec_fields(sources@[i]),
    decreases sources,
{
    let mut rest = sources;
    let ghost all = rest@;
    let mut reversed: Vec<LogicalOperator> = Vec::new();
    while rest.len() > 0
        invariant
            rest@.len() <= all.len(),
            rest@ == all.subrange(0, rest@.len() as int),
            reversed@.len() + rest@.len() == all.len(),
            all == sources@,
            forall|k: int|
                0 <= k < reversed@.len() ==> spec_fields(#[trigger] reversed@[k]) == spec_fields(
                    all[all.len() - 1 - k],
                ),
            forall|k: int|
                0 <= k < reversed@.len() ==> pushed_copy(
                    all[all.len() - 1 - k],
                    predicates@,
                    #[trigger] reversed@[k],
                ),
        decreases rest@.len(),
    {
        proof {
            vstd::seq::axiom_seq_index_decreases(all, rest@.len() - 1);
        }
        let source = rest.pop().unwrap();
        assert(source == all[rest@.len() as int]);
        assert(rest@ =~= all.subrange(0, rest@.len() as int));
        let copy = clone_expressions(predicates);
        let ghost copied = copy@;
        let result = pushdown_predicates_from_above(source, copy);
        assert(same_expressions(predicates@, copied, predicates@.len() as int));
        assert(copied.len() == predicates@.len());
        assert(pushed(source, copied, result));
        assert(pushed_copy(source, predicates@, result));
        reversed.push(result);
    }
    let mut result: Vec<LogicalOperator> = Vec::new();
    while reversed.len() > 0
        invariant
            result@.len() + reversed@.len() == all.len(),
            forall|k: int|
                0 <= k < reversed@.len() ==> spec_fields(#[trigger] reversed@[k]) == spec_fields(
                    all[all.len() - 1 - k],
                ),
            forall|k: int|
                0 <= k < result@.len() ==> spec_fields(#[trigger] result@[k]) == spec_fields(all[k]),
            forall|k: int|
                0 <= k < reversed@.len() ==> pushed_copy(
                    all[all.len() - 1 - k],
                    predicates@,
                    #[trigger] reversed@[k],
                ),
            forall|k: int|
                0 <= k < result@.len() ==> pushed_copy(all[k], predicates@, #[trigger] result@[k]),
        decreases reversed@.len(),
    {
        let source = reversed.pop().unwrap();
        result.push(source);
    }
    proof {
        assert forall|k: int| 0 <= k < all.len() implies pushed_copy(
            #[trigger] all[k],
            predicates@,
            result@[k],
        ) by {
            assert(pushed_copy(all[k], predicates@, result@[k]));
        }
        lemma_pushed_all(all, predicates@, result@, all.len() as int);
    }
    result
}

/// References to the expressions of a projection.
fn projected(expressions: &Vec<NamedExpression>) -> (r: Vec<&Expression>)
    ensures
        targets(r@) == expressions_of(expressions@),
{
    let mut r: Vec<&Expression> = Vec::new();
    let mut i: usize = 0;
    while i < expressions.len()
        invariant
            i <= expressions@.len(),
            r@.len() == i,
            forall|k: int| 0 <= k < i ==> *(#[trigger] r@[k]) == expressions@[k].expression,
        decreases expressions@.len() - i,
    {
        r.push(&expressions[i].expression);
        i += 1;
    }
    assert(targets(r@) =~= expressions_of(expressions@));
    r
}

/// Where the predicates of a join go.
struct Split {
    /// To the left source.
    left: Vec<Expression>,
    /// To the right source; the columns are still counted from the left.
    right: Vec<Expression>,
    /// They stay in the condition of the join.
    keep: Vec<Expression>,
    /// Into a filter around the join.
    wrap: Vec<Expression>,
}

/// Whether a list is another with the predicate added where it goes to
/// the side of the list.
spec fn added(before: Seq<Expression>, after: Seq<Expression>, predicate: Expression, goes: bool) -> bool {
    if goes {
        after == before.push(predicate)
    } else {
        after == before
    }
}

/// Whether a list is another with a copy of the predicate added where it
/// goes to the side of the list.
spec fn added_copy(
    before: Seq<Expression>,
    after: Seq<Expression>,
    predicate: Expression,
    goes: bool,
) -> bool {
    if goes {
        after.len() == before.len() + 1 && after.drop_last() == before && same_expression(
            predicate,
            after.last(),
        )
    } else {
        after == before
    }
}

/// Sends a predicate to the sides of a join that it goes to.
fn place(
    predicate: Expression,
    left_len: usize,
    join_type: JoinType,
    from_above: bool,
    split: &mut Split,
)
    ensures
        added_copy(
            old(split).left@,
            final(split).left@,
            predicate,
            goes_to(predicate, left_len, join_type, from_above, Side::Left),
        ),
        added(
            old(split).right@,
            final(split).right@,
            predicate,
            goes_to(predicate, left_len, join_type, from_above, Side::Right),
        ),
        added(
            old(split).keep@,
            final(split).keep@,
            predicate,
            goes_to(predicate, left_len, join_type, from_above, Side::Keep),
        ),
        added(
            old(split).wrap@,
            final(split).wrap@,
            predicate,
            goes_to(predicate, left_len, join_type, from_above, Side::Wrap),
        ),
{
    let ghost left = split.left@;
    let inner = match join_type {
        JoinType::Inner => true,
        JoinType::LeftOuter => false,
    };
    match min_max_column_deps_for_expression(&predicate) {
        None => {
            if inner || from_above {
                // Constant, push it down both sides (either we filter out
                // everything or nothing....)
                split.left.push(predicate.clone());
                assert(split.left@.drop_last() =~= left);
                split.right.push(predicate);
            } else {
                // A constant condition of an outer join goes right only.
                split.right.push(predicate);
            }
        },
        Some((min, max)) => {
            if inner {
                if max < left_len {
                    proof {
                        lemma_same_expression(predicate);
                    }
                    split.left.push(predicate);
                    assert(split.left@.drop_last() =~= left);
                } else if min >= left_len {
                    split.right.push(predicate);
                } else {
                    split.keep.push(predicate);
                }
            } else if from_above {
                // Push down the predicates filtering the left side
                if max < left_len {
                    proof {
                        lemma_same_expression(predicate);
                    }
                    split.left.push(predicate);
                    assert(split.left@.drop_last() =~= left);
                } else {
                    split.wrap.push(predicate);
                }
            } else {
                // Push down conditions to the right.
                if min >= left_len {
                    split.right.push(predicate);
                } else {
                    split.keep.push(predicate);
                }
            }
        },
    }
}

/// Whether a list is another followed by copies of the expressions of a
/// third.
spec fn extended_by_copies(before: Seq<Expression>, after: Seq<Expression>, more: Seq<Expression>) -> bool {
    &&& after.len() == before.len() + more.len()
    &&& forall|i: int| 0 <= i < before.len() ==> #[trigger] after[i] == before[i]
    &&& forall|i: int|
        0 <= i < more.len() ==> same_expression(#[trigger] more[i], after[before.len() + i])
}

/// Sends each predicate of a list to the sides of a join that it goes to.
fn place_all(
    list: Vec<Expression>,
    left_len: usize,
    join_type: JoinType,
    from_above: bool,
    split: &mut Split,
)
    ensures
        extended_by_copies(
            old(split).left@,
            final(split).left@,
            placed(list@, left_len, join_type, from_above, Side::Left),
        ),
        final(split).right@ == old(split).right@ + placed(
            list@,
            left_len,
            join_type,
            from_above,
            Side::Right,
        ),
        final(split).keep@ == old(split).keep@ + placed(
            list@,
            left_len,
            join_type,
            from_above,
            Side::Keep,
        ),
        final(split).wrap@ == old(split).wrap@ + placed(
            list@,
            left_len,
            join_type,
            from_above,
            Side::Wrap,
        ),
{
    let ghost all = list@;
    let ghost start_left = split.left@;
    let ghost start_right = split.right@;
    let ghost start_keep = split.keep@;
    let ghost start_wrap = split.wrap@;
    let mut rest = reverse_expressions(list);
    assert(all.subrange(0, 0) =~= Seq::<Expression>::empty());
    assert(split.right@ =~= start_right + Seq::<Expression>::empty());
    assert(split.keep@ =~= start_keep + Seq::<Expression>::empty());
    assert(split.wrap@ =~= start_wrap + Seq::<Expression>::empty());
    while rest.len() > 0
        invariant
            rest@.len() <= all.len(),
            forall|i: int| 0 <= i < rest@.len() ==> #[trigger] rest@[i] == all[all.len() - 1 - i],
            extended_by_copies(
                start_left,
                split.left@,
                placed(
                    all.subrange(0, all.len() - rest@.len()),
                    left_len,
                    join_type,
                    from_above,
                    Side::Left,
                ),
            ),
            split.right@ == start_right + placed(
                all.subrange(0, all.len() - rest@.len()),
                left_len,
                join_type,
                from_above,
                Side::Right,
            ),
            split.keep@ == start_keep + placed(
                all.subrange(0, all.len() - rest@.len()),
                left_len,
                join_type,
                from_above,
                Side::Keep,
            ),
            split.wrap@ == start_wrap + placed(
                all.subrange(0, all.len() - rest@.len()),
                left_len,
                join_type,
                from_above,
                Side::Wrap,
            ),
        decreases rest@.len(),
    {
        let ghost done = all.subrange(0, all.len() - rest@.len());
        let ghost left_before = split.left@;
        let predicate = rest.pop().unwrap();
        let ghost next = all.subrange(0, all.len() - rest@.len());
        assert(predicate == all[all.len() - rest@.len() - 1]);
        assert(next.drop_last() =~= done);
        assert(next.last() == predicate);
        place(predicate, left_len, join_type, from_above, split);
        proof {
            let right = placed(done, left_len, join_type, from_above, Side::Right);
            let keep = placed(done, left_len, join_type, from_above, Side::Keep);
            let wrap = placed(done, left_len, join_type, from_above, Side::Wrap);
            assert(start_right + right.push(predicate) =~= (start_right + right).push(predicate));
            assert(start_keep + keep.push(predicate) =~= (start_keep + keep).push(predicate));
            assert(start_wrap + wrap.push(predicate) =~= (start_wrap + wrap).push(predicate));
            if goes_to(predicate, left_len, join_type, from_above, Side::Left) {
                assert(split.left@.drop_last() == left_before);
                assert forall|i: int| 0 <= i < start_left.len() implies #[trigger] split.left@[i]
                    == start_left[i] by {
                    assert(split.left@[i] == split.left@.drop_last()[i]);
                }
                let more = placed(next, left_len, join_type, from_above, Side::Left);
                assert forall|i: int| 0 <= i < more.len() implies same_expression(
                    #[trigger] more[i],
                    split.left@[start_left.len() + i],
                ) by {
                    if i < more.len() - 1 {
                        assert(split.left@[start_left.len() + i] == split.left@.drop_last()[
                            start_left.len() + i
                        ]);
                    }
                }
            }
        }
    }
    assert(all.subrange(0, all.len() as int) =~= all);
}

/// Pushes the predicates that came down from above into an operator.
///
/// The idea here is that we start at the top and for each operator we accept a list of
/// predicates from above that have been pushed down. For the combined list of predicates (ie
/// internal ones from filter and join operators combined with those from above) we decide if
/// we can push them down further or not. If we can we do, other wise we wrap ourselves in a
/// filter operator with those predicates. As we push all the predicates out of a filter,
/// filters are removed.
pub fn pushdown_predicates_from_above(operator: LogicalOperator, predicates: Vec<Expression>) -> (r:
    LogicalOperator)
    ensures
        pushed(operator, predicates@, r),
        spec_fields(r) == spec_fields(operator),
    decreases operator,
{
    match operator {
        LogicalOperator::Filter(filter) => {
            let mut all = predicates;
            let mut own = decompose_predicate(filter.predicate);
            all.append(&mut own);
            // Push down filters; the filter itself goes.
            pushdown_predicates_from_above(*filter.source, all)
        },
        // We can always transparently push through these operators
        LogicalOperator::Sort(sort) => {
            let source = pushdown_predicates_from_above(*sort.source, predicates);
            LogicalOperator::Sort(
                Sort { sort_expressions: sort.sort_expressions, source: Box::new(source) },
            )
        },
        LogicalOperator::NegateFreq(source) => {
            let source = pushdown_predicates_from_above(*source, predicates);
            LogicalOperator::NegateFreq(Box::new(source))
        },
        LogicalOperator::Project(project) => {
            // For project we just inline the expressions and push them down
            let inlined = if predicates.len() > 0 {
                let project_exprs = projected(&project.expressions);
                inline_list(predicates, &project_exprs)
            } else {
                predicates
            };
            let ghost pushed_in = inlined@;
            let source = pushdown_predicates_from_above(*project.source, inlined);
            assert(pushed_in.len() == predicates@.len());
            LogicalOperator::Project(
                Project {
                    distinct: project.distinct,
                    expressions: project.expressions,
                    source: Box::new(source),
                },
            )
        },
        LogicalOperator::UnionAll(union_all) => {
            // Union we just push it through, worst case we end up with 3 filters immediately
            // below the union, while a little messier it will make no difference for perf.
            let sources = push_into_all(union_all.sources, &predicates);
            LogicalOperator::UnionAll(UnionAll { sources })
        },
        LogicalOperator::Join(join) => {
            // Joins are a little tricky.
            // Inner joins are simple enough, any pushed down filters act like join conditions
            // and conditions are just like filters so can be pushed down too.
            // When thinking about outer joins the join condition is not a
            // filter just a join condition.
            // So for a left outer join, none of the left rows are filtered,
            // the condition solely about matching to the right side.
            // For predicates coming from above this means for the left side we
            // can push them into the source (but we must skip over the join condition).
            // For predicates that filter the right side, these can't be pushed down
            // But as for pushing down the conditions, well we already know we can't push
            // down any that touch the left or both sides.
            // but right only conditions can be pushed down as can constants.
            let ghost above = predicates@;
            let join_predicates = decompose_predicate(join.on);
            let left_len = fieldnames_for_operator(&*join.left).len();
            assert(left_len == spec_fields(*join.left).len()) by {
                assert(names_of(spec_fields(*join.left)).len() == spec_fields(*join.left).len());
            }
            // What we'll push down to the left and right sides, what we'll keep in
            // the join condition and what we'll put in a filter wrapping the join
            let mut split = Split {
                left: Vec::new(),
                right: Vec::new(),
                keep: Vec::new(),
                wrap: Vec::new(),
            };
            // Bring in predicates and merge them with join condition.
            place_all(predicates, left_len, join.join_type, true, &mut split);
            let ghost middle = split.left@;
            place_all(join_predicates, left_len, join.join_type, false, &mut split);
            // Fix up the indexes for the right side.
            let by: i64 = if left_len as u64 <= 0x7FFF_FFFF_FFFF_FFFFu64 {
                -(left_len as i64)
            } else {
                i64::MIN
            };
            let ghost to_left = share(above, join.on, left_len, join.join_type, Side::Left);
            let ghost to_right = share(above, join.on, left_len, join.join_type, Side::Right);
            let ghost left_in = split.left@;
            proof {
                assert(split.right@ =~= to_right);
                assert(split.keep@ =~= share(above, join.on, left_len, join.join_type, Side::Keep));
                assert(split.wrap@ =~= share(above, join.on, left_len, join.join_type, Side::Wrap));
                assert forall|k: int| 0 <= k < to_left.len() implies same_expression(
                    #[trigger] to_left[k],
                    left_in[k],
                ) by {
                    let first = placed(above, left_len, join.join_type, true, Side::Left);
                    if k < first.len() {
                        assert(left_in[k] == middle[k]);
                        assert(same_expression(first[k], middle[0 + k]));
                    } else {
                        let second = placed(
                            conjuncts(join.on),
                            left_len,
                            join.join_type,
                            false,
                            Side::Left,
                        );
                        assert(same_expression(second[k - first.len()], left_in[middle.len() + (k - first.len())]));
                    }
                }
                lemma_same_expressions(to_left, left_in, to_left.len() as int);
            }
            let right_predicates = move_list(split.right, by);
            let ghost right_in = right_predicates@;
            // Put back join condition bits that we can't push down.
            let on = combine_predicates(split.keep);
            // Push down each side
            let left = pushdown_predicates_from_above(*join.left, split.left);
            let right = pushdown_predicates_from_above(*join.right, right_predicates);
            assert(pushed(*join.left, left_in, left));
            assert(pushed(*join.right, right_in, right));
            assert(left_in.len() == to_left.len());
            assert(right_in.len() == to_right.len());
            let joined = LogicalOperator::Join(
                Join { left: Box::new(left), right: Box::new(right), on, join_type: join.join_type },
            );
            // Wrap ourselves in the filters we didnt manage to push down
            wrap_in_filter(joined, split.wrap)
        },
        // The remaining operators we can never push through, (we technically could with
        // limit but it would have the opposite effect in actually creating more work
        // for the query engine). Pushing starts again below them.
        LogicalOperator::GroupBy(group_by) => {
            let source = pushdown_predicates_from_above(*group_by.source, Vec::new());
            wrap_in_filter(
                LogicalOperator::GroupBy(
                    GroupBy {
                        expressions: group_by.expressions,
                        key_expressions: group_by.key_expressions,
                        source: Box::new(source),
                    },
                ),
                predicates,
            )
        },
        LogicalOperator::Limit(limit) => {
            let source = pushdown_predicates_from_above(*limit.source, Vec::new());
            wrap_in_filter(
                LogicalOperator::Limit(
                    Limit { offset: limit.offset, limit: limit.limit, source: Box::new(source) },
                ),
                predicates,
            )
        },
        LogicalOperator::TableAlias(table_alias) => {
            let source = pushdown_predicates_from_above(*table_alias.source, Vec::new());
            wrap_in_filter(
                LogicalOperator::TableAlias(
                    TableAlias { alias: table_alias.alias, source: Box::new(source) },
                ),
                predicates,
            )
        },
        LogicalOperator::TableInsert(insert) => {
            let source = pushdown_predicates_from_above(*insert.source, Vec::new());
            wrap_in_filter(
                LogicalOperator::TableInsert(
                    TableInsert { table: insert.table, source: Box::new(source) },
                ),
                predicates,
            )
        },
        other => wrap_in_filter(other, predicates),
    }
}

} // verus!
