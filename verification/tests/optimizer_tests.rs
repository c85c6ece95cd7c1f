use incresql::ast::expr::{CompiledColumnReference, Expression};
use incresql::ast::rel::logical::{Join, JoinType, LogicalOperator, TableAlias, Values};
use incresql::data::{DataType, Datum, Session};
use incresql::parser::atoms::{is_reserved, lower_case};
use incresql::parser::{parse, Statement};
use incresql::planner::p2_optimization::fold_constants::fold_expression;
use incresql::planner::p2_optimization::predicate_pushdown::predicate_pushdown;
use incresql::planner::p4_pit_planning::build_operator;
use incresql::planner::utils::expr::{
    combine_predicates, decompose_predicate, inline_expression, move_column_references,
};
use incresql::planner::Planner;
use incresql::ast::rel::point_in_time::PointInTimeOperator;

fn column(offset: usize) -> Expression {
    Expression::CompiledColumnReference(CompiledColumnReference {
        offset,
        datatype: DataType::Integer,
    })
}

/// The predicate of `SELECT <text>` over two sources `l` and `r` of one
/// integer column each, validated.
fn validated_join(on: &str, join_type: JoinType) -> LogicalOperator {
    let planner = Planner::new_for_test().unwrap();
    let session = Session::new(1);
    let side = |alias: &str| {
        LogicalOperator::TableAlias(TableAlias {
            alias: alias.to_string(),
            source: Box::new(LogicalOperator::Values(Values {
                data: vec![vec![Expression::from(1)], vec![Expression::from(2)]],
                fields: vec![],
            })),
        })
    };
    let text = format!("SELECT {}", on);
    let on = match parse(&text).unwrap() {
        Statement::Query(LogicalOperator::Project(mut project)) => {
            project.expressions.remove(0).expression
        }
        _ => panic!(),
    };
    let join = LogicalOperator::Join(Join {
        left: Box::new(side("l")),
        right: Box::new(side("r")),
        on,
        join_type,
    });
    planner.validate(join, &session).unwrap()
}

#[test]
fn predicates_fall_into_their_conjuncts_and_join_again() {
    let a = column(0);
    let b = column(1);
    let c = column(2);
    let combined = combine_predicates(vec![a.clone(), b.clone(), c.clone()]);
    assert_eq!(decompose_predicate(combined), vec![a.clone(), b, c]);
    assert_eq!(combine_predicates(vec![a.clone()]), a);
    assert_eq!(combine_predicates(vec![]), Expression::from(true));
    assert_eq!(decompose_predicate(Expression::from(true)), Vec::<Expression>::new());
}

#[test]
fn column_offsets_move_and_stop_at_zero() {
    assert_eq!(move_column_references(column(3), 2), column(5));
    assert_eq!(move_column_references(column(3), -2), column(1));
    assert_eq!(move_column_references(column(3), -5), column(0));
    assert_eq!(move_column_references(Expression::from(7), 4), Expression::from(7));
}

#[test]
fn columns_give_way_to_the_expressions_of_a_projection() {
    let first = Expression::from(10);
    let second = column(4);
    let replacements = vec![&first, &second];
    assert_eq!(inline_expression(column(0), &replacements), Expression::from(10));
    assert_eq!(inline_expression(column(1), &replacements), column(4));
    // A reference past the end of the list stays.
    assert_eq!(inline_expression(column(2), &replacements), column(2));
}

#[test]
fn a_call_over_constants_is_folded_to_its_value() {
    let planner = Planner::new_for_test().unwrap();
    let session = Session::new(1);
    let query = match parse("SELECT 2 * 3 + 1").unwrap() {
        Statement::Query(query) => query,
        _ => panic!(),
    };
    match planner.validate(query, &session).unwrap() {
        LogicalOperator::Project(mut project) => {
            let expression = project.expressions.remove(0).expression;
            assert!(!matches!(expression, Expression::Constant(_, _)));
            assert_eq!(
                fold_expression(expression, &session),
                Expression::Constant(Datum::Integer(7), DataType::Integer)
            );
        }
        other => panic!("{:?}", other),
    }
    // A column does not come to a constant.
    assert_eq!(fold_expression(column(1), &session), column(1));
}

#[test]
fn conditions_of_an_inner_join_go_to_the_side_that_they_need() {
    let join = validated_join("l._col1 > 1 AND r._col1 < 2 AND l._col1 = r._col1", JoinType::Inner);
    match predicate_pushdown(join) {
        LogicalOperator::Join(join) => {
            // What needs both sides stays.
            assert_eq!(decompose_predicate(join.on).len(), 1);
            match *join.left {
                LogicalOperator::Filter(filter) => {
                    assert_eq!(decompose_predicate(filter.predicate).len(), 1)
                }
                other => panic!("{:?}", other),
            }
            match *join.right {
                LogicalOperator::Filter(filter) => {
                    // The offset of the right column is counted from the
                    // start of the right source.
                    match &decompose_predicate(filter.predicate)[0] {
                        Expression::CompiledFunctionCall(call) => {
                            assert_eq!(call.args[0], column(0))
                        }
                        other => panic!("{:?}", other),
                    }
                }
                other => panic!("{:?}", other),
            }
        }
        other => panic!("{:?}", other),
    }
}

#[test]
fn conditions_of_an_outer_join_on_the_left_source_stay() {
    let join = validated_join("l._col1 > 1 AND r._col1 < 2", JoinType::LeftOuter);
    match predicate_pushdown(join) {
        LogicalOperator::Join(join) => {
            assert_eq!(decompose_predicate(join.on).len(), 1);
            assert!(matches!(*join.left, LogicalOperator::TableAlias(_)));
            assert!(matches!(*join.right, LogicalOperator::Filter(_)));
        }
        other => panic!("{:?}", other),
    }
}

#[test]
fn a_join_is_lowered_over_its_lowered_sides() {
    let join = validated_join("l._col1 = r._col1 AND l._col1 > r._col1", JoinType::Inner);
    match build_operator(join).unwrap() {
        PointInTimeOperator::HashJoin(join) => {
            assert_eq!(join.key_len, 1);
            assert_eq!(join.join_type, JoinType::Inner);
            assert_eq!(decompose_predicate(join.non_equi_condition).len(), 1);
            assert!(matches!(*join.left, PointInTimeOperator::Values(_)));
            assert!(matches!(*join.right, PointInTimeOperator::Values(_)));
        }
        other => panic!("{:?}", other),
    }
}

#[test]
fn every_equality_of_two_columns_counts_as_a_key() {
    let join = validated_join(
        "l._col1 = l._col1 AND r._col1 = l._col1 AND l._col1 = 1 AND r._col1 < 2",
        JoinType::LeftOuter,
    );
    match build_operator(join).unwrap() {
        PointInTimeOperator::HashJoin(join) => {
            assert_eq!(join.key_len, 2);
            assert_eq!(join.join_type, JoinType::LeftOuter);
            let rest = decompose_predicate(join.non_equi_condition);
            assert_eq!(rest.len(), 2);
            for part in &rest {
                match part {
                    Expression::CompiledFunctionCall(function) => {
                        assert!(matches!(function.args[1], Expression::Constant(..)));
                    }
                    other => panic!("{:?}", other),
                }
            }
            match (&rest[0], &rest[1]) {
                (
                    Expression::CompiledFunctionCall(first),
                    Expression::CompiledFunctionCall(second),
                ) => {
                    assert_eq!(first.args[0], column(0));
                    assert_eq!(second.args[0], column(1));
                }
                other => panic!("{:?}", other),
            }
        }
        other => panic!("{:?}", other),
    }
}

#[test]
fn a_join_without_a_condition_on_columns_has_no_key() {
    let join = validated_join("l._col1 > r._col1", JoinType::Inner);
    match build_operator(join).unwrap() {
        PointInTimeOperator::HashJoin(join) => {
            assert_eq!(join.key_len, 0);
            assert_eq!(decompose_predicate(join.non_equi_condition).len(), 1);
        }
        other => panic!("{:?}", other),
    }
}

#[test]
fn a_plan_that_is_not_validated_is_not_lowered() {
    let reference = match parse("SELECT 1 FROM nowhere").unwrap() {
        Statement::Query(query) => query,
        _ => panic!(),
    };
    assert!(build_operator(reference).is_err());
}

#[test]
fn reserved_words_in_any_case() {
    assert!(is_reserved(b"select"));
    assert!(is_reserved(b"SeLeCt"));
    assert!(is_reserved(b"DESC"));
    assert!(!is_reserved(b"selected"));
    assert!(!is_reserved(b""));
    assert_eq!(lower_case("AbC_1"), "abc_1");
}
