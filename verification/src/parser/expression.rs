//! Expressions.
//!
//! From the loosest to the tightest: `OR`; `AND`; `NOT`; comparisons, `IS`
//! and `BETWEEN`, which group from the left; `+` and `-`; `*` and `/`; a
//! sign; and at last literals, casts, function calls, column references
//! and expressions in parentheses.

use vstd::prelude::*;
use crate::ast::expr::{Cast, ColumnReference, Expression, FunctionCall, NamedExpression, SortExpression};
use crate::ast::model::{
    lemma_models_of,
    lemma_models_push,
    model,
    models_of,
    named_model,
    sort_model,
    ExpressionModel,
    NamedModel,
    SortModel,
};
use crate::data::{DataType, Datum, Decimal, SortOrder};
use crate::data::datum::into_boxed_bytes;
use crate::data::text::parse_integer;
use crate::parser::atoms::{
    as_clause,
    identifier,
    integer,
    lower_case,
    moved_on,
    number_literal,
    string_literal,
    Cursor,
};
use crate::parser::error::ParserError;
use crate::parser::expression_grammar::{
    call1_model,
    call2_model,
    spec_additive,
    spec_additive_tail,
    spec_and,
    spec_and_tail,
    spec_arguments,
    spec_between_bounds,
    spec_cast,
    spec_column,
    spec_comma_sep,
    spec_comma_tail,
    spec_comparison,
    spec_comparison_operator,
    spec_comparison_step,
    spec_comparison_tail,
    spec_datatype,
    spec_decimal_close,
    spec_decimal_parameters,
    spec_expression,
    spec_is_what,
    spec_multiplicative,
    spec_multiplicative_tail,
    spec_named,
    spec_named_expression,
    spec_negated,
    spec_not,
    spec_number,
    spec_or,
    spec_or_tail,
    spec_parenthesized,
    spec_primary,
    spec_reference,
    spec_sort_expression,
    spec_unary,
    star_model,
};

verus! {

/// What reading an expression gave, with the place that reading came to.
pub open spec fn parsed(r: Result<Expression, ParserError>, pos: usize) -> Option<
    (ExpressionModel, int),
> {
    match r {
        Ok(e) => Some((model(e), pos as int)),
        Err(_) => None,
    }
}

/// What reading a list of expressions gave, with the place that reading
/// came to.
pub open spec fn parsed_list(r: Result<Vec<Expression>, ParserError>, pos: usize) -> Option<
    (Seq<ExpressionModel>, int),
> {
    match r {
        Ok(list) => Some((models_of(list@), pos as int)),
        Err(_) => None,
    }
}

/// What reading a name of a function gave, with the place that reading
/// came to.
pub open spec fn read_name(r: Option<&'static str>, pos: usize) -> Option<(Seq<char>, int)> {
    match r {
        Some(name) => Some((name@, pos as int)),
        None => None,
    }
}

/// A call of a function by its name.
pub fn call(name: &str, args: Vec<Expression>) -> (e: Expression)
    ensures
        e matches Expression::FunctionCall(f) && f.function_name@ == name@ && f.args == args,
        model(e) == ExpressionModel::FunctionCall(name@, models_of(args@)),
{
    Expression::FunctionCall(FunctionCall { function_name: name.to_owned(), args })
}

fn call1(name: &str, a: Expression) -> (e: Expression)
    ensures
        model(e) == call1_model(name@, model(a)),
{
    let mut args: Vec<Expression> = Vec::new();
    args.push(a);
    proof {
        lemma_models_of(args@);
        assert(models_of(args@) =~= seq![model(a)]);
    }
    call(name, args)
}

fn call2(name: &str, a: Expression, b: Expression) -> (e: Expression)
    ensures
        model(e) == call2_model(name@, model(a), model(b)),
{
    let mut args: Vec<Expression> = Vec::new();
    args.push(a);
    args.push(b);
    proof {
        lemma_models_of(args@);
        assert(models_of(args@) =~= seq![model(a), model(b)]);
    }
    call(name, args)
}

/// What reading a type gave, with the place that reading came to.
pub open spec fn read_type(r: Result<DataType, ParserError>, pos: usize) -> Option<(DataType, int)> {
    match r {
        Ok(t) => Some((t, pos as int)),
        Err(_) => None,
    }
}

/// Reads the closing parenthesis of the parameters of a decimal, and
/// gives the type where they are in range.
fn decimal_close(cursor: &mut Cursor, precision: i64, scale: i64) -> (r: Result<
    DataType,
    ParserError,
>)
    requires
        old(cursor).pos <= old(cursor).input@.len(),
    ensures
        moved_on(*old(cursor), *final(cursor)),
        read_type(r, final(cursor).pos) == spec_decimal_close(
            old(cursor).input@,
            old(cursor).pos as int,
            precision,
            scale,
        ),
{
    if !cursor.eat_token(")") {
        return Err(cursor.error(")"));
    }
    if precision < 1 || precision > 28 || scale < 0 || scale > precision {
        return Err(cursor.error("a precision of at most 28 and a scale of at most the precision"));
    }
    Ok(DataType::Decimal(precision as u8, scale as u8))
}

/// Reads what follows the name of the type decimal.
fn decimal_parameters(cursor: &mut Cursor) -> (r: Result<DataType, ParserError>)
    requires
        old(cursor).pos <= old(cursor).input@.len(),
    ensures
        moved_on(*old(cursor), *final(cursor)),
        read_type(r, final(cursor).pos) == spec_decimal_parameters(
            old(cursor).input@,
            old(cursor).pos as int,
        ),
{
    if !cursor.eat_token("(") {
        return Ok(DataType::Decimal(crate::data::DECIMAL_MAX_PRECISION, 0));
    }
    cursor.skip_space();
    let precision = match integer(cursor) {
        Some(p) => p,
        None => {
            return Err(cursor.error("a precision"));
        },
    };
    cursor.skip_space();
    if cursor.eat_token(",") {
        cursor.skip_space();
        let scale = match integer(cursor) {
            Some(s) => s,
            None => {
                return Err(cursor.error("a scale"));
            },
        };
        cursor.skip_space();
        decimal_close(cursor, precision, scale)
    } else {
        decimal_close(cursor, precision, 0)
    }
}

/// Reads the name of a type.
pub fn datatype(cursor: &mut Cursor) -> (r: Result<DataType, ParserError>)
    requires
        old(cursor).pos <= old(cursor).input@.len(),
    ensures
        moved_on(*old(cursor), *final(cursor)),
        read_type(r, final(cursor).pos) == spec_datatype(
            old(cursor).input@,
            old(cursor).pos as int,
        ),
{
    reveal(spec_datatype);
    if cursor.eat_keyword("integer") {
        Ok(DataType::Integer)
    } else if cursor.eat_keyword("int") {
        Ok(DataType::Integer)
    } else if cursor.eat_keyword("bigint") {
        Ok(DataType::BigInt)
    } else if cursor.eat_keyword("boolean") {
        Ok(DataType::Boolean)
    } else if cursor.eat_keyword("bool") {
        Ok(DataType::Boolean)
    } else if cursor.eat_keyword("text") {
        Ok(DataType::Text)
    } else if cursor.eat_keyword("json") {
        Ok(DataType::Json)
    } else if cursor.eat_keyword("date") {
        Ok(DataType::Date)
    } else if cursor.eat_keyword("timestamp") {
        Ok(DataType::Timestamp)
    } else if cursor.eat_keyword("bytea") {
        Ok(DataType::ByteA)
    } else if cursor.eat_keyword("decimal") {
        cursor.skip_space();
        decimal_parameters(cursor)
    } else {
        Err(cursor.error("a type"))
    }
}

/// The constant that the digits of a number stand for: an integer where
/// it fits, else a big integer, else a decimal.
fn number(digits: &[u8], point: bool) -> (r: Option<Expression>)
    ensures
        match r {
            Some(e) => spec_number(digits@, point) == Some(model(e)),
            None => spec_number(digits@, point) is None,
        },
{
    reveal(spec_number);
    if !point {
        match parse_integer(digits, 0, i32::MAX as i64) {
            Some(i) => {
                return Some(Expression::from_i32(i as i32));
            },
            None => {},
        }
        match parse_integer(digits, 0, i64::MAX) {
            Some(i) => {
                return Some(Expression::from_i64(i));
            },
            None => {},
        }
    }
    match Decimal::parse(digits) {
        Some(d) => Some(Expression::from_decimal(d)),
        None => None,
    }
}

/// The negative of a constant number; nothing for any other expression.
fn negated(e: &Expression) -> (r: Option<Expression>)
    ensures
        match r {
            Some(n) => spec_negated(model(*e)) == Some(model(n)),
            None => spec_negated(model(*e)) is None,
        },
{
    reveal(spec_negated);
    match e {
        Expression::Constant(Datum::Integer(i), _) => {
            if *i == i32::MIN {
                None
            } else {
                Some(Expression::from_i32(-*i))
            }
        },
        Expression::Constant(Datum::BigInt(i), _) => {
            if *i == i64::MIN {
                None
            } else if *i == 0x8000_0000 {
                Some(Expression::from_i32(i32::MIN))
            } else {
                Some(Expression::from_i64(-*i))
            }
        },
        Expression::Constant(Datum::Decimal(d), _) => {
            match Decimal::try_new(-d.mantissa(), d.scale()) {
                Some(n) => Some(Expression::from_decimal(n)),
                None => None,
            }
        },
        _ => None,
    }
}

/// Reads expressions with commas between them.
pub fn comma_sep_expressions(cursor: &mut Cursor, depth: u32) -> (r: Result<
    Vec<Expression>,
    ParserError,
>)
    requires
        old(cursor).pos <= old(cursor).input@.len(),
    ensures
        moved_on(*old(cursor), *final(cursor)),
        parsed_list(r, final(cursor).pos) == spec_comma_sep(
            old(cursor).input@,
            old(cursor).pos as int,
            depth as nat,
        ),
        r matches Ok(list) ==> list@.len() >= 1,
    decreases depth, 11int,
{
    let ghost input = cursor.input@;
    let ghost start = cursor.pos as int;
    let mut list: Vec<Expression> = Vec::new();
    match expression(cursor, depth) {
        Ok(e) => {
            proof {
                lemma_models_of(list@);
                lemma_models_push(list@, e);
                assert(models_of(list@.push(e)) =~= seq![model(e)]);
            }
            list.push(e);
        },
        Err(error) => {
            return Err(error);
        },
    }
    let mut go = true;
    while go
        invariant
            moved_on(*old(cursor), *cursor),
            input == old(cursor).input@,
            start == old(cursor).pos,
            list@.len() >= 1,
            spec_comma_sep(input, start, depth as nat) == if go {
                spec_comma_tail(input, cursor.pos as int, models_of(list@), depth as nat)
            } else {
                Some((models_of(list@), cursor.pos as int))
            },
        decreases
                cursor.input@.len() - cursor.pos + if go {
                    1int
                } else {
                    0int
                },
    {
        let before = cursor.pos;
        cursor.skip_space();
        if cursor.eat_token(",") {
            cursor.skip_space();
            match expression(cursor, depth) {
                Ok(e) => {
                    proof {
                        lemma_models_push(list@, e);
                    }
                    list.push(e);
                },
                Err(error) => {
                    return Err(error);
                },
            }
            if cursor.pos <= before {
                go = false;
            }
        } else {
            cursor.pos = before;
            go = false;
        }
    }
    Ok(list)
}

/// Reads an expression.
pub fn expression(cursor: &mut Cursor, depth: u32) -> (r: Result<Expression, ParserError>)
    requires
        old(cursor).pos <= old(cursor).input@.len(),
    ensures
        moved_on(*old(cursor), *final(cursor)),
        parsed(r, final(cursor).pos) == spec_expression(
            old(cursor).input@,
            old(cursor).pos as int,
            depth as nat,
        ),
    decreases depth, 10int,
{
    or_expression(cursor, depth)
}

fn or_expression(cursor: &mut Cursor, depth: u32) -> (r: Result<Expression, ParserError>)
    requires
        old(cursor).pos <= old(cursor).input@.len(),
    ensures
        moved_on(*old(cursor), *final(cursor)),
        parsed(r, final(cursor).pos) == spec_or(
            old(cursor).input@,
            old(cursor).pos as int,
            depth as nat,
        ),
    decreases depth, 9int,
{
    let ghost input = cursor.input@;
    let ghost start = cursor.pos as int;
    let mut left = match and_expression(cursor, depth) {
        Ok(e) => e,
        Err(error) => {
            return Err(error);
        },
    };
    let mut go = true;
    while go
        invariant
            moved_on(*old(cursor), *cursor),
            input == old(cursor).input@,
            start == old(cursor).pos,
            spec_or(input, start, depth as nat) == if go {
                spec_or_tail(input, cursor.pos as int, model(left), depth as nat)
            } else {
                Some((model(left), cursor.pos as int))
            },
        decreases
                cursor.input@.len() - cursor.pos + if go {
                    1int
                } else {
                    0int
                },
    {
        let before = cursor.pos;
        cursor.skip_space();
        if cursor.eat_keyword("or") {
            cursor.skip_space();
            let right = match and_expression(cursor, depth) {
                Ok(e) => e,
                Err(error) => {
                    return Err(error);
                },
            };
            left = call2("or", left, right);
            if cursor.pos <= before {
                go = false;
            }
        } else {
            cursor.pos = before;
            go = false;
        }
    }
    Ok(left)
}

fn and_expression(cursor: &mut Cursor, depth: u32) -> (r: Result<Expression, ParserError>)
    requires
        old(cursor).pos <= old(cursor).input@.len(),
    ensures
        moved_on(*old(cursor), *final(cursor)),
        parsed(r, final(cursor).pos) == spec_and(
            old(cursor).input@,
            old(cursor).pos as int,
            depth as nat,
        ),
    decreases depth, 8int,
{
    let ghost input = cursor.input@;
    let ghost start = cursor.pos as int;
    let mut left = match not_expression(cursor, depth) {
        Ok(e) => e,
        Err(error) => {
            return Err(error);
        },
    };
    let mut go = true;
    while go
        invariant
            moved_on(*old(cursor), *cursor),
            input == old(cursor).input@,
            start == old(cursor).pos,
            spec_and(input, start, depth as nat) == if go {
                spec_and_tail(input, cursor.pos as int, model(left), depth as nat)
            } else {
                Some((model(left), cursor.pos as int))
            },
        decreases
                cursor.input@.len() - cursor.pos + if go {
                    1int
                } else {
                    0int
                },
    {
        let before = cursor.pos;
        cursor.skip_space();
        if cursor.eat_keyword("and") {
            cursor.skip_space();
            let right = match not_expression(cursor, depth) {
                Ok(e) => e,
                Err(error) => {
                    return Err(error);
                },
            };
            left = call2("and", left, right);
            if cursor.pos <= before {
                go = false;
            }
        } else {
            cursor.pos = before;
            go = false;
        }
    }
    Ok(left)
}

fn not_expression(cursor: &mut Cursor, depth: u32) -> (r: Result<Expression, ParserError>)
    requires
        old(cursor).pos <= old(cursor).input@.len(),
    ensures
        moved_on(*old(cursor), *final(cursor)),
        parsed(r, final(cursor).pos) == spec_not(
            old(cursor).input@,
            old(cursor).pos as int,
            depth as nat,
        ),
    decreases depth, 7int,
{
    if cursor.eat_keyword("not") {
        if depth == 0 {
            return Err(cursor.error("an expression that is nested less deeply"));
        }
        cursor.skip_space();
        match not_expression(cursor, (depth - 1) as u32) {
            Ok(e) => Ok(call1("not", e)),
            Err(error) => Err(error),
        }
    } else {
        comparison(cursor, depth)
    }
}

/// Reads what follows `IS`: the name of the function that it stands for.
fn is_what(cursor: &mut Cursor) -> (r: Option<&'static str>)
    requires
        old(cursor).pos <= old(cursor).input@.len(),
    ensures
        moved_on(*old(cursor), *final(cursor)),
        read_name(r, final(cursor).pos) == spec_is_what(old(cursor).input@, old(cursor).pos as int),
{
    reveal(spec_is_what);
    cursor.skip_space();
    if cursor.eat_keyword("not") {
        cursor.skip_space();
        if cursor.eat_keyword("true") {
            Some("isnottrue")
        } else if cursor.eat_keyword("false") {
            Some("isnotfalse")
        } else if cursor.eat_keyword("null") {
            Some("isnotnull")
        } else {
            None
        }
    } else if cursor.eat_keyword("true") {
        Some("istrue")
    } else if cursor.eat_keyword("false") {
        Some("isfalse")
    } else if cursor.eat_keyword("null") {
        Some("isnull")
    } else {
        None
    }
}

/// Reads a comparison operator: the name of its function.
fn comparison_operator(cursor: &mut Cursor) -> (r: Option<&'static str>)
    requires
        old(cursor).pos <= old(cursor).input@.len(),
    ensures
        moved_on(*old(cursor), *final(cursor)),
        read_name(r, final(cursor).pos) == spec_comparison_operator(
            old(cursor).input@,
            old(cursor).pos as int,
        ),
        r is None ==> final(cursor).pos == old(cursor).pos,
{
    reveal(spec_comparison_operator);
    if cursor.eat_token("!=") {
        Some("!=")
    } else if cursor.eat_token("<>") {
        Some("!=")
    } else if cursor.eat_token("<=") {
        Some("<=")
    } else if cursor.eat_token(">=") {
        Some(">=")
    } else if cursor.eat_token("=") {
        Some("=")
    } else if cursor.eat_token("<") {
        Some("<")
    } else if cursor.eat_token(">") {
        Some(">")
    } else {
        None
    }
}

/// Reads what follows `BETWEEN`: the two bounds with `AND` between them.
fn between_bounds(cursor: &mut Cursor, depth: u32) -> (r: Result<(Expression, Expression), ParserError>)
    requires
        old(cursor).pos <= old(cursor).input@.len(),
    ensures
        moved_on(*old(cursor), *final(cursor)),
        match r {
            Ok((low, high)) => spec_between_bounds(
                old(cursor).input@,
                old(cursor).pos as int,
                depth as nat,
            ) == Some((model(low), model(high), final(cursor).pos as int)),
            Err(_) => spec_between_bounds(old(cursor).input@, old(cursor).pos as int, depth as nat)
                is None,
        },
    decreases depth, 5int, 1int,
{
    cursor.skip_space();
    let low = match additive(cursor, depth) {
        Ok(e) => e,
        Err(error) => {
            return Err(error);
        },
    };
    cursor.skip_space();
    if !cursor.eat_keyword("and") {
        return Err(cursor.error("AND"));
    }
    cursor.skip_space();
    let high = match additive(cursor, depth) {
        Ok(e) => e,
        Err(error) => {
            return Err(error);
        },
    };
    Ok((low, high))
}

/// Reads one more comparison after what was read, if there is one.
fn comparison_step(cursor: &mut Cursor, left: Expression, depth: u32) -> (r: Result<
    Expression,
    ParserError,
>)
    requires
        old(cursor).pos <= old(cursor).input@.len(),
    ensures
        moved_on(*old(cursor), *final(cursor)),
        parsed(r, final(cursor).pos) == spec_comparison_step(
            old(cursor).input@,
            old(cursor).pos as int,
            model(left),
            depth as nat,
        ),
    decreases depth, 5int, 2int,
{
    let before = cursor.pos;
    cursor.skip_space();
    if cursor.eat_keyword("is") {
        match is_what(cursor) {
            Some(name) => Ok(call1(name, left)),
            None => Err(cursor.error("TRUE, FALSE or NULL")),
        }
    } else if cursor.eat_keyword("between") {
        let (low, high) = match between_bounds(cursor, depth) {
            Ok(bounds) => bounds,
            Err(error) => {
                return Err(error);
            },
        };
        let ghost left_model = model(left);
        let mut args: Vec<Expression> = Vec::new();
        args.push(left);
        args.push(low);
        args.push(high);
        proof {
            lemma_models_of(args@);
            assert(models_of(args@) =~= seq![left_model, model(low), model(high)]);
        }
        Ok(call("between", args))
    } else {
        match comparison_operator(cursor) {
            Some(name) => {
                cursor.skip_space();
                match additive(cursor, depth) {
                    Ok(right) => Ok(call2(name, left, right)),
                    Err(error) => Err(error),
                }
            },
            None => {
                cursor.pos = before;
                Ok(left)
            },
        }
    }
}

fn comparison(cursor: &mut Cursor, depth: u32) -> (r: Result<Expression, ParserError>)
    requires
        old(cursor).pos <= old(cursor).input@.len(),
    ensures
        moved_on(*old(cursor), *final(cursor)),
        parsed(r, final(cursor).pos) == spec_comparison(
            old(cursor).input@,
            old(cursor).pos as int,
            depth as nat,
        ),
    decreases depth, 6int,
{
    let ghost input = cursor.input@;
    let ghost start = cursor.pos as int;
    let mut left = match additive(cursor, depth) {
        Ok(e) => e,
        Err(error) => {
            return Err(error);
        },
    };
    let mut go = true;
    while go
        invariant
            moved_on(*old(cursor), *cursor),
            input == old(cursor).input@,
            start == old(cursor).pos,
            spec_comparison(input, start, depth as nat) == if go {
                spec_comparison_tail(input, cursor.pos as int, model(left), depth as nat)
            } else {
                Some((model(left), cursor.pos as int))
            },
        decreases
                cursor.input@.len() - cursor.pos + if go {
                    1int
                } else {
                    0int
                },
    {
        let before = cursor.pos;
        left = match comparison_step(cursor, left, depth) {
            Ok(next) => next,
            Err(error) => {
                return Err(error);
            },
        };
        if cursor.pos <= before {
            go = false;
        }
    }
    Ok(left)
}

fn additive(cursor: &mut Cursor, depth: u32) -> (r: Result<Expression, ParserError>)
    requires
        old(cursor).pos <= old(cursor).input@.len(),
    ensures
        moved_on(*old(cursor), *final(cursor)),
        parsed(r, final(cursor).pos) == spec_additive(
            old(cursor).input@,
            old(cursor).pos as int,
            depth as nat,
        ),
    decreases depth, 5int, 0int,
{
    let ghost input = cursor.input@;
    let ghost start = cursor.pos as int;
    let mut left = match multiplicative(cursor, depth) {
        Ok(e) => e,
        Err(error) => {
            return Err(error);
        },
    };
    let mut go = true;
    while go
        invariant
            moved_on(*old(cursor), *cursor),
            input == old(cursor).input@,
            start == old(cursor).pos,
            spec_additive(input, start, depth as nat) == if go {
                spec_additive_tail(input, cursor.pos as int, model(left), depth as nat)
            } else {
                Some((model(left), cursor.pos as int))
            },
        decreases
                cursor.input@.len() - cursor.pos + if go {
                    1int
                } else {
                    0int
                },
    {
        let before = cursor.pos;
        cursor.skip_space();
        let name = if cursor.eat_token("+") {
            Some("+")
        } else if cursor.eat_token("-") {
            Some("-")
        } else {
            None
        };
        match name {
            Some(name) => {
                cursor.skip_space();
                let right = match multiplicative(cursor, depth) {
                    Ok(e) => e,
                    Err(error) => {
                        return Err(error);
                    },
                };
                left = call2(name, left, right);
                if cursor.pos <= before {
                    go = false;
                }
            },
            None => {
                cursor.pos = before;
                go = false;
            },
        }
    }
    Ok(left)
}

fn multiplicative(cursor: &mut Cursor, depth: u32) -> (r: Result<Expression, ParserError>)
    requires
        old(cursor).pos <= old(cursor).input@.len(),
    ensures
        moved_on(*old(cursor), *final(cursor)),
        parsed(r, final(cursor).pos) == spec_multiplicative(
            old(cursor).input@,
            old(cursor).pos as int,
            depth as nat,
        ),
    decreases depth, 4int,
{
    let ghost input = cursor.input@;
    let ghost start = cursor.pos as int;
    let mut left = match unary(cursor, depth) {
        Ok(e) => e,
        Err(error) => {
            return Err(error);
        },
    };
    let mut go = true;
    while go
        invariant
            moved_on(*old(cursor), *cursor),
            input == old(cursor).input@,
            start == old(cursor).pos,
            spec_multiplicative(input, start, depth as nat) == if go {
                spec_multiplicative_tail(input, cursor.pos as int, model(left), depth as nat)
            } else {
                Some((model(left), cursor.pos as int))
            },
        decreases
                cursor.input@.len() - cursor.pos + if go {
                    1int
                } else {
                    0int
                },
    {
        let before = cursor.pos;
        cursor.skip_space();
        let name = if cursor.eat_token("*") {
            Some("*")
        } else if cursor.eat_token("/") {
            Some("/")
        } else {
            None
        };
        match name {
            Some(name) => {
                cursor.skip_space();
                let right = match unary(cursor, depth) {
                    Ok(e) => e,
                    Err(error) => {
                        return Err(error);
                    },
                };
                left = call2(name, left, right);
                if cursor.pos <= before {
                    go = false;
                }
            },
            None => {
                cursor.pos = before;
                go = false;
            },
        }
    }
    Ok(left)
}

fn unary(cursor: &mut Cursor, depth: u32) -> (r: Result<Expression, ParserError>)
    requires
        old(cursor).pos <= old(cursor).input@.len(),
    ensures
        moved_on(*old(cursor), *final(cursor)),
        parsed(r, final(cursor).pos) == spec_unary(
            old(cursor).input@,
            old(cursor).pos as int,
            depth as nat,
        ),
    decreases depth, 3int,
{
    if cursor.eat_token("-") {
        if depth == 0 {
            return Err(cursor.error("an expression that is nested less deeply"));
        }
        cursor.skip_space();
        match unary(cursor, (depth - 1) as u32) {
            Ok(e) => match negated(&e) {
                Some(n) => Ok(n),
                None => Ok(call1("-", e)),
            },
            Err(error) => Err(error),
        }
    } else {
        primary(cursor, depth)
    }
}

/// A reference to every column, under a qualifier or under none.
fn star(qualifier: Option<String>) -> (e: Expression)
    ensures
        e matches Expression::ColumnReference(c) && c.star,
        model(e) == star_model(crate::ast::model::text_model(qualifier)),
{
    Expression::ColumnReference(ColumnReference { qualifier, alias: "*".to_owned(), star: true })
}

/// Reads an expression in parentheses, after the opening one.
fn parenthesized(cursor: &mut Cursor, depth: u32) -> (r: Result<Expression, ParserError>)
    requires
        old(cursor).pos <= old(cursor).input@.len(),
    ensures
        moved_on(*old(cursor), *final(cursor)),
        parsed(r, final(cursor).pos) == spec_parenthesized(
            old(cursor).input@,
            old(cursor).pos as int,
            depth as nat,
        ),
    decreases depth, 1int,
{
    if depth == 0 {
        return Err(cursor.error("an expression that is nested less deeply"));
    }
    cursor.skip_space();
    let inner = match expression(cursor, (depth - 1) as u32) {
        Ok(e) => e,
        Err(error) => {
            return Err(error);
        },
    };
    cursor.skip_space();
    if !cursor.eat_token(")") {
        return Err(cursor.error(")"));
    }
    Ok(inner)
}

/// Reads a cast, after its keyword.
fn cast(cursor: &mut Cursor, depth: u32) -> (r: Result<Expression, ParserError>)
    requires
        old(cursor).pos <= old(cursor).input@.len(),
    ensures
        moved_on(*old(cursor), *final(cursor)),
        parsed(r, final(cursor).pos) == spec_cast(
            old(cursor).input@,
            old(cursor).pos as int,
            depth as nat,
        ),
    decreases depth, 1int,
{
    if depth == 0 {
        return Err(cursor.error("an expression that is nested less deeply"));
    }
    cursor.skip_space();
    if !cursor.eat_token("(") {
        return Err(cursor.error("("));
    }
    cursor.skip_space();
    let inner = match expression(cursor, (depth - 1) as u32) {
        Ok(e) => e,
        Err(error) => {
            return Err(error);
        },
    };
    cursor.skip_space();
    if !cursor.eat_keyword("as") {
        return Err(cursor.error("AS"));
    }
    cursor.skip_space();
    let target = match datatype(cursor) {
        Ok(t) => t,
        Err(error) => {
            return Err(error);
        },
    };
    cursor.skip_space();
    if !cursor.eat_token(")") {
        return Err(cursor.error(")"));
    }
    Ok(Expression::Cast(Cast { expr: Box::new(inner), datatype: target }))
}

/// Reads the arguments of a call, after its opening parenthesis.
fn arguments(cursor: &mut Cursor, name: String, depth: u32) -> (r: Result<Expression, ParserError>)
    requires
        old(cursor).pos <= old(cursor).input@.len(),
    ensures
        moved_on(*old(cursor), *final(cursor)),
        parsed(r, final(cursor).pos) == spec_arguments(
            old(cursor).input@,
            old(cursor).pos as int,
            name@,
            depth as nat,
        ),
    decreases depth, 1int, 0int,
{
    if depth == 0 {
        return Err(cursor.error("an expression that is nested less deeply"));
    }
    let mut args: Vec<Expression> = Vec::new();
    proof {
        lemma_models_of(args@);
        assert(models_of(args@) =~= Seq::<ExpressionModel>::empty());
    }
    if cursor.eat_token("*") {
        // count(*) counts rows: it takes no argument.
        cursor.skip_space();
    } else if !cursor.peek_token(")") {
        args = match comma_sep_expressions(cursor, (depth - 1) as u32) {
            Ok(args) => args,
            Err(error) => {
                return Err(error);
            },
        };
        cursor.skip_space();
    }
    if !cursor.eat_token(")") {
        return Err(cursor.error(")"));
    }
    let lowered = lower_case(name.as_str());
    Ok(call(lowered.as_str(), args))
}

/// Reads what begins with a name.
fn reference(cursor: &mut Cursor, depth: u32) -> (r: Result<Expression, ParserError>)
    requires
        old(cursor).pos <= old(cursor).input@.len(),
    ensures
        moved_on(*old(cursor), *final(cursor)),
        parsed(r, final(cursor).pos) == spec_reference(
            old(cursor).input@,
            old(cursor).pos as int,
            depth as nat,
        ),
    decreases depth, 1int, 2int,
{
    match identifier(cursor) {
        Some(name) => named(cursor, name, depth),
        None => Err(cursor.error("an expression")),
    }
}

/// Reads what follows a name.
fn named(cursor: &mut Cursor, name: String, depth: u32) -> (r: Result<Expression, ParserError>)
    requires
        old(cursor).pos <= old(cursor).input@.len(),
    ensures
        moved_on(*old(cursor), *final(cursor)),
        parsed(r, final(cursor).pos) == spec_named(
            old(cursor).input@,
            old(cursor).pos as int,
            name@,
            depth as nat,
        ),
    decreases depth, 1int, 1int,
{
    let after_name = cursor.pos;
    cursor.skip_space();
    if cursor.eat_token("(") {
        if depth == 0 {
            return Err(cursor.error("an expression that is nested less deeply"));
        }
        cursor.skip_space();
        arguments(cursor, name, depth)
    } else {
        cursor.pos = after_name;
        column(cursor, name)
    }
}

/// Reads what follows the name of a column.
fn column(cursor: &mut Cursor, name: String) -> (r: Result<Expression, ParserError>)
    requires
        old(cursor).pos <= old(cursor).input@.len(),
    ensures
        moved_on(*old(cursor), *final(cursor)),
        parsed(r, final(cursor).pos) == spec_column(
            old(cursor).input@,
            old(cursor).pos as int,
            name@,
        ),
{
    if cursor.eat_token(".") {
        if cursor.eat_token("*") {
            return Ok(star(Some(name)));
        }
        return match identifier(cursor) {
            Some(column) => Ok(
                Expression::ColumnReference(
                    ColumnReference { qualifier: Some(name), alias: column, star: false },
                ),
            ),
            None => Err(cursor.error("a column")),
        };
    }
    Ok(Expression::ColumnReference(ColumnReference { qualifier: None, alias: name, star: false }))
}

fn primary(cursor: &mut Cursor, depth: u32) -> (r: Result<Expression, ParserError>)
    requires
        old(cursor).pos <= old(cursor).input@.len(),
    ensures
        moved_on(*old(cursor), *final(cursor)),
        parsed(r, final(cursor).pos) == spec_primary(
            old(cursor).input@,
            old(cursor).pos as int,
            depth as nat,
        ),
    decreases depth, 2int,
{
    if cursor.eat_token("(") {
        return parenthesized(cursor, depth);
    }
    match number_literal(cursor) {
        Some((digits, point)) => {
            return match number(digits, point) {
                Some(e) => Ok(e),
                None => Err(cursor.error("a number that can be held")),
            };
        },
        None => {},
    }
    match string_literal(cursor) {
        Some(text) => {
            return Ok(
                Expression::Constant(Datum::ByteAOwned(into_boxed_bytes(text)), DataType::Text),
            );
        },
        None => {},
    }
    if cursor.eat_keyword("true") {
        return Ok(Expression::from_bool(true));
    }
    if cursor.eat_keyword("false") {
        return Ok(Expression::from_bool(false));
    }
    if cursor.eat_keyword("null") {
        return Ok(Expression::Constant(Datum::Null, DataType::Null));
    }
    if cursor.eat_keyword("cast") {
        return cast(cursor, depth);
    }
    if cursor.eat_token("*") {
        return Ok(star(None));
    }
    reference(cursor, depth)
}

/// What reading a named expression gave, with the place that reading
/// came to.
pub open spec fn parsed_named(r: Result<NamedExpression, ParserError>, pos: usize) -> Option<
    (NamedModel, int),
> {
    match r {
        Ok(named) => Some((named_model(named), pos as int)),
        Err(_) => None,
    }
}

/// What reading a sort expression gave, with the place that reading came
/// to.
pub open spec fn parsed_sort(r: Result<SortExpression, ParserError>, pos: usize) -> Option<
    (SortModel, int),
> {
    match r {
        Ok(sort) => Some((sort_model(sort), pos as int)),
        Err(_) => None,
    }
}

/// Reads an expression with a name after it or without.
pub fn named_expression(cursor: &mut Cursor, depth: u32) -> (r: Result<
    NamedExpression,
    ParserError,
>)
    requires
        old(cursor).pos <= old(cursor).input@.len(),
    ensures
        moved_on(*old(cursor), *final(cursor)),
        parsed_named(r, final(cursor).pos) == spec_named_expression(
            old(cursor).input@,
            old(cursor).pos as int,
            depth as nat,
        ),
{
    match expression(cursor, depth) {
        Ok(e) => {
            let alias = as_clause(cursor);
            Ok(NamedExpression { alias, expression: e })
        },
        Err(error) => Err(error),
    }
}

/// Reads an expression with `ASC` or `DESC` after it or without.
pub fn sort_expression(cursor: &mut Cursor, depth: u32) -> (r: Result<SortExpression, ParserError>)
    requires
        old(cursor).pos <= old(cursor).input@.len(),
    ensures
        moved_on(*old(cursor), *final(cursor)),
        parsed_sort(r, final(cursor).pos) == spec_sort_expression(
            old(cursor).input@,
            old(cursor).pos as int,
            depth as nat,
        ),
{
    match expression(cursor, depth) {
        Ok(e) => {
            let before = cursor.pos;
            cursor.skip_space();
            let ordering = if cursor.eat_keyword("desc") {
                SortOrder::Desc
            } else if cursor.eat_keyword("asc") {
                SortOrder::Asc
            } else {
                cursor.pos = before;
                SortOrder::Asc
            };
            Ok(SortExpression { ordering, expression: e })
        },
        Err(error) => Err(error),
    }
}

} // verus!
