//! The grammar of expressions: what is read at a place of a text, as the
//! model of an expression, and where it ends.
//!
//! From the loosest to the tightest: `OR`; `AND`; `NOT`; comparisons, `IS`
//! and `BETWEEN`, which group from the left; `+` and `-`; `*` and `/`; a
//! sign; and at last literals, casts, function calls, column references
//! and expressions in parentheses. `depth` is how deep what is read may
//! still be nested.

use vstd::prelude::*;
use vstd::string::StringSliceAdditionalSpecFns;
use crate::ast::expr::decimal_constant_type;
use crate::ast::model::{ExpressionModel, NamedModel, SortModel};
use crate::data::{DataType, Decimal, SortOrder, Value};
use crate::data::decimal::MAX_MAGNITUDE;
use crate::data::text::bounded_integer_value;
use crate::parser::atoms::{keyword_at, lowered_bytes, token_at};
use crate::parser::grammar::{
    after_space,
    spec_as_clause,
    spec_identifier,
    spec_integer,
    spec_number_literal,
    spec_string_literal,
};

verus! {

/// The place after a token, where the token stands at the place.
pub open spec fn token_end(input: Seq<u8>, pos: int, token: Seq<u8>) -> Option<int> {
    if token_at(input, pos, token) {
        Some(pos + token.len())
    } else {
        None
    }
}

/// The place after a keyword, where the keyword stands at the place.
pub open spec fn keyword_end(input: Seq<u8>, pos: int, word: Seq<u8>) -> Option<int> {
    if keyword_at(input, pos, word) {
        Some(pos + word.len())
    } else {
        None
    }
}

/// The name of a type at a place, and the place after it.
#[verifier::opaque]
pub open spec fn spec_datatype(input: Seq<u8>, pos: int) -> Option<(DataType, int)> {
    if keyword_at(input, pos, "integer".spec_bytes()) {
        Some((DataType::Integer, pos + "integer".spec_bytes().len()))
    } else if keyword_at(input, pos, "int".spec_bytes()) {
        Some((DataType::Integer, pos + "int".spec_bytes().len()))
    } else if keyword_at(input, pos, "bigint".spec_bytes()) {
        Some((DataType::BigInt, pos + "bigint".spec_bytes().len()))
    } else if keyword_at(input, pos, "boolean".spec_bytes()) {
        Some((DataType::Boolean, pos + "boolean".spec_bytes().len()))
    } else if keyword_at(input, pos, "bool".spec_bytes()) {
        Some((DataType::Boolean, pos + "bool".spec_bytes().len()))
    } else if keyword_at(input, pos, "text".spec_bytes()) {
        Some((DataType::Text, pos + "text".spec_bytes().len()))
    } else if keyword_at(input, pos, "json".spec_bytes()) {
        Some((DataType::Json, pos + "json".spec_bytes().len()))
    } else if keyword_at(input, pos, "date".spec_bytes()) {
        Some((DataType::Date, pos + "date".spec_bytes().len()))
    } else if keyword_at(input, pos, "timestamp".spec_bytes()) {
        Some((DataType::Timestamp, pos + "timestamp".spec_bytes().len()))
    } else if keyword_at(input, pos, "bytea".spec_bytes()) {
        Some((DataType::ByteA, pos + "bytea".spec_bytes().len()))
    } else if keyword_at(input, pos, "decimal".spec_bytes()) {
        spec_decimal_parameters(
            input,
            after_space(input, pos + "decimal".spec_bytes().len()),
        )
    } else {
        None
    }
}

/// The type of a decimal from what follows its name: nothing, which
/// gives the widest decimal without digits after the point, or a
/// precision of 1 to 28 and a scale of at most the precision, in
/// parentheses.
pub open spec fn spec_decimal_parameters(input: Seq<u8>, pos: int) -> Option<(DataType, int)> {
    match token_end(input, pos, "(".spec_bytes()) {
        None => Some((DataType::Decimal(crate::data::DECIMAL_MAX_PRECISION, 0), pos)),
        Some(open) => match spec_integer(input, after_space(input, open)) {
            None => None,
            Some((precision, after_precision)) => {
                let next = after_space(input, after_precision);
                match token_end(input, next, ",".spec_bytes()) {
                    Some(comma) => match spec_integer(input, after_space(input, comma)) {
                        None => None,
                        Some((scale, after_scale)) => spec_decimal_close(
                            input,
                            after_space(input, after_scale),
                            precision,
                            scale,
                        ),
                    },
                    None => spec_decimal_close(input, next, precision, 0),
                }
            },
        },
    }
}

/// The type of a decimal of a precision and a scale, where the closing
/// parenthesis stands at the place and the two are in range.
pub open spec fn spec_decimal_close(input: Seq<u8>, pos: int, precision: i64, scale: i64) -> Option<
    (DataType, int),
> {
    match token_end(input, pos, ")".spec_bytes()) {
        None => None,
        Some(end) => if precision < 1 || precision > 28 || scale < 0 || scale > precision {
            None
        } else {
            Some((DataType::Decimal(precision as u8, scale as u8), end))
        },
    }
}

/// The constant that the digits of a number stand for: an integer where
/// it fits, else a big integer, else a decimal.
#[verifier::opaque]
pub open spec fn spec_number(digits: Seq<u8>, point: bool) -> Option<ExpressionModel> {
    if !point && bounded_integer_value(digits, 0, i32::MAX as int) is Some {
        Some(
            ExpressionModel::Constant(
                Value::Integer(bounded_integer_value(digits, 0, i32::MAX as int)->Some_0 as i32),
                DataType::Integer,
            ),
        )
    } else if !point && bounded_integer_value(digits, 0, i64::MAX as int) is Some {
        Some(
            ExpressionModel::Constant(
                Value::BigInt(bounded_integer_value(digits, 0, i64::MAX as int)->Some_0 as i64),
                DataType::BigInt,
            ),
        )
    } else {
        match Decimal::spec_parse(digits) {
            Some((mantissa, scale)) => Some(
                ExpressionModel::Constant(
                    Value::Decimal(mantissa, scale),
                    decimal_constant_type(mantissa, scale),
                ),
            ),
            None => None,
        }
    }
}

/// The negative of a constant number; nothing for any other expression,
/// and for a number whose negative cannot be held.
#[verifier::opaque]
pub open spec fn spec_negated(e: ExpressionModel) -> Option<ExpressionModel> {
    match e {
        ExpressionModel::Constant(Value::Integer(i), _) => if i == i32::MIN {
            None
        } else {
            Some(ExpressionModel::Constant(Value::Integer((-i) as i32), DataType::Integer))
        },
        ExpressionModel::Constant(Value::BigInt(i), _) => if i == i64::MIN {
            None
        } else if i == 0x8000_0000 {
            Some(ExpressionModel::Constant(Value::Integer(i32::MIN), DataType::Integer))
        } else {
            Some(ExpressionModel::Constant(Value::BigInt((-i) as i64), DataType::BigInt))
        },
        ExpressionModel::Constant(Value::Decimal(mantissa, scale), _) => if -(MAX_MAGNITUDE as int)
            <= -mantissa <= MAX_MAGNITUDE as int && scale <= 28 {
            Some(
                ExpressionModel::Constant(
                    Value::Decimal(-mantissa, scale),
                    decimal_constant_type(-mantissa, scale),
                ),
            )
        } else {
            None
        },
        _ => None,
    }
}

/// A call of a function of one argument.
pub open spec fn call1_model(name: Seq<char>, a: ExpressionModel) -> ExpressionModel {
    ExpressionModel::FunctionCall(name, seq![a])
}

/// A call of a function of two arguments.
pub open spec fn call2_model(
    name: Seq<char>,
    a: ExpressionModel,
    b: ExpressionModel,
) -> ExpressionModel {
    ExpressionModel::FunctionCall(name, seq![a, b])
}

/// What follows `IS`, after white space: the name of the function that
/// it stands for, and the place after it.
#[verifier::opaque]
pub open spec fn spec_is_what(input: Seq<u8>, pos: int) -> Option<(Seq<char>, int)> {
    let start = after_space(input, pos);
    match keyword_end(input, start, "not".spec_bytes()) {
        Some(after_not) => {
            let what = after_space(input, after_not);
            if keyword_at(input, what, "true".spec_bytes()) {
                Some(("isnottrue"@, what + "true".spec_bytes().len()))
            } else if keyword_at(input, what, "false".spec_bytes()) {
                Some(("isnotfalse"@, what + "false".spec_bytes().len()))
            } else if keyword_at(input, what, "null".spec_bytes()) {
                Some(("isnotnull"@, what + "null".spec_bytes().len()))
            } else {
                None
            }
        },
        None => if keyword_at(input, start, "true".spec_bytes()) {
            Some(("istrue"@, start + "true".spec_bytes().len()))
        } else if keyword_at(input, start, "false".spec_bytes()) {
            Some(("isfalse"@, start + "false".spec_bytes().len()))
        } else if keyword_at(input, start, "null".spec_bytes()) {
            Some(("isnull"@, start + "null".spec_bytes().len()))
        } else {
            None
        },
    }
}

/// The comparison operator at a place: the name of its function, and the
/// place after it.
#[verifier::opaque]
pub open spec fn spec_comparison_operator(input: Seq<u8>, pos: int) -> Option<(Seq<char>, int)> {
    if token_at(input, pos, "!=".spec_bytes()) {
        Some(("!="@, pos + "!=".spec_bytes().len()))
    } else if token_at(input, pos, "<>".spec_bytes()) {
        Some(("!="@, pos + "<>".spec_bytes().len()))
    } else if token_at(input, pos, "<=".spec_bytes()) {
        Some(("<="@, pos + "<=".spec_bytes().len()))
    } else if token_at(input, pos, ">=".spec_bytes()) {
        Some((">="@, pos + ">=".spec_bytes().len()))
    } else if token_at(input, pos, "=".spec_bytes()) {
        Some(("="@, pos + "=".spec_bytes().len()))
    } else if token_at(input, pos, "<".spec_bytes()) {
        Some(("<"@, pos + "<".spec_bytes().len()))
    } else if token_at(input, pos, ">".spec_bytes()) {
        Some((">"@, pos + ">".spec_bytes().len()))
    } else {
        None
    }
}

/// The name of a function as a call writes it: in lower case.
pub open spec fn spec_lower_case(name: Seq<char>) -> Seq<char> {
    let lowered = lowered_bytes(vstd::utf8::encode_utf8(name));
    if vstd::utf8::valid_utf8(lowered) {
        vstd::utf8::decode_utf8(lowered)
    } else {
        name
    }
}

/// A reference to every column, under a qualifier or under none.
pub open spec fn star_model(qualifier: Option<Seq<char>>) -> ExpressionModel {
    ExpressionModel::ColumnReference(qualifier, "*"@, true)
}

/// Expressions with commas between them, at a place.
pub open spec fn spec_comma_sep(input: Seq<u8>, pos: int, depth: nat) -> Option<
    (Seq<ExpressionModel>, int),
>
    decreases depth, 21int, 0int,
{
    match spec_or(input, pos, depth) {
        None => None,
        Some((first, end)) => spec_comma_tail(input, end, seq![first], depth),
    }
}

/// More expressions, each after a comma, after those that were read.
pub open spec fn spec_comma_tail(
    input: Seq<u8>,
    pos: int,
    list: Seq<ExpressionModel>,
    depth: nat,
) -> Option<(Seq<ExpressionModel>, int)>
    decreases depth, 20int, input.len() - pos,
{
    match token_end(input, after_space(input, pos), ",".spec_bytes()) {
        None => Some((list, pos)),
        Some(comma) => match spec_or(input, after_space(input, comma), depth) {
            None => None,
            Some((next, end)) => if pos < end <= input.len() {
                spec_comma_tail(input, end, list.push(next), depth)
            } else {
                Some((list.push(next), end))
            },
        },
    }
}

/// An expression at a place.
pub open spec fn spec_expression(input: Seq<u8>, pos: int, depth: nat) -> Option<
    (ExpressionModel, int),
> {
    spec_or(input, pos, depth)
}

/// Operands of `OR`, which groups from the left.
pub open spec fn spec_or(input: Seq<u8>, pos: int, depth: nat) -> Option<(ExpressionModel, int)>
    decreases depth, 19int, 0int,
{
    match spec_and(input, pos, depth) {
        None => None,
        Some((left, end)) => spec_or_tail(input, end, left, depth),
    }
}

/// More operands of `OR` after what was read.
pub open spec fn spec_or_tail(input: Seq<u8>, pos: int, left: ExpressionModel, depth: nat) -> Option<
    (ExpressionModel, int),
>
    decreases depth, 18int, input.len() - pos,
{
    match keyword_end(input, after_space(input, pos), "or".spec_bytes()) {
        None => Some((left, pos)),
        Some(after) => match spec_and(input, after_space(input, after), depth) {
            None => None,
            Some((right, end)) => if pos < end <= input.len() {
                spec_or_tail(input, end, call2_model("or"@, left, right), depth)
            } else {
                Some((call2_model("or"@, left, right), end))
            },
        },
    }
}

/// Operands of `AND`, which groups from the left.
pub open spec fn spec_and(input: Seq<u8>, pos: int, depth: nat) -> Option<(ExpressionModel, int)>
    decreases depth, 17int, 0int,
{
    match spec_not(input, pos, depth) {
        None => None,
        Some((left, end)) => spec_and_tail(input, end, left, depth),
    }
}

/// More operands of `AND` after what was read.
pub open spec fn spec_and_tail(
    input: Seq<u8>,
    pos: int,
    left: ExpressionModel,
    depth: nat,
) -> Option<(ExpressionModel, int)>
    decreases depth, 16int, input.len() - pos,
{
    match keyword_end(input, after_space(input, pos), "and".spec_bytes()) {
        None => Some((left, pos)),
        Some(after) => match spec_not(input, after_space(input, after), depth) {
            None => None,
            Some((right, end)) => if pos < end <= input.len() {
                spec_and_tail(input, end, call2_model("and"@, left, right), depth)
            } else {
                Some((call2_model("and"@, left, right), end))
            },
        },
    }
}

/// `NOT` before a comparison, as often as it is written.
pub open spec fn spec_not(input: Seq<u8>, pos: int, depth: nat) -> Option<(ExpressionModel, int)>
    decreases depth, 15int, 1int,
{
    match keyword_end(input, pos, "not".spec_bytes()) {
        Some(after) => if depth == 0 {
            None
        } else {
            match spec_not(input, after_space(input, after), (depth - 1) as nat) {
                Some((e, end)) => Some((call1_model("not"@, e), end)),
                None => None,
            }
        },
        None => spec_comparison(input, pos, depth),
    }
}

/// Comparisons, `IS` and `BETWEEN`, which group from the left.
pub open spec fn spec_comparison(input: Seq<u8>, pos: int, depth: nat) -> Option<
    (ExpressionModel, int),
>
    decreases depth, 15int, 0int,
{
    match spec_additive(input, pos, depth) {
        None => None,
        Some((left, end)) => spec_comparison_tail(input, end, left, depth),
    }
}

/// One more comparison after what was read: the comparison and the place
/// after it; what was read and the place itself where no operator
/// follows.
pub open spec fn spec_comparison_step(
    input: Seq<u8>,
    pos: int,
    left: ExpressionModel,
    depth: nat,
) -> Option<(ExpressionModel, int)>
    decreases depth, 13int, 0int,
{
    let start = after_space(input, pos);
    if keyword_at(input, start, "is".spec_bytes()) {
        match spec_is_what(input, start + "is".spec_bytes().len()) {
            Some((name, end)) => Some((call1_model(name, left), end)),
            None => None,
        }
    } else if keyword_at(input, start, "between".spec_bytes()) {
        match spec_between_bounds(input, start + "between".spec_bytes().len(), depth) {
            None => None,
            Some((low, high, end)) => Some(
                (ExpressionModel::FunctionCall("between"@, seq![left, low, high]), end),
            ),
        }
    } else {
        match spec_comparison_operator(input, start) {
            Some((name, after)) => match spec_additive(input, after_space(input, after), depth) {
                None => None,
                Some((right, end)) => Some((call2_model(name, left, right), end)),
            },
            None => Some((left, pos)),
        }
    }
}

/// More comparisons after what was read, as long as reading moves on.
pub open spec fn spec_comparison_tail(
    input: Seq<u8>,
    pos: int,
    left: ExpressionModel,
    depth: nat,
) -> Option<(ExpressionModel, int)>
    decreases depth, 14int, input.len() - pos,
{
    match spec_comparison_step(input, pos, left, depth) {
        None => None,
        Some((next, end)) => if pos < end <= input.len() {
            spec_comparison_tail(input, end, next, depth)
        } else {
            Some((next, end))
        },
    }
}

/// What follows `BETWEEN`: the two bounds with `AND` between them, and
/// the place after them.
pub open spec fn spec_between_bounds(input: Seq<u8>, pos: int, depth: nat) -> Option<
    (ExpressionModel, ExpressionModel, int),
>
    decreases depth, 12int, 1int,
{
    match spec_additive(input, after_space(input, pos), depth) {
        None => None,
        Some((low, after_low)) => match keyword_end(
            input,
            after_space(input, after_low),
            "and".spec_bytes(),
        ) {
            None => None,
            Some(after_and) => match spec_additive(input, after_space(input, after_and), depth) {
                None => None,
                Some((high, end)) => Some((low, high, end)),
            },
        },
    }
}

/// Operands of `+` and `-`, which group from the left.
pub open spec fn spec_additive(input: Seq<u8>, pos: int, depth: nat) -> Option<
    (ExpressionModel, int),
>
    decreases depth, 12int, 0int,
{
    match spec_multiplicative(input, pos, depth) {
        None => None,
        Some((left, end)) => spec_additive_tail(input, end, left, depth),
    }
}

/// The operator `+` or `-` at a place: the name of its function, and the
/// place after it.
pub open spec fn spec_additive_operator(input: Seq<u8>, pos: int) -> Option<(Seq<char>, int)> {
    if token_at(input, pos, "+".spec_bytes()) {
        Some(("+"@, pos + "+".spec_bytes().len()))
    } else if token_at(input, pos, "-".spec_bytes()) {
        Some(("-"@, pos + "-".spec_bytes().len()))
    } else {
        None
    }
}

/// More operands of `+` and `-` after what was read.
pub open spec fn spec_additive_tail(
    input: Seq<u8>,
    pos: int,
    left: ExpressionModel,
    depth: nat,
) -> Option<(ExpressionModel, int)>
    decreases depth, 11int, input.len() - pos,
{
    match spec_additive_operator(input, after_space(input, pos)) {
        None => Some((left, pos)),
        Some((name, after)) => match spec_multiplicative(input, after_space(input, after), depth) {
            None => None,
            Some((right, end)) => if pos < end <= input.len() {
                spec_additive_tail(input, end, call2_model(name, left, right), depth)
            } else {
                Some((call2_model(name, left, right), end))
            },
        },
    }
}

/// Operands of `*` and `/`, which group from the left.
pub open spec fn spec_multiplicative(input: Seq<u8>, pos: int, depth: nat) -> Option<
    (ExpressionModel, int),
>
    decreases depth, 10int, 0int,
{
    match spec_unary(input, pos, depth) {
        None => None,
        Some((left, end)) => spec_multiplicative_tail(input, end, left, depth),
    }
}

/// The operator `*` or `/` at a place: the name of its function, and the
/// place after it.
pub open spec fn spec_multiplicative_operator(input: Seq<u8>, pos: int) -> Option<
    (Seq<char>, int),
> {
    if token_at(input, pos, "*".spec_bytes()) {
        Some(("*"@, pos + "*".spec_bytes().len()))
    } else if token_at(input, pos, "/".spec_bytes()) {
        Some(("/"@, pos + "/".spec_bytes().len()))
    } else {
        None
    }
}

/// More operands of `*` and `/` after what was read.
pub open spec fn spec_multiplicative_tail(
    input: Seq<u8>,
    pos: int,
    left: ExpressionModel,
    depth: nat,
) -> Option<(ExpressionModel, int)>
    decreases depth, 9int, input.len() - pos,
{
    match spec_multiplicative_operator(input, after_space(input, pos)) {
        None => Some((left, pos)),
        Some((name, after)) => match spec_unary(input, after_space(input, after), depth) {
            None => None,
            Some((right, end)) => if pos < end <= input.len() {
                spec_multiplicative_tail(input, end, call2_model(name, left, right), depth)
            } else {
                Some((call2_model(name, left, right), end))
            },
        },
    }
}

/// A sign before a primary expression, as often as it is written: the
/// negative of a constant number is a constant.
pub open spec fn spec_unary(input: Seq<u8>, pos: int, depth: nat) -> Option<(ExpressionModel, int)>
    decreases depth, 8int, 0int,
{
    match token_end(input, pos, "-".spec_bytes()) {
        Some(after) => if depth == 0 {
            None
        } else {
            match spec_unary(input, after_space(input, after), (depth - 1) as nat) {
                Some((e, end)) => match spec_negated(e) {
                    Some(n) => Some((n, end)),
                    None => Some((call1_model("-"@, e), end)),
                },
                None => None,
            }
        },
        None => spec_primary(input, pos, depth),
    }
}

/// A literal, a cast, a function call, a column reference or an
/// expression in parentheses.
pub open spec fn spec_primary(input: Seq<u8>, pos: int, depth: nat) -> Option<
    (ExpressionModel, int),
>
    decreases depth, 7int, 0int,
{
    if token_at(input, pos, "(".spec_bytes()) {
        spec_parenthesized(input, pos + "(".spec_bytes().len(), depth)
    } else if spec_number_literal(input, pos) is Some {
        let (digits, point, end) = spec_number_literal(input, pos)->Some_0;
        match spec_number(digits, point) {
            Some(e) => Some((e, end)),
            None => None,
        }
    } else if spec_string_literal(input, pos) is Some {
        let (text, end) = spec_string_literal(input, pos)->Some_0;
        Some((ExpressionModel::Constant(Value::Bytes(text), DataType::Text), end))
    } else if keyword_at(input, pos, "true".spec_bytes()) {
        Some(
            (
                ExpressionModel::Constant(Value::Boolean(true), DataType::Boolean),
                pos + "true".spec_bytes().len(),
            ),
        )
    } else if keyword_at(input, pos, "false".spec_bytes()) {
        Some(
            (
                ExpressionModel::Constant(Value::Boolean(false), DataType::Boolean),
                pos + "false".spec_bytes().len(),
            ),
        )
    } else if keyword_at(input, pos, "null".spec_bytes()) {
        Some(
            (ExpressionModel::Constant(Value::Null, DataType::Null), pos + "null".spec_bytes().len()),
        )
    } else if keyword_at(input, pos, "cast".spec_bytes()) {
        spec_cast(input, pos + "cast".spec_bytes().len(), depth)
    } else if token_at(input, pos, "*".spec_bytes()) {
        Some((star_model(None), pos + "*".spec_bytes().len()))
    } else {
        spec_reference(input, pos, depth)
    }
}

/// An expression in parentheses, after the opening one.
pub open spec fn spec_parenthesized(input: Seq<u8>, pos: int, depth: nat) -> Option<
    (ExpressionModel, int),
>
    decreases depth, 6int, 0int,
{
    if depth == 0 {
        None
    } else {
        match spec_or(input, after_space(input, pos), (depth - 1) as nat) {
            None => None,
            Some((inner, end)) => match token_end(input, after_space(input, end), ")".spec_bytes()) {
                Some(close) => Some((inner, close)),
                None => None,
            },
        }
    }
}

/// A cast, after its keyword: an expression, `AS` and a type, in
/// parentheses.
pub open spec fn spec_cast(input: Seq<u8>, pos: int, depth: nat) -> Option<(ExpressionModel, int)>
    decreases depth, 6int, 0int,
{
    if depth == 0 {
        None
    } else {
        match token_end(input, after_space(input, pos), "(".spec_bytes()) {
            None => None,
            Some(open) => match spec_or(input, after_space(input, open), (depth - 1) as nat) {
                None => None,
                Some((inner, end)) => match keyword_end(
                    input,
                    after_space(input, end),
                    "as".spec_bytes(),
                ) {
                    None => None,
                    Some(after_as) => match spec_datatype(input, after_space(input, after_as)) {
                        None => None,
                        Some((target, after_type)) => match token_end(
                            input,
                            after_space(input, after_type),
                            ")".spec_bytes(),
                        ) {
                            Some(close) => Some(
                                (ExpressionModel::Cast(Box::new(inner), target), close),
                            ),
                            None => None,
                        },
                    },
                },
            },
        }
    }
}

/// What begins with a name: a call of a function, a column under a
/// qualifier, every column under a qualifier, or a column.
pub open spec fn spec_reference(input: Seq<u8>, pos: int, depth: nat) -> Option<
    (ExpressionModel, int),
>
    decreases depth, 6int, 2int,
{
    match spec_identifier(input, pos) {
        None => None,
        Some((name, after_name)) => spec_named(input, after_name, name, depth),
    }
}

/// What a name stands for, with what follows it: an opening parenthesis
/// makes it a call of the function of the name, and else it names a
/// column.
pub open spec fn spec_named(input: Seq<u8>, pos: int, name: Seq<char>, depth: nat) -> Option<
    (ExpressionModel, int),
>
    decreases depth, 6int, 1int,
{
    match token_end(input, after_space(input, pos), "(".spec_bytes()) {
        Some(open) => if depth == 0 {
            None
        } else {
            spec_arguments(input, after_space(input, open), name, depth)
        },
        None => spec_column(input, pos, name),
    }
}

/// The column that a name stands for, with what follows the name: a
/// point and `*` make it every column under the name, a point and another
/// name the column of that name under it.
pub open spec fn spec_column(input: Seq<u8>, pos: int, name: Seq<char>) -> Option<
    (ExpressionModel, int),
> {
    match token_end(input, pos, ".".spec_bytes()) {
        Some(point) => match token_end(input, point, "*".spec_bytes()) {
            Some(end) => Some((star_model(Some(name)), end)),
            None => match spec_identifier(input, point) {
                Some((column, end)) => Some(
                    (ExpressionModel::ColumnReference(Some(name), column, false), end),
                ),
                None => None,
            },
        },
        None => Some((ExpressionModel::ColumnReference(None, name, false), pos)),
    }
}

/// The arguments of a call after its opening parenthesis, and the call:
/// `*` alone stands for no argument.
pub open spec fn spec_arguments(input: Seq<u8>, pos: int, name: Seq<char>, depth: nat) -> Option<
    (ExpressionModel, int),
>
    decreases depth, 6int, 0int,
{
    if depth == 0 {
        None
    } else {
        let read = match token_end(input, pos, "*".spec_bytes()) {
            Some(after) => Some((Seq::<ExpressionModel>::empty(), after_space(input, after))),
            None => if token_at(input, pos, ")".spec_bytes()) {
                Some((Seq::<ExpressionModel>::empty(), pos))
            } else {
                match spec_comma_sep(input, pos, (depth - 1) as nat) {
                    Some((args, end)) => Some((args, after_space(input, end))),
                    None => None,
                }
            },
        };
        match read {
            None => None,
            Some((args, end)) => match token_end(input, end, ")".spec_bytes()) {
                Some(close) => Some(
                    (ExpressionModel::FunctionCall(spec_lower_case(name), args), close),
                ),
                None => None,
            },
        }
    }
}

/// An expression with a name after it or without, at a place.
pub open spec fn spec_named_expression(input: Seq<u8>, pos: int, depth: nat) -> Option<
    (NamedModel, int),
> {
    match spec_or(input, pos, depth) {
        None => None,
        Some((expression, end)) => match spec_as_clause(input, end) {
            Some((alias, after)) => Some((NamedModel { alias: Some(alias), expression }, after)),
            None => Some((NamedModel { alias: None, expression }, end)),
        },
    }
}

/// An expression with `ASC` or `DESC` after it or without, at a place.
pub open spec fn spec_sort_expression(input: Seq<u8>, pos: int, depth: nat) -> Option<
    (SortModel, int),
> {
    match spec_or(input, pos, depth) {
        None => None,
        Some((expression, end)) => {
            let next = after_space(input, end);
            if keyword_at(input, next, "desc".spec_bytes()) {
                Some(
                    (
                        SortModel { ordering: SortOrder::Desc, expression },
                        next + "desc".spec_bytes().len(),
                    ),
                )
            } else if keyword_at(input, next, "asc".spec_bytes()) {
                Some(
                    (
                        SortModel { ordering: SortOrder::Asc, expression },
                        next + "asc".spec_bytes().len(),
                    ),
                )
            } else {
                Some((SortModel { ordering: SortOrder::Asc, expression }, end))
            }
        },
    }
}

} // verus!
