//! The expression ast.

use vstd::prelude::*;
use vstd::std_specs::convert::FromSpecImpl;
use vstd::string::StringSliceAdditionalSpecFns;
use crate::data::{DataType, Datum, Decimal, SortOrder, Value};
use crate::data::datum::into_boxed_bytes;
use crate::data::display::value_text;
use crate::data::encoding_core::{count_digits, digit_count};
use crate::data::text::{
    lossy_string, lossy_text, nat_digits, push_bytes, push_text, push_u64, to_vec,
};
use crate::functions::{AggregateFunctionKind, FunctionSignature, ScalarFunction};

verus! {

/// The expression ast.
/// For scalar expressions we support evaluating the ast directly;
/// aggregate expressions are evaluated by the grouping executors.
#[derive(Debug, PartialEq, Eq)]
pub enum Expression {
    Constant(Datum<'static>, DataType),
    FunctionCall(FunctionCall),
    Cast(Cast),
    CompiledFunctionCall(CompiledFunctionCall),
    CompiledAggregate(CompiledAggregate),
    ColumnReference(ColumnReference),
    CompiledColumnReference(CompiledColumnReference),
}

/// Represents a function call straight from the parser.
/// Ie the function isn't actually resolved by this point
#[derive(Debug, PartialEq, Eq)]
pub struct FunctionCall {
    pub function_name: String,
    pub args: Vec<Expression>,
}

/// Represents a sql cast, gets compiled to a function
#[derive(Debug, PartialEq, Eq)]
pub struct Cast {
    pub expr: Box<Expression>,
    pub datatype: DataType,
}

/// Represents a scalar function call once its been resolved and type
/// checked
#[derive(Debug, PartialEq, Eq)]
pub struct CompiledFunctionCall {
    pub function: ScalarFunction,
    pub args: Vec<Expression>,
    pub signature: Box<FunctionSignature<'static>>,
}

/// Represents a aggregate function call once its been resolved and type
/// checked
#[derive(Debug, PartialEq, Eq)]
pub struct CompiledAggregate {
    pub function: AggregateFunctionKind,
    pub args: Vec<Expression>,
    pub signature: Box<FunctionSignature<'static>>,
}

/// A reference to a column in a source.
/// ie SELECT foo FROM...
#[derive(Debug, PartialEq, Eq, Clone)]
pub struct ColumnReference {
    pub qualifier: Option<String>,
    pub alias: String,
    // Easier to just make this a bool rather than pattern match on
    // an enum, an alias of "*" isn't enough as that *could* be a valid
    // alias... (who on earth would do that tho!).
    pub star: bool,
}

/// Column reference but is indexed via offset instead of having to do
/// name resolution...
#[derive(Debug, PartialEq, Eq, Clone, Copy)]
pub struct CompiledColumnReference {
    pub offset: usize,
    pub datatype: DataType,
}

/// Named expression, ie select foo as bar
#[derive(Debug, PartialEq, Eq)]
pub struct NamedExpression {
    pub alias: Option<String>,
    pub expression: Expression,
}

/// Sort expression, ie order by abs(foo) desc
#[derive(Debug, PartialEq, Eq)]
pub struct SortExpression {
    pub ordering: SortOrder,
    pub expression: Expression,
}

impl Default for Expression {
    fn default() -> (e: Self)
        ensures
            e == Expression::Constant(Datum::Null, DataType::Null),
    {
        Expression::Constant(Datum::Null, DataType::Null)
    }
}

/// A copy of a signature.
pub fn clone_signature(signature: &FunctionSignature<'static>) -> (r: FunctionSignature<'static>)
    ensures
        r.name == signature.name,
        r.args@ == signature.args@,
        r.ret == signature.ret,
{
    let mut args: Vec<DataType> = Vec::new();
    let mut i: usize = 0;
    while i < signature.args.len()
        invariant
            i <= signature.args@.len(),
            args@ == signature.args@.subrange(0, i as int),
        decreases signature.args@.len() - i,
    {
        args.push(signature.args[i]);
        assert(args@ =~= signature.args@.subrange(0, i + 1));
        i += 1;
    }
    assert(args@ =~= signature.args@);
    FunctionSignature { name: signature.name, args, ret: signature.ret }
}

/// Whether two expressions are the same tree with the same values in it.
pub open spec fn same_expression(a: Expression, b: Expression) -> bool
    decreases a, 0int,
{
    match (a, b) {
        (Expression::Constant(d1, t1), Expression::Constant(d2, t2)) => d1@ == d2@ && t1 == t2,
        (Expression::FunctionCall(f), Expression::FunctionCall(g)) => f.function_name@
            == g.function_name@ && same_expressions(f.args@, g.args@, f.args@.len() as int),
        (Expression::Cast(c), Expression::Cast(d)) => c.datatype == d.datatype && same_expression(
            *c.expr,
            *d.expr,
        ),
        (Expression::CompiledFunctionCall(f), Expression::CompiledFunctionCall(g)) => f.function
            == g.function && f.signature.name == g.signature.name && f.signature.args@
            == g.signature.args@ && f.signature.ret == g.signature.ret && same_expressions(
            f.args@,
            g.args@,
            f.args@.len() as int,
        ),
        (Expression::CompiledAggregate(f), Expression::CompiledAggregate(g)) => f.function
            == g.function && f.signature.name == g.signature.name && f.signature.args@
            == g.signature.args@ && f.signature.ret == g.signature.ret && same_expressions(
            f.args@,
            g.args@,
            f.args@.len() as int,
        ),
        (Expression::ColumnReference(c), Expression::ColumnReference(d)) => c.alias@ == d.alias@
            && c.star == d.star && match (c.qualifier, d.qualifier) {
            (Some(x), Some(y)) => x@ == y@,
            (None, None) => true,
            _ => false,
        },
        (
            Expression::CompiledColumnReference(c),
            Expression::CompiledColumnReference(d),
        ) => c == d,
        _ => false,
    }
}

/// Whether two lists of expressions are of one length and the same in
/// their first `n` places.
pub open spec fn same_expressions(a: Seq<Expression>, b: Seq<Expression>, n: int) -> bool
    decreases a, n,
{
    if a.len() != b.len() {
        false
    } else if n <= 0 || n > a.len() {
        true
    } else {
        same_expressions(a, b, n - 1) && same_expression(a[n - 1], b[n - 1])
    }
}

/// A copy of a list of expressions.
pub fn clone_expressions(expressions: &Vec<Expression>) -> (r: Vec<Expression>)
    ensures
        same_expressions(expressions@, r@, expressions@.len() as int),
    decreases expressions,
{
    let mut r: Vec<Expression> = Vec::new();
    let mut i: usize = 0;
    while i < expressions.len()
        invariant
            i <= expressions@.len(),
            r@.len() == i,
            forall|k: int| 0 <= k < i ==> same_expression(#[trigger] expressions@[k], r@[k]),
        decreases expressions@.len() - i,
    {
        proof {
            vstd::std_specs::vec::axiom_vec_index_decreases(*expressions, i as int);
        }
        r.push(expressions[i].clone());
        i += 1;
    }
    proof {
        lemma_same_expressions(expressions@, r@, expressions@.len() as int);
    }
    r
}

/// An expression is the same as itself.
pub proof fn lemma_same_expression(e: Expression)
    ensures
        same_expression(e, e),
    decreases e, 0int,
{
    match e {
        Expression::FunctionCall(f) => lemma_same_list(f.args@, f.args@.len() as int),
        Expression::CompiledFunctionCall(f) => lemma_same_list(f.args@, f.args@.len() as int),
        Expression::CompiledAggregate(f) => lemma_same_list(f.args@, f.args@.len() as int),
        Expression::Cast(c) => lemma_same_expression(*c.expr),
        _ => {},
    }
}

/// A list of expressions is the same as itself.
pub proof fn lemma_same_list(list: Seq<Expression>, n: int)
    requires
        0 <= n <= list.len(),
    ensures
        same_expressions(list, list, n),
    decreases list, n,
{
    if n > 0 {
        vstd::seq::axiom_seq_index_decreases(list, n - 1);
        lemma_same_list(list, n - 1);
        lemma_same_expression(list[n - 1]);
    }
}

/// Lists that are the same place by place are the same.
pub proof fn lemma_same_expressions(a: Seq<Expression>, b: Seq<Expression>, n: int)
    requires
        a.len() == b.len(),
        0 <= n <= a.len(),
        forall|k: int| 0 <= k < n ==> same_expression(#[trigger] a[k], b[k]),
    ensures
        same_expressions(a, b, n),
    decreases n,
{
    if n > 0 {
        lemma_same_expressions(a, b, n - 1);
    }
}

impl Clone for Expression {
    fn clone(&self) -> (r: Self)
        ensures
            same_expression(*self, r),
        decreases self,
    {
        match self {
            Expression::Constant(d, t) => Expression::Constant(d.as_static(), *t),
            Expression::FunctionCall(f) => Expression::FunctionCall(
                FunctionCall {
                    function_name: f.function_name.clone(),
                    args: clone_expressions(&f.args),
                },
            ),
            Expression::Cast(c) => Expression::Cast(
                Cast { expr: Box::new((*c.expr).clone()), datatype: c.datatype },
            ),
            Expression::CompiledFunctionCall(f) => Expression::CompiledFunctionCall(
                CompiledFunctionCall {
                    function: f.function,
                    args: clone_expressions(&f.args),
                    signature: Box::new(clone_signature(&*f.signature)),
                },
            ),
            Expression::CompiledAggregate(f) => Expression::CompiledAggregate(
                CompiledAggregate {
                    function: f.function,
                    args: clone_expressions(&f.args),
                    signature: Box::new(clone_signature(&*f.signature)),
                },
            ),
            Expression::ColumnReference(c) => Expression::ColumnReference(
                ColumnReference {
                    qualifier: match &c.qualifier {
                        Some(q) => Some(q.clone()),
                        None => None,
                    },
                    alias: c.alias.clone(),
                    star: c.star,
                },
            ),
            Expression::CompiledColumnReference(c) => Expression::CompiledColumnReference(*c),
        }
    }
}

impl Clone for NamedExpression {
    fn clone(&self) -> (r: Self)
        ensures
            same_expression(self.expression, r.expression),
            match (self.alias, r.alias) {
                (Some(x), Some(y)) => x@ == y@,
                (None, None) => true,
                _ => false,
            },
    {
        NamedExpression {
            alias: match &self.alias {
                Some(a) => Some(a.clone()),
                None => None,
            },
            expression: self.expression.clone(),
        }
    }
}

impl Clone for SortExpression {
    fn clone(&self) -> (r: Self)
        ensures
            same_expression(self.expression, r.expression),
            r.ordering == self.ordering,
    {
        SortExpression { ordering: self.ordering, expression: self.expression.clone() }
    }
}

impl Expression {
    /// The child expressions, in their order.
    pub open spec fn spec_children(self) -> Seq<Expression> {
        match self {
            Expression::FunctionCall(function_call) => function_call.args@,
            Expression::CompiledFunctionCall(function_call) => function_call.args@,
            Expression::CompiledAggregate(function_call) => function_call.args@,
            Expression::Cast(cast) => seq![*cast.expr],
            Expression::CompiledColumnReference(_)
            | Expression::Constant(_, _)
            | Expression::ColumnReference(_) => Seq::empty(),
        }
    }

    // Lists all child expressions.
    pub fn children(&self) -> (r: Vec<&Expression>)
        ensures
            r@.len() == self.spec_children().len(),
            forall|i: int| 0 <= i < r@.len() ==> *(#[trigger] r@[i]) == self.spec_children()[i],
    {
        let mut r: Vec<&Expression> = Vec::new();
        match self {
            Expression::FunctionCall(function_call) => {
                push_references(&mut r, &function_call.args);
            },
            Expression::CompiledFunctionCall(function_call) => {
                push_references(&mut r, &function_call.args);
            },
            Expression::CompiledAggregate(function_call) => {
                push_references(&mut r, &function_call.args);
            },
            Expression::Cast(cast) => {
                r.push(&*cast.expr);
            },
            Expression::CompiledColumnReference(_)
            | Expression::Constant(_, _)
            | Expression::ColumnReference(_) => {},
        }
        r
    }

    /// Whether the expression is a constant.
    pub fn is_constant(&self) -> (b: bool)
        ensures
            b == (self is Constant),
    {
        matches!(self, Expression::Constant(_, _))
    }
}

fn push_references<'a>(out: &mut Vec<&'a Expression>, expressions: &'a Vec<Expression>)
    requires
        old(out)@.len() == 0,
    ensures
        final(out)@.len() == expressions@.len(),
        forall|i: int| 0 <= i < final(out)@.len() ==> *(#[trigger] final(out)@[i]) == expressions@[i],
{
    let mut i: usize = 0;
    while i < expressions.len()
        invariant
            i <= expressions@.len(),
            out@.len() == i,
            forall|k: int| 0 <= k < i ==> *(#[trigger] out@[k]) == expressions@[k],
        decreases expressions@.len() - i,
    {
        out.push(&expressions[i]);
        i += 1;
    }
}

/// The type of a decimal constant: as many digits after the point as the
/// constant has, and as many digits in all as its whole part has more, but
/// at least one.
pub open spec fn decimal_constant_type(mantissa: int, scale: nat) -> DataType {
    let whole = crate::data::decimal::truncated(
        if mantissa < 0 {
            -mantissa
        } else {
            mantissa
        },
        scale,
    );
    let digits = if whole == 0 {
        0
    } else {
        digit_count(whole as nat)
    };
    DataType::Decimal(
        if digits + scale < 1 {
            1u8
        } else {
            (digits + scale) as u8
        },
        scale as u8,
    )
}

impl Expression {
    /// A boolean constant.
    pub fn from_bool(b: bool) -> (e: Expression)
        ensures
            e == Expression::Constant(Datum::Boolean(b), DataType::Boolean),
    {
        Expression::Constant(Datum::Boolean(b), DataType::Boolean)
    }

    /// An integer constant.
    pub fn from_i32(i: i32) -> (e: Expression)
        ensures
            e == Expression::Constant(Datum::Integer(i), DataType::Integer),
    {
        Expression::Constant(Datum::Integer(i), DataType::Integer)
    }

    /// A big integer constant.
    pub fn from_i64(i: i64) -> (e: Expression)
        ensures
            e == Expression::Constant(Datum::BigInt(i), DataType::BigInt),
    {
        Expression::Constant(Datum::BigInt(i), DataType::BigInt)
    }

    /// A decimal constant, typed by its digits.
    pub fn from_decimal(d: Decimal) -> (e: Expression)
        ensures
            e == Expression::Constant(
                Datum::Decimal(d),
                decimal_constant_type(d.spec_mantissa(), d.spec_scale()),
            ),
    {
        let s = d.scale();
        let mantissa = d.mantissa();
        let magnitude: u128 = if mantissa < 0 {
            (-mantissa) as u128
        } else {
            mantissa as u128
        };
        let unit = crate::data::decimal::pow10_u128(s);
        let whole = magnitude / unit;
        proof {
            crate::data::decimal::lemma_pow10_29();
        }
        let digits: u32 = if whole == 0 {
            0
        } else {
            count_digits(whole)
        };
        let p: u32 = if digits + s < 1 {
            1
        } else {
            digits + s
        };
        Expression::Constant(Datum::Decimal(d), DataType::Decimal(p as u8, s as u8))
    }

    /// A text constant.
    pub fn from_text(s: &str) -> (e: Expression)
        ensures
            e matches Expression::Constant(d, t) && t == DataType::Text && d@ == Value::Bytes(
                s.spec_bytes(),
            ),
    {
        Expression::Constant(
            Datum::ByteAOwned(into_boxed_bytes(to_vec(s.as_bytes()))),
            DataType::Text,
        )
    }
}

impl From<bool> for Expression {
    fn from(b: bool) -> (e: Self) {
        Expression::from_bool(b)
    }
}

impl FromSpecImpl<bool> for Expression {
    open spec fn obeys_from_spec() -> bool {
        true
    }

    open spec fn from_spec(b: bool) -> Self {
        Expression::Constant(Datum::Boolean(b), DataType::Boolean)
    }
}

impl From<i32> for Expression {
    fn from(i: i32) -> (e: Self) {
        Expression::from_i32(i)
    }
}

impl FromSpecImpl<i32> for Expression {
    open spec fn obeys_from_spec() -> bool {
        true
    }

    open spec fn from_spec(i: i32) -> Self {
        Expression::Constant(Datum::Integer(i), DataType::Integer)
    }
}

impl From<i64> for Expression {
    fn from(i: i64) -> (e: Self) {
        Expression::from_i64(i)
    }
}

impl FromSpecImpl<i64> for Expression {
    open spec fn obeys_from_spec() -> bool {
        true
    }

    open spec fn from_spec(i: i64) -> Self {
        Expression::Constant(Datum::BigInt(i), DataType::BigInt)
    }
}

impl From<Decimal> for Expression {
    fn from(d: Decimal) -> (e: Self) {
        Expression::from_decimal(d)
    }
}

impl FromSpecImpl<Decimal> for Expression {
    open spec fn obeys_from_spec() -> bool {
        true
    }

    open spec fn from_spec(d: Decimal) -> Self {
        Expression::Constant(
            Datum::Decimal(d),
            decimal_constant_type(d.spec_mantissa(), d.spec_scale()),
        )
    }
}

impl From<&'static str> for Expression {
    fn from(s: &'static str) -> (e: Self) {
        Expression::from_text(s)
    }
}

impl FromSpecImpl<&'static str> for Expression {
    open spec fn obeys_from_spec() -> bool {
        false
    }

    open spec fn from_spec(s: &'static str) -> Self {
        Expression::Constant(Datum::Null, DataType::Text)
    }
}

impl From<String> for Expression {
    fn from(s: String) -> (e: Self) {
        Expression::from_text(s.as_str())
    }
}

impl FromSpecImpl<String> for Expression {
    open spec fn obeys_from_spec() -> bool {
        false
    }

    open spec fn from_spec(s: String) -> Self {
        Expression::Constant(Datum::Null, DataType::Text)
    }
}

/// Whether an identifier can stand in SQL without quotes: a lower-case
/// letter or an underscore, then lower-case letters, digits and
/// underscores.
pub open spec fn is_bare_identifier(name: Seq<u8>) -> bool {
    &&& name.len() > 0
    &&& (97 <= name[0] <= 122 || name[0] == 95)
    &&& forall|i: int|
        0 <= i < name.len() ==> (97 <= #[trigger] name[i] <= 122) || name[i] == 95 || (48
            <= name[i] <= 57)
}

/// Whether an identifier can stand in SQL without quotes.
pub fn identifier_ok(name: &[u8]) -> (b: bool)
    ensures
        b == is_bare_identifier(name@),
{
    if name.len() == 0 {
        return false;
    }
    let first = name[0];
    if !((97 <= first && first <= 122) || first == 95) {
        return false;
    }
    let mut i: usize = 0;
    while i < name.len()
        invariant
            i <= name@.len(),
            forall|k: int|
                0 <= k < i ==> (97 <= #[trigger] name@[k] <= 122) || name@[k] == 95 || (48
                    <= name@[k] <= 57),
        decreases name@.len() - i,
    {
        let b = name[i];
        if !((97 <= b && b <= 122) || b == 95 || (48 <= b && b <= 57)) {
            return false;
        }
        i += 1;
    }
    true
}

/// An identifier as SQL text: bare where it can be, else between back-ticks.
pub open spec fn identifier_text(name: Seq<u8>) -> Seq<u8> {
    if is_bare_identifier(name) {
        name
    } else {
        seq![96u8] + name + seq![96u8]
    }
}

/// Appends an identifier as SQL text.
pub fn push_identifier(buf: &mut Vec<u8>, name: &[u8])
    ensures
        final(buf)@ == old(buf)@ + identifier_text(name@),
{
    if identifier_ok(name) {
        push_bytes(buf, name);
    } else {
        buf.push(96);
        push_bytes(buf, name);
        buf.push(96);
        assert(buf@ =~= old(buf)@ + (seq![96u8] + name@ + seq![96u8]));
    }
}

/// A column reference as SQL text.
pub open spec fn column_reference_text(c: ColumnReference) -> Seq<u8> {
    (match c.qualifier {
        Some(q) => identifier_text(vstd::utf8::encode_utf8(q@)) + seq![46u8],
        None => Seq::empty(),
    }) + identifier_text(vstd::utf8::encode_utf8(c.alias@))
}

/// An expression as SQL text.
pub open spec fn expression_text(e: Expression) -> Seq<u8>
    decreases e, 0int,
{
    match e {
        Expression::Constant(d, dt) => value_text(d@, dt, true),
        Expression::Cast(c) => "CAST(".spec_bytes() + expression_text(*c.expr) + " AS ".spec_bytes()
            + c.datatype.sql_name(false) + ")".spec_bytes(),
        Expression::FunctionCall(f) => identifier_text(vstd::utf8::encode_utf8(f.function_name@))
            + seq![40u8] + arguments_text(f.args@, f.args@.len() as int) + seq![41u8],
        Expression::CompiledFunctionCall(f) => identifier_text(f.signature.name.spec_bytes())
            + seq![40u8] + arguments_text(f.args@, f.args@.len() as int) + seq![41u8],
        Expression::CompiledAggregate(f) => identifier_text(f.signature.name.spec_bytes()) + seq![
            40u8,
        ] + arguments_text(f.args@, f.args@.len() as int) + seq![41u8],
        Expression::ColumnReference(c) => column_reference_text(c),
        Expression::CompiledColumnReference(c) => "<OFFSET ".spec_bytes() + nat_digits(
            c.offset as nat,
        ) + ">".spec_bytes(),
    }
}

/// The first `n` arguments of a call as SQL text, with `, ` between them.
pub open spec fn arguments_text(args: Seq<Expression>, n: int) -> Seq<u8>
    decreases args, n,
{
    if n <= 0 || n > args.len() {
        Seq::empty()
    } else {
        arguments_text(args, n - 1) + (if n > 1 {
            ", ".spec_bytes()
        } else {
            Seq::empty()
        }) + expression_text(args[n - 1])
    }
}

/// A named expression as SQL text.
pub open spec fn named_expression_text(ne: NamedExpression) -> Seq<u8> {
    match ne.alias {
        Some(alias) => expression_text(ne.expression) + " AS ".spec_bytes() + identifier_text(
            vstd::utf8::encode_utf8(alias@),
        ),
        None => expression_text(ne.expression),
    }
}

fn write_arguments(args: &Vec<Expression>, buf: &mut Vec<u8>)
    ensures
        final(buf)@ == old(buf)@ + arguments_text(args@, args@.len() as int),
    decreases args,
{
    let mut i: usize = 0;
    while i < args.len()
        invariant
            i <= args@.len(),
            buf@ == old(buf)@ + arguments_text(args@, i as int),
        decreases args@.len() - i,
    {
        proof {
            vstd::std_specs::vec::axiom_vec_index_decreases(*args, i as int);
        }
        if i > 0 {
            push_text(buf, ", ");
        }
        args[i].write_sql(buf);
        assert(buf@ =~= old(buf)@ + arguments_text(args@, i + 1));
        i += 1;
    }
}

impl ColumnReference {
    /// Appends the reference as SQL text.
    pub fn write_sql(&self, buf: &mut Vec<u8>)
        ensures
            final(buf)@ == old(buf)@ + column_reference_text(*self),
    {
        if let Some(qualifier) = &self.qualifier {
            push_identifier(buf, qualifier.as_str().as_bytes());
            buf.push(46);
        }
        push_identifier(buf, self.alias.as_str().as_bytes());
        assert(buf@ =~= old(buf)@ + column_reference_text(*self));
    }

    /// The reference as SQL text.
    pub fn to_string(&self) -> (s: String)
        ensures
            s@ == lossy_text(column_reference_text(*self)),
            vstd::utf8::valid_utf8(column_reference_text(*self)) ==> s@ == vstd::utf8::decode_utf8(
                column_reference_text(*self),
            ),
    {
        let mut buf: Vec<u8> = Vec::new();
        self.write_sql(&mut buf);
        lossy_string(buf.as_slice())
    }
}

impl Expression {
    /// Appends the expression as SQL text.
    pub fn write_sql(&self, buf: &mut Vec<u8>)
        ensures
            final(buf)@ == old(buf)@ + expression_text(*self),
        decreases self,
    {
        match self {
            Expression::Constant(d, dt) => {
                d.typed_with(*dt).write(true, buf);
            },
            Expression::Cast(c) => {
                push_text(buf, "CAST(");
                c.expr.write_sql(buf);
                push_text(buf, " AS ");
                c.datatype.write_sql(false, buf);
                push_text(buf, ")");
                assert(buf@ =~= old(buf)@ + expression_text(*self));
            },
            // Any function name that is no bare identifier is quoted.
            Expression::FunctionCall(function_call) => {
                push_identifier(buf, function_call.function_name.as_str().as_bytes());
                buf.push(40);
                write_arguments(&function_call.args, buf);
                buf.push(41);
                assert(buf@ =~= old(buf)@ + expression_text(*self));
            },
            Expression::CompiledFunctionCall(function_call) => {
                push_identifier(buf, function_call.signature.name.as_bytes());
                buf.push(40);
                write_arguments(&function_call.args, buf);
                buf.push(41);
                assert(buf@ =~= old(buf)@ + expression_text(*self));
            },
            Expression::CompiledAggregate(function_call) => {
                push_identifier(buf, function_call.signature.name.as_bytes());
                buf.push(40);
                write_arguments(&function_call.args, buf);
                buf.push(41);
                assert(buf@ =~= old(buf)@ + expression_text(*self));
            },
            Expression::ColumnReference(column_reference) => {
                column_reference.write_sql(buf);
            },
            Expression::CompiledColumnReference(column_reference) => {
                // To turn this back into real sql we would need to be able to have a peek at
                // our sources
                push_text(buf, "<OFFSET ");
                push_u64(buf, column_reference.offset as u64);
                push_text(buf, ">");
                assert(buf@ =~= old(buf)@ + expression_text(*self));
            },
        }
    }

    /// The expression as SQL text.
    pub fn to_string(&self) -> (s: String)
        ensures
            s@ == lossy_text(expression_text(*self)),
            vstd::utf8::valid_utf8(expression_text(*self)) ==> s@ == vstd::utf8::decode_utf8(
                expression_text(*self),
            ),
    {
        let mut buf: Vec<u8> = Vec::new();
        self.write_sql(&mut buf);
        lossy_string(buf.as_slice())
    }
}

impl NamedExpression {
    /// Appends the named expression as SQL text.
    pub fn write_sql(&self, buf: &mut Vec<u8>)
        ensures
            final(buf)@ == old(buf)@ + named_expression_text(*self),
    {
        self.expression.write_sql(buf);
        if let Some(alias) = &self.alias {
            push_text(buf, " AS ");
            push_identifier(buf, alias.as_str().as_bytes());
            assert(buf@ =~= old(buf)@ + named_expression_text(*self));
        }
    }

    /// The named expression as SQL text.
    pub fn to_string(&self) -> (s: String)
        ensures
            s@ == lossy_text(named_expression_text(*self)),
            vstd::utf8::valid_utf8(named_expression_text(*self)) ==> s@ == vstd::utf8::decode_utf8(
                named_expression_text(*self),
            ),
    {
        let mut buf: Vec<u8> = Vec::new();
        self.write_sql(&mut buf);
        lossy_string(buf.as_slice())
    }
}

} // verus!
