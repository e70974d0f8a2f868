//! The typed value and predicate expression model: literals, column
//! references and stub function calls, a single binary comparison over
//! them, column binding, and the evaluator with its runtime type checks.

use vstd::prelude::*;

use crate::error::{res_view, ErrorV, SqlError};
use crate::strutil::{parse_u8, parse_u8_spec, str_eq, trim_spec, TrimKind};

verus! {

/// A fully-resolved literal value.
#[derive(Debug, PartialEq, Eq, Clone)]
pub enum DataValue {
    StringValue(String),
    U8Value(u8),
    BoolValue(bool),
}

/// Mathematical image of a [`DataValue`].
pub enum DataValueV {
    StringValue(Seq<char>),
    U8Value(u8),
    BoolValue(bool),
}

impl View for DataValue {
    type V = DataValueV;

    open spec fn view(&self) -> DataValueV {
        match self {
            DataValue::StringValue(s) => DataValueV::StringValue(s@),
            DataValue::U8Value(v) => DataValueV::U8Value(*v),
            DataValue::BoolValue(b) => DataValueV::BoolValue(*b),
        }
    }
}

/// A call of a named function; the grammar admits only empty
/// parameter lists.
#[derive(Debug, PartialEq, Eq, Clone)]
pub struct FunctionCall {
    pub function_name: String,
    pub parameters: Vec<String>,
}

/// Mathematical image of a [`FunctionCall`].
pub struct FunctionCallV {
    pub function_name: Seq<char>,
    pub parameters: Seq<Seq<char>>,
}

impl View for FunctionCall {
    type V = FunctionCallV;

    open spec fn view(&self) -> FunctionCallV {
        FunctionCallV {
            function_name: self.function_name@,
            parameters: self.parameters.deep_view(),
        }
    }
}

/// A not-yet-resolved term of a predicate or an INSERT value list.
#[derive(Debug, PartialEq, Eq, Clone)]
pub enum ValueExpression {
    FunctionCall(FunctionCall),
    DataValue(DataValue),
    ColumnName(String),
}

/// Mathematical image of a [`ValueExpression`].
pub enum ValueExprV {
    FunctionCall(FunctionCallV),
    DataValue(DataValueV),
    ColumnName(Seq<char>),
}

impl View for ValueExpression {
    type V = ValueExprV;

    open spec fn view(&self) -> ValueExprV {
        match self {
            ValueExpression::FunctionCall(f) => ValueExprV::FunctionCall(f@),
            ValueExpression::DataValue(d) => ValueExprV::DataValue(d@),
            ValueExpression::ColumnName(s) => ValueExprV::ColumnName(s@),
        }
    }
}

impl DeepView for ValueExpression {
    type V = ValueExprV;

    open spec fn deep_view(&self) -> ValueExprV {
        self.view()
    }
}

/// One side of a logic expression once resolved to a value.
#[derive(Debug, PartialEq, Eq)]
pub enum LogicSide {
    Value(DataValue),
}

/// A binary comparison or connective.
#[derive(Debug, PartialEq, Eq, Clone, Copy, Structural)]
pub enum LogicalOperator {
    Equal,
    GreaterThan,
    LessThan,
    GreaterThanEqualTo,
    LessThanEqualTo,
    And,
    Or,
}

/// A predicate: exactly one binary operator between two value expressions.
#[derive(Debug, PartialEq, Eq, Clone)]
pub struct LogicExpression {
    pub left_hand: ValueExpression,
    pub right_hand: ValueExpression,
    pub operator: LogicalOperator,
}

/// Mathematical image of a [`LogicExpression`].
pub struct LogicExprV {
    pub left_hand: ValueExprV,
    pub right_hand: ValueExprV,
    pub operator: LogicalOperator,
}

impl View for LogicExpression {
    type V = LogicExprV;

    open spec fn view(&self) -> LogicExprV {
        LogicExprV {
            left_hand: self.left_hand@,
            right_hand: self.right_hand@,
            operator: self.operator,
        }
    }
}

// ---------------------------------------------------------------------------
// Specification of the evaluator
// ---------------------------------------------------------------------------

/// Both sides are resolved literals, so the expression can be evaluated.
pub open spec fn is_evaluatable_spec(e: LogicExprV) -> bool {
    e.left_hand is DataValue && e.right_hand is DataValue
}

/// The two literals are of the same kind.
pub open spec fn same_kind(a: DataValueV, b: DataValueV) -> bool {
    match (a, b) {
        (DataValueV::StringValue(_), DataValueV::StringValue(_)) => true,
        (DataValueV::U8Value(_), DataValueV::U8Value(_)) => true,
        (DataValueV::BoolValue(_), DataValueV::BoolValue(_)) => true,
        _ => false,
    }
}

/// Both sides are resolved literals of the same kind.
pub open spec fn is_valid_spec(e: LogicExprV) -> bool {
    is_evaluatable_spec(e) && same_kind(e.left_hand->DataValue_0, e.right_hand->DataValue_0)
}

/// What evaluating a predicate yields: `UnboundColumn` when a side is not
/// a resolved literal, `TypeMismatch` when the sides differ in kind,
/// `InvalidOperator` when the operator is not legal for the kind, and the
/// comparison's truth value otherwise. Strings admit only equality; bools
/// admit equality and the connectives; bytes admit equality and the
/// orderings.
pub open spec fn evaluate_spec(e: LogicExprV) -> Result<bool, ErrorV> {
    if !is_evaluatable_spec(e) {
        Err(ErrorV::UnboundColumn)
    } else if !is_valid_spec(e) {
        Err(ErrorV::TypeMismatch)
    } else {
        let l = e.left_hand->DataValue_0;
        let r = e.right_hand->DataValue_0;
        match l {
            DataValueV::StringValue(ls) => match e.operator {
                LogicalOperator::Equal => Ok(ls == r->StringValue_0),
                _ => Err(ErrorV::InvalidOperator),
            },
            DataValueV::BoolValue(lb) => match e.operator {
                LogicalOperator::Equal => Ok(lb == r->BoolValue_0),
                LogicalOperator::And => Ok(lb && r->BoolValue_0),
                LogicalOperator::Or => Ok(lb || r->BoolValue_0),
                _ => Err(ErrorV::InvalidOperator),
            },
            DataValueV::U8Value(lv) => match e.operator {
                LogicalOperator::Equal => Ok(lv == r->U8Value_0),
                LogicalOperator::GreaterThan => Ok(lv > r->U8Value_0),
                LogicalOperator::LessThan => Ok(lv < r->U8Value_0),
                LogicalOperator::GreaterThanEqualTo => Ok(lv >= r->U8Value_0),
                LogicalOperator::LessThanEqualTo => Ok(lv <= r->U8Value_0),
                _ => Err(ErrorV::InvalidOperator),
            },
        }
    }
}

/// One binding step: each side that is a reference to this column is
/// replaced by the bound expression.
pub open spec fn fill_step(e: LogicExprV, name: Seq<char>, value: ValueExprV) -> LogicExprV {
    LogicExprV {
        left_hand: if e.left_hand == ValueExprV::ColumnName(name) {
            value
        } else {
            e.left_hand
        },
        right_hand: if e.right_hand == ValueExprV::ColumnName(name) {
            value
        } else {
            e.right_hand
        },
        operator: e.operator,
    }
}

/// Binding a whole row: the bindings are applied in order.
pub open spec fn fill_values_spec(e: LogicExprV, bindings: Seq<(Seq<char>, ValueExprV)>) -> LogicExprV
    decreases bindings.len(),
{
    if bindings.len() == 0 {
        e
    } else {
        fill_values_spec(
            fill_step(e, bindings[0].0, bindings[0].1),
            bindings.subrange(1, bindings.len() as int),
        )
    }
}

/// How a decoded field reads as a literal: a byte numeral becomes its
/// byte value, anything else a string with NUL padding trimmed from
/// both ends.
pub open spec fn data_value_from_string_spec(s: Seq<char>) -> DataValueV {
    match parse_u8_spec(s) {
        Some(v) => DataValueV::U8Value(v),
        None => DataValueV::StringValue(trim_spec(TrimKind::Nul, s)),
    }
}

// ---------------------------------------------------------------------------
// Executable model
// ---------------------------------------------------------------------------

impl DataValue {
    /// Reads a decoded field as a literal value; never fails.
    pub fn from_string(string: String) -> (r: Result<DataValue, SqlError>)
        ensures
            r is Ok,
            r->Ok_0@ == data_value_from_string_spec(string@),
    {
        match parse_u8(string.as_str()) {
            Some(v) => Ok(DataValue::U8Value(v)),
            None => Ok(DataValue::StringValue(crate::strutil::trim(
                TrimKind::Nul,
                string.as_str(),
            ))),
        }
    }
}

/// Compares two literals for structural equality.
fn data_value_eq(a: &DataValue, b: &DataValue) -> (r: bool)
    ensures
        r == (a@ == b@),
{
    match (a, b) {
        (DataValue::StringValue(x), DataValue::StringValue(y)) => str_eq(x.as_str(), y.as_str()),
        (DataValue::U8Value(x), DataValue::U8Value(y)) => x == y,
        (DataValue::BoolValue(x), DataValue::BoolValue(y)) => x == y,
        _ => false,
    }
}

/// Duplicates a value expression.
pub fn dup_value_expression(v: &ValueExpression) -> (r: ValueExpression)
    ensures
        r@ == v@,
{
    match v {
        ValueExpression::FunctionCall(f) => {
            let params = f.parameters.clone();
            proof {
                assert forall|k: int|
                    0 <= k < params.len() implies #[trigger] params.deep_view()[k]
                    == f.parameters.deep_view()[k] by {
                    assert(vstd::pervasive::cloned::<String>(f.parameters[k], params[k]));
                }
                assert(params.deep_view() =~= f.parameters.deep_view());
            }
            ValueExpression::FunctionCall(FunctionCall {
                function_name: f.function_name.clone(),
                parameters: params,
            })
        },
        ValueExpression::DataValue(d) => ValueExpression::DataValue(match d {
            DataValue::StringValue(s) => DataValue::StringValue(s.clone()),
            DataValue::U8Value(v) => DataValue::U8Value(*v),
            DataValue::BoolValue(b) => DataValue::BoolValue(*b),
        }),
        ValueExpression::ColumnName(s) => ValueExpression::ColumnName(s.clone()),
    }
}

/// Duplicates a predicate.
pub fn dup_logic_expression(e: &LogicExpression) -> (r: LogicExpression)
    ensures
        r@ == e@,
{
    LogicExpression {
        left_hand: dup_value_expression(&e.left_hand),
        right_hand: dup_value_expression(&e.right_hand),
        operator: e.operator,
    }
}

impl LogicExpression {
    /// Both sides are resolved literals of the same kind, so evaluation
    /// will reach a comparison.
    pub fn is_valid(&self) -> (r: bool)
        ensures
            r == is_valid_spec(self@),
    {
        match (&self.left_hand, &self.right_hand) {
            (ValueExpression::DataValue(l), ValueExpression::DataValue(r)) => match (l, r) {
                (DataValue::StringValue(_), DataValue::StringValue(_)) => true,
                (DataValue::U8Value(_), DataValue::U8Value(_)) => true,
                (DataValue::BoolValue(_), DataValue::BoolValue(_)) => true,
                _ => false,
            },
            _ => false,
        }
    }

    /// Both sides are resolved literals.
    pub fn is_evaluatable(&self) -> (r: bool)
        ensures
            r == is_evaluatable_spec(self@),
    {
        match (&self.left_hand, &self.right_hand) {
            (ValueExpression::DataValue(_), ValueExpression::DataValue(_)) => true,
            _ => false,
        }
    }

    /// Substitutes the bound expressions, in order, for the column
    /// references that name them; never fails.
    pub fn fill_values(&mut self, hmap: Vec<(String, ValueExpression)>) -> (r: Result<
        (),
        SqlError,
    >)
        ensures
            r is Ok,
            final(self)@ == fill_values_spec(old(self)@, hmap.deep_view()),
    {
        let n = hmap.len();
        proof {
            assert(hmap.deep_view().subrange(0, n as int) =~= hmap.deep_view());
        }
        let mut i: usize = 0;
        while i < n
            invariant
                0 <= i <= n,
                n == hmap.len(),
                fill_values_spec(self@, hmap.deep_view().subrange(i as int, n as int))
                    == fill_values_spec(old(self)@, hmap.deep_view()),
            decreases n - i,
        {
            let ghost prev = self@;
            let (name, value) = &hmap[i];
            proof {
                let bs = hmap.deep_view().subrange(i as int, n as int);
                assert(bs[0] == (name@, value.deep_view()));
                assert(bs.subrange(1, bs.len() as int) =~= hmap.deep_view().subrange(
                    i + 1,
                    n as int,
                ));
            }
            let left_matches = match &self.left_hand {
                ValueExpression::ColumnName(s) => str_eq(s.as_str(), name.as_str()),
                _ => false,
            };
            if left_matches {
                self.left_hand = dup_value_expression(value);
            }
            let right_matches = match &self.right_hand {
                ValueExpression::ColumnName(s) => str_eq(s.as_str(), name.as_str()),
                _ => false,
            };
            if right_matches {
                self.right_hand = dup_value_expression(value);
            }
            proof {
                assert(self@ == fill_step(prev, name@, value.deep_view()));
            }
            i = i + 1;
        }
        proof {
            assert(hmap.deep_view().subrange(n as int, n as int) =~= Seq::<
                (Seq<char>, ValueExprV),
            >::empty());
        }
        Ok(())
    }

    /// Evaluates the predicate to its truth value, or to the error its
    /// shape dictates; see [`evaluate_spec`].
    pub fn evaluate(&self) -> (r: Result<bool, SqlError>)
        ensures
            res_view(r) == evaluate_spec(self@),
    {
        if !self.is_evaluatable() {
            return Err(SqlError::UnboundColumn);
        }
        if !self.is_valid() {
            return Err(SqlError::TypeMismatch);
        }
        match &self.left_hand {
            ValueExpression::DataValue(DataValue::StringValue(_)) => self.evaluate_string(),
            ValueExpression::DataValue(DataValue::BoolValue(_)) => self.evaluate_bool(),
            ValueExpression::DataValue(DataValue::U8Value(_)) => self.evaluate_u8(),
            _ => Err(SqlError::UnboundColumn),
        }
    }

    /// String comparison: only equality is legal.
    fn evaluate_string(&self) -> (r: Result<bool, SqlError>)
        requires
            is_valid_spec(self@),
            self@.left_hand->DataValue_0 is StringValue,
        ensures
            res_view(r) == evaluate_spec(self@),
    {
        match self.operator {
            LogicalOperator::Equal => {
                match (&self.left_hand, &self.right_hand) {
                    (ValueExpression::DataValue(l), ValueExpression::DataValue(r)) => Ok(
                        data_value_eq(l, r),
                    ),
                    _ => Err(SqlError::UnboundColumn),
                }
            },
            _ => Err(SqlError::InvalidOperator),
        }
    }

    /// Boolean comparison: equality and the connectives are legal.
    fn evaluate_bool(&self) -> (r: Result<bool, SqlError>)
        requires
            is_valid_spec(self@),
            self@.left_hand->DataValue_0 is BoolValue,
        ensures
            res_view(r) == evaluate_spec(self@),
    {
        match (&self.left_hand, &self.right_hand) {
            (
                ValueExpression::DataValue(DataValue::BoolValue(l)),
                ValueExpression::DataValue(DataValue::BoolValue(r)),
            ) => match self.operator {
                LogicalOperator::Equal => Ok(*l == *r),
                LogicalOperator::And => Ok(*l && *r),
                LogicalOperator::Or => Ok(*l || *r),
                _ => Err(SqlError::InvalidOperator),
            },
            _ => Err(SqlError::TypeMismatch),
        }
    }

    /// Byte comparison: equality and the orderings are legal.
    fn evaluate_u8(&self) -> (r: Result<bool, SqlError>)
        requires
            is_valid_spec(self@),
            self@.left_hand->DataValue_0 is U8Value,
        ensures
            res_view(r) == evaluate_spec(self@),
    {
        match (&self.left_hand, &self.right_hand) {
            (
                ValueExpression::DataValue(DataValue::U8Value(l)),
                ValueExpression::DataValue(DataValue::U8Value(r)),
            ) => match self.operator {
                LogicalOperator::Equal => Ok(*l == *r),
                LogicalOperator::GreaterThan => Ok(*l > *r),
                LogicalOperator::LessThan => Ok(*l < *r),
                LogicalOperator::GreaterThanEqualTo => Ok(*l >= *r),
                LogicalOperator::LessThanEqualTo => Ok(*l <= *r),
                _ => Err(SqlError::InvalidOperator),
            },
            _ => Err(SqlError::TypeMismatch),
        }
    }
}

} // verus!
