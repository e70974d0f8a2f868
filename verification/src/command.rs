//! The tokenizer and the per-command statement parsers. Each parser is an
//! explicit finite-state machine over the token sequence; its specification
//! is the same machine written as a recursive function, so every accepted
//! and rejected statement is pinned down exactly.

use vstd::prelude::*;

use crate::datatypes::{parse_datatype_spec, Datatype};
use crate::error::{ErrorV, SqlError};
use crate::expr::{
    DataValue, DataValueV, FunctionCall, FunctionCallV, LogicExprV, LogicExpression,
    LogicalOperator, ValueExprV, ValueExpression,
};
use crate::strutil::{
    classify_numeral, classify_wide_numeral, eq_ignore_case, numeral_class, push_char, str_eq,
    str_eq_ignore_case, trim_spec, u8_dec_str, u8_to_string, wide_numeral_class, NumeralClass,
    TrimKind, WideNumeralClass,
};
use crate::table_def::{ColumnDefV, ColumnDefinition, TableDefV, TableDefinition};

verus! {

// ---------------------------------------------------------------------------
// Tokenizer
// ---------------------------------------------------------------------------

/// The characters that end a token outside quotes. A space is discarded;
/// the others become tokens of their own.
pub open spec fn is_separator(c: char) -> bool {
    c == ' ' || c == ',' || c == ';' || c == '(' || c == ')' || c == '\'' || c == '"'
}

/// One step of the scan: `cur` is the pending token text, `in_q` whether the
/// scan is inside a quoted run and `q` which quote character closes it.
pub open spec fn tokenize_rec(chars: Seq<char>, cur: Seq<char>, in_q: bool, q: char) -> Seq<
    Seq<char>,
>
    decreases chars.len(),
{
    if chars.len() == 0 {
        if cur.len() > 0 {
            seq![cur]
        } else {
            Seq::empty()
        }
    } else {
        let c = chars[0];
        let rest = chars.subrange(1, chars.len() as int);
        if !in_q && (c == '"' || c == '\'') {
            seq![seq![c]] + tokenize_rec(rest, cur, true, c)
        } else if in_q && c == q {
            seq![cur, seq![c]] + tokenize_rec(rest, Seq::empty(), false, q)
        } else if !in_q && is_separator(c) {
            (if cur.len() > 0 {
                seq![cur]
            } else {
                Seq::empty()
            }) + (if c != ' ' {
                seq![seq![c]]
            } else {
                Seq::empty()
            }) + tokenize_rec(rest, Seq::empty(), false, q)
        } else {
            tokenize_rec(rest, cur.push(c), in_q, q)
        }
    }
}

/// The token sequence of a statement: quoted runs are kept whole and
/// bracketed by quote tokens, separators split everything else, and
/// spaces are discarded.
pub open spec fn tokenize_spec(text: Seq<char>) -> Seq<Seq<char>> {
    tokenize_rec(text, Seq::empty(), false, '\u{0}')
}

/// Splits a statement into its tokens; see [`tokenize_spec`].
pub fn tokenizer(text: String) -> (tokens: Vec<String>)
    ensures
        tokens.deep_view() == tokenize_spec(text@),
{
    let s = text.as_str();
    let n = s.unicode_len();
    let mut tokens: Vec<String> = Vec::new();
    let mut cur = String::new();
    let mut in_q: bool = false;
    let mut q: char = '\u{0}';
    let mut i: usize = 0;
    proof {
        assert(s@.subrange(0, n as int) =~= s@);
        assert(tokens.deep_view() + tokenize_rec(s@, cur@, false, '\u{0}') =~= tokenize_spec(
            text@,
        ));
    }
    while i < n
        invariant
            0 <= i <= n,
            n == s@.len(),
            tokens.deep_view() + tokenize_rec(s@.subrange(i as int, n as int), cur@, in_q, q)
                == tokenize_spec(text@),
        decreases n - i,
    {
        let ghost rem = s@.subrange(i as int, n as int);
        let ghost rest = s@.subrange(i + 1, n as int);
        let ghost ot = tokens.deep_view();
        let ghost oc = cur@;
        let ghost oq = q;
        proof {
            assert(rem[0] == s@[i as int]);
            assert(rem.subrange(1, rem.len() as int) =~= rest);
        }
        let c = s.get_char(i);
        if !in_q && (c == '"' || c == '\'') {
            let mut qt = String::new();
            push_char(&mut qt, c);
            proof {
                assert(qt@ =~= seq![c]);
            }
            tokens.push(qt);
            in_q = true;
            q = c;
            proof {
                assert(tokens.deep_view() =~= ot.push(seq![c]));
                assert(tokenize_rec(rem, oc, false, oq) == seq![seq![c]] + tokenize_rec(
                    rest,
                    oc,
                    true,
                    c,
                ));
                assert(ot.push(seq![c]) + tokenize_rec(rest, oc, true, c) =~= ot + (seq![seq![c]]
                    + tokenize_rec(rest, oc, true, c)));
            }
        } else if in_q && c == q {
            let mut qt = String::new();
            push_char(&mut qt, c);
            proof {
                assert(qt@ =~= seq![c]);
            }
            tokens.push(cur);
            tokens.push(qt);
            cur = String::new();
            in_q = false;
            proof {
                assert(tokens.deep_view() =~= ot.push(oc).push(seq![c]));
                assert(tokenize_rec(rem, oc, true, q) == seq![oc, seq![c]] + tokenize_rec(
                    rest,
                    Seq::empty(),
                    false,
                    q,
                ));
                assert(ot.push(oc).push(seq![c]) + tokenize_rec(rest, Seq::empty(), false, q) =~= ot
                    + (seq![oc, seq![c]] + tokenize_rec(rest, Seq::empty(), false, q)));
            }
        } else if !in_q && (c == ' ' || c == ',' || c == ';' || c == '(' || c == ')') {
            if cur.unicode_len() > 0 {
                tokens.push(cur);
                cur = String::new();
            }
            if c != ' ' {
                let mut st = String::new();
                push_char(&mut st, c);
                proof {
                    assert(st@ =~= seq![c]);
                }
                tokens.push(st);
            }
            proof {
                let flushed: Seq<Seq<char>> = if oc.len() > 0 {
                    seq![oc]
                } else {
                    Seq::empty()
                };
                let sep: Seq<Seq<char>> = if c != ' ' {
                    seq![seq![c]]
                } else {
                    Seq::empty()
                };
                assert(tokens.deep_view() =~= ot + flushed + sep);
                assert(tokenize_rec(rem, oc, false, q) == flushed + sep + tokenize_rec(
                    rest,
                    Seq::empty(),
                    false,
                    q,
                ));
                assert(cur@ =~= Seq::<char>::empty());
                assert((ot + flushed + sep) + tokenize_rec(rest, Seq::empty(), false, q) =~= ot + (
                flushed + sep + tokenize_rec(rest, Seq::empty(), false, q)));
            }
        } else {
            push_char(&mut cur, c);
            proof {
                assert(tokenize_rec(rem, oc, in_q, q) == tokenize_rec(rest, oc.push(c), in_q, q));
            }
        }
        i = i + 1;
        proof {
            assert(s@.subrange(i as int, n as int) =~= rest);
        }
    }
    proof {
        assert(s@.subrange(n as int, n as int) =~= Seq::<char>::empty());
    }
    let ghost ot = tokens.deep_view();
    let ghost oc = cur@;
    if cur.unicode_len() > 0 {
        tokens.push(cur);
        proof {
            assert(tokens.deep_view() =~= ot.push(oc));
            assert(ot.push(oc) =~= ot + seq![oc]);
            assert(tokenize_rec(Seq::empty(), oc, in_q, q) == seq![oc]);
        }
    } else {
        proof {
            assert(tokenize_rec(Seq::empty(), oc, in_q, q) =~= Seq::<Seq<char>>::empty());
            assert(ot + Seq::<Seq<char>>::empty() =~= ot);
        }
    }
    tokens
}

// ---------------------------------------------------------------------------
// Commands
// ---------------------------------------------------------------------------

/// One compiled statement.
#[derive(Debug, PartialEq, Eq)]
pub enum Command {
    Select(SelectCommand),
    Create(CreateCommand),
    Insert(InsertCommand),
    Delete(DeleteCommand),
}

/// CREATE TABLE: the definition to persist.
#[derive(Debug, PartialEq, Eq)]
pub struct CreateCommand {
    pub table_definition: TableDefinition,
}

/// DELETE FROM: the table and the optional predicate.
#[derive(Debug, PartialEq, Eq)]
pub struct DeleteCommand {
    pub table_name: String,
    pub logic_expression: Option<LogicExpression>,
}

/// INSERT INTO: the table and the column/value pairs, keyed by column
/// name; a later pair for the same name replaces the earlier one.
#[derive(Debug, PartialEq, Eq)]
pub struct InsertCommand {
    pub table_name: String,
    pub items: Vec<InsertItem>,
}

/// SELECT: the table, the requested column names (`*` selects all) and
/// the optional predicate.
#[derive(Debug, PartialEq, Eq)]
pub struct SelectCommand {
    pub table_name: String,
    pub column_names: Vec<String>,
    pub logic_expression: Option<LogicExpression>,
}

/// One column/value pair of an INSERT.
#[derive(Debug, PartialEq, Eq, Clone)]
pub struct InsertItem {
    pub column_name: String,
    pub column_value: String,
}

/// Mathematical image of an [`InsertItem`].
pub struct InsertItemV {
    pub column_name: Seq<char>,
    pub column_value: Seq<char>,
}

impl View for InsertItem {
    type V = InsertItemV;

    open spec fn view(&self) -> InsertItemV {
        InsertItemV { column_name: self.column_name@, column_value: self.column_value@ }
    }
}

impl DeepView for InsertItem {
    type V = InsertItemV;

    open spec fn deep_view(&self) -> InsertItemV {
        self.view()
    }
}

/// Mathematical image of a [`CreateCommand`].
pub struct CreateCommandV {
    pub table_definition: TableDefV,
}

/// Mathematical image of a [`DeleteCommand`].
pub struct DeleteCommandV {
    pub table_name: Seq<char>,
    pub logic_expression: Option<LogicExprV>,
}

/// Mathematical image of an [`InsertCommand`].
pub struct InsertCommandV {
    pub table_name: Seq<char>,
    pub items: Seq<InsertItemV>,
}

/// Mathematical image of a [`SelectCommand`].
pub struct SelectCommandV {
    pub table_name: Seq<char>,
    pub column_names: Seq<Seq<char>>,
    pub logic_expression: Option<LogicExprV>,
}

/// Mathematical image of a [`Command`].
pub enum CommandV {
    Select(SelectCommandV),
    Create(CreateCommandV),
    Insert(InsertCommandV),
    Delete(DeleteCommandV),
}

impl View for CreateCommand {
    type V = CreateCommandV;

    open spec fn view(&self) -> CreateCommandV {
        CreateCommandV { table_definition: self.table_definition@ }
    }
}

impl View for DeleteCommand {
    type V = DeleteCommandV;

    open spec fn view(&self) -> DeleteCommandV {
        DeleteCommandV {
            table_name: self.table_name@,
            logic_expression: match &self.logic_expression {
                Some(le) => Some(le@),
                None => None,
            },
        }
    }
}

impl View for InsertCommand {
    type V = InsertCommandV;

    open spec fn view(&self) -> InsertCommandV {
        InsertCommandV { table_name: self.table_name@, items: self.items.deep_view() }
    }
}

impl View for SelectCommand {
    type V = SelectCommandV;

    open spec fn view(&self) -> SelectCommandV {
        SelectCommandV {
            table_name: self.table_name@,
            column_names: self.column_names.deep_view(),
            logic_expression: match &self.logic_expression {
                Some(le) => Some(le@),
                None => None,
            },
        }
    }
}

impl View for Command {
    type V = CommandV;

    open spec fn view(&self) -> CommandV {
        match self {
            Command::Select(c) => CommandV::Select(c@),
            Command::Create(c) => CommandV::Create(c@),
            Command::Insert(c) => CommandV::Insert(c@),
            Command::Delete(c) => CommandV::Delete(c@),
        }
    }
}

// ---------------------------------------------------------------------------
// Value expression parser
// ---------------------------------------------------------------------------

/// State of the value-expression machine.
pub enum VexStateV {
    /// Expecting a quote, a numeral, or a column or function name.
    Start,
    /// Inside a quoted literal opened by `q`.
    Str { q: Seq<char> },
    /// Expecting the closing quote of `value`.
    EndQuote { q: Seq<char>, value: ValueExprV },
    /// Saw a bare name: a `(` makes it a function call, anything else
    /// ends the expression without consuming the token.
    FnOrEnd { name: Seq<char> },
    /// Expecting the `)` of a parameterless function call.
    FnClose { name: Seq<char> },
}

/// The value-expression machine: consumes one logical unit starting at
/// token `i` and yields the expression with the index of the next
/// unconsumed token.
pub open spec fn vexpr_rec(toks: Seq<Seq<char>>, i: int, st: VexStateV) -> Result<
    (ValueExprV, int),
    ErrorV,
>
    decreases toks.len() - i,
{
    if i < 0 || i >= toks.len() {
        match st {
            VexStateV::FnOrEnd { name } => if name.len() != 0 {
                Ok((ValueExprV::ColumnName(name), i))
            } else {
                Err(ErrorV::UnexpectedEnd)
            },
            VexStateV::FnClose { name } => if name.len() != 0 {
                Ok((ValueExprV::ColumnName(name), i))
            } else {
                Err(ErrorV::UnexpectedEnd)
            },
            _ => Err(ErrorV::UnexpectedEnd),
        }
    } else {
        let t = toks[i];
        match st {
            VexStateV::Start => if t == "'"@ || t == "\""@ {
                vexpr_rec(toks, i + 1, VexStateV::Str { q: t })
            } else {
                match numeral_class(t) {
                    NumeralClass::Value(v) => Ok(
                        (ValueExprV::DataValue(DataValueV::U8Value(v)), i + 1),
                    ),
                    _ => vexpr_rec(toks, i + 1, VexStateV::FnOrEnd { name: t }),
                }
            },
            VexStateV::Str { q } => vexpr_rec(
                toks,
                i + 1,
                VexStateV::EndQuote { q, value: ValueExprV::DataValue(DataValueV::StringValue(t)) },
            ),
            VexStateV::EndQuote { q, value } => if t == q {
                Ok((value, i + 1))
            } else {
                Err(ErrorV::SyntaxError(t))
            },
            VexStateV::FnOrEnd { name } => if t == "("@ {
                vexpr_rec(toks, i + 1, VexStateV::FnClose { name })
            } else {
                Ok((ValueExprV::ColumnName(name), i))
            },
            VexStateV::FnClose { name } => if t == ")"@ {
                Ok(
                    (
                        ValueExprV::FunctionCall(
                            FunctionCallV { function_name: name, parameters: Seq::empty() },
                        ),
                        i + 1,
                    ),
                )
            } else {
                Err(ErrorV::SyntaxError(t))
            },
        }
    }
}

/// What parsing one value expression at token `i` yields.
pub open spec fn parse_value_expression_spec(toks: Seq<Seq<char>>, i: int) -> Result<
    (ValueExprV, int),
    ErrorV,
> {
    vexpr_rec(toks, i, VexStateV::Start)
}

/// The index a successful value-expression parse leaves off at stays
/// within the token sequence and never moves backwards.
pub proof fn lemma_vexpr_rec_bounds(toks: Seq<Seq<char>>, i: int, st: VexStateV)
    requires
        0 <= i <= toks.len(),
        vexpr_rec(toks, i, st) is Ok,
    ensures
        i <= vexpr_rec(toks, i, st)->Ok_0.1 <= toks.len(),
    decreases toks.len() - i,
{
    if i < toks.len() {
        let t = toks[i];
        match st {
            VexStateV::Start => {
                if t == "'"@ || t == "\""@ {
                    lemma_vexpr_rec_bounds(toks, i + 1, VexStateV::Str { q: t });
                } else {
                    match numeral_class(t) {
                        NumeralClass::Value(_) => {},
                        _ => {
                            lemma_vexpr_rec_bounds(toks, i + 1, VexStateV::FnOrEnd { name: t });
                        },
                    }
                }
            },
            VexStateV::Str { q } => {
                lemma_vexpr_rec_bounds(
                    toks,
                    i + 1,
                    VexStateV::EndQuote {
                        q,
                        value: ValueExprV::DataValue(DataValueV::StringValue(t)),
                    },
                );
            },
            VexStateV::EndQuote { .. } => {},
            VexStateV::FnOrEnd { name } => {
                if t == "("@ {
                    lemma_vexpr_rec_bounds(toks, i + 1, VexStateV::FnClose { name });
                }
            },
            VexStateV::FnClose { .. } => {},
        }
    }
}

// ---------------------------------------------------------------------------
// Logic expression parser
// ---------------------------------------------------------------------------

/// The operator a token denotes, if any. Operators are matched exactly,
/// keywords in upper case.
pub open spec fn operator_of(t: Seq<char>) -> Option<LogicalOperator> {
    if t == "OR"@ {
        Some(LogicalOperator::Or)
    } else if t == "AND"@ {
        Some(LogicalOperator::And)
    } else if t == "="@ {
        Some(LogicalOperator::Equal)
    } else if t == ">"@ {
        Some(LogicalOperator::GreaterThan)
    } else if t == "<"@ {
        Some(LogicalOperator::LessThan)
    } else if t == ">="@ {
        Some(LogicalOperator::GreaterThanEqualTo)
    } else if t == "<="@ {
        Some(LogicalOperator::LessThanEqualTo)
    } else {
        None
    }
}

/// State of the logic-expression machine. A side is a quoted string
/// (single quotes only), a byte numeral, or a column name; between the
/// sides stands exactly one operator.
pub enum LexStateV {
    /// Expecting the left-hand side.
    First,
    /// Inside the left-hand quoted literal.
    FirstStr,
    /// Expecting the closing quote of the left-hand literal.
    FirstEndQ { left: ValueExprV },
    /// Expecting the operator.
    OpState { left: ValueExprV },
    /// Expecting the right-hand side.
    Second { left: ValueExprV, op: LogicalOperator },
    /// Inside the right-hand quoted literal.
    SecondStr { left: ValueExprV, op: LogicalOperator },
    /// Expecting the closing quote of the right-hand literal, which ends
    /// the expression.
    SecondEndQ { left: ValueExprV, op: LogicalOperator, right: ValueExprV },
}

/// The value a quoted-literal token denotes: a lone quote token reads as
/// the empty string.
pub open spec fn quoted_value(t: Seq<char>) -> ValueExprV {
    if t == "'"@ {
        ValueExprV::DataValue(DataValueV::StringValue(Seq::empty()))
    } else {
        ValueExprV::DataValue(DataValueV::StringValue(t))
    }
}

/// The logic-expression machine: consumes `left operator right` starting
/// at token `i` and yields the predicate with the index of the next
/// unconsumed token.
pub open spec fn lex_rec(toks: Seq<Seq<char>>, i: int, st: LexStateV) -> Result<
    (LogicExprV, int),
    ErrorV,
>
    decreases toks.len() - i,
{
    if i < 0 || i >= toks.len() {
        Err(ErrorV::UnexpectedEnd)
    } else {
        let t = toks[i];
        match st {
            LexStateV::First => if t == "'"@ {
                lex_rec(toks, i + 1, LexStateV::FirstStr)
            } else {
                match numeral_class(t) {
                    NumeralClass::Value(v) => lex_rec(
                        toks,
                        i + 1,
                        LexStateV::OpState { left: ValueExprV::DataValue(DataValueV::U8Value(v)) },
                    ),
                    _ => lex_rec(
                        toks,
                        i + 1,
                        LexStateV::OpState { left: ValueExprV::ColumnName(t) },
                    ),
                }
            },
            LexStateV::FirstStr => lex_rec(
                toks,
                i + 1,
                LexStateV::FirstEndQ { left: quoted_value(t) },
            ),
            LexStateV::FirstEndQ { left } => if t == "'"@ {
                lex_rec(toks, i + 1, LexStateV::OpState { left })
            } else {
                Err(ErrorV::SyntaxError(t))
            },
            LexStateV::OpState { left } => match operator_of(t) {
                Some(op) => lex_rec(toks, i + 1, LexStateV::Second { left, op }),
                None => Err(ErrorV::SyntaxError(t)),
            },
            LexStateV::Second { left, op } => if t == "'"@ {
                lex_rec(toks, i + 1, LexStateV::SecondStr { left, op })
            } else {
                match numeral_class(t) {
                    NumeralClass::Value(v) => Ok(
                        (
                            LogicExprV {
                                left_hand: left,
                                right_hand: ValueExprV::DataValue(DataValueV::U8Value(v)),
                                operator: op,
                            },
                            i + 1,
                        ),
                    ),
                    _ => Ok(
                        (
                            LogicExprV {
                                left_hand: left,
                                right_hand: ValueExprV::ColumnName(t),
                                operator: op,
                            },
                            i + 1,
                        ),
                    ),
                }
            },
            LexStateV::SecondStr { left, op } => lex_rec(
                toks,
                i + 1,
                LexStateV::SecondEndQ { left, op, right: quoted_value(t) },
            ),
            LexStateV::SecondEndQ { left, op, right } => if t == "'"@ {
                Ok((LogicExprV { left_hand: left, right_hand: right, operator: op }, i + 1))
            } else {
                Err(ErrorV::SyntaxError(t))
            },
        }
    }
}

/// What parsing one predicate at token `i` yields.
pub open spec fn parse_logic_expression_spec(toks: Seq<Seq<char>>, i: int) -> Result<
    (LogicExprV, int),
    ErrorV,
> {
    lex_rec(toks, i, LexStateV::First)
}

/// Executable state of the logic-expression machine.
enum LexState {
    First,
    FirstStr,
    FirstEndQ { left: ValueExpression },
    OpState { left: ValueExpression },
    Second { left: ValueExpression, op: LogicalOperator },
    SecondStr { left: ValueExpression, op: LogicalOperator },
    SecondEndQ { left: ValueExpression, op: LogicalOperator, right: ValueExpression },
}

impl View for LexState {
    type V = LexStateV;

    closed spec fn view(&self) -> LexStateV {
        match self {
            LexState::First => LexStateV::First,
            LexState::FirstStr => LexStateV::FirstStr,
            LexState::FirstEndQ { left } => LexStateV::FirstEndQ { left: left@ },
            LexState::OpState { left } => LexStateV::OpState { left: left@ },
            LexState::Second { left, op } => LexStateV::Second { left: left@, op: *op },
            LexState::SecondStr { left, op } => LexStateV::SecondStr { left: left@, op: *op },
            LexState::SecondEndQ { left, op, right } => LexStateV::SecondEndQ {
                left: left@,
                op: *op,
                right: right@,
            },
        }
    }
}

/// The operator a token denotes, if any.
fn operator_exec(t: &str) -> (r: Option<LogicalOperator>)
    ensures
        r == operator_of(t@),
{
    if str_eq(t, "OR") {
        Some(LogicalOperator::Or)
    } else if str_eq(t, "AND") {
        Some(LogicalOperator::And)
    } else if str_eq(t, "=") {
        Some(LogicalOperator::Equal)
    } else if str_eq(t, ">") {
        Some(LogicalOperator::GreaterThan)
    } else if str_eq(t, "<") {
        Some(LogicalOperator::LessThan)
    } else if str_eq(t, ">=") {
        Some(LogicalOperator::GreaterThanEqualTo)
    } else if str_eq(t, "<=") {
        Some(LogicalOperator::LessThanEqualTo)
    } else {
        None
    }
}

/// The value a quoted-literal token denotes.
fn quoted_value_exec(t: &str) -> (r: ValueExpression)
    ensures
        r@ == quoted_value(t@),
{
    if str_eq(t, "'") {
        ValueExpression::DataValue(DataValue::StringValue(String::new()))
    } else {
        ValueExpression::DataValue(DataValue::StringValue(String::from_str(t)))
    }
}

// ---------------------------------------------------------------------------
// SELECT parser
// ---------------------------------------------------------------------------

/// State of the SELECT machine.
pub enum SelStateV {
    /// Expecting a column name.
    SelCol { cols: Seq<Seq<char>> },
    /// Expecting a comma (more columns) or the FROM keyword.
    SelCommaFrom { cols: Seq<Seq<char>> },
    /// Expecting the table name.
    SelTable { cols: Seq<Seq<char>> },
    /// Expecting WHERE (a predicate follows, then the semicolon) or the
    /// semicolon itself.
    SelWhere { cols: Seq<Seq<char>>, table: Seq<char> },
}

/// The SELECT machine: consumes `columns FROM table [WHERE predicate] ;`
/// starting at token `i`.
pub open spec fn sel_rec(toks: Seq<Seq<char>>, i: int, st: SelStateV) -> Result<
    (SelectCommandV, int),
    ErrorV,
>
    decreases toks.len() - i,
{
    if i < 0 || i >= toks.len() {
        Err(ErrorV::UnexpectedEnd)
    } else {
        let t = toks[i];
        match st {
            SelStateV::SelCol { cols } => if eq_ignore_case(t, "FROM"@) {
                Err(ErrorV::SyntaxError(t))
            } else {
                sel_rec(toks, i + 1, SelStateV::SelCommaFrom { cols: cols.push(t) })
            },
            SelStateV::SelCommaFrom { cols } => if t == ","@ {
                sel_rec(toks, i + 1, SelStateV::SelCol { cols })
            } else if eq_ignore_case(t, "FROM"@) {
                sel_rec(toks, i + 1, SelStateV::SelTable { cols })
            } else {
                Err(ErrorV::SyntaxError(t))
            },
            SelStateV::SelTable { cols } => sel_rec(
                toks,
                i + 1,
                SelStateV::SelWhere { cols, table: t },
            ),
            SelStateV::SelWhere { cols, table } => if t == ";"@ {
                Ok(
                    (
                        SelectCommandV {
                            table_name: table,
                            column_names: cols,
                            logic_expression: None,
                        },
                        i + 1,
                    ),
                )
            } else if t == "WHERE"@ {
                match lex_rec(toks, i + 1, LexStateV::First) {
                    Err(e) => Err(e),
                    Ok((le, j)) => if j >= toks.len() {
                        Err(ErrorV::UnexpectedEnd)
                    } else if toks[j] == ";"@ {
                        Ok(
                            (
                                SelectCommandV {
                                    table_name: table,
                                    column_names: cols,
                                    logic_expression: Some(le),
                                },
                                j + 1,
                            ),
                        )
                    } else {
                        Err(ErrorV::SyntaxError(toks[j]))
                    },
                }
            } else {
                Err(ErrorV::SyntaxError(t))
            },
        }
    }
}

/// What parsing a SELECT's tail (after the keyword) at token `i` yields.
pub open spec fn parse_select_spec(toks: Seq<Seq<char>>, i: int) -> Result<
    (SelectCommandV, int),
    ErrorV,
> {
    sel_rec(toks, i, SelStateV::SelCol { cols: Seq::empty() })
}

/// Executable state of the SELECT machine.
enum SelState {
    SelCol { cols: Vec<String> },
    SelCommaFrom { cols: Vec<String> },
    SelTable { cols: Vec<String> },
    SelWhere { cols: Vec<String>, table: String },
}

impl View for SelState {
    type V = SelStateV;

    closed spec fn view(&self) -> SelStateV {
        match self {
            SelState::SelCol { cols } => SelStateV::SelCol { cols: cols.deep_view() },
            SelState::SelCommaFrom { cols } => SelStateV::SelCommaFrom { cols: cols.deep_view() },
            SelState::SelTable { cols } => SelStateV::SelTable { cols: cols.deep_view() },
            SelState::SelWhere { cols, table } => SelStateV::SelWhere {
                cols: cols.deep_view(),
                table: table@,
            },
        }
    }
}

// ---------------------------------------------------------------------------
// DELETE parser
// ---------------------------------------------------------------------------

/// State of the DELETE machine.
pub enum DelStateV {
    /// Expecting the FROM keyword.
    DelFrom,
    /// Expecting the table name.
    DelTable,
    /// Expecting WHERE (a predicate follows, then the semicolon) or the
    /// semicolon itself.
    DelWhere { table: Seq<char> },
}

/// The DELETE machine: consumes `FROM table [WHERE predicate] ;`
/// starting at token `i`.
pub open spec fn del_rec(toks: Seq<Seq<char>>, i: int, st: DelStateV) -> Result<
    (DeleteCommandV, int),
    ErrorV,
>
    decreases toks.len() - i,
{
    if i < 0 || i >= toks.len() {
        Err(ErrorV::UnexpectedEnd)
    } else {
        let t = toks[i];
        match st {
            DelStateV::DelFrom => if eq_ignore_case(t, "FROM"@) {
                del_rec(toks, i + 1, DelStateV::DelTable)
            } else {
                Err(ErrorV::SyntaxError(t))
            },
            DelStateV::DelTable => del_rec(toks, i + 1, DelStateV::DelWhere { table: t }),
            DelStateV::DelWhere { table } => if t == ";"@ {
                Ok((DeleteCommandV { table_name: table, logic_expression: None }, i + 1))
            } else if t == "WHERE"@ {
                match lex_rec(toks, i + 1, LexStateV::First) {
                    Err(e) => Err(e),
                    Ok((le, j)) => if j >= toks.len() {
                        Err(ErrorV::UnexpectedEnd)
                    } else if toks[j] == ";"@ {
                        Ok(
                            (
                                DeleteCommandV { table_name: table, logic_expression: Some(le) },
                                j + 1,
                            ),
                        )
                    } else {
                        Err(ErrorV::SyntaxError(toks[j]))
                    },
                }
            } else {
                Err(ErrorV::SyntaxError(t))
            },
        }
    }
}

/// What parsing a DELETE's tail (after the keyword) at token `i` yields.
pub open spec fn parse_delete_spec(toks: Seq<Seq<char>>, i: int) -> Result<
    (DeleteCommandV, int),
    ErrorV,
> {
    del_rec(toks, i, DelStateV::DelFrom)
}

/// Executable state of the DELETE machine.
enum DelState {
    DelFrom,
    DelTable,
    DelWhere { table: String },
}

impl View for DelState {
    type V = DelStateV;

    closed spec fn view(&self) -> DelStateV {
        match self {
            DelState::DelFrom => DelStateV::DelFrom,
            DelState::DelTable => DelStateV::DelTable,
            DelState::DelWhere { table } => DelStateV::DelWhere { table: table@ },
        }
    }
}

// ---------------------------------------------------------------------------
// CREATE parser
// ---------------------------------------------------------------------------

/// State of the CREATE machine.
pub enum CreStateV {
    /// Expecting the object kind; only TABLE is accepted.
    CrObject,
    /// Expecting the table name.
    CrTableName,
    /// Expecting the `(` of the column list.
    CrLParen { table: Seq<char> },
    /// Expecting a column name.
    CrColName { table: Seq<char>, defs: Seq<ColumnDefV> },
    /// Expecting the column's datatype keyword.
    CrColType { table: Seq<char>, defs: Seq<ColumnDefV>, col_name: Seq<char> },
    /// Expecting the column's declared width.
    CrColLen { table: Seq<char>, defs: Seq<ColumnDefV>, col_name: Seq<char>, dtype: Datatype },
    /// Expecting a comma (more columns) or the `)` ending the list.
    CrColEnd {
        table: Seq<char>,
        defs: Seq<ColumnDefV>,
        col_name: Seq<char>,
        dtype: Datatype,
        length: nat,
    },
    /// Expecting the final semicolon.
    CrSemi { table: Seq<char>, defs: Seq<ColumnDefV> },
}

/// The CREATE machine: consumes
/// `TABLE name ( column type [width] (, column type [width])* ) ;`
/// starting at token `i`.
pub open spec fn cre_rec(toks: Seq<Seq<char>>, i: int, st: CreStateV) -> Result<
    (CreateCommandV, int),
    ErrorV,
>
    decreases toks.len() - i,
{
    if i < 0 || i >= toks.len() {
        Err(ErrorV::UnexpectedEnd)
    } else {
        let t = toks[i];
        match st {
            CreStateV::CrObject => if eq_ignore_case(t, "TABLE"@) {
                cre_rec(toks, i + 1, CreStateV::CrTableName)
            } else {
                Err(ErrorV::SyntaxError(t))
            },
            CreStateV::CrTableName => cre_rec(toks, i + 1, CreStateV::CrLParen { table: t }),
            CreStateV::CrLParen { table } => if t == "("@ {
                cre_rec(toks, i + 1, CreStateV::CrColName { table, defs: Seq::empty() })
            } else {
                Err(ErrorV::SyntaxError(t))
            },
            CreStateV::CrColName { table, defs } => cre_rec(
                toks,
                i + 1,
                CreStateV::CrColType { table, defs, col_name: t },
            ),
            CreStateV::CrColType { table, defs, col_name } => match parse_datatype_spec(t) {
                Err(e) => Err(e),
                Ok(d) => if d is CharacterVarying {
                    cre_rec(toks, i + 1, CreStateV::CrColLen { table, defs, col_name, dtype: d })
                } else {
                    cre_rec(
                        toks,
                        i + 1,
                        CreStateV::CrColEnd { table, defs, col_name, dtype: d, length: 0 },
                    )
                },
            },
            CreStateV::CrColLen { table, defs, col_name, dtype } => match wide_numeral_class(t) {
                WideNumeralClass::Value(v) => cre_rec(
                    toks,
                    i + 1,
                    CreStateV::CrColEnd { table, defs, col_name, dtype, length: v as nat },
                ),
                WideNumeralClass::TooLarge => Err(ErrorV::ValueOutOfRange(t)),
                WideNumeralClass::Malformed => Err(ErrorV::NotANumber(t)),
            },
            CreStateV::CrColEnd { table, defs, col_name, dtype, length } => {
                let def = ColumnDefV { name: col_name, data_type: dtype, length };
                if t == ","@ {
                    cre_rec(toks, i + 1, CreStateV::CrColName { table, defs: defs.push(def) })
                } else if t == ")"@ {
                    cre_rec(toks, i + 1, CreStateV::CrSemi { table, defs: defs.push(def) })
                } else {
                    Err(ErrorV::SyntaxError(t))
                }
            },
            CreStateV::CrSemi { table, defs } => if t == ";"@ {
                Ok(
                    (
                        CreateCommandV {
                            table_definition: TableDefV { name: table, column_defs: defs },
                        },
                        i + 1,
                    ),
                )
            } else {
                Err(ErrorV::SyntaxError(t))
            },
        }
    }
}

/// What parsing a CREATE's tail (after the keyword) at token `i` yields.
pub open spec fn parse_create_spec(toks: Seq<Seq<char>>, i: int) -> Result<
    (CreateCommandV, int),
    ErrorV,
> {
    cre_rec(toks, i, CreStateV::CrObject)
}

/// Executable state of the CREATE machine.
enum CreState {
    CrObject,
    CrTableName,
    CrLParen { table: String },
    CrColName { table: String, defs: Vec<ColumnDefinition> },
    CrColType { table: String, defs: Vec<ColumnDefinition>, col_name: String },
    CrColLen { table: String, defs: Vec<ColumnDefinition>, col_name: String, dtype: Datatype },
    CrColEnd {
        table: String,
        defs: Vec<ColumnDefinition>,
        col_name: String,
        dtype: Datatype,
        length: usize,
    },
    CrSemi { table: String, defs: Vec<ColumnDefinition> },
}

impl View for CreState {
    type V = CreStateV;

    closed spec fn view(&self) -> CreStateV {
        match self {
            CreState::CrObject => CreStateV::CrObject,
            CreState::CrTableName => CreStateV::CrTableName,
            CreState::CrLParen { table } => CreStateV::CrLParen { table: table@ },
            CreState::CrColName { table, defs } => CreStateV::CrColName {
                table: table@,
                defs: defs.deep_view(),
            },
            CreState::CrColType { table, defs, col_name } => CreStateV::CrColType {
                table: table@,
                defs: defs.deep_view(),
                col_name: col_name@,
            },
            CreState::CrColLen { table, defs, col_name, dtype } => CreStateV::CrColLen {
                table: table@,
                defs: defs.deep_view(),
                col_name: col_name@,
                dtype: *dtype,
            },
            CreState::CrColEnd { table, defs, col_name, dtype, length } => CreStateV::CrColEnd {
                table: table@,
                defs: defs.deep_view(),
                col_name: col_name@,
                dtype: *dtype,
                length: *length as nat,
            },
            CreState::CrSemi { table, defs } => CreStateV::CrSemi {
                table: table@,
                defs: defs.deep_view(),
            },
        }
    }
}

// ---------------------------------------------------------------------------
// INSERT parser
// ---------------------------------------------------------------------------

/// A successful value-expression parse starting from scratch consumes at
/// least one token.
pub proof fn lemma_vexpr_progress(toks: Seq<Seq<char>>, i: int)
    requires
        0 <= i < toks.len(),
        vexpr_rec(toks, i, VexStateV::Start) is Ok,
    ensures
        i + 1 <= vexpr_rec(toks, i, VexStateV::Start)->Ok_0.1 <= toks.len(),
{
    let t = toks[i];
    if t == "'"@ || t == "\""@ {
        lemma_vexpr_rec_bounds(toks, i + 1, VexStateV::Str { q: t });
    } else {
        match numeral_class(t) {
            NumeralClass::Value(_) => {},
            _ => {
                lemma_vexpr_rec_bounds(toks, i + 1, VexStateV::FnOrEnd { name: t });
            },
        }
    }
}

/// The text an INSERT stores for a literal: a string's characters, a
/// byte's decimal numeral, a boolean's upper-case keyword.
pub open spec fn literal_text(dv: DataValueV) -> Seq<char> {
    match dv {
        DataValueV::StringValue(s) => s,
        DataValueV::U8Value(v) => u8_dec_str(v),
        DataValueV::BoolValue(b) => if b {
            "TRUE"@
        } else {
            "FALSE"@
        },
    }
}

/// Index of the item with this column name, or -1 when there is none.
pub open spec fn find_item(items: Seq<InsertItemV>, name: Seq<char>) -> int
    decreases items.len(),
{
    if items.len() == 0 {
        -1
    } else if items[0].column_name == name {
        0
    } else {
        let r = find_item(items.subrange(1, items.len() as int), name);
        if r < 0 {
            -1
        } else {
            r + 1
        }
    }
}

/// `find_item` yields the first match, and -1 exactly when nothing
/// matches.
pub proof fn lemma_find_item_at(items: Seq<InsertItemV>, name: Seq<char>, i: int)
    requires
        0 <= i <= items.len(),
        forall|j: int| 0 <= j < i ==> (#[trigger] items[j]).column_name != name,
        i < items.len() ==> items[i].column_name == name,
    ensures
        find_item(items, name) == if i < items.len() {
            i
        } else {
            -1
        },
    decreases i,
{
    if items.len() == 0 {
    } else if i == 0 {
    } else {
        let rest = items.subrange(1, items.len() as int);
        lemma_find_item_at(rest, name, i - 1);
    }
}

/// Adds one column/value pair: an existing item of the same name is
/// replaced in place, otherwise the pair is appended.
pub open spec fn upsert_item(items: Seq<InsertItemV>, name: Seq<char>, value: Seq<char>) -> Seq<
    InsertItemV,
> {
    let item = InsertItemV { column_name: name, column_value: value };
    let k = find_item(items, name);
    if k >= 0 {
        items.update(k, item)
    } else {
        items.push(item)
    }
}

/// The item list of an INSERT: the first `k` column/value pairs, paired
/// positionally, names and values trimmed of ASCII whitespace, keyed by
/// name with the later pair replacing the earlier.
pub open spec fn insert_items_rec(cols: Seq<Seq<char>>, vals: Seq<Seq<char>>, k: int) -> Seq<
    InsertItemV,
>
    decreases k,
{
    if k <= 0 {
        Seq::empty()
    } else {
        upsert_item(
            insert_items_rec(cols, vals, k - 1),
            trim_spec(TrimKind::Whitespace, cols[k - 1]),
            trim_spec(TrimKind::Whitespace, vals[k - 1]),
        )
    }
}

/// The item list of an INSERT over all positionally-paired columns and
/// values; an unpaired surplus on either side is dropped.
pub open spec fn insert_items_spec(cols: Seq<Seq<char>>, vals: Seq<Seq<char>>) -> Seq<
    InsertItemV,
> {
    insert_items_rec(
        cols,
        vals,
        if cols.len() <= vals.len() {
            cols.len() as int
        } else {
            vals.len() as int
        },
    )
}

/// State of the INSERT machine.
pub enum InsStateV {
    /// Expecting the INTO keyword.
    InsInto,
    /// Expecting the table name.
    InsTable,
    /// Expecting the `(` of the column list.
    InsLParen { table: Seq<char> },
    /// Expecting a column name.
    InsCol { table: Seq<char>, cols: Seq<Seq<char>>, vals: Seq<Seq<char>> },
    /// Expecting a comma (more columns) or the `)` ending the list.
    InsColEnd { table: Seq<char>, cols: Seq<Seq<char>>, vals: Seq<Seq<char>>, col: Seq<char> },
    /// Expecting the VALUES keyword.
    InsValuesKw { table: Seq<char>, cols: Seq<Seq<char>>, vals: Seq<Seq<char>> },
    /// Expecting the `(` of the value list.
    InsValsLParen { table: Seq<char>, cols: Seq<Seq<char>>, vals: Seq<Seq<char>> },
    /// Expecting a literal value, parsed by the value-expression machine.
    InsVal { table: Seq<char>, cols: Seq<Seq<char>>, vals: Seq<Seq<char>> },
    /// Expecting a comma (more values) or the `)` ending the list.
    InsValEnd { table: Seq<char>, cols: Seq<Seq<char>>, vals: Seq<Seq<char>>, val: Seq<char> },
    /// Expecting the final semicolon.
    InsSemi { table: Seq<char>, cols: Seq<Seq<char>>, vals: Seq<Seq<char>> },
}

/// The INSERT machine: consumes
/// `INTO table ( column (, column)* ) VALUES ( value (, value)* ) ;`
/// starting at token `i`.
pub open spec fn ins_rec(toks: Seq<Seq<char>>, i: int, st: InsStateV) -> Result<
    (InsertCommandV, int),
    ErrorV,
>
    decreases toks.len() - i,
    when 0 <= i
    via ins_rec_decreases
{
    if i >= toks.len() {
        Err(ErrorV::UnexpectedEnd)
    } else {
        let t = toks[i];
        match st {
            InsStateV::InsInto => if eq_ignore_case(t, "INTO"@) {
                ins_rec(toks, i + 1, InsStateV::InsTable)
            } else {
                Err(ErrorV::SyntaxError(t))
            },
            InsStateV::InsTable => ins_rec(toks, i + 1, InsStateV::InsLParen { table: t }),
            InsStateV::InsLParen { table } => if t == "("@ {
                ins_rec(
                    toks,
                    i + 1,
                    InsStateV::InsCol { table, cols: Seq::empty(), vals: Seq::empty() },
                )
            } else {
                Err(ErrorV::SyntaxError(t))
            },
            InsStateV::InsCol { table, cols, vals } => ins_rec(
                toks,
                i + 1,
                InsStateV::InsColEnd { table, cols, vals, col: t },
            ),
            InsStateV::InsColEnd { table, cols, vals, col } => if t == ","@ {
                ins_rec(toks, i + 1, InsStateV::InsCol { table, cols: cols.push(col), vals })
            } else if t == ")"@ {
                ins_rec(toks, i + 1, InsStateV::InsValuesKw { table, cols: cols.push(col), vals })
            } else {
                Err(ErrorV::SyntaxError(t))
            },
            InsStateV::InsValuesKw { table, cols, vals } => if t == "VALUES"@ {
                ins_rec(toks, i + 1, InsStateV::InsValsLParen { table, cols, vals })
            } else {
                Err(ErrorV::SyntaxError(t))
            },
            InsStateV::InsValsLParen { table, cols, vals } => if t == "("@ {
                ins_rec(toks, i + 1, InsStateV::InsVal { table, cols, vals })
            } else {
                Err(ErrorV::SyntaxError(t))
            },
            InsStateV::InsVal { table, cols, vals } => match vexpr_rec(
                toks,
                i,
                VexStateV::Start,
            ) {
                Err(e) => Err(e),
                Ok((expr, j)) => match expr {
                    ValueExprV::DataValue(dv) => ins_rec(
                        toks,
                        j,
                        InsStateV::InsValEnd { table, cols, vals, val: literal_text(dv) },
                    ),
                    _ => Err(ErrorV::SyntaxError(t)),
                },
            },
            InsStateV::InsValEnd { table, cols, vals, val } => if t == ","@ {
                ins_rec(toks, i + 1, InsStateV::InsVal { table, cols, vals: vals.push(val) })
            } else if t == ")"@ {
                ins_rec(toks, i + 1, InsStateV::InsSemi { table, cols, vals: vals.push(val) })
            } else {
                Err(ErrorV::SyntaxError(t))
            },
            InsStateV::InsSemi { table, cols, vals } => if t == ";"@ {
                Ok(
                    (
                        InsertCommandV { table_name: table, items: insert_items_spec(cols, vals) },
                        i + 1,
                    ),
                )
            } else {
                Err(ErrorV::SyntaxError(t))
            },
        }
    }
}

#[via_fn]
proof fn ins_rec_decreases(toks: Seq<Seq<char>>, i: int, st: InsStateV) {
    if 0 <= i < toks.len() {
        match st {
            InsStateV::InsVal { .. } => {
                if vexpr_rec(toks, i, VexStateV::Start) is Ok {
                    lemma_vexpr_progress(toks, i);
                }
            },
            _ => {},
        }
    }
}

/// What parsing an INSERT's tail (after the keyword) at token `i` yields.
pub open spec fn parse_insert_spec(toks: Seq<Seq<char>>, i: int) -> Result<
    (InsertCommandV, int),
    ErrorV,
> {
    ins_rec(toks, i, InsStateV::InsInto)
}

/// Executable state of the INSERT machine.
enum InsState {
    InsInto,
    InsTable,
    InsLParen { table: String },
    InsCol { table: String, cols: Vec<String>, vals: Vec<String> },
    InsColEnd { table: String, cols: Vec<String>, vals: Vec<String>, col: String },
    InsValuesKw { table: String, cols: Vec<String>, vals: Vec<String> },
    InsValsLParen { table: String, cols: Vec<String>, vals: Vec<String> },
    InsVal { table: String, cols: Vec<String>, vals: Vec<String> },
    InsValEnd { table: String, cols: Vec<String>, vals: Vec<String>, val: String },
    InsSemi { table: String, cols: Vec<String>, vals: Vec<String> },
}

impl View for InsState {
    type V = InsStateV;

    closed spec fn view(&self) -> InsStateV {
        match self {
            InsState::InsInto => InsStateV::InsInto,
            InsState::InsTable => InsStateV::InsTable,
            InsState::InsLParen { table } => InsStateV::InsLParen { table: table@ },
            InsState::InsCol { table, cols, vals } => InsStateV::InsCol {
                table: table@,
                cols: cols.deep_view(),
                vals: vals.deep_view(),
            },
            InsState::InsColEnd { table, cols, vals, col } => InsStateV::InsColEnd {
                table: table@,
                cols: cols.deep_view(),
                vals: vals.deep_view(),
                col: col@,
            },
            InsState::InsValuesKw { table, cols, vals } => InsStateV::InsValuesKw {
                table: table@,
                cols: cols.deep_view(),
                vals: vals.deep_view(),
            },
            InsState::InsValsLParen { table, cols, vals } => InsStateV::InsValsLParen {
                table: table@,
                cols: cols.deep_view(),
                vals: vals.deep_view(),
            },
            InsState::InsVal { table, cols, vals } => InsStateV::InsVal {
                table: table@,
                cols: cols.deep_view(),
                vals: vals.deep_view(),
            },
            InsState::InsValEnd { table, cols, vals, val } => InsStateV::InsValEnd {
                table: table@,
                cols: cols.deep_view(),
                vals: vals.deep_view(),
                val: val@,
            },
            InsState::InsSemi { table, cols, vals } => InsStateV::InsSemi {
                table: table@,
                cols: cols.deep_view(),
                vals: vals.deep_view(),
            },
        }
    }
}

/// Builds the keyed item list of an INSERT from its column and value
/// tokens; see [`insert_items_spec`].
fn build_insert_items(cols: &Vec<String>, vals: &Vec<String>) -> (items: Vec<InsertItem>)
    ensures
        items.deep_view() == insert_items_spec(cols.deep_view(), vals.deep_view()),
{
    let m = if cols.len() <= vals.len() {
        cols.len()
    } else {
        vals.len()
    };
    let mut items: Vec<InsertItem> = Vec::new();
    proof {
        assert(items.deep_view() =~= insert_items_rec(cols.deep_view(), vals.deep_view(), 0));
    }
    let mut k: usize = 0;
    while k < m
        invariant
            0 <= k <= m,
            m <= cols.len(),
            m <= vals.len(),
            m == if cols.len() <= vals.len() {
                cols.len() as int
            } else {
                vals.len() as int
            },
            items.deep_view() == insert_items_rec(cols.deep_view(), vals.deep_view(), k as int),
        decreases m - k,
    {
        let ghost before = items.deep_view();
        let name = crate::strutil::trim(TrimKind::Whitespace, cols[k].as_str());
        let value = crate::strutil::trim(TrimKind::Whitespace, vals[k].as_str());
        let item = InsertItem { column_name: name.clone(), column_value: value };
        // Look for an existing item with this name.
        let nitems = items.len();
        let mut idx: usize = 0;
        let mut found: bool = false;
        while idx < nitems && !found
            invariant
                0 <= idx <= nitems,
                nitems == items.len(),
                before == items.deep_view(),
                item@.column_name == name@,
                found ==> idx < nitems && before[idx as int].column_name == name@,
                forall|j: int| 0 <= j < idx ==> (#[trigger] before[j]).column_name != name@,
            decreases nitems - idx + (if found {
                0int
            } else {
                1int
            }),
        {
            if str_eq(items[idx].column_name.as_str(), name.as_str()) {
                found = true;
            } else {
                idx = idx + 1;
            }
        }
        proof {
            if found {
                lemma_find_item_at(before, name@, idx as int);
            } else {
                lemma_find_item_at(before, name@, nitems as int);
            }
        }
        if found {
            items.set(idx, item);
            proof {
                assert(items.deep_view() =~= before.update(idx as int, item@));
            }
        } else {
            items.push(item);
            proof {
                assert(items.deep_view() =~= before.push(item@));
            }
        }
        k = k + 1;
        proof {
            assert(items.deep_view() == insert_items_rec(
                cols.deep_view(),
                vals.deep_view(),
                k as int,
            ));
        }
    }
    items
}

/// Executable state of the value-expression machine.
enum VexState {
    Start,
    Str { q: String },
    EndQuote { q: String, value: ValueExpression },
    FnOrEnd { name: String },
    FnClose { name: String },
}

impl View for VexState {
    type V = VexStateV;

    closed spec fn view(&self) -> VexStateV {
        match self {
            VexState::Start => VexStateV::Start,
            VexState::Str { q } => VexStateV::Str { q: q@ },
            VexState::EndQuote { q, value } => VexStateV::EndQuote { q: q@, value: value@ },
            VexState::FnOrEnd { name } => VexStateV::FnOrEnd { name: name@ },
            VexState::FnClose { name } => VexStateV::FnClose { name: name@ },
        }
    }
}

/// What compiling a whole statement yields: the first token picks the
/// command, case-insensitively; the matching machine consumes the rest.
/// Tokens after the final semicolon are ignored.
pub open spec fn parse_command_spec(text: Seq<char>) -> Result<CommandV, ErrorV> {
    let toks = tokenize_spec(text);
    if toks.len() == 0 {
        Err(ErrorV::UnexpectedEnd)
    } else {
        let t0 = toks[0];
        if eq_ignore_case(t0, "CREATE"@) {
            match parse_create_spec(toks, 1) {
                Ok(p) => Ok(CommandV::Create(p.0)),
                Err(e) => Err(e),
            }
        } else if eq_ignore_case(t0, "INSERT"@) {
            match parse_insert_spec(toks, 1) {
                Ok(p) => Ok(CommandV::Insert(p.0)),
                Err(e) => Err(e),
            }
        } else if eq_ignore_case(t0, "SELECT"@) {
            match parse_select_spec(toks, 1) {
                Ok(p) => Ok(CommandV::Select(p.0)),
                Err(e) => Err(e),
            }
        } else if eq_ignore_case(t0, "DELETE"@) {
            match parse_delete_spec(toks, 1) {
                Ok(p) => Ok(CommandV::Delete(p.0)),
                Err(e) => Err(e),
            }
        } else {
            Err(ErrorV::UnknownCommand(t0))
        }
    }
}

impl Command {
    /// Compiles a statement into its command; see [`parse_command_spec`].
    pub fn from_string(command_str: String) -> (r: Result<Command, SqlError>)
        ensures
            crate::error::res_view(r) == parse_command_spec(command_str@),
    {
        let tokens = tokenizer(command_str);
        if tokens.len() == 0 {
            return Err(SqlError::UnexpectedEnd);
        }
        let t0 = tokens[0].as_str();
        proof {
            assert(tokens.deep_view()[0] == t0@);
        }
        if str_eq_ignore_case(t0, "CREATE") {
            Self::parse_create_command(&tokens, 1)
        } else if str_eq_ignore_case(t0, "INSERT") {
            Self::parse_insert_command(&tokens, 1)
        } else if str_eq_ignore_case(t0, "SELECT") {
            Self::parse_select_command(&tokens, 1)
        } else if str_eq_ignore_case(t0, "DELETE") {
            Self::parse_delete_command(&tokens, 1)
        } else {
            Err(SqlError::UnknownCommand(String::from_str(t0)))
        }
    }

    /// Consumes one value expression from the tokens, starting at `start`;
    /// returns it with the index of the next unconsumed token.
    fn parse_value_expression(tokens: &Vec<String>, start: usize) -> (r: Result<
        (ValueExpression, usize),
        SqlError,
    >)
        requires
            start <= tokens.len(),
        ensures
            r is Ok ==> parse_value_expression_spec(tokens.deep_view(), start as int) == Ok::<
                _,
                ErrorV,
            >((r->Ok_0.0@, r->Ok_0.1 as int)),
            r is Err ==> parse_value_expression_spec(tokens.deep_view(), start as int) == Err::<
                (ValueExprV, int),
                _,
            >(r->Err_0@),
            r is Ok ==> start <= r->Ok_0.1 <= tokens.len(),
    {
        let ghost toks = tokens.deep_view();
        let n = tokens.len();
        let mut st = VexState::Start;
        let mut i: usize = start;
        while i < n
            invariant
                start <= i <= n,
                n == tokens.len(),
                toks == tokens.deep_view(),
                vexpr_rec(toks, i as int, st@) == parse_value_expression_spec(toks, start as int),
            decreases n - i,
        {
            let t = tokens[i].as_str();
            proof {
                assert(toks[i as int] == t@);
            }
            match st {
                VexState::Start => {
                    if str_eq(t, "'") || str_eq(t, "\"") {
                        st = VexState::Str { q: String::from_str(t) };
                    } else {
                        match classify_numeral(t) {
                            NumeralClass::Value(v) => {
                                return Ok((
                                    ValueExpression::DataValue(DataValue::U8Value(v)),
                                    i + 1,
                                ));
                            },
                            _ => {
                                st = VexState::FnOrEnd { name: String::from_str(t) };
                            },
                        }
                    }
                },
                VexState::Str { q } => {
                    st = VexState::EndQuote {
                        q,
                        value: ValueExpression::DataValue(
                            DataValue::StringValue(String::from_str(t)),
                        ),
                    };
                },
                VexState::EndQuote { q, value } => {
                    if str_eq(t, q.as_str()) {
                        return Ok((value, i + 1));
                    } else {
                        return Err(SqlError::SyntaxError(String::from_str(t)));
                    }
                },
                VexState::FnOrEnd { name } => {
                    if str_eq(t, "(") {
                        st = VexState::FnClose { name };
                    } else {
                        return Ok((ValueExpression::ColumnName(name), i));
                    }
                },
                VexState::FnClose { name } => {
                    if str_eq(t, ")") {
                        let params: Vec<String> = Vec::new();
                        proof {
                            assert(params.deep_view() =~= Seq::<Seq<char>>::empty());
                        }
                        return Ok((
                            ValueExpression::FunctionCall(FunctionCall {
                                function_name: name,
                                parameters: params,
                            }),
                            i + 1,
                        ));
                    } else {
                        return Err(SqlError::SyntaxError(String::from_str(t)));
                    }
                },
            }
            i = i + 1;
        }
        match st {
            VexState::FnOrEnd { name } | VexState::FnClose { name } => {
                if name.unicode_len() != 0 {
                    Ok((ValueExpression::ColumnName(name), i))
                } else {
                    Err(SqlError::UnexpectedEnd)
                }
            },
            _ => Err(SqlError::UnexpectedEnd),
        }
    }

    /// Consumes one predicate from the tokens, starting at `start`;
    /// returns it with the index of the first unconsumed token.
    fn parse_logic_expression(tokens: &Vec<String>, start: usize) -> (r: Result<
        (LogicExpression, usize),
        SqlError,
    >)
        requires
            start <= tokens.len(),
        ensures
            r is Ok ==> parse_logic_expression_spec(tokens.deep_view(), start as int) == Ok::<
                _,
                ErrorV,
            >((r->Ok_0.0@, r->Ok_0.1 as int)),
            r is Err ==> parse_logic_expression_spec(tokens.deep_view(), start as int) == Err::<
                (LogicExprV, int),
                _,
            >(r->Err_0@),
            r is Ok ==> start < r->Ok_0.1 <= tokens.len(),
    {
        let ghost toks = tokens.deep_view();
        let n = tokens.len();
        let mut st = LexState::First;
        let mut i: usize = start;
        while i < n
            invariant
                start <= i <= n,
                n == tokens.len(),
                toks == tokens.deep_view(),
                lex_rec(toks, i as int, st@) == parse_logic_expression_spec(toks, start as int),
            decreases n - i,
        {
            let t = tokens[i].as_str();
            proof {
                assert(toks[i as int] == t@);
            }
            match st {
                LexState::First => {
                    if str_eq(t, "'") {
                        st = LexState::FirstStr;
                    } else {
                        match classify_numeral(t) {
                            NumeralClass::Value(v) => {
                                st = LexState::OpState {
                                    left: ValueExpression::DataValue(DataValue::U8Value(v)),
                                };
                            },
                            _ => {
                                st = LexState::OpState {
                                    left: ValueExpression::ColumnName(String::from_str(t)),
                                };
                            },
                        }
                    }
                },
                LexState::FirstStr => {
                    st = LexState::FirstEndQ { left: quoted_value_exec(t) };
                },
                LexState::FirstEndQ { left } => {
                    if str_eq(t, "'") {
                        st = LexState::OpState { left };
                    } else {
                        return Err(SqlError::SyntaxError(String::from_str(t)));
                    }
                },
                LexState::OpState { left } => {
                    match operator_exec(t) {
                        Some(op) => {
                            st = LexState::Second { left, op };
                        },
                        None => {
                            return Err(SqlError::SyntaxError(String::from_str(t)));
                        },
                    }
                },
                LexState::Second { left, op } => {
                    if str_eq(t, "'") {
                        st = LexState::SecondStr { left, op };
                    } else {
                        match classify_numeral(t) {
                            NumeralClass::Value(v) => {
                                return Ok((
                                    LogicExpression {
                                        left_hand: left,
                                        right_hand: ValueExpression::DataValue(
                                            DataValue::U8Value(v),
                                        ),
                                        operator: op,
                                    },
                                    i + 1,
                                ));
                            },
                            _ => {
                                return Ok((
                                    LogicExpression {
                                        left_hand: left,
                                        right_hand: ValueExpression::ColumnName(
                                            String::from_str(t),
                                        ),
                                        operator: op,
                                    },
                                    i + 1,
                                ));
                            },
                        }
                    }
                },
                LexState::SecondStr { left, op } => {
                    st = LexState::SecondEndQ { left, op, right: quoted_value_exec(t) };
                },
                LexState::SecondEndQ { left, op, right } => {
                    if str_eq(t, "'") {
                        return Ok((
                            LogicExpression {
                                left_hand: left,
                                right_hand: right,
                                operator: op,
                            },
                            i + 1,
                        ));
                    } else {
                        return Err(SqlError::SyntaxError(String::from_str(t)));
                    }
                },
            }
            i = i + 1;
        }
        Err(SqlError::UnexpectedEnd)
    }

    /// Parses a SELECT's tail (after the keyword), starting at `start`.
    fn parse_select_command(tokens: &Vec<String>, start: usize) -> (r: Result<Command, SqlError>)
        requires
            start <= tokens.len(),
        ensures
            r is Ok ==> (parse_select_spec(tokens.deep_view(), start as int) matches Ok(p)
                && r->Ok_0@ == CommandV::Select(p.0)),
            r is Err ==> (parse_select_spec(tokens.deep_view(), start as int) matches Err(e) && e
                == r->Err_0@),
    {
        let ghost toks = tokens.deep_view();
        let n = tokens.len();
        let cols0: Vec<String> = Vec::new();
        proof {
            assert(cols0.deep_view() =~= Seq::<Seq<char>>::empty());
        }
        let mut st = SelState::SelCol { cols: cols0 };
        let mut i: usize = start;
        while i < n
            invariant
                start <= i <= n,
                n == tokens.len(),
                toks == tokens.deep_view(),
                sel_rec(toks, i as int, st@) == parse_select_spec(toks, start as int),
            decreases n - i,
        {
            let t = tokens[i].as_str();
            proof {
                assert(toks[i as int] == t@);
            }
            match st {
                SelState::SelCol { mut cols } => {
                    if str_eq_ignore_case(t, "FROM") {
                        return Err(SqlError::SyntaxError(String::from_str(t)));
                    } else {
                        let ghost oc = cols.deep_view();
                        cols.push(String::from_str(t));
                        proof {
                            assert(cols.deep_view() =~= oc.push(t@));
                        }
                        st = SelState::SelCommaFrom { cols };
                    }
                },
                SelState::SelCommaFrom { cols } => {
                    if str_eq(t, ",") {
                        st = SelState::SelCol { cols };
                    } else if str_eq_ignore_case(t, "FROM") {
                        st = SelState::SelTable { cols };
                    } else {
                        return Err(SqlError::SyntaxError(String::from_str(t)));
                    }
                },
                SelState::SelTable { cols } => {
                    st = SelState::SelWhere { cols, table: String::from_str(t) };
                },
                SelState::SelWhere { cols, table } => {
                    if str_eq(t, ";") {
                        return Ok(Command::Select(SelectCommand {
                            table_name: table,
                            column_names: cols,
                            logic_expression: None,
                        }));
                    } else if str_eq(t, "WHERE") {
                        match Self::parse_logic_expression(tokens, i + 1) {
                            Err(e) => {
                                return Err(e);
                            },
                            Ok((le, j)) => {
                                if j == n {
                                    return Err(SqlError::UnexpectedEnd);
                                }
                                let tj = tokens[j].as_str();
                                proof {
                                    assert(toks[j as int] == tj@);
                                }
                                if str_eq(tj, ";") {
                                    return Ok(Command::Select(SelectCommand {
                                        table_name: table,
                                        column_names: cols,
                                        logic_expression: Some(le),
                                    }));
                                } else {
                                    return Err(SqlError::SyntaxError(String::from_str(tj)));
                                }
                            },
                        }
                    } else {
                        return Err(SqlError::SyntaxError(String::from_str(t)));
                    }
                },
            }
            i = i + 1;
        }
        Err(SqlError::UnexpectedEnd)
    }

    /// Parses a DELETE's tail (after the keyword), starting at `start`.
    fn parse_delete_command(tokens: &Vec<String>, start: usize) -> (r: Result<Command, SqlError>)
        requires
            start <= tokens.len(),
        ensures
            r is Ok ==> (parse_delete_spec(tokens.deep_view(), start as int) matches Ok(p)
                && r->Ok_0@ == CommandV::Delete(p.0)),
            r is Err ==> (parse_delete_spec(tokens.deep_view(), start as int) matches Err(e) && e
                == r->Err_0@),
    {
        let ghost toks = tokens.deep_view();
        let n = tokens.len();
        let mut st = DelState::DelFrom;
        let mut i: usize = start;
        while i < n
            invariant
                start <= i <= n,
                n == tokens.len(),
                toks == tokens.deep_view(),
                del_rec(toks, i as int, st@) == parse_delete_spec(toks, start as int),
            decreases n - i,
        {
            let t = tokens[i].as_str();
            proof {
                assert(toks[i as int] == t@);
            }
            match st {
                DelState::DelFrom => {
                    if str_eq_ignore_case(t, "FROM") {
                        st = DelState::DelTable;
                    } else {
                        return Err(SqlError::SyntaxError(String::from_str(t)));
                    }
                },
                DelState::DelTable => {
                    st = DelState::DelWhere { table: String::from_str(t) };
                },
                DelState::DelWhere { table } => {
                    if str_eq(t, ";") {
                        return Ok(Command::Delete(DeleteCommand {
                            table_name: table,
                            logic_expression: None,
                        }));
                    } else if str_eq(t, "WHERE") {
                        match Self::parse_logic_expression(tokens, i + 1) {
                            Err(e) => {
                                return Err(e);
                            },
                            Ok((le, j)) => {
                                if j == n {
                                    return Err(SqlError::UnexpectedEnd);
                                }
                                let tj = tokens[j].as_str();
                                proof {
                                    assert(toks[j as int] == tj@);
                                }
                                if str_eq(tj, ";") {
                                    return Ok(Command::Delete(DeleteCommand {
                                        table_name: table,
                                        logic_expression: Some(le),
                                    }));
                                } else {
                                    return Err(SqlError::SyntaxError(String::from_str(tj)));
                                }
                            },
                        }
                    } else {
                        return Err(SqlError::SyntaxError(String::from_str(t)));
                    }
                },
            }
            i = i + 1;
        }
        Err(SqlError::UnexpectedEnd)
    }

    /// Parses a CREATE's tail (after the keyword), starting at `start`.
    fn parse_create_command(tokens: &Vec<String>, start: usize) -> (r: Result<Command, SqlError>)
        requires
            start <= tokens.len(),
        ensures
            r is Ok ==> (parse_create_spec(tokens.deep_view(), start as int) matches Ok(p)
                && r->Ok_0@ == CommandV::Create(p.0)),
            r is Err ==> (parse_create_spec(tokens.deep_view(), start as int) matches Err(e) && e
                == r->Err_0@),
    {
        let ghost toks = tokens.deep_view();
        let n = tokens.len();
        let mut st = CreState::CrObject;
        let mut i: usize = start;
        while i < n
            invariant
                start <= i <= n,
                n == tokens.len(),
                toks == tokens.deep_view(),
                cre_rec(toks, i as int, st@) == parse_create_spec(toks, start as int),
            decreases n - i,
        {
            let t = tokens[i].as_str();
            proof {
                assert(toks[i as int] == t@);
            }
            match st {
                CreState::CrObject => {
                    if str_eq_ignore_case(t, "TABLE") {
                        st = CreState::CrTableName;
                    } else {
                        return Err(SqlError::SyntaxError(String::from_str(t)));
                    }
                },
                CreState::CrTableName => {
                    st = CreState::CrLParen { table: String::from_str(t) };
                },
                CreState::CrLParen { table } => {
                    if str_eq(t, "(") {
                        let defs0: Vec<ColumnDefinition> = Vec::new();
                        proof {
                            assert(defs0.deep_view() =~= Seq::<ColumnDefV>::empty());
                        }
                        st = CreState::CrColName { table, defs: defs0 };
                    } else {
                        return Err(SqlError::SyntaxError(String::from_str(t)));
                    }
                },
                CreState::CrColName { table, defs } => {
                    st = CreState::CrColType { table, defs, col_name: String::from_str(t) };
                },
                CreState::CrColType { table, defs, col_name } => {
                    match Datatype::parse_from_str(t) {
                        Err(e) => {
                            return Err(e);
                        },
                        Ok(d) => {
                            if d.has_len() {
                                st = CreState::CrColLen { table, defs, col_name, dtype: d };
                            } else {
                                st = CreState::CrColEnd {
                                    table,
                                    defs,
                                    col_name,
                                    dtype: d,
                                    length: 0,
                                };
                            }
                        },
                    }
                },
                CreState::CrColLen { table, defs, col_name, dtype } => {
                    match classify_wide_numeral(t) {
                        WideNumeralClass::Value(v) => {
                            st = CreState::CrColEnd { table, defs, col_name, dtype, length: v };
                        },
                        WideNumeralClass::TooLarge => {
                            return Err(SqlError::ValueOutOfRange(String::from_str(t)));
                        },
                        WideNumeralClass::Malformed => {
                            return Err(SqlError::NotANumber(String::from_str(t)));
                        },
                    }
                },
                CreState::CrColEnd { table, mut defs, col_name, dtype, length } => {
                    let ghost od = defs.deep_view();
                    let def = ColumnDefinition { name: col_name, data_type: dtype, length };
                    if str_eq(t, ",") {
                        defs.push(def);
                        proof {
                            assert(defs.deep_view() =~= od.push(defs@[od.len() as int]@));
                        }
                        st = CreState::CrColName { table, defs };
                    } else if str_eq(t, ")") {
                        defs.push(def);
                        proof {
                            assert(defs.deep_view() =~= od.push(defs@[od.len() as int]@));
                        }
                        st = CreState::CrSemi { table, defs };
                    } else {
                        return Err(SqlError::SyntaxError(String::from_str(t)));
                    }
                },
                CreState::CrSemi { table, defs } => {
                    if str_eq(t, ";") {
                        return Ok(Command::Create(CreateCommand {
                            table_definition: TableDefinition {
                                name: table,
                                column_defs: defs,
                            },
                        }));
                    } else {
                        return Err(SqlError::SyntaxError(String::from_str(t)));
                    }
                },
            }
            i = i + 1;
        }
        Err(SqlError::UnexpectedEnd)
    }

    /// Parses an INSERT's tail (after the keyword), starting at `start`.
    fn parse_insert_command(tokens: &Vec<String>, start: usize) -> (r: Result<Command, SqlError>)
        requires
            start <= tokens.len(),
        ensures
            r is Ok ==> (parse_insert_spec(tokens.deep_view(), start as int) matches Ok(p)
                && r->Ok_0@ == CommandV::Insert(p.0)),
            r is Err ==> (parse_insert_spec(tokens.deep_view(), start as int) matches Err(e) && e
                == r->Err_0@),
    {
        let ghost toks = tokens.deep_view();
        let n = tokens.len();
        let mut st = InsState::InsInto;
        let mut i: usize = start;
        while i < n
            invariant
                start <= i <= n,
                n == tokens.len(),
                toks == tokens.deep_view(),
                ins_rec(toks, i as int, st@) == parse_insert_spec(toks, start as int),
            decreases n - i,
        {
            let t = tokens[i].as_str();
            proof {
                assert(toks[i as int] == t@);
            }
            match st {
                InsState::InsInto => {
                    if str_eq_ignore_case(t, "INTO") {
                        st = InsState::InsTable;
                    } else {
                        return Err(SqlError::SyntaxError(String::from_str(t)));
                    }
                },
                InsState::InsTable => {
                    st = InsState::InsLParen { table: String::from_str(t) };
                },
                InsState::InsLParen { table } => {
                    if str_eq(t, "(") {
                        let cols0: Vec<String> = Vec::new();
                        let vals0: Vec<String> = Vec::new();
                        proof {
                            assert(cols0.deep_view() =~= Seq::<Seq<char>>::empty());
                            assert(vals0.deep_view() =~= Seq::<Seq<char>>::empty());
                        }
                        st = InsState::InsCol { table, cols: cols0, vals: vals0 };
                    } else {
                        return Err(SqlError::SyntaxError(String::from_str(t)));
                    }
                },
                InsState::InsCol { table, cols, vals } => {
                    st = InsState::InsColEnd { table, cols, vals, col: String::from_str(t) };
                },
                InsState::InsColEnd { table, mut cols, vals, col } => {
                    let ghost oc = cols.deep_view();
                    let ghost colv = col@;
                    if str_eq(t, ",") {
                        cols.push(col);
                        proof {
                            assert(cols.deep_view() =~= oc.push(colv));
                        }
                        st = InsState::InsCol { table, cols, vals };
                    } else if str_eq(t, ")") {
                        cols.push(col);
                        proof {
                            assert(cols.deep_view() =~= oc.push(colv));
                        }
                        st = InsState::InsValuesKw { table, cols, vals };
                    } else {
                        return Err(SqlError::SyntaxError(String::from_str(t)));
                    }
                },
                InsState::InsValuesKw { table, cols, vals } => {
                    if str_eq(t, "VALUES") {
                        st = InsState::InsValsLParen { table, cols, vals };
                    } else {
                        return Err(SqlError::SyntaxError(String::from_str(t)));
                    }
                },
                InsState::InsValsLParen { table, cols, vals } => {
                    if str_eq(t, "(") {
                        st = InsState::InsVal { table, cols, vals };
                    } else {
                        return Err(SqlError::SyntaxError(String::from_str(t)));
                    }
                },
                InsState::InsVal { table, cols, vals } => {
                    match Self::parse_value_expression(tokens, i) {
                        Err(e) => {
                            return Err(e);
                        },
                        Ok((expr, j)) => match expr {
                            ValueExpression::DataValue(dv) => {
                                let val = match dv {
                                    DataValue::StringValue(s) => s,
                                    DataValue::U8Value(v) => u8_to_string(v),
                                    DataValue::BoolValue(b) => {
                                        if b {
                                            String::from_str("TRUE")
                                        } else {
                                            String::from_str("FALSE")
                                        }
                                    },
                                };
                                st = InsState::InsValEnd { table, cols, vals, val };
                                proof {
                                    lemma_vexpr_progress(toks, i as int);
                                }
                                i = j;
                                continue ;
                            },
                            _ => {
                                return Err(SqlError::SyntaxError(String::from_str(t)));
                            },
                        },
                    }
                },
                InsState::InsValEnd { table, cols, mut vals, val } => {
                    let ghost ov = vals.deep_view();
                    let ghost valv = val@;
                    if str_eq(t, ",") {
                        vals.push(val);
                        proof {
                            assert(vals.deep_view() =~= ov.push(valv));
                        }
                        st = InsState::InsVal { table, cols, vals };
                    } else if str_eq(t, ")") {
                        vals.push(val);
                        proof {
                            assert(vals.deep_view() =~= ov.push(valv));
                        }
                        st = InsState::InsSemi { table, cols, vals };
                    } else {
                        return Err(SqlError::SyntaxError(String::from_str(t)));
                    }
                },
                InsState::InsSemi { table, cols, vals } => {
                    if str_eq(t, ";") {
                        let items = build_insert_items(&cols, &vals);
                        return Ok(Command::Insert(InsertCommand { table_name: table, items }));
                    } else {
                        return Err(SqlError::SyntaxError(String::from_str(t)));
                    }
                },
            }
            i = i + 1;
        }
        Err(SqlError::UnexpectedEnd)
    }

    /// Parses one predicate from a statement's tokens; trailing tokens
    /// are ignored.
    pub fn le_from_string(command_str: String) -> (r: Result<LogicExpression, SqlError>)
        ensures
            r is Ok ==> (parse_logic_expression_spec(tokenize_spec(command_str@), 0) matches Ok(p)
                && p.0 == r->Ok_0@),
            r is Err ==> (parse_logic_expression_spec(tokenize_spec(command_str@), 0) matches Err(
                e,
            ) && e == r->Err_0@),
    {
        let tokens = tokenizer(command_str);
        match Self::parse_logic_expression(&tokens, 0) {
            Ok((le, _)) => Ok(le),
            Err(e) => Err(e),
        }
    }

    /// Parses one value expression from a statement's tokens; trailing
    /// tokens are ignored.
    pub fn value_expression_from_string(command_str: String) -> (r: Result<
        ValueExpression,
        SqlError,
    >)
        ensures
            r is Ok ==> (parse_value_expression_spec(tokenize_spec(command_str@), 0) matches Ok(p)
                && p.0 == r->Ok_0@),
            r is Err ==> (parse_value_expression_spec(tokenize_spec(command_str@), 0) matches Err(
                e,
            ) && e == r->Err_0@),
    {
        let tokens = tokenizer(command_str);
        match Self::parse_value_expression(&tokens, 0) {
            Ok((v, _)) => Ok(v),
            Err(e) => Err(e),
        }
    }
}

} // verus!
