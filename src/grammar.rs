//! The grammar of the language, as functions from a text and a position to
//! what is read there and where reading stops.

use vstd::prelude::*;
use crate::ast::{Command, Expression, Operator, Value};
use crate::error::ErrorV;
use crate::text::{alnum, int_of_text, int_text, white_space};
use vstd::utf8::encode_utf8;

verus! {

broadcast use {vstd::seq::group_seq_axioms, vstd::std_specs::vec::group_vec_axioms};

/// A literal as written.
pub ghost enum ValueV {
    Number(i32),
    Str(Seq<char>),
    Variable(Seq<char>),
    Boolean(bool),
}

/// An expression as written.
pub ghost enum ExprV {
    Value(ValueV),
    BinaryOp(Operator, Box<ExprV>, Box<ExprV>),
    Query(Seq<char>),
}

/// A command as written.
pub ghost enum CmdP {
    PenUp,
    PenDown,
    Forward(ExprV),
    Back(ExprV),
    Left(ExprV),
    Right(ExprV),
    SetPenColor(ExprV),
    Turn(ExprV),
    SetHeading(ExprV),
    SetX(ExprV),
    SetY(ExprV),
    Make(ExprV, ExprV),
    AddAssign(Seq<char>, ExprV),
    If(ExprV, Seq<CmdP>),
    While(ExprV, Seq<CmdP>),
    Expression(ExprV),
    ProcedureDefinition { name: Seq<char>, parameters: Seq<Seq<char>>, body: Seq<CmdP> },
    ProcedureCall { name: Seq<char>, arguments: Seq<ExprV> },
}

pub open spec fn value_pview(v: Value) -> ValueV {
    match v {
        Value::Number(n) => ValueV::Number(n),
        Value::String(s) => ValueV::Str(s@),
        Value::Variable(s) => ValueV::Variable(s@),
        Value::Boolean(b) => ValueV::Boolean(b),
    }
}

pub open spec fn expr_pview(e: Expression) -> ExprV
    decreases e,
{
    match e {
        Expression::Value(v) => ExprV::Value(value_pview(v)),
        Expression::BinaryOp(op, l, r) => ExprV::BinaryOp(
            op,
            Box::new(expr_pview(*l)),
            Box::new(expr_pview(*r)),
        ),
        Expression::Query(q) => ExprV::Query(q@),
    }
}

pub open spec fn exprs_pview(v: Seq<Expression>) -> Seq<ExprV> {
    Seq::new(v.len(), |i: int| expr_pview(v[i]))
}

pub open spec fn cmds_pview(v: Seq<Command>) -> Seq<CmdP>
    decreases v,
{
    Seq::new(
        v.len(),
        |i: int|
            if 0 <= i < v.len() {
                cmd_pview(v[i])
            } else {
                CmdP::PenUp
            },
    )
}

pub open spec fn cmd_pview(c: Command) -> CmdP
    decreases c,
{
    match c {
        Command::PenUp => CmdP::PenUp,
        Command::PenDown => CmdP::PenDown,
        Command::Forward(e) => CmdP::Forward(expr_pview(e)),
        Command::Back(e) => CmdP::Back(expr_pview(e)),
        Command::Left(e) => CmdP::Left(expr_pview(e)),
        Command::Right(e) => CmdP::Right(expr_pview(e)),
        Command::SetPenColor(e) => CmdP::SetPenColor(expr_pview(e)),
        Command::Turn(e) => CmdP::Turn(expr_pview(e)),
        Command::SetHeading(e) => CmdP::SetHeading(expr_pview(e)),
        Command::SetX(e) => CmdP::SetX(expr_pview(e)),
        Command::SetY(e) => CmdP::SetY(expr_pview(e)),
        Command::Make(a, b) => CmdP::Make(expr_pview(a), expr_pview(b)),
        Command::AddAssign(n, e) => CmdP::AddAssign(n@, expr_pview(e)),
        Command::If(e, b) => CmdP::If(expr_pview(e), cmds_pview(b@)),
        Command::While(e, b) => CmdP::While(expr_pview(e), cmds_pview(b@)),
        Command::Expression(e) => CmdP::Expression(expr_pview(*e)),
        Command::ProcedureDefinition { name, parameters, body } => CmdP::ProcedureDefinition {
            name: name@,
            parameters: crate::ast::names_view(parameters@),
            body: cmds_pview(body@),
        },
        Command::ProcedureCall { name, arguments } => CmdP::ProcedureCall {
            name: name@,
            arguments: exprs_pview(arguments@),
        },
    }
}

// ---- characters and tokens ----

/// The whitespace that separates tokens.
pub open spec fn is_ws(c: char) -> bool {
    c == ' ' || c == '\t' || c == '\r' || c == '\n'
}

/// Where a run of whitespace from `p` ends.
pub open spec fn ws_end(s: Seq<char>, p: int) -> int
    decreases s.len() - p,
{
    if 0 <= p < s.len() && is_ws(s[p]) {
        ws_end(s, p + 1)
    } else {
        p
    }
}

/// A character of a name; `dash` admits `-` too, as quoted words do.
pub open spec fn name_char(c: char, dash: bool) -> bool {
    alnum(c) || c == '_' || (dash && c == '-')
}

pub open spec fn name_end(s: Seq<char>, p: int, dash: bool) -> int
    decreases s.len() - p,
{
    if 0 <= p < s.len() && name_char(s[p], dash) {
        name_end(s, p + 1, dash)
    } else {
        p
    }
}

pub open spec fn digits_end(s: Seq<char>, p: int) -> int
    decreases s.len() - p,
{
    if 0 <= p < s.len() && crate::text::is_digit(s[p]) {
        digits_end(s, p + 1)
    } else {
        p
    }
}

/// Whether `t` is written at `p`.
pub open spec fn tag_at(s: Seq<char>, p: int, t: Seq<char>) -> bool {
    0 <= p && p + t.len() <= s.len() && s.subrange(p, p + t.len()) == t
}

/// A literal: `"word`, an integer with an optional `-`, `:name`, `TRUE` or `FALSE`.
pub open spec fn value_at(s: Seq<char>, p: int) -> Option<(ValueV, int)> {
    let n1 = name_end(s, p + 1, true);
    let q = if 0 <= p < s.len() && s[p] == '-' { p + 1 } else { p };
    let d = digits_end(s, q);
    let n2 = name_end(s, p + 1, false);
    if 0 <= p < s.len() && s[p] == '"' && n1 > p + 1 {
        Some((ValueV::Str(s.subrange(p + 1, n1)), n1))
    } else if d > q && int_of_text(s.subrange(p, d)) is Some {
        Some((ValueV::Number(int_of_text(s.subrange(p, d))->0), d))
    } else if 0 <= p < s.len() && s[p] == ':' && n2 > p + 1 {
        Some((ValueV::Variable(s.subrange(p + 1, n2)), n2))
    } else if tag_at(s, p, "TRUE"@) {
        Some((ValueV::Boolean(true), p + "TRUE"@.len()))
    } else if tag_at(s, p, "FALSE"@) {
        Some((ValueV::Boolean(false), p + "FALSE"@.len()))
    } else {
        None
    }
}

pub open spec fn op_word(op: Operator) -> Seq<char> {
    match op {
        Operator::Add => "+"@,
        Operator::Subtract => "-"@,
        Operator::Multiply => "*"@,
        Operator::Divide => "/"@,
        Operator::Equal => "EQ"@,
        Operator::NotEqual => "NE"@,
        Operator::GreaterThan => "GT"@,
        Operator::LessThan => "LT"@,
        Operator::And => "AND"@,
        Operator::Or => "OR"@,
    }
}

/// The operators in the order they are tried.
pub open spec fn op_order() -> Seq<Operator> {
    seq![
        Operator::Add,
        Operator::Subtract,
        Operator::Multiply,
        Operator::Divide,
        Operator::Equal,
        Operator::NotEqual,
        Operator::GreaterThan,
        Operator::LessThan,
        Operator::And,
        Operator::Or,
    ]
}

/// The first operator, from the `k`-th on, whose word is written at `p`.
pub open spec fn op_from(s: Seq<char>, p: int, k: int) -> Option<(Operator, int)>
    decreases 10 - k,
{
    if !(0 <= k < 10) {
        None
    } else if tag_at(s, p, op_word(op_order()[k])) {
        Some((op_order()[k], p + op_word(op_order()[k]).len()))
    } else {
        op_from(s, p, k + 1)
    }
}

pub open spec fn op_at(s: Seq<char>, p: int) -> Option<(Operator, int)> {
    op_from(s, p, 0)
}

/// The query keywords in the order they are tried.
pub open spec fn query_words() -> Seq<Seq<char>> {
    seq!["XCOR"@, "YCOR"@, "HEADING"@, "COLOR"@]
}

pub open spec fn query_from(s: Seq<char>, p: int, k: int) -> Option<(ExprV, int)>
    decreases 4 - k,
{
    if !(0 <= k < 4) {
        None
    } else if tag_at(s, p, query_words()[k]) {
        Some((ExprV::Query(query_words()[k]), p + query_words()[k].len()))
    } else {
        query_from(s, p, k + 1)
    }
}

/// An expression: a literal, a prefix operator with two operands each after
/// whitespace, or a query keyword. Positions only move forward.
pub open spec fn expr_at(s: Seq<char>, p: int) -> Option<(ExprV, int)>
    decreases s.len() - p,
{
    if !(0 <= p <= s.len()) {
        None
    } else {
        match value_at(s, p) {
            Some((v, e)) => Some((ExprV::Value(v), e)),
            None => {
                let bin = match op_at(s, p) {
                    Some((op, q)) => {
                        let a = ws_end(s, q);
                        if p < q < a <= s.len() {
                            match expr_at(s, a) {
                                Some((l, b)) => {
                                    let c = ws_end(s, b);
                                    if a < b < c <= s.len() {
                                        match expr_at(s, c) {
                                            Some((r, d)) => Some(
                                                (ExprV::BinaryOp(op, Box::new(l), Box::new(r)), d),
                                            ),
                                            None => None,
                                        }
                                    } else {
                                        None
                                    }
                                },
                                None => None,
                            }
                        } else {
                            None
                        }
                    },
                    None => None,
                };
                if bin is Some {
                    bin
                } else {
                    query_from(s, p, 0)
                }
            },
        }
    }
}

// ---- commands ----

/// What reading a command gives: the command or the error it stands for,
/// and where reading stopped; `None` when no command is written there.
pub type Step = Option<(Result<CmdP, ErrorV>, int)>;

/// Whether the UTF-8 form of the text has a length that fits in `usize`.
pub open spec fn fits(s: Seq<char>) -> bool {
    encode_utf8(s).len() <= usize::MAX
}

/// Byte offset in the UTF-8 text of the character at position `i`.
pub open spec fn byte_at(s: Seq<char>, i: int) -> int {
    encode_utf8(s.subrange(0, i)).len() as int
}

pub open spec fn newlines(t: Seq<char>) -> nat
    decreases t.len(),
{
    if t.len() == 0 {
        0
    } else {
        newlines(t.drop_last()) + if t.last() == '\n' { 1nat } else { 0nat }
    }
}

/// The 1-based line on which position `p` lies.
pub open spec fn line_of(s: Seq<char>, p: int) -> int {
    newlines(s.subrange(0, p)) as int + 1
}

/// Whether everything from `p` on is whitespace.
pub open spec fn blank_from(s: Seq<char>, p: int) -> bool {
    forall|i: int| p <= i < s.len() ==> white_space(#[trigger] s[i])
}

pub open spec fn arg_error(kw: Seq<char>, expected: Seq<char>) -> ErrorV {
    ErrorV::InvalidArgument { command: kw, argument: Seq::empty(), expected }
}

/// An `END` that closes no procedure definition.
pub open spec fn stray_end(s: Seq<char>, p: int) -> ErrorV {
    ErrorV::ParseError {
        input: s.subrange(p, s.len() as int),
        span: (byte_at(s, p) as usize, 3usize),
        message: "Found 'END' command on line "@ + int_text(line_of(s, p))
            + " without matching 'TO' procedure definition. Each 'END' must be paired with a 'TO' procedure definition."@,
    }
}

/// A procedure definition whose body, from `b`, has no `END`, after
/// `count` commands were read.
pub open spec fn unterminated(s: Seq<char>, b: int, name: Seq<char>, count: nat) -> ErrorV {
    ErrorV::ParseError {
        input: s.subrange(b, s.len() as int),
        span: (byte_at(s, b) as usize, (byte_at(s, s.len() as int) - byte_at(s, b)) as usize),
        message: "Unterminated procedure definition '"@ + name
            + "': Expected 'END' keyword after "@ + int_text(count as int) + " commands"@,
    }
}

/// Where the rest of a line ends.
pub open spec fn line_stop(s: Seq<char>, p: int) -> int
    decreases s.len() - p,
{
    if 0 <= p < s.len() && s[p] != '\r' && s[p] != '\n' {
        line_stop(s, p + 1)
    } else {
        p
    }
}

/// A line ending: `\n` or `\r\n`.
pub open spec fn line_ending_at(s: Seq<char>, p: int) -> Option<int> {
    if 0 <= p < s.len() && s[p] == '\n' {
        Some(p + 1)
    } else if 0 <= p && p + 1 < s.len() && s[p] == '\r' && s[p + 1] == '\n' {
        Some(p + 2)
    } else {
        None
    }
}

/// A comment: `//` to the end of the line, with its line ending; a lone
/// carriage return in it ends nothing.
pub open spec fn comment_at(s: Seq<char>, p: int) -> Option<int> {
    if tag_at(s, p, "//"@) {
        let e = line_stop(s, p + 2);
        if e < s.len() && s[e] == '\r' && !(e + 1 < s.len() && s[e + 1] == '\n') {
            None
        } else if e < s.len() {
            line_ending_at(s, e)
        } else {
            Some(e)
        }
    } else {
        None
    }
}

/// Where whitespace and comments from `p` end.
pub open spec fn skip_all(s: Seq<char>, p: int) -> int
    decreases s.len() - p,
{
    if !(0 <= p <= s.len()) {
        p
    } else if p < s.len() && is_ws(s[p]) && p < ws_end(s, p) <= s.len() {
        skip_all(s, ws_end(s, p))
    } else {
        match comment_at(s, p) {
            Some(e) => if p < e <= s.len() {
                skip_all(s, e)
            } else {
                p
            },
            None => p,
        }
    }
}

/// A further argument after whitespace, which fixed-arity commands refuse:
/// where it ends.
pub open spec fn extra_at(s: Seq<char>, p: int) -> Option<int> {
    let a = ws_end(s, p);
    if p < a {
        match expr_at(s, a) {
            Some((_, e)) => Some(e),
            None => None,
        }
    } else {
        None
    }
}

/// A keyword that takes no argument.
pub open spec fn bare_at(s: Seq<char>, p: int, kw: Seq<char>, c: CmdP) -> Step {
    if tag_at(s, p, kw) {
        let q = p + kw.len();
        match extra_at(s, q) {
            Some(e) => Some((Err(arg_error(kw, "no arguments"@)), e)),
            None => Some((Ok(c), q)),
        }
    } else {
        None
    }
}

/// A keyword with one argument: the argument, or the error for a second one.
pub open spec fn unary_at(s: Seq<char>, p: int, kw: Seq<char>) -> Option<(Result<ExprV, ErrorV>, int)> {
    if tag_at(s, p, kw) {
        let q = p + kw.len();
        let a = ws_end(s, q);
        if q < a {
            match expr_at(s, a) {
                Some((e, b)) => match extra_at(s, b) {
                    Some(x) => Some((Err(arg_error(kw, "only one argument"@)), x)),
                    None => Some((Ok(e), b)),
                },
                None => None,
            }
        } else {
            None
        }
    } else {
        None
    }
}

/// The one-argument keywords in the order they are tried.
pub open spec fn unary_words() -> Seq<Seq<char>> {
    seq![
        "FORWARD"@,
        "BACK"@,
        "LEFT"@,
        "RIGHT"@,
        "SETPENCOLOR"@,
        "TURN"@,
        "SETHEADING"@,
        "SETX"@,
        "SETY"@,
    ]
}

pub open spec fn unary_cmd(k: int, e: ExprV) -> CmdP {
    if k == 0 {
        CmdP::Forward(e)
    } else if k == 1 {
        CmdP::Back(e)
    } else if k == 2 {
        CmdP::Left(e)
    } else if k == 3 {
        CmdP::Right(e)
    } else if k == 4 {
        CmdP::SetPenColor(e)
    } else if k == 5 {
        CmdP::Turn(e)
    } else if k == 6 {
        CmdP::SetHeading(e)
    } else if k == 7 {
        CmdP::SetX(e)
    } else {
        CmdP::SetY(e)
    }
}

pub open spec fn unary_from(s: Seq<char>, p: int, k: int) -> Step
    decreases 9 - k,
{
    if !(0 <= k < 9) {
        None
    } else {
        match unary_at(s, p, unary_words()[k]) {
            Some((Ok(e), q)) => Some((Ok(unary_cmd(k, e)), q)),
            Some((Err(x), q)) => Some((Err(x), q)),
            None => unary_from(s, p, k + 1),
        }
    }
}

/// `MAKE name value`.
pub open spec fn make_at(s: Seq<char>, p: int) -> Step {
    if tag_at(s, p, "MAKE"@) {
        let q = p + "MAKE"@.len();
        let a = ws_end(s, q);
        if q < a {
            match expr_at(s, a) {
                Some((x, b)) => {
                    let c = ws_end(s, b);
                    if b < c {
                        match expr_at(s, c) {
                            Some((y, d)) => Some((Ok(CmdP::Make(x, y)), d)),
                            None => None,
                        }
                    } else {
                        None
                    }
                },
                None => None,
            }
        } else {
            None
        }
    } else {
        None
    }
}

/// `ADDASSIGN "name amount` or `ADDASSIGN :name amount`; a `:name` keeps its
/// mark, which makes it name the variable holding the target's name.
pub open spec fn addassign_at(s: Seq<char>, p: int) -> Step {
    if tag_at(s, p, "ADDASSIGN"@) {
        let q = p + "ADDASSIGN"@.len();
        let a = ws_end(s, q);
        let n = name_end(s, a + 1, false);
        let c = ws_end(s, n);
        if q < a < s.len() && (s[a] == '"' || s[a] == ':') && a + 1 < n && n < c {
            match expr_at(s, c) {
                Some((e, d)) => match extra_at(s, d) {
                    Some(x) => Some((Err(arg_error("ADDASSIGN"@, "only two arguments"@)), x)),
                    None => Some((Ok(CmdP::AddAssign(if s[a] == ':' { s.subrange(a, n) } else { s.subrange(a + 1, n) }, e)), d)),
                },
                None => None,
            }
        } else {
            None
        }
    } else {
        None
    }
}

/// The arguments of a procedure call, each after whitespace.
pub open spec fn call_args(s: Seq<char>, p: int) -> (Seq<ExprV>, int)
    decreases s.len() - p,
{
    let a = ws_end(s, p);
    if 0 <= p < a <= s.len() {
        match expr_at(s, a) {
            Some((x, b)) => if a < b <= s.len() {
                let (rest, e) = call_args(s, b);
                (seq![x] + rest, e)
            } else {
                (Seq::empty(), p)
            },
            None => (Seq::empty(), p),
        }
    } else {
        (Seq::empty(), p)
    }
}

/// A call: a name other than `TO` and `END`, then its arguments.
pub open spec fn call_at(s: Seq<char>, p: int) -> Step {
    let n = name_end(s, p, false);
    let name = s.subrange(p, n);
    if 0 <= p < n && name != "TO"@ && name != "END"@ {
        let (args, e) = call_args(s, n);
        Some((Ok(CmdP::ProcedureCall { name, arguments: args }), e))
    } else {
        None
    }
}

/// The parameters of a definition: `:name` or `"name`, each after optional
/// whitespace. A `:name` keeps its mark, which makes its name be fixed at
/// definition time; a `"name` is kept without its mark.
pub open spec fn params_at(s: Seq<char>, p: int) -> (Seq<Seq<char>>, int)
    decreases s.len() - p,
{
    let a = ws_end(s, p);
    let n = name_end(s, a + 1, false);
    if 0 <= p <= a < s.len() && (s[a] == ':' || s[a] == '"') && a + 1 < n <= s.len() {
        let (rest, e) = params_at(s, n);
        (seq![if s[a] == ':' { s.subrange(a, n) } else { s.subrange(a + 1, n) }] + rest, e)
    } else {
        (Seq::empty(), p)
    }
}

/// The commands of a block, or the first error among them.
pub open spec fn first_err(items: Seq<Result<CmdP, ErrorV>>) -> Result<Seq<CmdP>, ErrorV>
    decreases items.len(),
{
    if items.len() == 0 {
        Ok(Seq::empty())
    } else {
        match items[0] {
            Err(x) => Err(x),
            Ok(c) => match first_err(items.drop_first()) {
                Ok(cs) => Ok(seq![c] + cs),
                Err(x) => Err(x),
            },
        }
    }
}

/// The commands of a block up to where none can be read, each with the
/// whitespace around it.
pub open spec fn block_items(s: Seq<char>, p: int) -> (Seq<Result<CmdP, ErrorV>>, int)
    decreases s.len() - p, 5int,
{
    let a = ws_end(s, p);
    if !(0 <= p <= a <= s.len()) {
        (Seq::empty(), p)
    } else {
        match command_at(s, a) {
            Some((rc, b)) => {
                let c = ws_end(s, b);
                if a < b <= c <= s.len() {
                    let (rest, e) = block_items(s, c);
                    (seq![rc] + rest, e)
                } else {
                    (Seq::empty(), p)
                }
            },
            None => (Seq::empty(), p),
        }
    }
}

/// `[ commands ]`.
pub open spec fn block_at(s: Seq<char>, p: int) -> Option<(Result<Seq<CmdP>, ErrorV>, int)>
    decreases s.len() - p, 0int,
{
    if 0 <= p < s.len() && s[p] == '[' {
        let (items, q) = block_items(s, p + 1);
        if p < q < s.len() && s[q] == ']' {
            Some((first_err(items), q + 1))
        } else {
            None
        }
    } else {
        None
    }
}

/// `IF cond [ ... ]` or `WHILE cond [ ... ]`.
pub open spec fn cond_at(s: Seq<char>, p: int, kw: Seq<char>, is_loop: bool) -> Step
    decreases s.len() - p, 0int,
{
    if 0 <= p && tag_at(s, p, kw) {
        let q = p + kw.len();
        let a = ws_end(s, q);
        if q < a {
            match expr_at(s, a) {
                Some((c, b)) => {
                    let d = ws_end(s, b);
                    if p < d <= s.len() {
                        match block_at(s, d) {
                            Some((Ok(body), e)) => Some(
                                (Ok(if is_loop { CmdP::While(c, body) } else { CmdP::If(c, body) }), e),
                            ),
                            Some((Err(x), e)) => Some((Err(x), e)),
                            None => None,
                        }
                    } else {
                        None
                    }
                },
                None => None,
            }
        } else {
            None
        }
    } else {
        None
    }
}

/// Any command but a definition, tried in a fixed order: the keyword
/// commands, then a bare expression, then a procedure call.
pub open spec fn regular_at(s: Seq<char>, p: int) -> Step
    decreases s.len() - p, 1int,
{
    if !(0 <= p <= s.len()) {
        None
    } else {
        let r1 = bare_at(s, p, "PENUP"@, CmdP::PenUp);
        let r2 = bare_at(s, p, "PENDOWN"@, CmdP::PenDown);
        let r3 = unary_from(s, p, 0);
        let r4 = make_at(s, p);
        let r5 = addassign_at(s, p);
        if r1 is Some {
            r1
        } else if r2 is Some {
            r2
        } else if r3 is Some {
            r3
        } else if r4 is Some {
            r4
        } else if r5 is Some {
            r5
        } else {
            let r6 = cond_at(s, p, "IF"@, false);
            if r6 is Some {
                r6
            } else {
                let r7 = cond_at(s, p, "WHILE"@, true);
                if r7 is Some {
                    r7
                } else {
                    match expr_at(s, p) {
                        Some((e, q)) => Some((Ok(CmdP::Expression(e)), q)),
                        None => call_at(s, p),
                    }
                }
            }
        }
    }
}

/// The body of a definition from `p`: whether its `END` was found, the
/// commands read, and where reading stopped.
pub open spec fn def_body(s: Seq<char>, p: int, acc: Seq<CmdP>) -> (bool, Seq<CmdP>, int)
    decreases s.len() - p, 2int,
{
    let n = skip_all(s, p);
    if !(0 <= p <= n <= s.len()) {
        (false, acc, p)
    } else if tag_at(s, n, "END"@) {
        (true, acc, n + "END"@.len())
    } else {
        match regular_at(s, n) {
            Some((Ok(c), r)) => if blank_from(s, r) || !(p < r <= s.len()) {
                (false, acc.push(c), r)
            } else {
                def_body(s, r, acc.push(c))
            },
            _ => (false, acc, p),
        }
    }
}

/// `TO name params body END`, the body either commands one after another
/// or one `[ ... ]` block.
pub open spec fn def_at(s: Seq<char>, p: int) -> Step
    decreases s.len() - p, 3int,
{
    if 0 <= p && tag_at(s, p, "TO"@) {
        let q = p + "TO"@.len();
        let a = ws_end(s, q);
        let n = name_end(s, a, false);
        if q < a < n {
            let name = s.subrange(a, n);
            let (params, c) = params_at(s, n);
            let b = skip_all(s, c);
            if p < b <= s.len() {
                match block_at(s, b) {
                    Some((Err(x), e)) => Some((Err(x), e)),
                    Some((Ok(body), e)) => {
                        let m = skip_all(s, e);
                        if tag_at(s, m, "END"@) {
                            Some(
                                (
                                    Ok(CmdP::ProcedureDefinition { name, parameters: params, body }),
                                    m + "END"@.len(),
                                ),
                            )
                        } else {
                            Some((Err(unterminated(s, b, name, body.len())), e))
                        }
                    },
                    None => {
                        let (found, body, e) = def_body(s, b, Seq::empty());
                        Some(
                            (
                                if found {
                                    Ok(CmdP::ProcedureDefinition { name, parameters: params, body })
                                } else {
                                    Err(unterminated(s, b, name, body.len()))
                                },
                                e,
                            ),
                        )
                    },
                }
            } else {
                None
            }
        } else {
            None
        }
    } else {
        None
    }
}

/// Any command: a stray `END` is an error, then a definition is tried,
/// then the rest.
pub open spec fn command_at(s: Seq<char>, p: int) -> Step
    decreases s.len() - p, 4int,
{
    if !(0 <= p <= s.len()) {
        None
    } else if tag_at(s, p, "END"@) {
        Some((Err(stray_end(s, p)), p + "END"@.len()))
    } else {
        let d = def_at(s, p);
        if d is Some {
            d
        } else {
            regular_at(s, p)
        }
    }
}

// ---- programs ----

/// Where a run of line endings ends.
pub open spec fn endings_end(s: Seq<char>, p: int) -> int
    decreases s.len() - p,
{
    match line_ending_at(s, p) {
        Some(e) => if p < e <= s.len() {
            endings_end(s, e)
        } else {
            p
        },
        None => p,
    }
}

/// One top-level item: a comment, a command with the whitespace around it,
/// or a line ending.
pub open spec fn element_at(s: Seq<char>, p: int) -> Option<(Option<Result<CmdP, ErrorV>>, int)> {
    match comment_at(s, p) {
        Some(e) => Some((None, e)),
        None => match command_at(s, ws_end(s, p)) {
            Some((rc, b)) => Some((Some(rc), ws_end(s, b))),
            None => match line_ending_at(s, p) {
                Some(e) => Some((None, e)),
                None => None,
            },
        },
    }
}

pub open spec fn opt_seq<T>(x: Option<T>) -> Seq<T> {
    match x {
        Some(v) => seq![v],
        None => Seq::empty(),
    }
}

/// The top-level items from `p` up to where none can be read.
pub open spec fn program_items(s: Seq<char>, p: int) -> (Seq<Result<CmdP, ErrorV>>, int)
    decreases s.len() - p,
{
    match element_at(s, p) {
        Some((x, e)) => {
            let f = endings_end(s, e);
            if 0 <= p < f <= s.len() {
                let (rest, q) = program_items(s, f);
                (opt_seq(x) + rest, q)
            } else {
                (Seq::empty(), p)
            }
        },
        None => (Seq::empty(), p),
    }
}

/// What a source text parses to: a blank text is the empty program; text
/// left over that no item reads is a parse error at that point; else the
/// commands, or the first error among them.
pub open spec fn program_of(s: Seq<char>) -> Result<Seq<CmdP>, ErrorV> {
    if blank_from(s, 0) {
        Ok(Seq::empty())
    } else {
        let (items, q) = program_items(s, 0);
        if q < s.len() {
            Err(
                ErrorV::ParseError {
                    input: s,
                    span: (byte_at(s, q) as usize, (byte_at(s, s.len() as int) - byte_at(s, q)) as usize),
                    message: "Parse error: End of file"@,
                },
            )
        } else {
            first_err(items)
        }
    }
}

} // verus!
