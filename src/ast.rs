//! The syntax tree that the parser builds and the evaluator walks.

use vstd::prelude::*;

verus! {

broadcast use {vstd::seq::group_seq_axioms, vstd::std_specs::vec::group_vec_axioms};

/// A runtime value, or a literal in the source.
#[derive(Debug, PartialEq, Clone)]
pub enum Value {
    Number(i32),
    String(String),
    Variable(String),
    Boolean(bool),
}

/// A binary operator, written before its two operands.
#[derive(Debug, PartialEq, Eq, Clone, Copy)]
pub enum Operator {
    Add,
    Subtract,
    Multiply,
    Divide,
    Equal,
    NotEqual,
    GreaterThan,
    LessThan,
    And,
    Or,
}

#[derive(Debug, PartialEq)]
pub enum Expression {
    Value(Value),
    BinaryOp(Operator, Box<Expression>, Box<Expression>),
    Query(String),
}

#[derive(Debug, PartialEq)]
pub enum Command {
    PenUp,
    PenDown,
    Forward(Expression),
    Back(Expression),
    Left(Expression),
    Right(Expression),
    SetPenColor(Expression),
    Turn(Expression),
    SetHeading(Expression),
    SetX(Expression),
    SetY(Expression),
    Make(Expression, Expression),
    AddAssign(String, Expression),
    If(Expression, Vec<Command>),
    While(Expression, Vec<Command>),
    Expression(Box<Expression>),
    ProcedureDefinition { name: String, parameters: Vec<String>, body: Vec<Command> },
    ProcedureCall { name: String, arguments: Vec<Expression> },
}

/// A command with its nested command lists seen as sequences.
pub ghost enum CommandV {
    PenUp,
    PenDown,
    Forward(Expression),
    Back(Expression),
    Left(Expression),
    Right(Expression),
    SetPenColor(Expression),
    Turn(Expression),
    SetHeading(Expression),
    SetX(Expression),
    SetY(Expression),
    Make(Expression, Expression),
    AddAssign(Seq<char>, Expression),
    If(Expression, Seq<CommandV>),
    While(Expression, Seq<CommandV>),
    Expression(Expression),
    ProcedureDefinition { name: Seq<char>, parameters: Seq<Seq<char>>, body: Seq<CommandV> },
    ProcedureCall { name: Seq<char>, arguments: Seq<Expression> },
}

pub open spec fn names_view(v: Seq<String>) -> Seq<Seq<char>> {
    Seq::new(v.len(), |i: int| v[i]@)
}

pub open spec fn cmds_view(v: Seq<Command>) -> Seq<CommandV>
    decreases v,
{
    Seq::new(
        v.len(),
        |i: int|
            if 0 <= i < v.len() {
                cmd_view(v[i])
            } else {
                CommandV::PenUp
            },
    )
}

pub open spec fn cmd_view(c: Command) -> CommandV
    decreases c,
{
    match c {
        Command::PenUp => CommandV::PenUp,
        Command::PenDown => CommandV::PenDown,
        Command::Forward(e) => CommandV::Forward(e),
        Command::Back(e) => CommandV::Back(e),
        Command::Left(e) => CommandV::Left(e),
        Command::Right(e) => CommandV::Right(e),
        Command::SetPenColor(e) => CommandV::SetPenColor(e),
        Command::Turn(e) => CommandV::Turn(e),
        Command::SetHeading(e) => CommandV::SetHeading(e),
        Command::SetX(e) => CommandV::SetX(e),
        Command::SetY(e) => CommandV::SetY(e),
        Command::Make(a, b) => CommandV::Make(a, b),
        Command::AddAssign(n, e) => CommandV::AddAssign(n@, e),
        Command::If(e, b) => CommandV::If(e, cmds_view(b@)),
        Command::While(e, b) => CommandV::While(e, cmds_view(b@)),
        Command::Expression(e) => CommandV::Expression(*e),
        Command::ProcedureDefinition { name, parameters, body } => CommandV::ProcedureDefinition {
            name: name@,
            parameters: names_view(parameters@),
            body: cmds_view(body@),
        },
        Command::ProcedureCall { name, arguments } => CommandV::ProcedureCall {
            name: name@,
            arguments: arguments@,
        },
    }
}

impl View for Command {
    type V = CommandV;

    open spec fn view(&self) -> CommandV {
        cmd_view(*self)
    }
}

impl Value {
    /// A value equal to this one.
    pub fn copy(&self) -> (r: Value)
        ensures
            r == *self,
    {
        match self {
            Value::Number(n) => Value::Number(*n),
            Value::String(s) => Value::String(s.clone()),
            Value::Variable(s) => Value::Variable(s.clone()),
            Value::Boolean(b) => Value::Boolean(*b),
        }
    }
}

impl Expression {
    /// An expression equal to this one.
    pub fn copy(&self) -> (r: Expression)
        ensures
            r == *self,
        decreases self,
    {
        match self {
            Expression::Value(v) => Expression::Value(v.copy()),
            Expression::BinaryOp(op, l, r) => Expression::BinaryOp(
                *op,
                Box::new(l.copy()),
                Box::new(r.copy()),
            ),
            Expression::Query(q) => Expression::Query(q.clone()),
        }
    }
}

pub fn copy_names(v: &Vec<String>) -> (r: Vec<String>)
    ensures
        r@ == v@,
{
    let mut r: Vec<String> = Vec::new();
    let mut i: usize = 0;
    while i < v.len()
        invariant
            i <= v@.len(),
            r@ == v@.subrange(0, i as int),
        decreases v@.len() - i,
    {
        r.push(v[i].clone());
        i = i + 1;
        assert(r@ =~= v@.subrange(0, i as int));
    }
    assert(v@.subrange(0, i as int) =~= v@);
    r
}

pub fn copy_expressions(v: &Vec<Expression>) -> (r: Vec<Expression>)
    ensures
        r@ == v@,
{
    let mut r: Vec<Expression> = Vec::new();
    let mut i: usize = 0;
    while i < v.len()
        invariant
            i <= v@.len(),
            r@ == v@.subrange(0, i as int),
        decreases v@.len() - i,
    {
        r.push(v[i].copy());
        i = i + 1;
        assert(r@ =~= v@.subrange(0, i as int));
    }
    assert(v@.subrange(0, i as int) =~= v@);
    r
}

/// Commands that read as the given ones.
pub fn copy_commands(v: &Vec<Command>) -> (r: Vec<Command>)
    ensures
        cmds_view(r@) == cmds_view(v@),
    decreases v,
{
    let mut r: Vec<Command> = Vec::new();
    let mut i: usize = 0;
    while i < v.len()
        invariant
            i <= v@.len(),
            r@.len() == i,
            forall|k: int| 0 <= k < i ==> cmd_view(#[trigger] r@[k]) == cmd_view(v@[k]),
        decreases v@.len() - i,
    {
        let c = v[i].copy();
        r.push(c);
        i = i + 1;
    }
    assert(cmds_view(r@) =~= cmds_view(v@));
    r
}

impl Command {
    /// A command that reads as this one.
    pub fn copy(&self) -> (r: Command)
        ensures
            r@ == self@,
        decreases self,
    {
        match self {
            Command::PenUp => Command::PenUp,
            Command::PenDown => Command::PenDown,
            Command::Forward(e) => Command::Forward(e.copy()),
            Command::Back(e) => Command::Back(e.copy()),
            Command::Left(e) => Command::Left(e.copy()),
            Command::Right(e) => Command::Right(e.copy()),
            Command::SetPenColor(e) => Command::SetPenColor(e.copy()),
            Command::Turn(e) => Command::Turn(e.copy()),
            Command::SetHeading(e) => Command::SetHeading(e.copy()),
            Command::SetX(e) => Command::SetX(e.copy()),
            Command::SetY(e) => Command::SetY(e.copy()),
            Command::Make(a, b) => Command::Make(a.copy(), b.copy()),
            Command::AddAssign(n, e) => Command::AddAssign(n.clone(), e.copy()),
            Command::If(e, b) => Command::If(e.copy(), copy_commands(b)),
            Command::While(e, b) => Command::While(e.copy(), copy_commands(b)),
            Command::Expression(e) => Command::Expression(Box::new(e.copy())),
            Command::ProcedureDefinition { name, parameters, body } => {
                let r = Command::ProcedureDefinition {
                    name: name.clone(),
                    parameters: copy_names(parameters),
                    body: copy_commands(body),
                };
                r
            },
            Command::ProcedureCall { name, arguments } => Command::ProcedureCall {
                name: name.clone(),
                arguments: copy_expressions(arguments),
            },
        }
    }
}

/// A parsed program: its top-level commands in order.
#[derive(Debug, PartialEq)]
pub struct Program {
    pub commands: Vec<Command>,
}

} // verus!
