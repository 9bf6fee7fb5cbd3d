//! What running a program means: the state of a run, and how each
//! expression and command changes it.

use vstd::prelude::*;
use crate::ast::{CommandV, Expression, Value};
use crate::error::ErrorV;
use crate::operators::{operate, truth_of};
use crate::procedure::{ProcedureV, arity_error, define, find_proc, fixed_parameters, frame_of, frames_lookup};
use crate::text::{false_word, int_of_text, int_text, true_word, upper_text};
use crate::turtle::{TurtleV, answer_of, back_of, forward_of, left_of, right_of};
use crate::variables::{Bindings, assign, lookup, names_of, normalized};

verus! {

broadcast use {vstd::seq::group_seq_axioms, vstd::std_specs::vec::group_vec_axioms};

/// Everything a run can change: turtle and lines drawn, variables, operand
/// stack, procedures and parameter frames.
pub ghost struct StateV {
    pub turtle: TurtleV,
    pub vars: Bindings,
    pub stack: Seq<Value>,
    pub procs: Seq<ProcedureV>,
    pub frames: Seq<Bindings>,
}

/// The outcome of a step: its result, or the error that stopped it together
/// with the state reached when it stopped.
pub type Outcome<T> = Result<T, (StateV, ErrorV)>;

pub open spec fn undefined(name: Seq<char>, vars: Bindings) -> ErrorV {
    ErrorV::UndefinedVariable { variable_name: name, defined_variables: names_of(vars) }
}

pub open spec fn starts_with_colon(t: Seq<char>) -> bool {
    t.len() > 0 && t[0] == ':'
}

/// A literal resolved for use: a variable through the innermost parameter
/// frame, then the globals, following one `:name` text held there; a text
/// reading `TRUE` or `FALSE` becomes a truth value.
pub open spec fn resolve(s: StateV, v: Value) -> Result<Value, ErrorV> {
    match v {
        Value::Variable(name) => match frames_lookup(s.frames, name@) {
            Some(p) => Ok(p),
            None => match lookup(s.vars, name@) {
                Some(x) => match x {
                    Value::String(t) => if starts_with_colon(t@) {
                        match lookup(s.vars, t@.drop_first()) {
                            Some(f) => Ok(f),
                            None => Err(undefined(t@.drop_first(), s.vars)),
                        }
                    } else {
                        Ok(x)
                    },
                    _ => Ok(x),
                },
                None => Err(undefined(name@, s.vars)),
            },
        },
        Value::String(t) => if upper_text(t@) == true_word() {
            Ok(Value::Boolean(true))
        } else if upper_text(t@) == false_word() {
            Ok(Value::Boolean(false))
        } else {
            Ok(v)
        },
        _ => Ok(v),
    }
}

/// A query keyword read against the turtle.
pub open spec fn query_of(s: StateV, q: Seq<char>) -> Result<Value, ErrorV> {
    if q == "XCOR"@ {
        Ok(Value::Number(s.turtle.x))
    } else if q == "YCOR"@ {
        Ok(Value::Number(s.turtle.y))
    } else if q == "HEADING"@ {
        Ok(Value::Number(s.turtle.heading))
    } else if q == "COLOR"@ {
        Ok(Value::Number(s.turtle.color as i32))
    } else {
        Err(
            ErrorV::InvalidArgument {
                command: "query"@,
                argument: q,
                expected: "XCOR, YCOR, HEADING, or COLOR"@,
            },
        )
    }
}

pub open spec fn pushed(s: StateV, v: Value) -> StateV {
    StateV { stack: s.stack.push(v), ..s }
}

/// Evaluates an expression: the state after and the value. Every
/// expression pushes its value on the operand stack; an operator first pops
/// the two values its operands pushed, the right one first.
pub open spec fn eval(s: StateV, e: Expression) -> Outcome<(StateV, Value)>
    decreases e,
{
    match e {
        Expression::Value(v) => match resolve(s, v) {
            Ok(r) => Ok((pushed(s, r), r)),
            Err(x) => Err((s, x)),
        },
        Expression::BinaryOp(op, l, r) => match eval(s, *l) {
            Err(z) => Err(z),
            Ok((s1, _)) => match eval(s1, *r) {
                Err(z) => Err(z),
                Ok((s2, _)) => {
                    let n = s2.stack.len();
                    if n < 2 {
                        Err((StateV { stack: Seq::empty(), ..s2 }, ErrorV::StackUnderflow))
                    } else {
                        let s3 = StateV { stack: s2.stack.subrange(0, n - 2), ..s2 };
                        match operate(op, s2.stack[n - 2], s2.stack[n - 1]) {
                            Ok(v) => Ok((pushed(s3, v), v)),
                            Err(x) => Err((s3, x)),
                        }
                    }
                },
            },
        },
        Expression::Query(q) => match query_of(s, q@) {
            Ok(r) => Ok((pushed(s, r), r)),
            Err(x) => Err((s, x)),
        },
    }
}

/// Evaluates expressions left to right.
pub open spec fn eval_all(s: StateV, args: Seq<Expression>) -> Outcome<(StateV, Seq<Value>)>
    decreases args.len(),
{
    if args.len() == 0 {
        Ok((s, Seq::empty()))
    } else {
        match eval_all(s, args.drop_last()) {
            Err(z) => Err(z),
            Ok((s1, vs)) => match eval(s1, args.last()) {
                Err(z) => Err(z),
                Ok((s2, v)) => Ok((s2, vs.push(v))),
            },
        }
    }
}

/// A resolved value as an integer; a text that is not an integer is an
/// unexpected value, and an unresolved variable a type mismatch.
pub open spec fn plain_int(v: Value) -> Result<i32, ErrorV> {
    match v {
        Value::Number(n) => Ok(n),
        Value::String(t) => match int_of_text(t@) {
            Some(n) => Ok(n),
            None => Err(ErrorV::UnexpectedValue { expected: "a number"@, got: t@ }),
        },
        Value::Boolean(b) => Ok(if b { 1i32 } else { 0i32 }),
        Value::Variable(_) => Err(ErrorV::TypeMismatch),
    }
}

/// A value as it is written: a truth value as `TRUE` or `FALSE`, a
/// reference as `:name`.
pub open spec fn value_text(v: Value) -> Seq<char> {
    match v {
        Value::Number(n) => int_text(n as int),
        Value::String(t) => t@,
        Value::Variable(n) => seq![':'] + n@,
        Value::Boolean(b) => if b { true_word() } else { false_word() },
    }
}

/// The text a bound value gives as a name: a text itself, a number its
/// digits; anything else is unexpected.
pub open spec fn name_text(v: Value) -> Result<Seq<char>, ErrorV> {
    match v {
        Value::String(t) => Ok(t@),
        Value::Number(n) => Ok(int_text(n as int)),
        _ => Err(ErrorV::UnexpectedValue { expected: "a string or number"@, got: value_text(v) }),
    }
}

/// The text a variable holds: the innermost parameter frame binding it
/// first, then the globals.
pub open spec fn text_of_variable(s: StateV, name: Seq<char>) -> Result<Seq<char>, ErrorV> {
    match frames_lookup(s.frames, name) {
        Some(p) => name_text(p),
        None => match lookup(s.vars, name) {
            Some(g) => name_text(g),
            None => Err(undefined(name, s.vars)),
        },
    }
}

/// A value as text, as `MAKE` reads a variable's name.
pub open spec fn text_of_value(s: StateV, v: Value) -> Result<Seq<char>, ErrorV> {
    match v {
        Value::String(t) => Ok(t@),
        Value::Number(n) => Ok(int_text(n as int)),
        Value::Variable(name) => text_of_variable(s, name@),
        Value::Boolean(b) => Ok(if b { "true"@ } else { "false"@ }),
    }
}

/// `MAKE` turns a text that reads as an integer into a number first.
pub open spec fn numeric_first(v: Value) -> Value {
    match v {
        Value::String(t) => match int_of_text(t@) {
            Some(n) => Value::Number(n),
            None => v,
        },
        _ => v,
    }
}

/// The variable that `ADDASSIGN` changes: `:p` names the variable that `p`
/// holds the name of; a plain name holding a text names that text; else the
/// name itself.
pub open spec fn target_of(s: StateV, name: Seq<char>) -> Result<Seq<char>, ErrorV> {
    if starts_with_colon(name) {
        text_of_variable(s, name.drop_first())
    } else {
        match lookup(s.vars, name) {
            Some(Value::String(t)) => Ok(t@),
            _ => Ok(name),
        }
    }
}

pub open spec fn with_turtle(s: StateV, t: Result<TurtleV, ErrorV>) -> Outcome<StateV> {
    match t {
        Ok(t) => Ok(StateV { turtle: t, ..s }),
        Err(x) => Err((s, x)),
    }
}

/// The integer argument of a command, and the state after evaluating it.
pub open spec fn int_arg(s: StateV, e: Expression) -> Outcome<(StateV, i32)> {
    match eval(s, e) {
        Err(z) => Err(z),
        Ok((s1, v)) => match plain_int(v) {
            Err(x) => Err((s1, x)),
            Ok(n) => Ok((s1, n)),
        },
    }
}

pub open spec fn pen_color_error(c: i32) -> ErrorV {
    ErrorV::InvalidArgument {
        command: "SETPENCOLOR"@,
        argument: int_text(c as int),
        expected: "an integer between 0 and 15"@,
    }
}

pub open spec fn unknown_procedure(name: Seq<char>) -> ErrorV {
    ErrorV::InvalidArgument {
        command: "procedure call"@,
        argument: name,
        expected: "a defined procedure name"@,
    }
}

/// `ADDASSIGN` once its amount is known, at state `s1`.
pub open spec fn add_assign(s1: StateV, name: Seq<char>, amount: i32) -> Outcome<StateV> {
    match target_of(s1, name) {
        Err(x) => Err((s1, x)),
        Ok(t) => match lookup(s1.vars, t) {
            None => Err((s1, undefined(t, s1.vars))),
            Some(cur) => match plain_int(cur) {
                Err(x) => Err((s1, x)),
                Ok(c) => if i32::MIN <= c + amount <= i32::MAX {
                    Ok(StateV { vars: assign(s1.vars, t, Value::Number((c + amount) as i32)), ..s1 })
                } else {
                    Err((s1, ErrorV::Overflow))
                },
            },
        },
    }
}

/// The commands that touch neither nested commands nor procedure calls.
pub open spec fn run_simple(s: StateV, c: CommandV, ends: Seq<(i32, i32)>) -> Outcome<StateV> {
    match c {
        CommandV::PenUp => Ok(StateV { turtle: TurtleV { pen_down: false, ..s.turtle }, ..s }),
        CommandV::PenDown => Ok(StateV { turtle: TurtleV { pen_down: true, ..s.turtle }, ..s }),
        CommandV::Forward(e) => match int_arg(s, e) {
            Err(z) => Err(z),
            Ok((s1, n)) => with_turtle(s1, forward_of(s1.turtle, n, answer_of(ends, s1.turtle.answers.len() as int))),
        },
        CommandV::Back(e) => match int_arg(s, e) {
            Err(z) => Err(z),
            Ok((s1, n)) => with_turtle(s1, back_of(s1.turtle, n, answer_of(ends, s1.turtle.answers.len() as int))),
        },
        CommandV::Left(e) => match int_arg(s, e) {
            Err(z) => Err(z),
            Ok((s1, n)) => with_turtle(s1, left_of(s1.turtle, n, answer_of(ends, s1.turtle.answers.len() as int))),
        },
        CommandV::Right(e) => match int_arg(s, e) {
            Err(z) => Err(z),
            Ok((s1, n)) => with_turtle(s1, right_of(s1.turtle, n, answer_of(ends, s1.turtle.answers.len() as int))),
        },
        CommandV::SetPenColor(e) => match int_arg(s, e) {
            Err(z) => Err(z),
            Ok((s1, n)) => if 0 <= n <= 15 {
                Ok(StateV { turtle: TurtleV { color: n as u32, ..s1.turtle }, ..s1 })
            } else {
                Err((s1, pen_color_error(n)))
            },
        },
        CommandV::Turn(e) => match int_arg(s, e) {
            Err(z) => Err(z),
            Ok((s1, n)) => {
                let h = s1.turtle.heading + n;
                if i32::MIN <= h <= i32::MAX {
                    Ok(StateV { turtle: TurtleV { heading: h as i32, ..s1.turtle }, ..s1 })
                } else {
                    Err((s1, ErrorV::Overflow))
                }
            },
        },
        CommandV::SetHeading(e) => match int_arg(s, e) {
            Err(z) => Err(z),
            Ok((s1, n)) => Ok(StateV { turtle: TurtleV { heading: n, ..s1.turtle }, ..s1 }),
        },
        CommandV::SetX(e) => match int_arg(s, e) {
            Err(z) => Err(z),
            Ok((s1, n)) => Ok(StateV { turtle: TurtleV { x: n, ..s1.turtle }, ..s1 }),
        },
        CommandV::SetY(e) => match int_arg(s, e) {
            Err(z) => Err(z),
            Ok((s1, n)) => Ok(StateV { turtle: TurtleV { y: n, ..s1.turtle }, ..s1 }),
        },
        CommandV::Make(ne, ve) => match eval(s, ne) {
            Err(z) => Err(z),
            Ok((s1, nv)) => match eval(s1, ve) {
                Err(z) => Err(z),
                Ok((s2, vv)) => match text_of_value(s2, nv) {
                    Err(x) => Err((s2, x)),
                    Ok(name) => Ok(
                        StateV { vars: assign(s2.vars, name, normalized(numeric_first(vv))), ..s2 },
                    ),
                },
            },
        },
        CommandV::AddAssign(name, e) => match int_arg(s, e) {
            Err(z) => Err(z),
            Ok((s1, amount)) => add_assign(s1, name, amount),
        },
        CommandV::Expression(e) => match eval(s, e) {
            Err(z) => Err(z),
            Ok((s1, _)) => Ok(s1),
        },
        CommandV::ProcedureDefinition { name, parameters, body } => Ok(
            StateV {
                procs: define(
                    s.procs,
                    ProcedureV { name, parameters: fixed_parameters(s.vars, parameters), body },
                ),
                ..s
            },
        ),
        _ => Ok(s),
    }
}

pub open spec fn popped(s: StateV) -> StateV {
    StateV { frames: if s.frames.len() > 0 { s.frames.drop_last() } else { s.frames }, ..s }
}

/// Runs one command. `ends` lists the end points the image library gives
/// the moves of the run, in order: the move made when `k` answers have come
/// ends at the `k`-th. `fuel` bounds the depth of procedure calls and the
/// number of rounds of each loop; running out is `StepLimit`. An error ends
/// the run where it stands: nothing done before it is undone, and a frame
/// of a call under way stays open.
pub open spec fn run_cmd(s: StateV, c: CommandV, fuel: nat, ends: Seq<(i32, i32)>) -> Outcome<StateV>
    decreases fuel, c,
{
    match c {
        CommandV::If(cond, body) => match eval(s, cond) {
            Err(z) => Err(z),
            Ok((s1, v)) => match truth_of(v) {
                Err(x) => Err((s1, x)),
                Ok(b) => if b {
                    run_cmds(s1, body, fuel, ends)
                } else {
                    Ok(s1)
                },
            },
        },
        CommandV::While(cond, body) => run_while(s, cond, body, fuel, ends),
        CommandV::ProcedureCall { name, arguments } => match find_proc(s.procs, name) {
            None => Err((s, unknown_procedure(name))),
            Some(p) => match eval_all(s, arguments) {
                Err(z) => Err(z),
                Ok((s1, vals)) => if p.parameters.len() != vals.len() {
                    Err((s1, arity_error(p.parameters.len(), vals.len())))
                } else if fuel == 0 {
                    Err((s1, ErrorV::StepLimit))
                } else {
                    let s2 = StateV {
                        frames: s1.frames.push(frame_of(p.parameters, vals)),
                        ..s1
                    };
                    match run_cmds(s2, p.body, (fuel - 1) as nat, ends) {
                        Err(z) => Err(z),
                        Ok(s3) => Ok(popped(s3)),
                    }
                },
            },
        },
        _ => run_simple(s, c, ends),
    }
}

/// Runs commands in order, stopping at the first error.
pub open spec fn run_cmds(s: StateV, cs: Seq<CommandV>, fuel: nat, ends: Seq<(i32, i32)>) -> Outcome<StateV>
    decreases fuel, cs,
{
    if cs.len() == 0 {
        Ok(s)
    } else {
        match run_cmd(s, cs[0], fuel, ends) {
            Err(z) => Err(z),
            Ok(s1) => run_cmds(s1, cs.subrange(1, cs.len() as int), fuel, ends),
        }
    }
}

/// A loop: the condition is read before every round.
pub open spec fn run_while(s: StateV, cond: Expression, body: Seq<CommandV>, fuel: nat, ends: Seq<(i32, i32)>) -> Outcome<
    StateV,
>
    decreases fuel, body,
{
    if fuel == 0 {
        Err((s, ErrorV::StepLimit))
    } else {
        match eval(s, cond) {
            Err(z) => Err(z),
            Ok((s1, v)) => match truth_of(v) {
                Err(x) => Err((s1, x)),
                Ok(b) => if !b {
                    Ok(s1)
                } else {
                    match run_cmds(s1, body, (fuel - 1) as nat, ends) {
                        Err(z) => Err(z),
                        Ok(s2) => run_while(s2, cond, body, (fuel - 1) as nat, ends),
                    }
                },
            },
        }
    }
}

/// The state an outcome ends in, success or not.
pub open spec fn end_state(o: Outcome<StateV>) -> StateV {
    match o {
        Ok(s) => s,
        Err((s, _)) => s,
    }
}

/// Whether `b` continues `a`.
pub open spec fn extends(a: Seq<(i32, i32)>, b: Seq<(i32, i32)>) -> bool {
    a.len() <= b.len() && b.subrange(0, a.len() as int) == a
}

/// Whether two lists of answers give the same first `n` answers.
pub open spec fn agree_below(e1: Seq<(i32, i32)>, e2: Seq<(i32, i32)>, n: int) -> bool {
    forall|i: int| 0 <= i < n ==> #[trigger] answer_of(e1, i) == answer_of(e2, i)
}

pub proof fn lemma_extends_refl(a: Seq<(i32, i32)>)
    ensures
        extends(a, a),
{
    assert(a.subrange(0, a.len() as int) =~= a);
}

pub proof fn lemma_extends_agree(a: Seq<(i32, i32)>, e: Seq<(i32, i32)>)
    requires
        extends(a, e),
    ensures
        agree_below(a, e, a.len() as int),
{
    assert forall|i: int| 0 <= i < a.len() implies #[trigger] answer_of(a, i) == answer_of(e, i) by {
        assert(e.subrange(0, a.len() as int)[i] == e[i]);
    }
}

pub proof fn lemma_extends_trans(a: Seq<(i32, i32)>, b: Seq<(i32, i32)>, c: Seq<(i32, i32)>)
    requires
        extends(a, b),
        extends(b, c),
    ensures
        extends(a, c),
{
    assert(c.subrange(0, a.len() as int) =~= c.subrange(0, b.len() as int).subrange(0, a.len() as int));
}

pub proof fn lemma_extends_push(a: Seq<(i32, i32)>, p: (i32, i32))
    ensures
        extends(a, a.push(p)),
{
    assert(a.push(p).subrange(0, a.len() as int) =~= a);
}

/// Evaluation changes nothing but the operand stack, whatever its outcome.
pub proof fn lemma_eval_stack_only(s: StateV, e: Expression)
    ensures
        match eval(s, e) {
            Ok((s2, _)) => s2 == (StateV { stack: s2.stack, ..s }),
            Err((s2, _)) => s2 == (StateV { stack: s2.stack, ..s }),
        },
    decreases e,
{
    match e {
        Expression::BinaryOp(op, l, r) => {
            lemma_eval_stack_only(s, *l);
            match eval(s, *l) {
                Ok((s1, _)) => {
                    lemma_eval_stack_only(s1, *r);
                },
                Err(_) => {},
            }
        },
        _ => {},
    }
}

pub proof fn lemma_eval_all_stack_only(s: StateV, args: Seq<Expression>)
    ensures
        match eval_all(s, args) {
            Ok((s2, _)) => s2 == (StateV { stack: s2.stack, ..s }),
            Err((s2, _)) => s2 == (StateV { stack: s2.stack, ..s }),
        },
    decreases args.len(),
{
    if args.len() > 0 {
        lemma_eval_all_stack_only(s, args.drop_last());
        match eval_all(s, args.drop_last()) {
            Ok((s1, _)) => {
                lemma_eval_stack_only(s1, args.last());
            },
            Err(_) => {},
        }
    }
}

pub proof fn lemma_int_arg_stack_only(s: StateV, e: Expression)
    ensures
        match int_arg(s, e) {
            Ok((s2, _)) => s2 == (StateV { stack: s2.stack, ..s }),
            Err((s2, _)) => s2 == (StateV { stack: s2.stack, ..s }),
        },
{
    lemma_eval_stack_only(s, e);
}

proof fn lemma_frame_simple(s: StateV, c: CommandV, e1: Seq<(i32, i32)>, e2: Seq<(i32, i32)>)
    requires
        agree_below(e1, e2, end_state(run_simple(s, c, e1)).turtle.answers.len() as int),
    ensures
        run_simple(s, c, e1) == run_simple(s, c, e2),
        extends(s.turtle.answers, end_state(run_simple(s, c, e1)).turtle.answers),
{
    lemma_extends_refl(s.turtle.answers);
    let k = s.turtle.answers.len() as int;
    match c {
        CommandV::Forward(e) | CommandV::Back(e) | CommandV::Left(e) | CommandV::Right(e) => {
            lemma_int_arg_stack_only(s, e);
            assert(answer_of(e1, k) == answer_of(e2, k) || end_state(run_simple(s, c, e1)).turtle.answers.len() <= k);
            lemma_extends_push(s.turtle.answers, answer_of(e1, k));
        },
        CommandV::SetPenColor(e) | CommandV::Turn(e) | CommandV::SetHeading(e) | CommandV::SetX(e)
        | CommandV::SetY(e) | CommandV::AddAssign(_, e) | CommandV::Expression(e) => {
            lemma_int_arg_stack_only(s, e);
            lemma_eval_stack_only(s, e);
        },
        CommandV::Make(ne, ve) => {
            lemma_eval_stack_only(s, ne);
            match eval(s, ne) {
                Ok((s1, _)) => {
                    lemma_eval_stack_only(s1, ve);
                },
                Err(_) => {},
            }
        },
        _ => {},
    }
}

/// A command's outcome depends on the answers only up to those its run takes,
/// and a run only adds answers.
pub proof fn lemma_frame_cmd(
    s: StateV,
    c: CommandV,
    fuel: nat,
    e1: Seq<(i32, i32)>,
    e2: Seq<(i32, i32)>,
)
    requires
        agree_below(e1, e2, end_state(run_cmd(s, c, fuel, e1)).turtle.answers.len() as int),
    ensures
        run_cmd(s, c, fuel, e1) == run_cmd(s, c, fuel, e2),
        extends(s.turtle.answers, end_state(run_cmd(s, c, fuel, e1)).turtle.answers),
    decreases fuel, c,
{
    lemma_extends_refl(s.turtle.answers);
    match c {
        CommandV::If(cond, body) => {
            lemma_eval_stack_only(s, cond);
            match eval(s, cond) {
                Ok((s1, v)) => {
                    if truth_of(v) == Ok::<bool, ErrorV>(true) {
                        lemma_frame_cmds(s1, body, fuel, e1, e2);
                    }
                },
                Err(_) => {},
            }
        },
        CommandV::While(cond, body) => {
            lemma_frame_while(s, cond, body, fuel, e1, e2);
        },
        CommandV::ProcedureCall { name, arguments } => {
            lemma_eval_all_stack_only(s, arguments);
            match (find_proc(s.procs, name), eval_all(s, arguments)) {
                (Some(p), Ok((s1, vals))) => {
                    if p.parameters.len() == vals.len() && fuel > 0 {
                        let s2 = StateV { frames: s1.frames.push(frame_of(p.parameters, vals)), ..s1 };
                        lemma_frame_cmds(s2, p.body, (fuel - 1) as nat, e1, e2);
                    }
                },
                _ => {},
            }
        },
        _ => {
            lemma_frame_simple(s, c, e1, e2);
        },
    }
}

pub proof fn lemma_frame_cmds(
    s: StateV,
    cs: Seq<CommandV>,
    fuel: nat,
    e1: Seq<(i32, i32)>,
    e2: Seq<(i32, i32)>,
)
    requires
        agree_below(e1, e2, end_state(run_cmds(s, cs, fuel, e1)).turtle.answers.len() as int),
    ensures
        run_cmds(s, cs, fuel, e1) == run_cmds(s, cs, fuel, e2),
        extends(s.turtle.answers, end_state(run_cmds(s, cs, fuel, e1)).turtle.answers),
    decreases fuel, cs,
{
    lemma_extends_refl(s.turtle.answers);
    if cs.len() > 0 {
        let first = run_cmd(s, cs[0], fuel, e1);
        lemma_frame_cmd(s, cs[0], fuel, e1, e1);
        match first {
            Ok(s1) => {
                let rest = cs.subrange(1, cs.len() as int);
                lemma_frame_cmds(s1, rest, fuel, e1, e1);
                lemma_extends_trans(s.turtle.answers, s1.turtle.answers, end_state(run_cmds(s1, rest, fuel, e1)).turtle.answers);
                lemma_frame_cmd(s, cs[0], fuel, e1, e2);
                lemma_frame_cmds(s1, rest, fuel, e1, e2);
            },
            Err(_) => {
                lemma_frame_cmd(s, cs[0], fuel, e1, e2);
            },
        }
    }
}

pub proof fn lemma_frame_while(
    s: StateV,
    cond: Expression,
    body: Seq<CommandV>,
    fuel: nat,
    e1: Seq<(i32, i32)>,
    e2: Seq<(i32, i32)>,
)
    requires
        agree_below(e1, e2, end_state(run_while(s, cond, body, fuel, e1)).turtle.answers.len() as int),
    ensures
        run_while(s, cond, body, fuel, e1) == run_while(s, cond, body, fuel, e2),
        extends(s.turtle.answers, end_state(run_while(s, cond, body, fuel, e1)).turtle.answers),
    decreases fuel, body,
{
    lemma_extends_refl(s.turtle.answers);
    if fuel > 0 {
        lemma_eval_stack_only(s, cond);
        match eval(s, cond) {
            Ok((s1, v)) => {
                if truth_of(v) == Ok::<bool, ErrorV>(true) {
                    let f = (fuel - 1) as nat;
                    lemma_frame_cmds(s1, body, f, e1, e1);
                    match run_cmds(s1, body, f, e1) {
                        Ok(s2) => {
                            lemma_frame_while(s2, cond, body, f, e1, e1);
                            lemma_extends_trans(s1.turtle.answers, s2.turtle.answers, end_state(run_while(s2, cond, body, f, e1)).turtle.answers);
                            lemma_frame_cmds(s1, body, f, e1, e2);
                            lemma_frame_while(s2, cond, body, f, e1, e2);
                        },
                        Err(_) => {
                            lemma_frame_cmds(s1, body, f, e1, e2);
                        },
                    }
                }
            },
            Err(_) => {},
        }
    }
}

/// Whether running `cs0` from `s0` comes to running `cs` from `s`, for every
/// list of answers that continues those `s` has had.
#[verifier::opaque]
pub open spec fn continues(s0: StateV, cs0: Seq<CommandV>, s: StateV, cs: Seq<CommandV>, fuel: nat) -> bool {
    forall|e: Seq<(i32, i32)>|
        extends(s.turtle.answers, e) ==> #[trigger] run_cmds(s0, cs0, fuel, e) == run_cmds(s, cs, fuel, e)
}

pub proof fn lemma_continues_start(s: StateV, cs: Seq<CommandV>, fuel: nat)
    ensures
        continues(s, cs, s, cs, fuel),
{
    reveal(continues);
}

pub proof fn lemma_continues_step(
    s0: StateV,
    cs0: Seq<CommandV>,
    s: StateV,
    cs: Seq<CommandV>,
    fuel: nat,
    s1: StateV,
)
    requires
        continues(s0, cs0, s, cs, fuel),
        cs.len() > 0,
        run_cmd(s, cs[0], fuel, s1.turtle.answers) == Ok::<StateV, (StateV, ErrorV)>(s1),
    ensures
        continues(s0, cs0, s1, cs.subrange(1, cs.len() as int), fuel),
        extends(s.turtle.answers, s1.turtle.answers),
{
    reveal(continues);
    let a1 = s1.turtle.answers;
    lemma_frame_cmd(s, cs[0], fuel, a1, a1);
    assert forall|e: Seq<(i32, i32)>| extends(a1, e) implies #[trigger] run_cmds(s0, cs0, fuel, e)
        == run_cmds(s1, cs.subrange(1, cs.len() as int), fuel, e) by {
        lemma_extends_agree(a1, e);
        lemma_frame_cmd(s, cs[0], fuel, a1, e);
        lemma_extends_trans(s.turtle.answers, a1, e);
    }
}

pub proof fn lemma_continues_err(
    s0: StateV,
    cs0: Seq<CommandV>,
    s: StateV,
    cs: Seq<CommandV>,
    fuel: nat,
    s1: StateV,
    x: ErrorV,
)
    requires
        continues(s0, cs0, s, cs, fuel),
        cs.len() > 0,
        run_cmd(s, cs[0], fuel, s1.turtle.answers) == Err::<StateV, (StateV, ErrorV)>((s1, x)),
    ensures
        run_cmds(s0, cs0, fuel, s1.turtle.answers) == Err::<StateV, (StateV, ErrorV)>((s1, x)),
{
    reveal(continues);
    lemma_frame_cmd(s, cs[0], fuel, s1.turtle.answers, s1.turtle.answers);
}

pub proof fn lemma_continues_end(s0: StateV, cs0: Seq<CommandV>, s: StateV, cs: Seq<CommandV>, fuel: nat)
    requires
        continues(s0, cs0, s, cs, fuel),
        cs.len() == 0,
    ensures
        run_cmds(s0, cs0, fuel, s.turtle.answers) == Ok::<StateV, (StateV, ErrorV)>(s),
{
    reveal(continues);
    lemma_extends_refl(s.turtle.answers);
}

/// Whether running `c` from `s0` comes to running the loop from `s` with
/// budget `f`, for every list of answers that continues those `s` has had.
#[verifier::opaque]
pub open spec fn loop_continues(
    s0: StateV,
    c: CommandV,
    fuel: nat,
    s: StateV,
    cond: Expression,
    body: Seq<CommandV>,
    f: nat,
) -> bool {
    forall|e: Seq<(i32, i32)>|
        extends(s.turtle.answers, e) ==> #[trigger] run_cmd(s0, c, fuel, e) == run_while(s, cond, body, f, e)
}

pub proof fn lemma_loop_start(s: StateV, cond: Expression, body: Seq<CommandV>, fuel: nat)
    ensures
        loop_continues(s, CommandV::While(cond, body), fuel, s, cond, body, fuel),
{
    reveal(loop_continues);
}

pub proof fn lemma_loop_now(
    s0: StateV,
    c: CommandV,
    fuel: nat,
    s: StateV,
    cond: Expression,
    body: Seq<CommandV>,
    f: nat,
)
    requires
        loop_continues(s0, c, fuel, s, cond, body, f),
    ensures
        run_cmd(s0, c, fuel, s.turtle.answers) == run_while(s, cond, body, f, s.turtle.answers),
{
    reveal(loop_continues);
    lemma_extends_refl(s.turtle.answers);
}

pub proof fn lemma_loop_step(
    s0: StateV,
    c: CommandV,
    fuel: nat,
    s: StateV,
    cond: Expression,
    body: Seq<CommandV>,
    f: nat,
    s1: StateV,
    v: Value,
    s2: StateV,
)
    requires
        loop_continues(s0, c, fuel, s, cond, body, f),
        f > 0,
        eval(s, cond) == Ok::<(StateV, Value), (StateV, ErrorV)>((s1, v)),
        truth_of(v) == Ok::<bool, ErrorV>(true),
        s1.turtle == s.turtle,
        run_cmds(s1, body, (f - 1) as nat, s2.turtle.answers) == Ok::<StateV, (StateV, ErrorV)>(s2),
    ensures
        loop_continues(s0, c, fuel, s2, cond, body, (f - 1) as nat),
        extends(s.turtle.answers, s2.turtle.answers),
{
    reveal(loop_continues);
    let a2 = s2.turtle.answers;
    let g = (f - 1) as nat;
    lemma_frame_cmds(s1, body, g, a2, a2);
    assert forall|e: Seq<(i32, i32)>| extends(a2, e) implies #[trigger] run_cmd(s0, c, fuel, e)
        == run_while(s2, cond, body, g, e) by {
        lemma_extends_agree(a2, e);
        lemma_frame_cmds(s1, body, g, a2, e);
        lemma_extends_trans(s.turtle.answers, a2, e);
    }
}

pub proof fn lemma_loop_body_err(
    s0: StateV,
    c: CommandV,
    fuel: nat,
    s: StateV,
    cond: Expression,
    body: Seq<CommandV>,
    f: nat,
    s1: StateV,
    v: Value,
    s2: StateV,
    x: ErrorV,
)
    requires
        loop_continues(s0, c, fuel, s, cond, body, f),
        f > 0,
        eval(s, cond) == Ok::<(StateV, Value), (StateV, ErrorV)>((s1, v)),
        truth_of(v) == Ok::<bool, ErrorV>(true),
        s1.turtle == s.turtle,
        run_cmds(s1, body, (f - 1) as nat, s2.turtle.answers) == Err::<StateV, (StateV, ErrorV)>((s2, x)),
    ensures
        run_cmd(s0, c, fuel, s2.turtle.answers) == Err::<StateV, (StateV, ErrorV)>((s2, x)),
{
    reveal(loop_continues);
    lemma_frame_cmds(s1, body, (f - 1) as nat, s2.turtle.answers, s2.turtle.answers);
}

} // verus!
