//! The evaluator: runs a parsed program against the state of one run.

use vstd::prelude::*;
use crate::ast::{CommandV, Command, Expression, Program, Value, cmds_view, copy_commands, copy_names, cmd_view};
use crate::error::RSLogoError;
use crate::operators::value_to_bool as truth_value;
use crate::procedure::ProcedureManager;
use crate::semantics::{Outcome, StateV, eval, eval_all, int_arg, name_text, plain_int, query_of, resolve, run_cmd, run_cmds, target_of, text_of_value, text_of_variable, value_text, continues, loop_continues, lemma_continues_start, lemma_continues_step, lemma_continues_err, lemma_continues_end, lemma_loop_start, lemma_loop_now, lemma_loop_step, lemma_loop_body_err, lemma_eval_stack_only, lemma_eval_all_stack_only, lemma_int_arg_stack_only};
use crate::stack::Stack;
use crate::text::{push_char, chars_of, int_to_text, is_false_word, is_true_word, parse_int, push_text, same_text, string_between};
use crate::turtle::Turtle;
use crate::variables::VariableManager;

verus! {

broadcast use {vstd::seq::group_seq_axioms, vstd::std_specs::vec::group_vec_axioms};

/// The step budget of a run: no program of practical size exhausts it.
pub const DEFAULT_FUEL: u64 = 0xffff_ffff_ffff_ffff;

/// The whole state of one run of a program.
pub struct Interpreter {
    turtle: Turtle,
    variables: VariableManager,
    stack: Stack,
    procedures: ProcedureManager,
}

impl View for Interpreter {
    type V = StateV;

    closed spec fn view(&self) -> StateV {
        StateV {
            turtle: self.turtle@,
            vars: self.variables@,
            stack: self.stack@,
            procs: self.procedures.procs(),
            frames: self.procedures.frames(),
        }
    }
}

pub open spec fn start_state(width: u32, height: u32) -> StateV {
    StateV {
        turtle: crate::turtle::start_turtle(width, height),
        vars: Seq::empty(),
        stack: Seq::empty(),
        procs: Seq::empty(),
        frames: Seq::empty(),
    }
}

/// Whether a spec outcome and a run's result agree: the same success or
/// the same error, and in either case the state given.
pub open spec fn agrees(spec_r: Outcome<StateV>, r: Result<(), RSLogoError>, after: StateV) -> bool {
    match spec_r {
        Ok(s) => r is Ok && after == s,
        Err((s, e)) => r is Err && r->Err_0@ == e && after == s,
    }
}

impl Interpreter {
    pub closed spec fn wf(&self) -> bool {
        self.turtle.wf()
    }

    /// A fresh run drawing into a `width` by `height` image.
    pub fn new(width: u32, height: u32) -> (r: Self)
        requires
            width > 0,
            height > 0,
        ensures
            r@ == start_state(width, height),
            r.wf(),
    {
        Self {
            turtle: Turtle::new(width, height),
            variables: VariableManager::new(),
            stack: Stack::new(),
            procedures: ProcedureManager::new(),
        }
    }

    pub fn turtle(&self) -> (r: &Turtle)
        ensures
            r@ == self@.turtle,
    {
        &self.turtle
    }

    pub fn stack(&self) -> (r: &Stack)
        ensures
            r@ == self@.stack,
    {
        &self.stack
    }

    pub fn variables(&self) -> (r: &VariableManager)
        ensures
            r@ == self@.vars,
    {
        &self.variables
    }

    /// Runs every command of the program in order with the default budget.
    pub fn execute(&mut self, program: &Program) -> (r: Result<(), RSLogoError>)
        requires
            old(self).wf(),
        ensures
            final(self).wf(),
            agrees(
                run_cmds(
                    old(self)@,
                    cmds_view(program.commands@),
                    DEFAULT_FUEL as nat,
                    final(self)@.turtle.answers,
                ),
                r,
                final(self)@,
            ),
    {
        self.execute_commands(&program.commands, DEFAULT_FUEL)
    }

    /// Runs every command of the program in order within the given budget.
    pub fn execute_with_fuel(&mut self, program: &Program, fuel: u64) -> (r: Result<(), RSLogoError>)
        requires
            old(self).wf(),
        ensures
            final(self).wf(),
            agrees(
                run_cmds(old(self)@, cmds_view(program.commands@), fuel as nat, final(self)@.turtle.answers),
                r,
                final(self)@,
            ),
    {
        self.execute_commands(&program.commands, fuel)
    }

    fn execute_commands(&mut self, commands: &Vec<Command>, fuel: u64) -> (r: Result<(), RSLogoError>)
        requires
            old(self).wf(),
        ensures
            final(self).wf(),
            agrees(run_cmds(old(self)@, cmds_view(commands@), fuel as nat, final(self)@.turtle.answers), r, final(self)@),
        decreases fuel, commands,
    {
        let ghost all = cmds_view(commands@);
        let mut i: usize = 0;
        assert(all.subrange(0, all.len() as int) =~= all);
        proof {
            lemma_continues_start(self@, all, fuel as nat);
        }
        while i < commands.len()
            invariant
                self.wf(),
                i <= commands@.len(),
                all == cmds_view(commands@),
                continues(old(self)@, all, self@, all.subrange(i as int, all.len() as int), fuel as nat),
            decreases commands@.len() - i,
        {
            let ghost rest = all.subrange(i as int, all.len() as int);
            let ghost cur = self@;
            assert(rest[0] == cmd_view(commands@[i as int]));
            assert(rest.subrange(1, rest.len() as int) =~= all.subrange(i + 1, all.len() as int));
            let r = self.execute_command(&commands[i], fuel);
            match r {
                Ok(()) => {
                    proof {
                        lemma_continues_step(old(self)@, all, cur, rest, fuel as nat, self@);
                    }
                },
                Err(x) => {
                    proof {
                        lemma_continues_err(old(self)@, all, cur, rest, fuel as nat, self@, x@);
                    }
                    return Err(x);
                },
            }
            i = i + 1;
        }
        proof {
            lemma_continues_end(old(self)@, all, self@, all.subrange(i as int, all.len() as int), fuel as nat);
        }
        assert(all.subrange(i as int, all.len() as int) =~= Seq::empty());
        Ok(())
    }

    fn execute_command(&mut self, command: &Command, fuel: u64) -> (r: Result<(), RSLogoError>)
        requires
            old(self).wf(),
        ensures
            final(self).wf(),
            agrees(run_cmd(old(self)@, command@, fuel as nat, final(self)@.turtle.answers), r, final(self)@),
        decreases fuel, command,
    {
        match command {
            Command::PenUp => {
                self.turtle.pen_up();
                Ok(())
            },
            Command::PenDown => {
                self.turtle.pen_down();
                Ok(())
            },
            Command::Forward(e) => {
                let n = self.int_argument(e)?;
                self.turtle.forward(n)
            },
            Command::Back(e) => {
                let n = self.int_argument(e)?;
                self.turtle.back(n)
            },
            Command::Left(e) => {
                let n = self.int_argument(e)?;
                self.turtle.left(n)
            },
            Command::Right(e) => {
                let n = self.int_argument(e)?;
                self.turtle.right(n)
            },
            Command::SetPenColor(e) => {
                let color = self.int_argument(e)?;
                if color < 0 || color > 15 {
                    return Err(
                        RSLogoError::InvalidArgument {
                            command: "SETPENCOLOR".to_owned(),
                            argument: int_to_text(color),
                            expected: "an integer between 0 and 15".to_owned(),
                        },
                    );
                }
                self.turtle.set_pen_color(color as u32)
            },
            Command::Turn(e) => {
                let degrees = self.int_argument(e)?;
                self.turtle.turn(degrees)
            },
            Command::SetHeading(e) => {
                let degrees = self.int_argument(e)?;
                self.turtle.set_heading(degrees);
                Ok(())
            },
            Command::SetX(e) => {
                let location = self.int_argument(e)?;
                self.turtle.set_x(location);
                Ok(())
            },
            Command::SetY(e) => {
                let location = self.int_argument(e)?;
                self.turtle.set_y(location);
                Ok(())
            },
            Command::Make(name_expr, value_expr) => {
                let name = self.evaluate_expression(name_expr)?;
                let value = self.evaluate_expression(value_expr)?;
                let name_str = self.value_to_string(&name)?;
                let stored = match value {
                    Value::String(s) => match parse_int(s.as_str()) {
                        Some(n) => Value::Number(n),
                        None => Value::String(s),
                    },
                    other => other,
                };
                self.variables.set(name_str.as_str(), stored);
                Ok(())
            },
            Command::AddAssign(name, e) => {
                let amount = self.int_argument(e)?;
                let var_name = self.assign_target(name)?;
                let current = match self.variables.get(var_name.as_str()) {
                    Some(v) => v.copy(),
                    None => {
                        return Err(
                            RSLogoError::UndefinedVariable {
                                variable_name: var_name,
                                defined_variables: self.variables.get_all_names(),
                            },
                        );
                    },
                };
                let current_amount = self.value_to_int(&current)?;
                match current_amount.checked_add(amount) {
                    Some(n) => {
                        self.variables.set(var_name.as_str(), Value::Number(n));
                        Ok(())
                    },
                    None => Err(RSLogoError::Overflow),
                }
            },
            Command::If(condition, body) => {
                let v = self.evaluate_expression(condition)?;
                if truth_value(&v)? {
                    self.execute_commands(body, fuel)
                } else {
                    Ok(())
                }
            },
            Command::While(condition, body) => {
                let ghost bv = cmds_view(body@);
                let mut f: u64 = fuel;
                proof {
                    lemma_loop_start(self@, *condition, bv, fuel as nat);
                }
                loop
                    invariant
                        self.wf(),
                        f <= fuel,
                        bv == cmds_view(body@),
                        command@ == CommandV::While(*condition, bv),
                        loop_continues(old(self)@, command@, fuel as nat, self@, *condition, bv, f as nat),
                    decreases f,
                {
                    let ghost cur = self@;
                    proof {
                        lemma_loop_now(old(self)@, command@, fuel as nat, cur, *condition, bv, f as nat);
                    }
                    if f == 0 {
                        return Err(RSLogoError::StepLimit);
                    }
                    let v = self.evaluate_expression(condition)?;
                    if !truth_value(&v)? {
                        return Ok(());
                    }
                    let ghost s1 = self@;
                    match self.execute_commands(body, f - 1) {
                        Ok(()) => {
                            proof {
                                lemma_loop_step(old(self)@, command@, fuel as nat, cur, *condition, bv, f as nat, s1, v, self@);
                            }
                        },
                        Err(x) => {
                            proof {
                                lemma_loop_body_err(old(self)@, command@, fuel as nat, cur, *condition, bv, f as nat, s1, v, self@, x@);
                            }
                            return Err(x);
                        },
                    }
                    f = f - 1;
                }
            },
            Command::Expression(e) => {
                self.evaluate_expression(e)?;
                Ok(())
            },
            Command::ProcedureDefinition { name, parameters, body } => {
                self.procedures.define_procedure(
                    name.clone(),
                    copy_names(parameters),
                    copy_commands(body),
                    &mut self.variables,
                )
            },
            Command::ProcedureCall { name, arguments } => {
                let (parameters, body) = match self.procedures.get_procedure(name.as_str()) {
                    Some(p) => (copy_names(p.get_parameters()), copy_commands(p.get_body())),
                    None => {
                        return Err(
                            RSLogoError::InvalidArgument {
                                command: "procedure call".to_owned(),
                                argument: name.clone(),
                                expected: "a defined procedure name".to_owned(),
                            },
                        );
                    },
                };
                let args = self.evaluate_all(arguments)?;
                if fuel == 0 && parameters.len() == args.len() {
                    return Err(RSLogoError::StepLimit);
                }
                self.procedures.push_parameters(parameters.as_slice(), args)?;
                self.execute_commands(&body, fuel - 1)?;
                self.procedures.pop_parameters();
                Ok(())
            },
        }
    }

    /// Evaluates a command's argument and reads it as an integer.
    fn int_argument(&mut self, e: &Expression) -> (r: Result<i32, RSLogoError>)
        requires
            old(self).wf(),
        ensures
            final(self).wf(),
            match int_arg(old(self)@, *e) {
                Ok((s, n)) => r == Ok::<i32, RSLogoError>(n) && final(self)@ == s,
                Err((s, x)) => r is Err && r->Err_0@ == x && final(self)@ == s,
            },
            final(self)@ == (StateV { stack: final(self)@.stack, ..old(self)@ }),
    {
        proof {
            lemma_int_arg_stack_only(self@, *e);
        }
        let v = self.evaluate_expression(e)?;
        self.value_to_int(&v)
    }

    /// The variable that `ADDASSIGN` changes.
    fn assign_target(&self, name: &String) -> (r: Result<String, RSLogoError>)
        ensures
            match target_of(self@, name@) {
                Ok(t) => r is Ok && r->Ok_0@ == t,
                Err(x) => r is Err && r->Err_0@ == x,
            },
    {
        let cs = chars_of(name.as_str());
        if cs.len() > 0 && cs[0] == ':' {
            let stripped = string_between(&cs, 1, cs.len());
            assert(stripped@ =~= name@.drop_first());
            self.resolve_variable_value(stripped.as_str())
        } else {
            match self.variables.get(name.as_str()) {
                Some(Value::String(s)) => Ok(s.clone()),
                _ => Ok(name.clone()),
            }
        }
    }

    fn evaluate_all(&mut self, arguments: &Vec<Expression>) -> (r: Result<Vec<Value>, RSLogoError>)
        requires
            old(self).wf(),
        ensures
            final(self).wf(),
            match eval_all(old(self)@, arguments@) {
                Ok((s, vs)) => r is Ok && r->Ok_0@ == vs && final(self)@ == s,
                Err((s, x)) => r is Err && r->Err_0@ == x && final(self)@ == s,
            },
            final(self)@ == (StateV { stack: final(self)@.stack, ..old(self)@ }),
    {
        proof {
            lemma_eval_all_stack_only(self@, arguments@);
        }
        let mut values: Vec<Value> = Vec::new();
        let mut i: usize = 0;
        while i < arguments.len()
            invariant
                self.wf(),
                i <= arguments@.len(),
                self@ == (StateV { stack: self@.stack, ..old(self)@ }),
                eval_all(old(self)@, arguments@.subrange(0, i as int)) == Ok::<
                    (StateV, Seq<Value>),
                    (StateV, crate::error::ErrorV),
                >((self@, values@)),
            decreases arguments@.len() - i,
        {
            assert(arguments@.subrange(0, i + 1).drop_last() =~= arguments@.subrange(0, i as int));
            match self.evaluate_expression(&arguments[i]) {
                Ok(v) => {
                    values.push(v);
                },
                Err(x) => {
                    proof {
                        lemma_eval_all_prefix_err(old(self)@, arguments@, i + 1);
                    }
                    return Err(x);
                },
            }
            i = i + 1;
        }
        assert(arguments@.subrange(0, i as int) =~= arguments@);
        Ok(values)
    }

    /// Evaluates an expression, pushing the value of it and of every
    /// sub-expression.
    pub fn evaluate_expression(&mut self, expr: &Expression) -> (r: Result<Value, RSLogoError>)
        requires
            old(self).wf(),
        ensures
            final(self).wf(),
            match eval(old(self)@, *expr) {
                Ok((s, v)) => r == Ok::<Value, RSLogoError>(v) && final(self)@ == s,
                Err((s, x)) => r is Err && r->Err_0@ == x && final(self)@ == s,
            },
            final(self)@ == (StateV { stack: final(self)@.stack, ..old(self)@ }),
        decreases expr,
    {
        proof {
            lemma_eval_stack_only(self@, *expr);
        }
        match expr {
            Expression::Value(v) => {
                let resolved = self.resolve_value(v)?;
                self.stack.push(resolved.copy());
                Ok(resolved)
            },
            Expression::BinaryOp(op, left, right) => {
                self.evaluate_expression(left)?;
                self.evaluate_expression(right)?;
                let v = op.apply(&mut self.stack)?;
                self.stack.push(v.copy());
                Ok(v)
            },
            Expression::Query(q) => {
                let result = self.resolve_query(q.as_str())?;
                self.stack.push(result.copy());
                Ok(result)
            },
        }
    }

    /// A resolved value as an integer.
    fn value_to_int(&self, value: &Value) -> (r: Result<i32, RSLogoError>)
        ensures
            match plain_int(*value) {
                Ok(n) => r == Ok::<i32, RSLogoError>(n),
                Err(x) => r is Err && r->Err_0@ == x,
            },
    {
        match value {
            Value::Number(n) => Ok(*n),
            Value::String(s) => match parse_int(s.as_str()) {
                Some(n) => Ok(n),
                None => Err(
                    RSLogoError::UnexpectedValue { expected: "a number".to_owned(), got: s.clone() },
                ),
            },
            Value::Boolean(b) => Ok(if *b { 1 } else { 0 }),
            Value::Variable(_) => Err(RSLogoError::TypeMismatch),
        }
    }

    fn value_to_string(&self, value: &Value) -> (r: Result<String, RSLogoError>)
        ensures
            match text_of_value(self@, *value) {
                Ok(t) => r is Ok && r->Ok_0@ == t,
                Err(x) => r is Err && r->Err_0@ == x,
            },
    {
        match value {
            Value::String(s) => Ok(s.clone()),
            Value::Number(n) => Ok(int_to_text(*n)),
            Value::Variable(var) => self.resolve_variable_value(var.as_str()),
            Value::Boolean(b) => Ok(if *b { "true".to_owned() } else { "false".to_owned() }),
        }
    }

    /// The text a variable holds, for use as a name.
    fn resolve_variable_value(&self, name: &str) -> (r: Result<String, RSLogoError>)
        ensures
            match text_of_variable(self@, name@) {
                Ok(t) => r is Ok && r->Ok_0@ == t,
                Err(x) => r is Err && r->Err_0@ == x,
            },
    {
        if let Some(p) = self.procedures.get_parameter_value(name) {
            return name_text_of(p);
        }
        match self.variables.get(name) {
            Some(g) => name_text_of(g),
            None => Err(
                RSLogoError::UndefinedVariable {
                    variable_name: name.to_owned(),
                    defined_variables: self.variables.get_all_names(),
                },
            ),
        }
    }

    fn resolve_value(&self, value: &Value) -> (r: Result<Value, RSLogoError>)
        ensures
            match resolve(self@, *value) {
                Ok(v) => r == Ok::<Value, RSLogoError>(v),
                Err(x) => r is Err && r->Err_0@ == x,
            },
    {
        match value {
            Value::Variable(name) => {
                if let Some(p) = self.procedures.get_parameter_value(name.as_str()) {
                    return Ok(p.copy());
                }
                match self.variables.get(name.as_str()) {
                    Some(var_value) => {
                        if let Value::String(s) = var_value {
                            let cs = chars_of(s.as_str());
                            if cs.len() > 0 && cs[0] == ':' {
                                let referenced = string_between(&cs, 1, cs.len());
                                assert(referenced@ =~= s@.drop_first());
                                return match self.variables.get(referenced.as_str()) {
                                    Some(f) => Ok(f.copy()),
                                    None => Err(
                                        RSLogoError::UndefinedVariable {
                                            variable_name: referenced,
                                            defined_variables: self.variables.get_all_names(),
                                        },
                                    ),
                                };
                            }
                        }
                        Ok(var_value.copy())
                    },
                    None => Err(
                        RSLogoError::UndefinedVariable {
                            variable_name: name.clone(),
                            defined_variables: self.variables.get_all_names(),
                        },
                    ),
                }
            },
            Value::String(s) => {
                if is_true_word(s.as_str()) {
                    Ok(Value::Boolean(true))
                } else if is_false_word(s.as_str()) {
                    Ok(Value::Boolean(false))
                } else {
                    Ok(value.copy())
                }
            },
            _ => Ok(value.copy()),
        }
    }

    fn resolve_query(&self, query: &str) -> (r: Result<Value, RSLogoError>)
        ensures
            match query_of(self@, query@) {
                Ok(v) => r == Ok::<Value, RSLogoError>(v),
                Err(x) => r is Err && r->Err_0@ == x,
            },
    {
        proof {
            reveal_strlit("XCOR");
            reveal_strlit("YCOR");
            reveal_strlit("HEADING");
            reveal_strlit("COLOR");
        }
        if same_text(query, "XCOR") {
            Ok(Value::Number(self.turtle.get_x()))
        } else if same_text(query, "YCOR") {
            Ok(Value::Number(self.turtle.get_y()))
        } else if same_text(query, "HEADING") {
            Ok(Value::Number(self.turtle.get_heading()))
        } else if same_text(query, "COLOR") {
            Ok(Value::Number(self.turtle.get_pen_color() as i32))
        } else {
            Err(
                RSLogoError::InvalidArgument {
                    command: "query".to_owned(),
                    argument: query.to_owned(),
                    expected: "XCOR, YCOR, HEADING, or COLOR".to_owned(),
                },
            )
        }
    }
}

proof fn lemma_eval_all_prefix_err(s: StateV, args: Seq<Expression>, k: int)
    requires
        0 <= k <= args.len(),
        eval_all(s, args.subrange(0, k)) is Err,
    ensures
        eval_all(s, args) == eval_all(s, args.subrange(0, k)),
    decreases args.len(),
{
    if k < args.len() {
        assert(args.drop_last().subrange(0, k) =~= args.subrange(0, k));
        lemma_eval_all_prefix_err(s, args.drop_last(), k);
    } else {
        assert(args.subrange(0, k) =~= args);
    }
}

/// The text a bound value gives as a name.
fn name_text_of(v: &Value) -> (r: Result<String, RSLogoError>)
    ensures
        match name_text(*v) {
            Ok(t) => r is Ok && r->Ok_0@ == t,
            Err(x) => r is Err && r->Err_0@ == x,
        },
{
    match v {
        Value::String(s) => Ok(s.clone()),
        Value::Number(n) => Ok(int_to_text(*n)),
        _ => Err(
            RSLogoError::UnexpectedValue {
                expected: "a string or number".to_owned(),
                got: written_text(v),
            },
        ),
    }
}

/// A value as it is written.
fn written_text(v: &Value) -> (r: String)
    ensures
        r@ == value_text(*v),
{
    match v {
        Value::Number(n) => int_to_text(*n),
        Value::String(s) => s.clone(),
        Value::Variable(n) => {
            let mut out = String::new();
            push_char(&mut out, ':');
            push_text(&mut out, n.as_str());
            out
        },
        Value::Boolean(b) => {
            proof {
                reveal_strlit("TRUE");
                reveal_strlit("FALSE");
            }
            let mut out = String::new();
            push_text(&mut out, if *b { "TRUE" } else { "FALSE" });
            assert(out@ =~= value_text(*v));
            out
        },
    }
}

} // verus!
