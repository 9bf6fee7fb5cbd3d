//! Procedure definitions and the stack of parameter frames of active calls.

use vstd::prelude::*;
use crate::ast::{Command, CommandV, Value, cmds_view, names_view};
use crate::error::{ErrorV, RSLogoError};
use crate::text::{chars_of, int_text, same_text, string_between, push_text, count_to_text};
use crate::variables::{Bindings, VariableManager, assign, lookup};

verus! {

/// A procedure as the registry keeps it.
pub ghost struct ProcedureV {
    pub name: Seq<char>,
    pub parameters: Seq<Seq<char>>,
    pub body: Seq<CommandV>,
}

#[derive(Debug)]
pub struct Procedure {
    name: String,
    parameters: Vec<String>,
    body: Vec<Command>,
}

impl View for Procedure {
    type V = ProcedureV;

    closed spec fn view(&self) -> ProcedureV {
        ProcedureV {
            name: self.name@,
            parameters: names_view(self.parameters@),
            body: cmds_view(self.body@),
        }
    }
}

impl Procedure {
    pub fn new(name: String, parameters: Vec<String>, body: Vec<Command>) -> (r: Self)
        ensures
            r@ == (ProcedureV {
                name: name@,
                parameters: names_view(parameters@),
                body: cmds_view(body@),
            }),
    {
        Self { name, parameters, body }
    }

    pub fn get_body(&self) -> (r: &Vec<Command>)
        ensures
            cmds_view(r@) == self@.body,
    {
        &self.body
    }

    pub fn get_parameters(&self) -> (r: &Vec<String>)
        ensures
            names_view(r@) == self@.parameters,
    {
        &self.parameters
    }
}

/// Position of the procedure named `name`, or -1.
pub open spec fn proc_index(p: Seq<ProcedureV>, name: Seq<char>) -> int
    decreases p.len(),
{
    if p.len() == 0 {
        -1
    } else if p.last().name == name {
        p.len() - 1
    } else {
        proc_index(p.drop_last(), name)
    }
}

pub open spec fn find_proc(p: Seq<ProcedureV>, name: Seq<char>) -> Option<ProcedureV> {
    let i = proc_index(p, name);
    if 0 <= i < p.len() {
        Some(p[i])
    } else {
        None
    }
}

/// The registry after a definition: one of the same name is replaced in place.
pub open spec fn define(p: Seq<ProcedureV>, d: ProcedureV) -> Seq<ProcedureV> {
    let i = proc_index(p, d.name);
    if 0 <= i < p.len() {
        p.update(i, d)
    } else {
        p.push(d)
    }
}

/// A parameter name as fixed at definition time: `:x` becomes the text that
/// variable `x` holds, if it holds a text; any other name stays as written.
pub open spec fn fixed_parameter(vars: Bindings, param: Seq<char>) -> Seq<char> {
    if param.len() > 0 && param[0] == ':' {
        match lookup(vars, param.drop_first()) {
            Some(Value::String(s)) => s@,
            _ => param,
        }
    } else {
        param
    }
}

pub open spec fn fixed_parameters(vars: Bindings, params: Seq<Seq<char>>) -> Seq<Seq<char>> {
    Seq::new(params.len(), |i: int| fixed_parameter(vars, params[i]))
}

/// The variable a parameter binds: a parameter kept as `:n` binds `n`.
pub open spec fn bound_name(param: Seq<char>) -> Seq<char> {
    if param.len() > 0 && param[0] == ':' {
        param.drop_first()
    } else {
        param
    }
}

/// One frame binding each parameter to its argument, a later repeat of a
/// name winning.
pub open spec fn frame_of(params: Seq<Seq<char>>, args: Seq<Value>) -> Bindings
    decreases params.len(),
{
    if params.len() == 0 || args.len() == 0 {
        Seq::empty()
    } else {
        assign(
            frame_of(params.drop_last(), args.drop_last()),
            bound_name(params.last()),
            args.last(),
        )
    }
}

/// The innermost binding of `name` over all frames.
pub open spec fn frames_lookup(frames: Seq<Bindings>, name: Seq<char>) -> Option<Value>
    decreases frames.len(),
{
    if frames.len() == 0 {
        None
    } else {
        match lookup(frames.last(), name) {
            Some(v) => Some(v),
            None => frames_lookup(frames.drop_last(), name),
        }
    }
}

pub open spec fn arity_error(expected: nat, got: nat) -> ErrorV {
    ErrorV::InvalidArgument {
        command: "procedure call"@,
        argument: int_text(got as int) + " arguments"@,
        expected: int_text(expected as int) + " arguments"@,
    }
}

/// The registry of procedures and the parameter frames of the calls under way.
#[derive(Debug)]
pub struct ProcedureManager {
    procedures: Vec<Procedure>,
    parameter_stack: Vec<Vec<(String, Value)>>,
}

pub open spec fn frame_view(f: Seq<(String, Value)>) -> Bindings {
    Seq::new(f.len(), |i: int| (f[i].0@, f[i].1))
}

impl ProcedureManager {
    pub closed spec fn procs(&self) -> Seq<ProcedureV> {
        Seq::new(self.procedures@.len(), |i: int| self.procedures@[i]@)
    }

    pub closed spec fn frames(&self) -> Seq<Bindings> {
        Seq::new(self.parameter_stack@.len(), |i: int| frame_view(self.parameter_stack@[i]@))
    }

    pub fn new() -> (r: Self)
        ensures
            r.procs() == Seq::<ProcedureV>::empty(),
            r.frames() == Seq::<Bindings>::empty(),
    {
        let r = Self { procedures: Vec::new(), parameter_stack: Vec::new() };
        assert(r.procs() =~= Seq::<ProcedureV>::empty());
        assert(r.frames() =~= Seq::<Bindings>::empty());
        r
    }

    fn find(&self, name: &str) -> (r: Option<usize>)
        ensures
            r is None ==> proc_index(self.procs(), name@) == -1,
            r is Some ==> r->0 == proc_index(self.procs(), name@) && r->0
                < self.procedures@.len(),
    {
        let mut found: Option<usize> = None;
        let mut i: usize = 0;
        while i < self.procedures.len()
            invariant
                i <= self.procedures@.len(),
                found is None ==> proc_index(self.procs().subrange(0, i as int), name@) == -1,
                found is Some ==> found->0 == proc_index(
                    self.procs().subrange(0, i as int),
                    name@,
                ) && found->0 < i,
            decreases self.procedures@.len() - i,
        {
            assert(self.procs().subrange(0, i + 1).drop_last() =~= self.procs().subrange(
                0,
                i as int,
            ));
            if same_text(self.procedures[i].name.as_str(), name) {
                found = Some(i);
            }
            i = i + 1;
        }
        assert(self.procs().subrange(0, i as int) =~= self.procs());
        found
    }

    /// Stores a procedure under `name`, its parameter names fixed against the
    /// variables as they are now.
    pub fn define_procedure(
        &mut self,
        name: String,
        parameters: Vec<String>,
        body: Vec<Command>,
        variables: &mut VariableManager,
    ) -> (r: Result<(), RSLogoError>)
        ensures
            r is Ok,
            final(variables)@ == old(variables)@,
            final(self).frames() == old(self).frames(),
            final(self).procs() == define(
                old(self).procs(),
                ProcedureV {
                    name: name@,
                    parameters: fixed_parameters(old(variables)@, names_view(parameters@)),
                    body: cmds_view(body@),
                },
            ),
    {
        let mut fixed: Vec<String> = Vec::new();
        let mut i: usize = 0;
        while i < parameters.len()
            invariant
                i <= parameters@.len(),
                names_view(fixed@) =~= fixed_parameters(
                    variables@,
                    names_view(parameters@),
                ).subrange(0, i as int),
            decreases parameters@.len() - i,
        {
            let p = &parameters[i];
            let cs = chars_of(p.as_str());
            let mut chosen = p.clone();
            if cs.len() > 0 && cs[0] == ':' {
                let stripped = string_between(&cs, 1, cs.len());
                assert(stripped@ =~= p@.drop_first());
                match variables.get(stripped.as_str()) {
                    Some(Value::String(s)) => {
                        chosen = s.clone();
                    },
                    _ => {},
                }
            }
            assert(chosen@ == fixed_parameter(variables@, p@));
            let ghost before = fixed@;
            fixed.push(chosen);
            i = i + 1;
            assert(names_view(fixed@) =~= names_view(before).push(chosen@));
        }
        assert(fixed_parameters(variables@, names_view(parameters@)).subrange(0, i as int)
            =~= fixed_parameters(variables@, names_view(parameters@)));
        let ghost d = ProcedureV {
            name: name@,
            parameters: fixed_parameters(variables@, names_view(parameters@)),
            body: cmds_view(body@),
        };
        let ghost old_procs = self.procs();
        let procedure = Procedure::new(name, fixed, body);
        match self.find(procedure.name.as_str()) {
            Some(k) => {
                self.procedures.set(k, procedure);
            },
            None => {
                self.procedures.push(procedure);
            },
        }
        assert(self.procs() =~= define(old_procs, d));
        Ok(())
    }

    pub fn get_procedure(&self, name: &str) -> (r: Option<&Procedure>)
        ensures
            r is None ==> find_proc(self.procs(), name@) is None,
            r is Some ==> find_proc(self.procs(), name@) == Some(r->0@),
    {
        match self.find(name) {
            Some(i) => {
                assert(self.procs()[i as int] == self.procedures@[i as int]@);
                Some(&self.procedures[i])
            },
            None => None,
        }
    }

    /// Opens a frame for a call; the counts of parameters and arguments must agree.
    pub fn push_parameters(&mut self, params: &[String], args: Vec<Value>) -> (r: Result<
        (),
        RSLogoError,
    >)
        ensures
            final(self).procs() == old(self).procs(),
            params@.len() != args@.len() ==> r is Err && r->Err_0@ == arity_error(
                params@.len(),
                args@.len(),
            ) && final(self).frames() == old(self).frames(),
            params@.len() == args@.len() ==> r is Ok && final(self).frames() == old(
                self,
            ).frames().push(frame_of(names_view(params@), args@)),
    {
        if params.len() != args.len() {
            let mut argument = count_to_text(args.len());
            push_text(&mut argument, " arguments");
            let mut expected = count_to_text(params.len());
            push_text(&mut expected, " arguments");
            return Err(
                RSLogoError::InvalidArgument {
                    command: "procedure call".to_owned(),
                    argument,
                    expected,
                },
            );
        }
        let mut frame: Vec<(String, Value)> = Vec::new();
        let mut i: usize = 0;
        while i < params.len()
            invariant
                i <= params@.len(),
                params@.len() == args@.len(),
                frame_view(frame@) == frame_of(
                    names_view(params@).subrange(0, i as int),
                    args@.subrange(0, i as int),
                ),
            decreases params@.len() - i,
        {
            let ghost fb = frame_view(frame@);
            assert(names_view(params@).subrange(0, i + 1).drop_last() =~= names_view(
                params@,
            ).subrange(0, i as int));
            assert(args@.subrange(0, i + 1).drop_last() =~= args@.subrange(0, i as int));
            let written = &params[i];
            let wc = chars_of(written.as_str());
            let name = if wc.len() > 0 && wc[0] == ':' {
                string_between(&wc, 1, wc.len())
            } else {
                written.clone()
            };
            assert(name@ =~= bound_name(written@));
            let value = args[i].copy();
            let mut found: Option<usize> = None;
            let mut j: usize = 0;
            while j < frame.len()
                invariant
                    j <= frame@.len(),
                    fb == frame_view(frame@),
                    found is None ==> crate::variables::key_index(fb.subrange(0, j as int), name@) == -1,
                    found is Some ==> found->0 == crate::variables::key_index(
                        fb.subrange(0, j as int),
                        name@,
                    ) && found->0 < j,
                decreases frame@.len() - j,
            {
                assert(fb.subrange(0, j + 1).drop_last() =~= fb.subrange(0, j as int));
                if same_text(frame[j].0.as_str(), name.as_str()) {
                    found = Some(j);
                }
                j = j + 1;
            }
            assert(fb.subrange(0, j as int) =~= fb);
            match found {
                Some(k) => {
                    frame.set(k, (name, value));
                },
                None => {
                    frame.push((name, value));
                },
            }
            i = i + 1;
            assert(frame_view(frame@) =~= frame_of(
                names_view(params@).subrange(0, i as int),
                args@.subrange(0, i as int),
            ));
        }
        assert(names_view(params@).subrange(0, i as int) =~= names_view(params@));
        assert(args@.subrange(0, i as int) =~= args@);
        let ghost old_frames = self.frames();
        self.parameter_stack.push(frame);
        assert(self.frames() =~= old_frames.push(frame_of(names_view(params@), args@)));
        Ok(())
    }

    /// Closes the innermost frame.
    pub fn pop_parameters(&mut self)
        ensures
            final(self).procs() == old(self).procs(),
            final(self).frames() == (if old(self).frames().len() > 0 {
                old(self).frames().drop_last()
            } else {
                old(self).frames()
            }),
    {
        let ghost old_frames = self.frames();
        self.parameter_stack.pop();
        assert(self.frames() =~= (if old_frames.len() > 0 {
            old_frames.drop_last()
        } else {
            old_frames
        }));
    }

    /// The value bound to `name` in the innermost frame that binds it.
    pub fn get_parameter_value(&self, name: &str) -> (r: Option<&Value>)
        ensures
            r is None ==> frames_lookup(self.frames(), name@) is None,
            r is Some ==> frames_lookup(self.frames(), name@) == Some(*r->0),
    {
        let mut k: usize = self.parameter_stack.len();
        assert(self.frames().subrange(0, k as int) =~= self.frames());
        while k > 0
            invariant
                k <= self.parameter_stack@.len(),
                frames_lookup(self.frames(), name@) == frames_lookup(
                    self.frames().subrange(0, k as int),
                    name@,
                ),
            decreases k,
        {
            let frame = &self.parameter_stack[k - 1];
            let ghost fv = frame_view(frame@);
            assert(self.frames().subrange(0, k as int).last() == fv);
            assert(self.frames().subrange(0, k as int).drop_last() =~= self.frames().subrange(
                0,
                k - 1,
            ));
            let mut found: Option<usize> = None;
            let mut j: usize = 0;
            while j < frame.len()
                invariant
                    j <= frame@.len(),
                    fv == frame_view(frame@),
                    found is None ==> crate::variables::key_index(fv.subrange(0, j as int), name@) == -1,
                    found is Some ==> found->0 == crate::variables::key_index(
                        fv.subrange(0, j as int),
                        name@,
                    ) && found->0 < j,
                decreases frame@.len() - j,
            {
                assert(fv.subrange(0, j + 1).drop_last() =~= fv.subrange(0, j as int));
                if same_text(frame[j].0.as_str(), name) {
                    found = Some(j);
                }
                j = j + 1;
            }
            assert(fv.subrange(0, j as int) =~= fv);
            if let Some(i) = found {
                return Some(&frame[i].1);
            }
            k = k - 1;
        }
        None
    }
}

} // verus!
