//! Properties of the parser and the evaluator, proved from their
//! definitions.

use vstd::prelude::*;
use crate::ast::CommandV;
use crate::error::ErrorV;
use crate::grammar::{
    arg_error, bare_at, block_at, command_at, unary_at, def_at, def_body, expr_at, extra_at, line_of, name_end, params_at,
    skip_all, stray_end, tag_at, unary_from, unary_words, unterminated, ws_end, byte_at,
};
use crate::interpreter::agrees;
use crate::semantics::{StateV, run_cmds};
use crate::error::RSLogoError;
use crate::text::int_text;
use crate::grammar::{blank_from, comment_at, program_items, program_of, CmdP};

verus! {

/// An `END` that no `TO` opened is a parse error that names the 1-based
/// line of that `END` and points at its bytes.
pub proof fn law_stray_end_names_its_line(s: Seq<char>, p: int)
    requires
        0 <= p <= s.len(),
        tag_at(s, p, "END"@),
    ensures
        command_at(s, p) == Some::<(Result<crate::grammar::CmdP, ErrorV>, int)>(
            (Err(stray_end(s, p)), p + 3),
        ),
        stray_end(s, p) == (ErrorV::ParseError {
            input: s.subrange(p, s.len() as int),
            span: (byte_at(s, p) as usize, 3usize),
            message: "Found 'END' command on line "@ + int_text(line_of(s, p))
                + " without matching 'TO' procedure definition. Each 'END' must be paired with a 'TO' procedure definition."@,
        }),
        line_of(s, p) == crate::grammar::newlines(s.subrange(0, p)) + 1,
{
    reveal_strlit("END");
}

/// A definition `TO name ...` whose body, written without brackets, runs out
/// before any `END` is a parse error naming the procedure and how many
/// commands of its body were read.
pub proof fn law_unterminated_definition(s: Seq<char>, p: int)
    requires
        0 <= p <= s.len(),
        tag_at(s, p, "TO"@),
        ({
            let q = p + 2;
            let a = ws_end(s, q);
            let n = name_end(s, a, false);
            let b = skip_all(s, params_at(s, n).1);
            q < a < n && p < b <= s.len() && block_at(s, b) is None && !def_body(
                s,
                b,
                Seq::empty(),
            ).0
        }),
    ensures
        ({
            let a = ws_end(s, p + 2);
            let n = name_end(s, a, false);
            let b = skip_all(s, params_at(s, n).1);
            let body = def_body(s, b, Seq::empty());
            def_at(s, p) == Some::<(Result<crate::grammar::CmdP, ErrorV>, int)>(
                (Err(unterminated(s, b, s.subrange(a, n), body.1.len())), body.2),
            )
        }),
{
    reveal_strlit("TO");
}

/// Running the same commands from equal states, with the image library
/// giving the moves the same end points, gives the same outcome: the same
/// final state (turtle, lines drawn, variables, stack, procedures and
/// frames), or the same error at the same state.
pub proof fn law_runs_are_deterministic(
    start_a: StateV,
    start_b: StateV,
    cs: Seq<CommandV>,
    fuel: nat,
    ra: Result<(), RSLogoError>,
    end_a: StateV,
    rb: Result<(), RSLogoError>,
    end_b: StateV,
)
    requires
        start_a == start_b,
        end_a.turtle.answers == end_b.turtle.answers,
        agrees(run_cmds(start_a, cs, fuel, end_a.turtle.answers), ra, end_a),
        agrees(run_cmds(start_b, cs, fuel, end_b.turtle.answers), rb, end_b),
    ensures
        ra is Ok <==> rb is Ok,
        end_a == end_b,
        ra is Err ==> ra->Err_0@ == rb->Err_0@,
{
}

/// Where the expression at `a` ends, or `a` when there is none.
pub open spec fn expr_end(s: Seq<char>, a: int) -> int {
    match expr_at(s, a) {
        Some((_, e)) => e,
        None => a,
    }
}

/// Where the further argument after `b` ends, or `b` when there is none.
pub open spec fn extra_end(s: Seq<char>, b: int) -> int {
    match extra_at(s, b) {
        Some(e) => e,
        None => b,
    }
}

proof fn lemma_not_tag(s: Seq<char>, p: int, w: Seq<char>, v: Seq<char>, i: int)
    requires
        tag_at(s, p, w),
        0 <= i < w.len(),
        i < v.len(),
        w[i] != v[i],
    ensures
        !tag_at(s, p, v),
{
    assert(s.subrange(p, p + w.len())[i] == s[p + i]);
    if tag_at(s, p, v) {
        assert(s.subrange(p, p + v.len())[i] == s[p + i]);
    }
}

proof fn lemma_unary_skip(s: Seq<char>, p: int, j: int, k: int)
    requires
        0 <= j <= k < 9,
        forall|m: int| j <= m < k ==> !tag_at(s, p, #[trigger] unary_words()[m]),
    ensures
        unary_from(s, p, j) == unary_from(s, p, k),
    decreases k - j,
{
    if j < k {
        assert(!tag_at(s, p, unary_words()[j]));
        assert(unary_at(s, p, unary_words()[j]) is None);
        lemma_unary_skip(s, p, j + 1, k);
    }
}

/// The first and fourth letters of the keywords that take one argument,
/// which tell them apart.
proof fn lemma_unary_words_distinct(s: Seq<char>, p: int, k: int)
    requires
        0 <= k < 9,
        tag_at(s, p, unary_words()[k]),
    ensures
        forall|m: int| 0 <= m < 9 && m != k ==> !tag_at(s, p, #[trigger] unary_words()[m]),
        !tag_at(s, p, "END"@),
        !tag_at(s, p, "TO"@),
        !tag_at(s, p, "PENUP"@),
        !tag_at(s, p, "PENDOWN"@),
{
    reveal_strlit("FORWARD");
    reveal_strlit("BACK");
    reveal_strlit("LEFT");
    reveal_strlit("RIGHT");
    reveal_strlit("SETPENCOLOR");
    reveal_strlit("TURN");
    reveal_strlit("SETHEADING");
    reveal_strlit("SETX");
    reveal_strlit("SETY");
    reveal_strlit("END");
    reveal_strlit("TO");
    reveal_strlit("PENUP");
    reveal_strlit("PENDOWN");
    let w = unary_words()[k];
    assert forall|m: int| 0 <= m < 9 && m != k implies !tag_at(s, p, #[trigger] unary_words()[m]) by {
        let v = unary_words()[m];
        if w[0] != v[0] {
            lemma_not_tag(s, p, w, v, 0);
        } else {
            lemma_not_tag(s, p, w, v, 3);
        }
    }
    if k == 5 {
        lemma_not_tag(s, p, w, "TO"@, 1);
    } else {
        lemma_not_tag(s, p, w, "TO"@, 0);
    }
    lemma_not_tag(s, p, w, "END"@, 0);
    lemma_not_tag(s, p, w, "PENUP"@, 0);
    lemma_not_tag(s, p, w, "PENDOWN"@, 0);
}

/// A command that takes one argument, given one expression more, is refused
/// as `InvalidArgument` naming that command; reading stops after the extra
/// expression.
pub proof fn law_extra_argument_refused(s: Seq<char>, p: int, k: int)
    requires
        0 <= p <= s.len(),
        0 <= k < 9,
        tag_at(s, p, unary_words()[k]),
        ({
            let q = p + unary_words()[k].len();
            let a = ws_end(s, q);
            q < a && expr_at(s, a) is Some && extra_at(s, expr_end(s, a)) is Some
        }),
    ensures
        ({
            let w = unary_words()[k];
            let a = ws_end(s, p + w.len());
            command_at(s, p) == Some::<(Result<crate::grammar::CmdP, ErrorV>, int)>(
                (Err(arg_error(w, "only one argument"@)), extra_end(s, expr_end(s, a))),
            )
        }),
{
    lemma_unary_words_distinct(s, p, k);
    lemma_unary_skip(s, p, 0, k);
    assert(bare_at(s, p, "PENUP"@, crate::grammar::CmdP::PenUp) is None);
    assert(bare_at(s, p, "PENDOWN"@, crate::grammar::CmdP::PenDown) is None);
    assert(def_at(s, p) is None);
}

/// `PENUP` or `PENDOWN` followed by an expression is refused as
/// `InvalidArgument` naming the command.
pub proof fn law_extra_argument_refused_bare(s: Seq<char>, p: int, down: bool)
    requires
        0 <= p <= s.len(),
        tag_at(s, p, if down { "PENDOWN"@ } else { "PENUP"@ }),
        extra_at(s, p + (if down { "PENDOWN"@ } else { "PENUP"@ }).len()) is Some,
    ensures
        ({
            let w = if down { "PENDOWN"@ } else { "PENUP"@ };
            command_at(s, p) == Some::<(Result<crate::grammar::CmdP, ErrorV>, int)>(
                (Err(arg_error(w, "no arguments"@)), extra_end(s, p + w.len())),
            )
        }),
{
    reveal_strlit("END");
    reveal_strlit("TO");
    reveal_strlit("PENUP");
    reveal_strlit("PENDOWN");
    let w = if down { "PENDOWN"@ } else { "PENUP"@ };
    lemma_not_tag(s, p, w, "END"@, 0);
    lemma_not_tag(s, p, w, "TO"@, 0);
    if down {
        lemma_not_tag(s, p, w, "PENUP"@, 3);
    }
    assert(def_at(s, p) is None);
}

/// When the first command of a source is an error and the rest of the text
/// is read to its end, parsing the source gives that error.
pub proof fn law_first_command_error(s: Seq<char>, x: ErrorV, b: int)
    requires
        comment_at(s, 0) is None,
        !blank_from(s, 0),
        command_at(s, ws_end(s, 0)) == Some::<(Result<CmdP, ErrorV>, int)>((Err(x), b)),
        program_items(s, 0).1 == s.len(),
    ensures
        program_of(s) == Err::<Seq<CmdP>, ErrorV>(x),
{
    let items = program_items(s, 0).0;
    if items.len() > 0 {
        assert(items[0] == Err::<CmdP, ErrorV>(x));
    }
}

proof fn lemma_not_comment_start(s: Seq<char>)
    requires
        0 <= ws_end(s, 0) < s.len(),
        s[ws_end(s, 0)] != '/',
    ensures
        comment_at(s, 0) is None,
{
    reveal_strlit("//");
    if tag_at(s, 0, "//"@) {
        assert(s.subrange(0, 2)[0] == s[0]);
        if ws_end(s, 0) > 0 {
            assert(crate::grammar::is_ws(s[0]));
        }
    }
}

proof fn lemma_ws_end_stops(s: Seq<char>, p: int)
    requires
        0 <= p <= s.len(),
    ensures
        p <= ws_end(s, p) <= s.len(),
        ws_end(s, p) < s.len() ==> !crate::grammar::is_ws(s[ws_end(s, p)]),
        forall|i: int| p <= i < ws_end(s, p) ==> crate::grammar::is_ws(#[trigger] s[i]),
    decreases s.len() - p,
{
    if p < s.len() && crate::grammar::is_ws(s[p]) {
        lemma_ws_end_stops(s, p + 1);
    }
}

/// A source whose first command is an `END`, and whose text is read to its
/// end, fails to parse with the error for that `END`, naming its line.
pub proof fn law_program_stray_end(s: Seq<char>)
    requires
        ws_end(s, 0) <= s.len(),
        tag_at(s, ws_end(s, 0), "END"@),
        program_items(s, 0).1 == s.len(),
    ensures
        program_of(s) == Err::<Seq<CmdP>, ErrorV>(stray_end(s, ws_end(s, 0))),
{
    reveal_strlit("END");
    let a = ws_end(s, 0);
    lemma_ws_end_stops(s, 0);
    assert(s.subrange(a, a + 3)[0] == s[a]);
    lemma_blank_fails(s, a);
    lemma_not_comment_start(s);
    law_stray_end_names_its_line(s, a);
    law_first_command_error(s, stray_end(s, a), a + 3);
}

proof fn lemma_blank_fails(s: Seq<char>, a: int)
    requires
        0 <= a < s.len(),
        !crate::text::white_space(s[a]),
    ensures
        !blank_from(s, 0),
{
}

/// A source whose first command takes one argument and is given one more,
/// and whose text is read to its end, fails to parse with `InvalidArgument`
/// naming that command.
pub proof fn law_program_extra_argument(s: Seq<char>, k: int)
    requires
        0 <= k < 9,
        ws_end(s, 0) <= s.len(),
        tag_at(s, ws_end(s, 0), unary_words()[k]),
        ({
            let q = ws_end(s, 0) + unary_words()[k].len();
            let a = ws_end(s, q);
            q < a && expr_at(s, a) is Some && extra_at(s, expr_end(s, a)) is Some
        }),
        program_items(s, 0).1 == s.len(),
    ensures
        program_of(s) == Err::<Seq<CmdP>, ErrorV>(arg_error(unary_words()[k], "only one argument"@)),
{
    let p = ws_end(s, 0);
    lemma_ws_end_stops(s, 0);
    law_extra_argument_refused(s, p, k);
    reveal_strlit("FORWARD");
    reveal_strlit("BACK");
    reveal_strlit("LEFT");
    reveal_strlit("RIGHT");
    reveal_strlit("SETPENCOLOR");
    reveal_strlit("TURN");
    reveal_strlit("SETHEADING");
    reveal_strlit("SETX");
    reveal_strlit("SETY");
    let w = unary_words()[k];
    assert(s.subrange(p, p + w.len())[0] == s[p]);
    assert(s[p] == w[0]);
    lemma_blank_fails(s, p);
    lemma_not_comment_start(s);
    law_first_command_error(
        s,
        arg_error(w, "only one argument"@),
        extra_end(s, expr_end(s, ws_end(s, p + w.len()))),
    );
}

/// A source whose first command is a definition whose body runs out before
/// any `END`, and whose text is read to its end, fails to parse with the
/// error naming the procedure and the count of commands read.
pub proof fn law_program_unterminated(s: Seq<char>)
    requires
        ws_end(s, 0) <= s.len(),
        tag_at(s, ws_end(s, 0), "TO"@),
        ({
            let p = ws_end(s, 0);
            let q = p + 2;
            let a = ws_end(s, q);
            let n = name_end(s, a, false);
            let b = skip_all(s, params_at(s, n).1);
            q < a < n && p < b <= s.len() && block_at(s, b) is None && !def_body(
                s,
                b,
                Seq::empty(),
            ).0
        }),
        program_items(s, 0).1 == s.len(),
    ensures
        ({
            let p = ws_end(s, 0);
            let a = ws_end(s, p + 2);
            let n = name_end(s, a, false);
            let b = skip_all(s, params_at(s, n).1);
            let body = def_body(s, b, Seq::empty());
            program_of(s) == Err::<Seq<CmdP>, ErrorV>(
                unterminated(s, b, s.subrange(a, n), body.1.len()),
            )
        }),
{
    reveal_strlit("TO");
    reveal_strlit("END");
    let p = ws_end(s, 0);
    lemma_ws_end_stops(s, 0);
    law_unterminated_definition(s, p);
    assert(s.subrange(p, p + 2)[0] == s[p]);
    lemma_not_tag(s, p, "TO"@, "END"@, 0);
    lemma_blank_fails(s, p);
    lemma_not_comment_start(s);
    let a = ws_end(s, p + 2);
    let n = name_end(s, a, false);
    let b = skip_all(s, params_at(s, n).1);
    let body = def_body(s, b, Seq::empty());
    law_first_command_error(s, unterminated(s, b, s.subrange(a, n), body.1.len()), body.2);
}

/// Evaluating an expression leaves exactly its value on top of the operand
/// stack, and changes nothing else.
pub proof fn law_eval_pushes_result(s: StateV, e: crate::ast::Expression)
    requires
        crate::semantics::eval(s, e) is Ok,
    ensures
        ({
            let (s2, v) = crate::semantics::eval(s, e)->Ok_0;
            s2 == crate::semantics::pushed(s, v)
        }),
    decreases e,
{
    match e {
        crate::ast::Expression::BinaryOp(op, l, r) => {
            law_eval_pushes_result(s, *l);
            let (s1, lv) = crate::semantics::eval(s, *l)->Ok_0;
            law_eval_pushes_result(s1, *r);
            let (s2, rv) = crate::semantics::eval(s1, *r)->Ok_0;
            assert(s2.stack.subrange(0, s2.stack.len() - 2) =~= s.stack);
        },
        _ => {},
    }
}

} // verus!
