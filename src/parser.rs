//! The parser: source text to a program, by recursive descent over the
//! characters of the text.

use vstd::prelude::*;
use crate::ast::{Command, Expression, Operator, Program, Value};
use crate::error::RSLogoError;
use crate::grammar;
use crate::grammar::{CmdP, ExprV, Step, ValueV, byte_at, cmd_pview, cmds_pview, expr_pview, exprs_pview, fits, value_pview};
use crate::error::ErrorV;
use crate::text::is_white_space;
use vstd::utf8::{encode_utf8, encode_scalar};
use crate::text::{chars_of, count_to_text, is_alnum, parse_int, push_text, string_between};

verus! {

broadcast use {vstd::seq::group_seq_axioms, vstd::std_specs::vec::group_vec_axioms};

/// A parse result that stops at or before `n`.
pub open spec fn within<T>(r: Option<(T, usize)>, n: nat) -> bool {
    match r {
        Some((_, e)) => e <= n,
        None => true,
    }
}

pub open spec fn same_value(r: Option<(Value, usize)>, g: Option<(ValueV, int)>) -> bool {
    match (r, g) {
        (Some((x, e)), Some((y, f))) => value_pview(x) == y && e == f,
        (None, None) => true,
        _ => false,
    }
}

pub open spec fn same_op(r: Option<(Operator, usize)>, g: Option<(Operator, int)>) -> bool {
    match (r, g) {
        (Some((x, e)), Some((y, f))) => x == y && e == f,
        (None, None) => true,
        _ => false,
    }
}

pub open spec fn same_expr(r: Option<(Expression, usize)>, g: Option<(ExprV, int)>) -> bool {
    match (r, g) {
        (Some((x, e)), Some((y, f))) => expr_pview(x) == y && e == f,
        (None, None) => true,
        _ => false,
    }
}

fn ws_end(s: &Vec<char>, p: usize) -> (r: usize)
    requires
        p <= s@.len(),
    ensures
        r == grammar::ws_end(s@, p as int),
        p <= r <= s@.len(),
{
    let mut i = p;
    while i < s.len() && (s[i] == ' ' || s[i] == '\t' || s[i] == '\r' || s[i] == '\n')
        invariant
            p <= i <= s@.len(),
            grammar::ws_end(s@, p as int) == grammar::ws_end(s@, i as int),
        decreases s@.len() - i,
    {
        i = i + 1;
    }
    i
}

fn is_name_char(c: char, dash: bool) -> (r: bool)
    ensures
        r == grammar::name_char(c, dash),
{
    is_alnum(c) || c == '_' || (dash && c == '-')
}

fn name_end(s: &Vec<char>, p: usize, dash: bool) -> (r: usize)
    requires
        p <= s@.len(),
    ensures
        r == grammar::name_end(s@, p as int, dash),
        p <= r <= s@.len(),
{
    let mut i = p;
    while i < s.len() && is_name_char(s[i], dash)
        invariant
            p <= i <= s@.len(),
            grammar::name_end(s@, p as int, dash) == grammar::name_end(s@, i as int, dash),
        decreases s@.len() - i,
    {
        i = i + 1;
    }
    i
}

fn digits_end(s: &Vec<char>, p: usize) -> (r: usize)
    requires
        p <= s@.len(),
    ensures
        r == grammar::digits_end(s@, p as int),
        p <= r <= s@.len(),
{
    let mut i = p;
    while i < s.len() && ('0' <= s[i] && s[i] <= '9')
        invariant
            p <= i <= s@.len(),
            grammar::digits_end(s@, p as int) == grammar::digits_end(s@, i as int),
        decreases s@.len() - i,
    {
        i = i + 1;
    }
    i
}

/// Whether `t` is written at `p`; if so, where it ends.
fn tag_at(s: &Vec<char>, p: usize, t: &str) -> (r: Option<usize>)
    requires
        p <= s@.len(),
    ensures
        r is Some <==> grammar::tag_at(s@, p as int, t@),
        r is Some ==> r->0 == p + t@.len() && r->0 <= s@.len(),
{
    let w = chars_of(t);
    let n = s.len();
    if w.len() > n - p {
        return None;
    }
    let mut i: usize = 0;
    while i < w.len()
        invariant
            w@ == t@,
            n == s@.len(),
            p <= n,
            p + w@.len() <= s@.len(),
            i <= w@.len(),
            forall|j: int| 0 <= j < i ==> s@[p + j] == w@[j],
        decreases w@.len() - i,
    {
        if s[p + i] != w[i] {
            assert(s@.subrange(p as int, p + w@.len())[i as int] != t@[i as int]);
            return None;
        }
        i = i + 1;
    }
    assert(s@.subrange(p as int, p + w@.len()) =~= t@);
    Some(p + w.len())
}

/// Reads a literal at `p`.
fn value_at(s: &Vec<char>, p: usize) -> (r: Option<(Value, usize)>)
    requires
        p <= s@.len(),
    ensures
        same_value(r, grammar::value_at(s@, p as int)),
        within(r, s@.len()),
{
    let n = s.len();
    if p < n && s[p] == '"' {
        let e = name_end(s, p + 1, true);
        if e > p + 1 {
            return Some((Value::String(string_between(s, p + 1, e)), e));
        }
    }
    let q = if p < n && s[p] == '-' { p + 1 } else { p };
    let d = digits_end(s, q);
    if d > q {
        let text = string_between(s, p, d);
        if let Some(v) = parse_int(text.as_str()) {
            return Some((Value::Number(v), d));
        }
    }
    if p < n && s[p] == ':' {
        let e = name_end(s, p + 1, false);
        if e > p + 1 {
            return Some((Value::Variable(string_between(s, p + 1, e)), e));
        }
    }
    if let Some(e) = tag_at(s, p, "TRUE") {
        return Some((Value::Boolean(true), e));
    }
    if let Some(e) = tag_at(s, p, "FALSE") {
        return Some((Value::Boolean(false), e));
    }
    None
}

fn op_entry(k: usize) -> (r: (Operator, &'static str))
    requires
        k < 10,
    ensures
        r.0 == grammar::op_order()[k as int],
        r.1@ == grammar::op_word(r.0),
{
    match k {
        0 => (Operator::Add, "+"),
        1 => (Operator::Subtract, "-"),
        2 => (Operator::Multiply, "*"),
        3 => (Operator::Divide, "/"),
        4 => (Operator::Equal, "EQ"),
        5 => (Operator::NotEqual, "NE"),
        6 => (Operator::GreaterThan, "GT"),
        7 => (Operator::LessThan, "LT"),
        8 => (Operator::And, "AND"),
        _ => (Operator::Or, "OR"),
    }
}

fn op_at(s: &Vec<char>, p: usize) -> (r: Option<(Operator, usize)>)
    requires
        p <= s@.len(),
    ensures
        same_op(r, grammar::op_at(s@, p as int)),
        within(r, s@.len()),
{
    let mut k: usize = 0;
    while k < 10
        invariant
            k <= 10,
            p <= s@.len(),
            grammar::op_at(s@, p as int) == grammar::op_from(s@, p as int, k as int),
        decreases 10 - k,
    {
        let (op, w) = op_entry(k);
        if let Some(e) = tag_at(s, p, w) {
            return Some((op, e));
        }
        k = k + 1;
    }
    None
}

fn query_word(k: usize) -> (r: &'static str)
    requires
        k < 4,
    ensures
        r@ == grammar::query_words()[k as int],
{
    match k {
        0 => "XCOR",
        1 => "YCOR",
        2 => "HEADING",
        _ => "COLOR",
    }
}

fn query_at(s: &Vec<char>, p: usize) -> (r: Option<(Expression, usize)>)
    requires
        p <= s@.len(),
    ensures
        same_expr(r, grammar::query_from(s@, p as int, 0)),
        within(r, s@.len()),
{
    let mut k: usize = 0;
    while k < 4
        invariant
            k <= 4,
            p <= s@.len(),
            grammar::query_from(s@, p as int, 0) == grammar::query_from(s@, p as int, k as int),
        decreases 4 - k,
    {
        let w = query_word(k);
        if let Some(e) = tag_at(s, p, w) {
            return Some((Expression::Query(w.to_owned()), e));
        }
        k = k + 1;
    }
    None
}

/// Reads an expression at `p`.
fn expr_at(s: &Vec<char>, p: usize) -> (r: Option<(Expression, usize)>)
    requires
        p <= s@.len(),
    ensures
        same_expr(r, grammar::expr_at(s@, p as int)),
        within(r, s@.len()),
    decreases s@.len() - p,
{
    if let Some((v, e)) = value_at(s, p) {
        return Some((Expression::Value(v), e));
    }
    if let Some((op, q)) = op_at(s, p) {
        let a = ws_end(s, q);
        if p < q && q < a {
            if let Some((l, b)) = expr_at(s, a) {
                let c = ws_end(s, b);
                if a < b && b < c {
                    if let Some((r, d)) = expr_at(s, c) {
                        return Some((Expression::BinaryOp(op, Box::new(l), Box::new(r)), d));
                    }
                }
            }
        }
    }
    query_at(s, p)
}

// ---- positions in bytes and lines ----

proof fn lemma_encode_concat(a: Seq<char>, b: Seq<char>)
    ensures
        encode_utf8(a + b) == encode_utf8(a) + encode_utf8(b),
    decreases a.len(),
{
    if a.len() == 0 {
        assert(a + b =~= b);
        assert(encode_utf8(a) =~= Seq::<u8>::empty());
        assert(encode_utf8(a) + encode_utf8(b) =~= encode_utf8(b));
    } else {
        assert((a + b).drop_first() =~= a.drop_first() + b);
        assert((a + b)[0] == a[0]);
        lemma_encode_concat(a.drop_first(), b);
        assert(encode_utf8(a + b) =~= encode_utf8(a) + encode_utf8(b));
    }
}

proof fn lemma_byte_at_step(s: Seq<char>, i: int)
    requires
        0 <= i < s.len(),
    ensures
        byte_at(s, i + 1) == byte_at(s, i) + encode_scalar(s[i] as u32).len(),
        byte_at(s, i + 1) <= byte_at(s, s.len() as int),
{
    let a = s.subrange(0, i);
    let c = seq![s[i]];
    assert(s.subrange(0, i + 1) =~= a + c);
    lemma_encode_concat(a, c);
    assert(c.drop_first() =~= Seq::<char>::empty());
    assert(encode_utf8(c) =~= encode_scalar(s[i] as u32) + encode_utf8(Seq::<char>::empty()));
    assert(s =~= s.subrange(0, i + 1) + s.subrange(i + 1, s.len() as int));
    lemma_encode_concat(s.subrange(0, i + 1), s.subrange(i + 1, s.len() as int));
    assert(s.subrange(0, s.len() as int) =~= s);
}

pub open spec fn same_pos(r: Option<usize>, g: Option<int>) -> bool {
    match (r, g) {
        (Some(e), Some(f)) => e == f,
        (None, None) => true,
        _ => false,
    }
}

fn utf8_width(c: char) -> (r: usize)
    ensures
        r == encode_scalar(c as u32).len(),
{
    let v = c as u32;
    if v <= 0x7f {
        1
    } else if v <= 0x7ff {
        2
    } else if v <= 0xffff && !(0xd800 <= v && v <= 0xdfff) {
        3
    } else {
        4
    }
}

/// The byte offset of position `i`.
fn byte_offset(s: &Vec<char>, i: usize) -> (r: usize)
    requires
        i <= s@.len(),
        fits(s@),
    ensures
        r == byte_at(s@, i as int),
{
    let mut k: usize = 0;
    let mut off: usize = 0;
    assert(s@.subrange(0, 0) =~= Seq::<char>::empty());
    while k < i
        invariant
            k <= i <= s@.len(),
            fits(s@),
            off == byte_at(s@, k as int),
        decreases i - k,
    {
        proof {
            lemma_byte_at_step(s@, k as int);
            assert(s@.subrange(0, s@.len() as int) =~= s@);
        }
        off = off + utf8_width(s[k]);
        k = k + 1;
    }
    off
}

proof fn lemma_byte_at_bounds(s: Seq<char>, i: int)
    requires
        0 <= i <= s.len(),
    ensures
        byte_at(s, i) <= byte_at(s, s.len() as int),
{
    assert(s =~= s.subrange(0, i) + s.subrange(i, s.len() as int));
    lemma_encode_concat(s.subrange(0, i), s.subrange(i, s.len() as int));
    assert(s.subrange(0, s.len() as int) =~= s);
}

proof fn lemma_newlines_bound(t: Seq<char>)
    ensures
        grammar::newlines(t) <= t.len(),
    decreases t.len(),
{
    if t.len() > 0 {
        lemma_newlines_bound(t.drop_last());
    }
}

/// The 1-based line of position `p`.
fn line_number(s: &Vec<char>, p: usize) -> (r: usize)
    requires
        p < s@.len(),
    ensures
        r == grammar::line_of(s@, p as int),
{
    let mut k: usize = 0;
    let mut n: usize = 0;
    let total = s.len();
    assert(s@.subrange(0, 0) =~= Seq::<char>::empty());
    while k < p
        invariant
            total == s@.len(),
            k <= p < s@.len(),
            n == grammar::newlines(s@.subrange(0, k as int)),
            n <= k,
        decreases p - k,
    {
        assert(s@.subrange(0, k + 1).drop_last() =~= s@.subrange(0, k as int));
        if s[k] == '\n' {
            n = n + 1;
        }
        k = k + 1;
    }
    n + 1
}

// ---- comments and line endings ----

fn line_stop(s: &Vec<char>, p: usize) -> (r: usize)
    requires
        p <= s@.len(),
    ensures
        r == grammar::line_stop(s@, p as int),
        p <= r <= s@.len(),
{
    let mut i = p;
    while i < s.len() && s[i] != '\r' && s[i] != '\n'
        invariant
            p <= i <= s@.len(),
            grammar::line_stop(s@, p as int) == grammar::line_stop(s@, i as int),
        decreases s@.len() - i,
    {
        i = i + 1;
    }
    i
}

fn line_ending_at(s: &Vec<char>, p: usize) -> (r: Option<usize>)
    requires
        p <= s@.len(),
    ensures
        same_pos(r, grammar::line_ending_at(s@, p as int)),
        r is Some ==> p < r->0 <= s@.len(),
{
    if p < s.len() && s[p] == '\n' {
        Some(p + 1)
    } else if p < s.len() && p + 1 < s.len() && s[p] == '\r' && s[p + 1] == '\n' {
        Some(p + 2)
    } else {
        None
    }
}

fn comment_at(s: &Vec<char>, p: usize) -> (r: Option<usize>)
    requires
        p <= s@.len(),
    ensures
        same_pos(r, grammar::comment_at(s@, p as int)),
        r is Some ==> p < r->0 <= s@.len(),
{
    proof {
        reveal_strlit("//");
    }
    match tag_at(s, p, "//") {
        None => None,
        Some(q) => {
            let e = line_stop(s, q);
            if e < s.len() && s[e] == '\r' && !(e + 1 < s.len() && s[e + 1] == '\n') {
                None
            } else if e < s.len() {
                line_ending_at(s, e)
            } else {
                Some(e)
            }
        },
    }
}

fn skip_all(s: &Vec<char>, p: usize) -> (r: usize)
    requires
        p <= s@.len(),
    ensures
        r == grammar::skip_all(s@, p as int),
        p <= r <= s@.len(),
{
    let mut i = p;
    loop
        invariant
            p <= i <= s@.len(),
            grammar::skip_all(s@, p as int) == grammar::skip_all(s@, i as int),
        decreases s@.len() - i,
    {
        if i < s.len() && (s[i] == ' ' || s[i] == '\t' || s[i] == '\r' || s[i] == '\n') {
            i = ws_end(s, i + 1);
        } else {
            match comment_at(s, i) {
                Some(e) => {
                    i = e;
                },
                None => {
                    return i;
                },
            }
        }
    }
}

fn endings_end(s: &Vec<char>, p: usize) -> (r: usize)
    requires
        p <= s@.len(),
    ensures
        r == grammar::endings_end(s@, p as int),
        p <= r <= s@.len(),
{
    let mut i = p;
    loop
        invariant
            p <= i <= s@.len(),
            grammar::endings_end(s@, p as int) == grammar::endings_end(s@, i as int),
        decreases s@.len() - i,
    {
        match line_ending_at(s, i) {
            Some(e) => {
                i = e;
            },
            None => {
                return i;
            },
        }
    }
}

fn blank_from(s: &Vec<char>, p: usize) -> (r: bool)
    requires
        p <= s@.len(),
    ensures
        r == grammar::blank_from(s@, p as int),
{
    let mut i = p;
    while i < s.len()
        invariant
            p <= i <= s@.len(),
            forall|j: int| p <= j < i ==> crate::text::white_space(#[trigger] s@[j]),
        decreases s@.len() - i,
    {
        if !is_white_space(s[i]) {
            return false;
        }
        i = i + 1;
    }
    true
}

// ---- commands without nested commands ----

pub open spec fn res_pview(r: Result<Command, RSLogoError>) -> Result<CmdP, ErrorV> {
    match r {
        Ok(c) => Ok(cmd_pview(c)),
        Err(e) => Err(e@),
    }
}

pub open spec fn same_step(r: Option<(Result<Command, RSLogoError>, usize)>, g: Step) -> bool {
    match (r, g) {
        (Some((x, e)), Some((y, f))) => res_pview(x) == y && e == f,
        (None, None) => true,
        _ => false,
    }
}

pub open spec fn same_unary(
    r: Option<(Result<Expression, RSLogoError>, usize)>,
    g: Option<(Result<ExprV, ErrorV>, int)>,
) -> bool {
    match (r, g) {
        (Some((Ok(x), e)), Some((Ok(y), f))) => expr_pview(x) == y && e == f,
        (Some((Err(x), e)), Some((Err(y), f))) => x@ == y && e == f,
        (None, None) => true,
        _ => false,
    }
}

fn arg_error(kw: &str, expected: &str) -> (r: RSLogoError)
    ensures
        r@ == grammar::arg_error(kw@, expected@),
{
    RSLogoError::InvalidArgument {
        command: kw.to_owned(),
        argument: String::new(),
        expected: expected.to_owned(),
    }
}

fn extra_at(s: &Vec<char>, p: usize) -> (r: Option<usize>)
    requires
        p <= s@.len(),
    ensures
        same_pos(r, grammar::extra_at(s@, p as int)),
        r is Some ==> r->0 <= s@.len(),
{
    let a = ws_end(s, p);
    if p < a {
        match expr_at(s, a) {
            Some((_, e)) => Some(e),
            None => None,
        }
    } else {
        None
    }
}

fn bare_at(s: &Vec<char>, p: usize, kw: &str, down: bool) -> (r: Option<(Result<Command, RSLogoError>, usize)>)
    requires
        p <= s@.len(),
    ensures
        same_step(r, grammar::bare_at(s@, p as int, kw@, if down { CmdP::PenDown } else { CmdP::PenUp })),
        within(r, s@.len()),
{
    match tag_at(s, p, kw) {
        None => None,
        Some(q) => match extra_at(s, q) {
            Some(e) => Some((Err(arg_error(kw, "no arguments")), e)),
            None => Some((Ok(if down { Command::PenDown } else { Command::PenUp }), q)),
        },
    }
}

fn unary_at(s: &Vec<char>, p: usize, kw: &str) -> (r: Option<(Result<Expression, RSLogoError>, usize)>)
    requires
        p <= s@.len(),
    ensures
        same_unary(r, grammar::unary_at(s@, p as int, kw@)),
        within(r, s@.len()),
{
    match tag_at(s, p, kw) {
        None => None,
        Some(q) => {
            let a = ws_end(s, q);
            if q < a {
                match expr_at(s, a) {
                    Some((e, b)) => match extra_at(s, b) {
                        Some(x) => Some((Err(arg_error(kw, "only one argument")), x)),
                        None => Some((Ok(e), b)),
                    },
                    None => None,
                }
            } else {
                None
            }
        },
    }
}

fn unary_word(k: usize) -> (r: &'static str)
    requires
        k < 9,
    ensures
        r@ == grammar::unary_words()[k as int],
{
    match k {
        0 => "FORWARD",
        1 => "BACK",
        2 => "LEFT",
        3 => "RIGHT",
        4 => "SETPENCOLOR",
        5 => "TURN",
        6 => "SETHEADING",
        7 => "SETX",
        _ => "SETY",
    }
}

fn unary_command(k: usize, e: Expression) -> (r: Command)
    requires
        k < 9,
    ensures
        cmd_pview(r) == grammar::unary_cmd(k as int, expr_pview(e)),
{
    match k {
        0 => Command::Forward(e),
        1 => Command::Back(e),
        2 => Command::Left(e),
        3 => Command::Right(e),
        4 => Command::SetPenColor(e),
        5 => Command::Turn(e),
        6 => Command::SetHeading(e),
        7 => Command::SetX(e),
        _ => Command::SetY(e),
    }
}

fn unary_from(s: &Vec<char>, p: usize) -> (r: Option<(Result<Command, RSLogoError>, usize)>)
    requires
        p <= s@.len(),
    ensures
        same_step(r, grammar::unary_from(s@, p as int, 0)),
        within(r, s@.len()),
{
    let mut k: usize = 0;
    while k < 9
        invariant
            k <= 9,
            p <= s@.len(),
            grammar::unary_from(s@, p as int, 0) == grammar::unary_from(s@, p as int, k as int),
        decreases 9 - k,
    {
        match unary_at(s, p, unary_word(k)) {
            Some((Ok(e), q)) => {
                return Some((Ok(unary_command(k, e)), q));
            },
            Some((Err(x), q)) => {
                return Some((Err(x), q));
            },
            None => {},
        }
        k = k + 1;
    }
    None
}

fn make_at(s: &Vec<char>, p: usize) -> (r: Option<(Result<Command, RSLogoError>, usize)>)
    requires
        p <= s@.len(),
    ensures
        same_step(r, grammar::make_at(s@, p as int)),
        within(r, s@.len()),
{
    let q = tag_at(s, p, "MAKE")?;
    let a = ws_end(s, q);
    if q < a {
        let (x, b) = expr_at(s, a)?;
        let c = ws_end(s, b);
        if b < c {
            let (y, d) = expr_at(s, c)?;
            return Some((Ok(Command::Make(x, y)), d));
        }
    }
    None
}

fn addassign_at(s: &Vec<char>, p: usize) -> (r: Option<(Result<Command, RSLogoError>, usize)>)
    requires
        p <= s@.len(),
    ensures
        same_step(r, grammar::addassign_at(s@, p as int)),
        within(r, s@.len()),
{
    let q = tag_at(s, p, "ADDASSIGN")?;
    let a = ws_end(s, q);
    if !(q < a && a < s.len() && (s[a] == '"' || s[a] == ':')) {
        return None;
    }
    let n = name_end(s, a + 1, false);
    let c = ws_end(s, n);
    if !(a + 1 < n && n < c) {
        return None;
    }
    let (e, d) = expr_at(s, c)?;
    match extra_at(s, d) {
        Some(x) => Some((Err(arg_error("ADDASSIGN", "only two arguments")), x)),
        None => {
            let name = if s[a] == ':' { string_between(s, a, n) } else { string_between(s, a + 1, n) };
            Some((Ok(Command::AddAssign(name, e)), d))
        },
    }
}

fn call_at(s: &Vec<char>, p: usize) -> (r: Option<(Result<Command, RSLogoError>, usize)>)
    requires
        p <= s@.len(),
    ensures
        same_step(r, grammar::call_at(s@, p as int)),
        within(r, s@.len()),
{
    let n = name_end(s, p, false);
    if !(p < n) {
        return None;
    }
    let name = string_between(s, p, n);
    if crate::text::same_text(name.as_str(), "TO") || crate::text::same_text(name.as_str(), "END") {
        return None;
    }
    let mut args: Vec<Expression> = Vec::new();
    let mut cur = n;
    loop
        invariant
            n <= cur <= s@.len(),
            grammar::call_args(s@, n as int) == (
                exprs_pview(args@) + grammar::call_args(s@, cur as int).0,
                grammar::call_args(s@, cur as int).1,
            ),
        ensures
            grammar::call_args(s@, cur as int) == (Seq::<ExprV>::empty(), cur as int),
        decreases s@.len() - cur,
    {
        let a = ws_end(s, cur);
        if !(cur < a) {
            break;
        }
        match expr_at(s, a) {
            Some((x, b)) => {
                if !(a < b) {
                    break;
                }
                let ghost before = args@;
                args.push(x);
                assert(exprs_pview(args@) =~= exprs_pview(before) + seq![expr_pview(x)]);
                assert(grammar::call_args(s@, cur as int).0 =~= seq![expr_pview(x)] + grammar::call_args(s@, b as int).0);
                assert(exprs_pview(args@) + grammar::call_args(s@, b as int).0 =~= exprs_pview(before) + grammar::call_args(s@, cur as int).0);
                cur = b;
            },
            None => {
                break;
            },
        }
    }
    assert(grammar::call_args(s@, cur as int).0 =~= Seq::<ExprV>::empty());
    assert(exprs_pview(args@) + Seq::<ExprV>::empty() =~= exprs_pview(args@));
    Some((Ok(Command::ProcedureCall { name, arguments: args }), cur))
}

// ---- nested commands ----

pub open spec fn same_cmds(r: Result<Vec<Command>, RSLogoError>, g: Result<Seq<CmdP>, ErrorV>) -> bool {
    match (r, g) {
        (Ok(v), Ok(cs)) => cmds_pview(v@) == cs,
        (Err(x), Err(y)) => x@ == y,
        _ => false,
    }
}

pub open spec fn same_block(
    r: Option<(Result<Vec<Command>, RSLogoError>, usize)>,
    g: Option<(Result<Seq<CmdP>, ErrorV>, int)>,
) -> bool {
    match (r, g) {
        (Some((x, e)), Some((y, f))) => same_cmds(x, y) && e == f,
        (None, None) => true,
        _ => false,
    }
}

/// The commands gathered so far agree with the items seen: all of them, or
/// the first error among them.
pub open spec fn gathered(seen: Seq<Result<CmdP, ErrorV>>, cmds: Seq<Command>, err: Option<RSLogoError>) -> bool {
    match grammar::first_err(seen) {
        Ok(cs) => err is None && cmds_pview(cmds) == cs,
        Err(x) => err is Some && err->0@ == x,
    }
}

proof fn lemma_first_err_push(a: Seq<Result<CmdP, ErrorV>>, x: Result<CmdP, ErrorV>)
    ensures
        grammar::first_err(a.push(x)) == match grammar::first_err(a) {
            Err(e) => Err(e),
            Ok(cs) => match x {
                Ok(c) => Ok(cs.push(c)),
                Err(e) => Err(e),
            },
        },
    decreases a.len(),
{
    if a.len() == 0 {
        assert(a.push(x)[0] == x);
        assert(a.push(x).drop_first() =~= Seq::<Result<CmdP, ErrorV>>::empty());
        assert(grammar::first_err(a.push(x).drop_first()) == Ok::<Seq<CmdP>, ErrorV>(Seq::empty()));
        assert(grammar::first_err(a) == Ok::<Seq<CmdP>, ErrorV>(Seq::empty()));
        match x {
            Ok(c) => {
                assert(seq![c] + Seq::<CmdP>::empty() =~= Seq::<CmdP>::empty().push(c));
            },
            Err(_) => {},
        }
    } else {
        assert(a.push(x).drop_first() =~= a.drop_first().push(x));
        assert(a.push(x)[0] == a[0]);
        lemma_first_err_push(a.drop_first(), x);
        match (a[0], grammar::first_err(a.drop_first())) {
            (Ok(c), Ok(cs)) => {
                match x {
                    Ok(d) => {
                        assert(seq![c] + cs.push(d) =~= (seq![c] + cs).push(d));
                    },
                    Err(_) => {},
                }
            },
            _ => {},
        }
    }
}

/// Adds one item to what has been gathered.
fn gather(cmds: &mut Vec<Command>, err: &mut Option<RSLogoError>, item: Result<Command, RSLogoError>, Ghost(seen): Ghost<Seq<Result<CmdP, ErrorV>>>)
    requires
        gathered(seen, old(cmds)@, *old(err)),
    ensures
        gathered(seen.push(res_pview(item)), final(cmds)@, *final(err)),
{
    proof {
        lemma_first_err_push(seen, res_pview(item));
    }
    if err.is_none() {
        match item {
            Ok(c) => {
                let ghost before = cmds@;
                cmds.push(c);
                assert(cmds_pview(cmds@) =~= cmds_pview(before).push(cmd_pview(c)));
            },
            Err(e) => {
                *err = Some(e);
            },
        }
    }
}

fn block_items(s: &Vec<char>, p: usize) -> (r: (Result<Vec<Command>, RSLogoError>, usize))
    requires
        p <= s@.len(),
        fits(s@),
    ensures
        same_cmds(r.0, grammar::first_err(grammar::block_items(s@, p as int).0)),
        r.1 == grammar::block_items(s@, p as int).1,
        p <= r.1 <= s@.len(),
    decreases s@.len() - p, 5int,
{
    let mut cmds: Vec<Command> = Vec::new();
    let mut err: Option<RSLogoError> = None;
    let ghost mut seen: Seq<Result<CmdP, ErrorV>> = Seq::empty();
    let mut cur = p;
    assert(cmds_pview(cmds@) =~= Seq::<CmdP>::empty());
    assert(seen + grammar::block_items(s@, p as int).0 =~= grammar::block_items(s@, p as int).0);
    loop
        invariant
            p <= cur <= s@.len(),
            fits(s@),
            grammar::block_items(s@, p as int) == (
                seen + grammar::block_items(s@, cur as int).0,
                grammar::block_items(s@, cur as int).1,
            ),
            gathered(seen, cmds@, err),
        ensures
            p <= cur <= s@.len(),
            grammar::block_items(s@, p as int) == (seen, cur as int),
            gathered(seen, cmds@, err),
        decreases s@.len() - cur,
    {
        let a = ws_end(s, cur);
        match command_at(s, a) {
            Some((rc, b)) => {
                let c = ws_end(s, b);
                if !(a < b) {
                    assert(seen + Seq::<Result<CmdP, ErrorV>>::empty() =~= seen);
                    break;
                }
                let ghost item = res_pview(rc);
                gather(&mut cmds, &mut err, rc, Ghost(seen));
                proof {
                    assert(seen.push(item) + grammar::block_items(s@, c as int).0 =~= seen + (seq![item] + grammar::block_items(s@, c as int).0));
                    seen = seen.push(item);
                }
                cur = c;
            },
            None => {
                assert(seen + Seq::<Result<CmdP, ErrorV>>::empty() =~= seen);
                break;
            },
        }
    }
    match err {
        Some(e) => (Err(e), cur),
        None => (Ok(cmds), cur),
    }
}

fn block_at(s: &Vec<char>, p: usize) -> (r: Option<(Result<Vec<Command>, RSLogoError>, usize)>)
    requires
        p <= s@.len(),
        fits(s@),
    ensures
        same_block(r, grammar::block_at(s@, p as int)),
        within(r, s@.len()),
    decreases s@.len() - p, 0int,
{
    if p < s.len() && s[p] == '[' {
        let (res, q) = block_items(s, p + 1);
        if p < q && q < s.len() && s[q] == ']' {
            return Some((res, q + 1));
        }
    }
    None
}

fn cond_at(s: &Vec<char>, p: usize, kw: &str, is_loop: bool) -> (r: Option<(Result<Command, RSLogoError>, usize)>)
    requires
        p <= s@.len(),
        fits(s@),
    ensures
        same_step(r, grammar::cond_at(s@, p as int, kw@, is_loop)),
        within(r, s@.len()),
    decreases s@.len() - p, 0int,
{
    let q = tag_at(s, p, kw)?;
    let a = ws_end(s, q);
    if !(q < a) {
        return None;
    }
    let (c, b) = expr_at(s, a)?;
    let d = ws_end(s, b);
    if !(p < d) {
        return None;
    }
    match block_at(s, d) {
        Some((Ok(body), e)) => Some((Ok(if is_loop { Command::While(c, body) } else { Command::If(c, body) }), e)),
        Some((Err(x), e)) => Some((Err(x), e)),
        None => None,
    }
}

fn regular_at(s: &Vec<char>, p: usize) -> (r: Option<(Result<Command, RSLogoError>, usize)>)
    requires
        p <= s@.len(),
        fits(s@),
    ensures
        same_step(r, grammar::regular_at(s@, p as int)),
        within(r, s@.len()),
    decreases s@.len() - p, 1int,
{
    if let Some(x) = bare_at(s, p, "PENUP", false) {
        return Some(x);
    }
    if let Some(x) = bare_at(s, p, "PENDOWN", true) {
        return Some(x);
    }
    if let Some(x) = unary_from(s, p) {
        return Some(x);
    }
    if let Some(x) = make_at(s, p) {
        return Some(x);
    }
    if let Some(x) = addassign_at(s, p) {
        return Some(x);
    }
    if let Some(x) = cond_at(s, p, "IF", false) {
        return Some(x);
    }
    if let Some(x) = cond_at(s, p, "WHILE", true) {
        return Some(x);
    }
    match expr_at(s, p) {
        Some((e, q)) => Some((Ok(Command::Expression(Box::new(e))), q)),
        None => call_at(s, p),
    }
}

fn def_body(s: &Vec<char>, b: usize) -> (r: (bool, Vec<Command>, usize))
    requires
        b <= s@.len(),
        fits(s@),
    ensures
        grammar::def_body(s@, b as int, Seq::empty()) == (r.0, cmds_pview(r.1@), r.2 as int),
        r.2 <= s@.len(),
    decreases s@.len() - b, 2int,
{
    let mut cmds: Vec<Command> = Vec::new();
    let mut cur = b;
    proof {
        reveal_strlit("END");
    }
    assert(cmds_pview(cmds@) =~= Seq::<CmdP>::empty());
    loop
        invariant
            b <= cur <= s@.len(),
            fits(s@),
            grammar::def_body(s@, b as int, Seq::empty()) == grammar::def_body(s@, cur as int, cmds_pview(cmds@)),
        decreases s@.len() - cur,
    {
        let n = skip_all(s, cur);
        if let Some(e) = tag_at(s, n, "END") {
            return (true, cmds, e);
        }
        match regular_at(s, n) {
            Some((Ok(c), r)) => {
                let ghost before = cmds@;
                cmds.push(c);
                assert(cmds_pview(cmds@) =~= cmds_pview(before).push(cmd_pview(c)));
                if blank_from(s, r) || !(cur < r) {
                    return (false, cmds, r);
                }
                cur = r;
            },
            _ => {
                return (false, cmds, cur);
            },
        }
    }
}

fn params_at(s: &Vec<char>, p: usize) -> (r: (Vec<String>, usize))
    requires
        p <= s@.len(),
    ensures
        grammar::params_at(s@, p as int) == (crate::ast::names_view(r.0@), r.1 as int),
        p <= r.1 <= s@.len(),
{
    let mut params: Vec<String> = Vec::new();
    let mut cur = p;
    assert(crate::ast::names_view(params@) + grammar::params_at(s@, p as int).0 =~= grammar::params_at(s@, p as int).0);
    loop
        invariant
            p <= cur <= s@.len(),
            grammar::params_at(s@, p as int) == (
                crate::ast::names_view(params@) + grammar::params_at(s@, cur as int).0,
                grammar::params_at(s@, cur as int).1,
            ),
        ensures
            p <= cur <= s@.len(),
            grammar::params_at(s@, p as int) == (crate::ast::names_view(params@), cur as int),
        decreases s@.len() - cur,
    {
        let a = ws_end(s, cur);
        if !(a < s.len() && (s[a] == ':' || s[a] == '"')) {
            assert(crate::ast::names_view(params@) + Seq::<Seq<char>>::empty() =~= crate::ast::names_view(params@));
            break;
        }
        let n = name_end(s, a + 1, false);
        if !(a + 1 < n) {
            assert(crate::ast::names_view(params@) + Seq::<Seq<char>>::empty() =~= crate::ast::names_view(params@));
            break;
        }
        let name = if s[a] == ':' { string_between(s, a, n) } else { string_between(s, a + 1, n) };
        let ghost before = params@;
        params.push(name);
        assert(crate::ast::names_view(params@) =~= crate::ast::names_view(before).push(name@));
        assert(crate::ast::names_view(params@) + grammar::params_at(s@, n as int).0 =~= crate::ast::names_view(before) + (seq![name@] + grammar::params_at(s@, n as int).0));
        cur = n;
    }
    (params, cur)
}

fn unterminated(s: &Vec<char>, b: usize, name: &String, count: usize) -> (r: RSLogoError)
    requires
        b <= s@.len(),
        fits(s@),
    ensures
        r@ == grammar::unterminated(s@, b as int, name@, count as nat),
{
    let start = byte_offset(s, b);
    let total = byte_offset(s, s.len());
    proof {
        lemma_byte_at_bounds(s@, b as int);
    }
    let mut message = String::new();
    push_text(&mut message, "Unterminated procedure definition '");
    push_text(&mut message, name.as_str());
    push_text(&mut message, "': Expected 'END' keyword after ");
    let n = count_to_text(count);
    push_text(&mut message, n.as_str());
    push_text(&mut message, " commands");
    RSLogoError::ParseError {
        input: string_between(s, b, s.len()),
        span: (start, total - start),
        message,
    }
}

fn def_at(s: &Vec<char>, p: usize) -> (r: Option<(Result<Command, RSLogoError>, usize)>)
    requires
        p <= s@.len(),
        fits(s@),
    ensures
        same_step(r, grammar::def_at(s@, p as int)),
        within(r, s@.len()),
    decreases s@.len() - p, 3int,
{
    let q = tag_at(s, p, "TO")?;
    let a = ws_end(s, q);
    let n = name_end(s, a, false);
    if !(q < a && a < n) {
        return None;
    }
    let name = string_between(s, a, n);
    let (parameters, c) = params_at(s, n);
    let b = skip_all(s, c);
    if !(p < b) {
        return None;
    }
    proof {
        reveal_strlit("END");
    }
    match block_at(s, b) {
        Some((Err(x), e)) => {
            return Some((Err(x), e));
        },
        Some((Ok(body), e)) => {
            let m = skip_all(s, e);
            if let Some(end) = tag_at(s, m, "END") {
                return Some((Ok(Command::ProcedureDefinition { name, parameters, body }), end));
            }
            let err = unterminated(s, b, &name, body.len());
            return Some((Err(err), e));
        },
        None => {},
    }
    let (found, body, e) = def_body(s, b);
    if found {
        Some((Ok(Command::ProcedureDefinition { name, parameters, body }), e))
    } else {
        let err = unterminated(s, b, &name, body.len());
        Some((Err(err), e))
    }
}

fn stray_end(s: &Vec<char>, p: usize) -> (r: RSLogoError)
    requires
        p < s@.len(),
        fits(s@),
    ensures
        r@ == grammar::stray_end(s@, p as int),
{
    let line = line_number(s, p);
    let mut message = String::new();
    push_text(&mut message, "Found 'END' command on line ");
    let n = count_to_text(line);
    push_text(&mut message, n.as_str());
    push_text(
        &mut message,
        " without matching 'TO' procedure definition. Each 'END' must be paired with a 'TO' procedure definition.",
    );
    RSLogoError::ParseError {
        input: string_between(s, p, s.len()),
        span: (byte_offset(s, p), 3),
        message,
    }
}

fn command_at(s: &Vec<char>, p: usize) -> (r: Option<(Result<Command, RSLogoError>, usize)>)
    requires
        p <= s@.len(),
        fits(s@),
    ensures
        same_step(r, grammar::command_at(s@, p as int)),
        within(r, s@.len()),
    decreases s@.len() - p, 4int,
{
    proof {
        reveal_strlit("END");
    }
    if let Some(e) = tag_at(s, p, "END") {
        return Some((Err(stray_end(s, p)), e));
    }
    if let Some(x) = def_at(s, p) {
        return Some(x);
    }
    regular_at(s, p)
}

// ---- programs ----

pub open spec fn opt_res_pview(x: Option<Result<Command, RSLogoError>>) -> Option<Result<CmdP, ErrorV>> {
    match x {
        Some(r) => Some(res_pview(r)),
        None => None,
    }
}

fn element_at(s: &Vec<char>, p: usize) -> (r: Option<(Option<Result<Command, RSLogoError>>, usize)>)
    requires
        p <= s@.len(),
        fits(s@),
    ensures
        match (r, grammar::element_at(s@, p as int)) {
            (Some((x, e)), Some((y, f))) => opt_res_pview(x) == y && e == f,
            (None, None) => true,
            _ => false,
        },
        within(r, s@.len()),
{
    if let Some(e) = comment_at(s, p) {
        return Some((None, e));
    }
    let a = ws_end(s, p);
    match command_at(s, a) {
        Some((rc, b)) => Some((Some(rc), ws_end(s, b))),
        None => match line_ending_at(s, p) {
            Some(e) => Some((None, e)),
            None => None,
        },
    }
}

/// Parses a whole source text into a program.
pub fn parse_program(input: &str) -> (r: Result<Program, RSLogoError>)
    ensures
        match grammar::program_of(input@) {
            Ok(cs) => r is Ok && cmds_pview(r->Ok_0.commands@) == cs,
            Err(x) => r is Err && r->Err_0@ == x,
        },
{
    let s = chars_of(input);
    let bytes = input.as_bytes();
    let nb = bytes.len();
    assert(fits(s@));
    if blank_from(&s, 0) {
        let r = Program { commands: Vec::new() };
        assert(cmds_pview(r.commands@) =~= Seq::<CmdP>::empty());
        return Ok(r);
    }
    let mut cmds: Vec<Command> = Vec::new();
    let mut err: Option<RSLogoError> = None;
    let ghost mut seen: Seq<Result<CmdP, ErrorV>> = Seq::empty();
    let mut cur: usize = 0;
    assert(cmds_pview(cmds@) =~= Seq::<CmdP>::empty());
    assert(seen + grammar::program_items(s@, 0).0 =~= grammar::program_items(s@, 0).0);
    loop
        invariant
            cur <= s@.len(),
            fits(s@),
            grammar::program_items(s@, 0) == (
                seen + grammar::program_items(s@, cur as int).0,
                grammar::program_items(s@, cur as int).1,
            ),
            gathered(seen, cmds@, err),
        ensures
            cur <= s@.len(),
            grammar::program_items(s@, 0) == (seen, cur as int),
            gathered(seen, cmds@, err),
        decreases s@.len() - cur,
    {
        match element_at(&s, cur) {
            Some((x, e)) => {
                let f = endings_end(&s, e);
                if !(cur < f) {
                    assert(seen + Seq::<Result<CmdP, ErrorV>>::empty() =~= seen);
                    break;
                }
                let ghost add = grammar::opt_seq(opt_res_pview(x));
                match x {
                    Some(rc) => {
                        let ghost item = res_pview(rc);
                        gather(&mut cmds, &mut err, rc, Ghost(seen));
                        proof {
                            assert(seen.push(item) + grammar::program_items(s@, f as int).0 =~= seen + (add + grammar::program_items(s@, f as int).0));
                            seen = seen.push(item);
                        }
                    },
                    None => {
                        assert(seen + grammar::program_items(s@, f as int).0 =~= seen + (add + grammar::program_items(s@, f as int).0));
                    },
                }
                cur = f;
            },
            None => {
                assert(seen + Seq::<Result<CmdP, ErrorV>>::empty() =~= seen);
                break;
            },
        }
    }
    if cur < s.len() {
        let start = byte_offset(&s, cur);
        let total = byte_offset(&s, s.len());
        proof {
            lemma_byte_at_bounds(s@, cur as int);
        }
        return Err(
            RSLogoError::ParseError {
                input: input.to_owned(),
                span: (start, total - start),
                message: "Parse error: End of file".to_owned(),
            },
        );
    }
    match err {
        Some(e) => Err(e),
        None => Ok(Program { commands: cmds }),
    }
}

} // verus!
