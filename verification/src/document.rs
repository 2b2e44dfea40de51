//! The document pipeline: a text buffer is split on newlines; each line is
//! independently tokenized, parsed and evaluated against one shared
//! environment (assignments on earlier lines are visible to later lines); the
//! display text of the last value evaluated on each line is returned. Errors
//! never abort the pipeline: a malformed line degrades to an empty display
//! string.

use vstd::prelude::*;
use vstd::string::StrSliceExecFns;
use crate::interpreter::Environment;
use crate::interpreter::Interpreter;
use crate::interpreter::spec_eval;
use crate::interpreter::spec_literal_value;
use crate::lexer::Lexer;
use crate::lexer::spec_tokenize;
use crate::num::render_number;
use crate::num::rendered_bits;
use crate::parser::Atom;
use crate::parser::Expression;
use crate::parser::Parser;
use crate::parser::SpecAtom;
use crate::parser::SpecExpr;
use crate::parser::spec_parse_all;

verus! {

// ---------------------------------------------------------------------------
// Spec display
// ---------------------------------------------------------------------------

/// The display text of an evaluated value: booleans print as `true`/`false`,
/// numbers in their decimal form, a name resolves through the environment
/// once and prints what it is bound to, and everything else (an unresolved
/// name, `Nothing`, an unevaluated node) prints as the empty string.
pub open spec fn spec_display(v: SpecExpr, env: Map<Seq<u8>, SpecExpr>) -> Seq<char> {
    match spec_literal_value(v) {
        Some(SpecAtom::Boolean(b)) => if b {
            "true"@
        } else {
            "false"@
        },
        Some(SpecAtom::Number(bits)) => rendered_bits(bits),
        Some(SpecAtom::Name(n)) => {
            let resolved = spec_eval(SpecExpr::Literal(SpecAtom::Name(n)), env).0;
            match spec_literal_value(resolved) {
                Some(SpecAtom::Boolean(b)) => if b {
                    "true"@
                } else {
                    "false"@
                },
                Some(SpecAtom::Number(bits)) => rendered_bits(bits),
                _ => Seq::empty(),
            }
        },
        None => Seq::empty(),
    }
}

/// Statements of one line, evaluated in order against one environment; the
/// result is the display text of the last statement's value (or the
/// accumulator when there is none) and the environment left behind.
pub open spec fn spec_run(stmts: Seq<SpecExpr>, env: Map<Seq<u8>, SpecExpr>, acc: Seq<char>) -> (
    Seq<char>,
    Map<Seq<u8>, SpecExpr>,
)
    decreases stmts.len(),
{
    if stmts.len() == 0 {
        (acc, env)
    } else {
        let (v, env1) = spec_eval(stmts[0], env);
        spec_run(stmts.skip(1), env1, spec_display(v, env1))
    }
}

/// The whole pipeline on one line of bytes.
pub open spec fn spec_eval_line(line: Seq<u8>, env: Map<Seq<u8>, SpecExpr>) -> (
    Seq<char>,
    Map<Seq<u8>, SpecExpr>,
) {
    spec_run(spec_parse_all(spec_tokenize(line), 0).0, env, Seq::empty())
}

/// Index of the first newline byte, or the length when there is none.
pub open spec fn first_newline(s: Seq<u8>) -> int
    decreases s.len(),
{
    if s.len() == 0 {
        0
    } else if s[0] == 10 {
        0
    } else {
        1 + first_newline(s.skip(1))
    }
}

/// The buffer split on newline bytes; a trailing newline yields a final
/// empty line, and an empty buffer is one empty line.
pub open spec fn spec_lines(s: Seq<u8>) -> Seq<Seq<u8>>
    decreases s.len(),
{
    let nl = first_newline(s);
    if nl < 0 || nl >= s.len() {
        seq![s]
    } else {
        seq![s.take(nl)] + spec_lines(s.skip(nl + 1))
    }
}

/// The lines evaluated in order against one environment: the display text of
/// each line, and the environment after the pass.
pub open spec fn spec_run_lines(lines: Seq<Seq<u8>>, env: Map<Seq<u8>, SpecExpr>) -> (
    Seq<Seq<char>>,
    Map<Seq<u8>, SpecExpr>,
)
    decreases lines.len(),
{
    if lines.len() == 0 {
        (Seq::empty(), env)
    } else {
        let (v, env1) = spec_eval_line(lines[0], env);
        let (rest, env2) = spec_run_lines(lines.skip(1), env1);
        (seq![v] + rest, env2)
    }
}

pub open spec fn spec_eval_document(s: Seq<u8>, env: Map<Seq<u8>, SpecExpr>) -> (
    Seq<Seq<char>>,
    Map<Seq<u8>, SpecExpr>,
) {
    spec_run_lines(spec_lines(s), env)
}

proof fn lemma_first_newline(s: Seq<u8>, k: int)
    requires
        0 <= k <= s.len(),
        forall|j: int| 0 <= j < k ==> s[j] != 10,
        k == s.len() || s[k] == 10,
    ensures
        first_newline(s) == k,
    decreases k,
{
    if k == 0 {
    } else {
        assert(s[0] != 10);
        lemma_first_newline(s.skip(1), k - 1);
    }
}

// ---------------------------------------------------------------------------
// Executable pipeline
// ---------------------------------------------------------------------------

/// The display text of one evaluated value; resolving a name reads the
/// environment but leaves it unchanged.
fn display_value(interpreter: &mut Interpreter, evaluated: Expression, context: &mut Environment)
    -> (r: String)
    ensures
        r@ == spec_display(evaluated@, old(context)@),
        final(context)@ == old(context)@,
{
    let value_opt = interpreter.literal_value(evaluated);
    match value_opt {
        Some(Atom::Boolean(b)) => {
            if b {
                "true".to_owned()
            } else {
                "false".to_owned()
            }
        },
        Some(Atom::Number(bits)) => render_number(bits),
        Some(Atom::Name(n)) => {
            let resolved = interpreter.evaluate(Expression::Literal(Atom::Name(n)), context);
            let v2 = interpreter.literal_value(resolved);
            match v2 {
                Some(Atom::Boolean(b)) => {
                    if b {
                        "true".to_owned()
                    } else {
                        "false".to_owned()
                    }
                },
                Some(Atom::Number(bits)) => render_number(bits),
                _ => String::new(),
            }
        },
        None => String::new(),
    }
}

/// One line of source pushed through lex, parse and evaluate against
/// `context`; returns the display text of the line's last value.
pub fn evaluate_line(input: String, context: &mut Environment) -> (r: String)
    ensures
        ({
            let (s, env1) = spec_eval_line(vstd::utf8::encode_utf8(input@), old(context)@);
            r@ == s && final(context)@ == env1
        }),
{
    evaluate_line_bytes(input.as_str().as_bytes_vec(), context)
}

/// The line pipeline on a line already held as bytes.
pub fn evaluate_line_bytes(input: Vec<u8>, context: &mut Environment) -> (r: String)
    ensures
        ({
            let (s, env1) = spec_eval_line(input@, old(context)@);
            r@ == s && final(context)@ == env1
        }),
{
    let ghost bytes = input@;
    let mut lexer = Lexer::from_bytes(input);
    let tokens = lexer.tokenize();
    let ghost tv = tokens.deep_view();
    proof {
        assert(tv.last().kind is Eof);
    }
    let mut parser = Parser::new(tokens);
    proof {
        assert(parser.tokens.deep_view()[parser.tokens.deep_view().len() - 1].kind is Eof);
        assert(parser.wf());
    }
    let expressions = parser.parse();
    let ghost stmts = spec_parse_all(tv, 0).0;
    proof {
        assert(expressions.deep_view() =~= stmts);
    }
    let ghost tgt = spec_run(stmts, old(context)@, Seq::<char>::empty());
    let mut interpreter = Interpreter::new();
    let mut return_value = String::new();
    let mut i: usize = 0;
    proof {
        assert(stmts.skip(0) =~= stmts);
    }
    while i < expressions.len()
        invariant
            i <= expressions.deep_view().len(),
            stmts == expressions.deep_view(),
            spec_run(stmts.skip(i as int), context@, return_value@) == tgt,
        decreases expressions.deep_view().len() - i,
    {
        let expr = expressions[i].duplicate();
        let evaluated = interpreter.evaluate(expr, context);
        let value = display_value(&mut interpreter, evaluated, context);
        proof {
            assert(stmts.skip(i as int)[0] == stmts[i as int]);
            assert(stmts.skip(i as int).skip(1) =~= stmts.skip(i + 1 as int));
        }
        return_value = value;
        i = i + 1;
    }
    proof {
        assert(stmts.skip(stmts.len() as int) =~= Seq::<SpecExpr>::empty());
    }
    return_value
}

/// Splits the buffer bytes on newline bytes.
fn split_lines(bytes: &Vec<u8>) -> (r: Vec<Vec<u8>>)
    ensures
        r.deep_view() == spec_lines(bytes@),
{
    let ghost s = bytes@;
    let mut lines: Vec<Vec<u8>> = Vec::new();
    let mut cur: Vec<u8> = Vec::new();
    let mut start: usize = 0;
    let mut i: usize = 0;
    proof {
        assert(lines.deep_view() =~~= Seq::<Seq<u8>>::empty());
        assert(s.skip(0) =~= s);
        assert(cur@ =~= s.subrange(0, 0));
        assert(lines.deep_view() + spec_lines(s.skip(0)) =~~= spec_lines(s));
    }
    while i < bytes.len()
        invariant
            start <= i <= s.len(),
            s == bytes@,
            cur@ == s.subrange(start as int, i as int),
            forall|j: int| start <= j < i ==> s[j] != 10,
            spec_lines(s) == lines.deep_view() + spec_lines(s.skip(start as int)),
        decreases s.len() - i,
    {
        let b = bytes[i];
        if b == 10 {
            let ghost suffix = s.skip(start as int);
            proof {
                assert(forall|j: int|
                    0 <= j < i - start ==> suffix[j] == s[j + start] && suffix[j] != 10);
                lemma_first_newline(suffix, i - start);
                assert(suffix.take(i - start) =~= s.subrange(start as int, i as int));
                assert(suffix.skip(i - start + 1) =~= s.skip(i + 1 as int));
            }
            let ghost before = lines.deep_view();
            lines.push(cur);
            proof {
                assert(lines.deep_view() =~~= before.push(s.subrange(start as int, i as int)));
                assert(spec_lines(suffix) == seq![s.subrange(start as int, i as int)]
                    + spec_lines(s.skip(i + 1 as int)));
                assert(before + (seq![s.subrange(start as int, i as int)] + spec_lines(
                    s.skip(i + 1 as int),
                )) =~~= before.push(s.subrange(start as int, i as int)) + spec_lines(
                    s.skip(i + 1 as int),
                ));
            }
            cur = Vec::new();
            start = i + 1;
            proof {
                assert(cur@ =~= s.subrange(start as int, start as int));
                assert(spec_lines(s) == lines.deep_view() + spec_lines(s.skip(start as int)));
            }
        } else {
            cur.push(b);
            proof {
                assert(cur@ =~= s.subrange(start as int, i + 1 as int));
            }
        }
        i = i + 1;
    }
    let ghost suffix = s.skip(start as int);
    proof {
        assert(forall|j: int| 0 <= j < s.len() - start ==> suffix[j] == s[j + start]);
        lemma_first_newline(suffix, s.len() - start);
        assert(suffix =~= s.subrange(start as int, s.len() as int));
        assert(spec_lines(suffix) == seq![suffix]);
    }
    let ghost before = lines.deep_view();
    lines.push(cur);
    proof {
        assert(lines.deep_view() =~~= before.push(suffix));
        assert(before + seq![suffix] =~~= before.push(suffix));
    }
    lines
}

/// The whole buffer: split on newlines, each line evaluated in order against
/// `context`; returns the display text of each line, in order.
pub fn evaluate_document(input: String, context: &mut Environment) -> (r: Vec<String>)
    ensures
        ({
            let (vals, env1) = spec_eval_document(vstd::utf8::encode_utf8(input@), old(context)@);
            r.deep_view() == vals && final(context)@ == env1
        }),
{
    let bytes = input.as_str().as_bytes_vec();
    let lines = split_lines(&bytes);
    let ghost ls = lines.deep_view();
    let ghost tgt = spec_run_lines(ls, old(context)@);
    let mut values: Vec<String> = Vec::new();
    let mut i: usize = 0;
    proof {
        assert(ls.skip(0) =~= ls);
        assert(values.deep_view() =~= Seq::<Seq<char>>::empty());
    }
    while i < lines.len()
        invariant
            i <= ls.len(),
            ls == lines.deep_view(),
            tgt == (values.deep_view() + spec_run_lines(ls.skip(i as int), context@).0, spec_run_lines(
                ls.skip(i as int),
                context@,
            ).1),
        decreases ls.len() - i,
    {
        let ghost envb = context@;
        let line = crate::lexer::copy_bytes(&lines[i]);
        proof {
            assert(line@ == ls[i as int]);
        }
        let value = evaluate_line_bytes(line, context);
        let ghost vbefore = values.deep_view();
        values.push(value);
        proof {
            assert(ls.skip(i as int)[0] == ls[i as int]);
            assert(ls.skip(i as int).skip(1) =~= ls.skip(i + 1 as int));
            let (v, env1) = spec_eval_line(ls[i as int], envb);
            assert(values.deep_view() =~~= vbefore.push(v));
            let (rest, env2) = spec_run_lines(ls.skip(i + 1 as int), env1);
            assert(vbefore + (seq![v] + rest) =~~= vbefore.push(v) + rest);
        }
        i = i + 1;
    }
    proof {
        assert(ls.skip(ls.len() as int) =~= Seq::<Seq<u8>>::empty());
    }
    values
}

/// Evaluating a line is a pure function of the line's bytes and the
/// environment snapshot alone: two passes over the same line from equal
/// snapshots produce the same display text and the same environment.
pub proof fn lemma_line_deterministic(
    line1: Seq<u8>,
    line2: Seq<u8>,
    env1: Map<Seq<u8>, SpecExpr>,
    env2: Map<Seq<u8>, SpecExpr>,
)
    requires
        line1 == line2,
        env1 == env2,
    ensures
        spec_eval_line(line1, env1) == spec_eval_line(line2, env2),
{
}

} // verus!
