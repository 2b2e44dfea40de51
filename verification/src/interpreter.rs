//! Tree-walking evaluator. An expression tree is reduced against a mutable
//! variable environment to a literal (or to `Nothing`, the universal "could
//! not produce a value" signal, which propagates and never aborts). The exact
//! behaviour is pinned by the spec-level evaluator `spec_eval`, which the
//! executable evaluator is proved to match.

use vstd::prelude::*;
use crate::lexer::SpecTokenKind;
use crate::lexer::Token;
use crate::lexer::TokenKind;
use crate::lexer::copy_bytes;
use crate::num::diff_bits;
use crate::num::eq_bits;
use crate::num::ge_bits;
use crate::num::gt_bits;
use crate::num::le_bits;
use crate::num::lt_bits;
use crate::num::prod_bits;
use crate::num::quot_bits;
use crate::num::rem_bits;
use crate::num::sum_bits;
use crate::num::add_numbers;
use crate::num::div_numbers;
use crate::num::eq_numbers;
use crate::num::ge_numbers;
use crate::num::gt_numbers;
use crate::num::le_numbers;
use crate::num::lt_numbers;
use crate::num::mul_numbers;
use crate::num::rem_numbers;
use crate::num::sub_numbers;
use crate::parser::Atom;
use crate::parser::Expression;
use crate::parser::SpecAtom;
use crate::parser::SpecExpr;
use crate::parser::bytes_eq;

verus! {

// ---------------------------------------------------------------------------
// The environment
// ---------------------------------------------------------------------------

pub open spec fn pairs_view(s: Seq<(Vec<u8>, Expression)>) -> Seq<(Seq<u8>, SpecExpr)> {
    s.map_values(|p: (Vec<u8>, Expression)| (p.0@, p.1@))
}

/// The mapping an entry list stands for: later entries shadow earlier ones.
pub open spec fn env_map(entries: Seq<(Seq<u8>, SpecExpr)>) -> Map<Seq<u8>, SpecExpr>
    decreases entries.len(),
{
    if entries.len() == 0 {
        Map::empty()
    } else {
        env_map(entries.drop_last()).insert(entries.last().0, entries.last().1)
    }
}

/// The variable environment: a mapping from name to the expression last bound
/// to it (in practice always a literal). Shadowing simply overwrites; nothing
/// is ever pruned.
pub struct Environment {
    pub entries: Vec<(Vec<u8>, Expression)>,
}

impl View for Environment {
    type V = Map<Seq<u8>, SpecExpr>;

    open spec fn view(&self) -> Map<Seq<u8>, SpecExpr> {
        env_map(pairs_view(self.entries@))
    }
}

impl Environment {
    pub fn new() -> (env: Environment)
        ensures
            env@ == Map::<Seq<u8>, SpecExpr>::empty(),
    {
        let env = Environment { entries: Vec::new() };
        proof {
            assert(pairs_view(env.entries@) =~= Seq::<(Seq<u8>, SpecExpr)>::empty());
        }
        env
    }

    /// Binds `value` under `name`, overwriting any earlier binding.
    pub fn insert(&mut self, name: Vec<u8>, value: Expression)
        ensures
            final(self)@ == old(self)@.insert(name@, value@),
    {
        let ghost n = name@;
        let ghost v = value@;
        let ghost pvold = pairs_view(old(self).entries@);
        self.entries.push((name, value));
        proof {
            assert(pairs_view(self.entries@) =~= pvold.push((n, v)));
            assert(pairs_view(self.entries@).drop_last() =~= pvold);
            assert(env_map(pairs_view(self.entries@)) == env_map(pvold).insert(n, v));
        }
    }

    /// The expression bound to `name`, if there is one.
    pub fn get(&self, name: &Vec<u8>) -> (r: Option<Expression>)
        ensures
            match r {
                Some(e) => self@.contains_key(name@) && e@ == self@[name@],
                None => !self@.contains_key(name@),
            },
    {
        let ghost pv = pairs_view(self.entries@);
        let mut i: usize = self.entries.len();
        proof {
            assert(self.entries@.take(i as int) =~= self.entries@);
            assert(pairs_view(self.entries@.take(i as int)) =~= pv);
        }
        while i > 0
            invariant
                i <= self.entries@.len(),
                pv == pairs_view(self.entries@),
                env_map(pairs_view(self.entries@.take(i as int))).contains_key(name@) == env_map(
                    pv,
                ).contains_key(name@),
                env_map(pairs_view(self.entries@.take(i as int))).contains_key(name@) ==> env_map(
                    pairs_view(self.entries@.take(i as int)),
                )[name@] == env_map(pv)[name@],
            decreases i,
        {
            i = i - 1;
            proof {
                assert(self.entries@.take(i + 1 as int).drop_last() =~= self.entries@.take(
                    i as int,
                ));
                assert(pairs_view(self.entries@.take(i + 1 as int)).drop_last() =~= pairs_view(
                    self.entries@.take(i as int),
                ));
                assert(pairs_view(self.entries@.take(i + 1 as int)).last() == (
                    self.entries@[i as int].0@,
                    self.entries@[i as int].1@,
                ));
            }
            let hit = bytes_eq(&self.entries[i].0, name);
            if hit {
                let found = self.entries[i].1.duplicate();
                return Some(found);
            }
        }
        proof {
            assert(self.entries@.take(0) =~= Seq::<(Vec<u8>, Expression)>::empty());
            assert(pairs_view(self.entries@.take(0)) =~= Seq::<(Seq<u8>, SpecExpr)>::empty());
        }
        None
    }

    /// A structural copy standing for the same mapping: the snapshot a fresh
    /// evaluation pass works on.
    pub fn duplicate(&self) -> (r: Environment)
        ensures
            r@ == self@,
    {
        let mut entries: Vec<(Vec<u8>, Expression)> = Vec::new();
        let mut i: usize = 0;
        proof {
            assert(pairs_view(entries@) =~= pairs_view(self.entries@.take(0)));
        }
        while i < self.entries.len()
            invariant
                i <= self.entries@.len(),
                pairs_view(entries@) == pairs_view(self.entries@.take(i as int)),
            decreases self.entries@.len() - i,
        {
            let ghost before = pairs_view(entries@);
            let name = copy_bytes(&self.entries[i].0);
            let value = self.entries[i].1.duplicate();
            entries.push((name, value));
            proof {
                assert(pairs_view(entries@) =~= before.push((
                    self.entries@[i as int].0@,
                    self.entries@[i as int].1@,
                )));
                assert(pairs_view(self.entries@.take(i + 1 as int)) =~= before.push((
                    self.entries@[i as int].0@,
                    self.entries@[i as int].1@,
                )));
            }
            i = i + 1;
        }
        proof {
            assert(self.entries@.take(self.entries@.len() as int) =~= self.entries@);
        }
        Environment { entries }
    }
}

// ---------------------------------------------------------------------------
// Spec evaluator
// ---------------------------------------------------------------------------

pub open spec fn spec_literal_value(e: SpecExpr) -> Option<SpecAtom> {
    match e {
        SpecExpr::Literal(a) => Some(a),
        _ => None,
    }
}

/// Truthiness of an atom: a boolean is its own value, everything else is
/// unconditionally truthy.
pub open spec fn spec_truthy(a: SpecAtom) -> bool {
    match a {
        SpecAtom::Boolean(b) => b,
        _ => true,
    }
}

/// Truthiness of an evaluated result: only the literal `false` is falsy.
pub open spec fn spec_truthy_result(e: SpecExpr) -> bool {
    match spec_literal_value(e) {
        Some(a) => spec_truthy(a),
        None => true,
    }
}

pub open spec fn spec_atom_bits(a: SpecAtom) -> Option<u64> {
    match a {
        SpecAtom::Number(bits) => Some(bits),
        _ => None,
    }
}

/// What a binary operator yields on two evaluated operands: both must be
/// numeric literals; arithmetic yields a number, comparison a boolean, and
/// everything else (a boolean or name operand, an unevaluated operand, an
/// operator with no numeric meaning) yields `Nothing`.
pub open spec fn spec_apply_binary(lv: SpecExpr, rv: SpecExpr, op: SpecTokenKind) -> SpecExpr {
    match (spec_literal_value(lv), spec_literal_value(rv)) {
        (Some(la), Some(ra)) => match (spec_atom_bits(la), spec_atom_bits(ra)) {
            (Some(x), Some(y)) => match op {
                SpecTokenKind::Plus => SpecExpr::Literal(SpecAtom::Number(sum_bits(x, y))),
                SpecTokenKind::Minus => SpecExpr::Literal(SpecAtom::Number(diff_bits(x, y))),
                SpecTokenKind::Times => SpecExpr::Literal(SpecAtom::Number(prod_bits(x, y))),
                SpecTokenKind::Over => SpecExpr::Literal(SpecAtom::Number(quot_bits(x, y))),
                SpecTokenKind::Mod => SpecExpr::Literal(SpecAtom::Number(rem_bits(x, y))),
                SpecTokenKind::Percent => SpecExpr::Literal(SpecAtom::Number(rem_bits(x, y))),
                SpecTokenKind::Less => SpecExpr::Literal(SpecAtom::Boolean(lt_bits(x, y))),
                SpecTokenKind::LessEqual => SpecExpr::Literal(SpecAtom::Boolean(le_bits(x, y))),
                SpecTokenKind::Greater => SpecExpr::Literal(SpecAtom::Boolean(gt_bits(x, y))),
                SpecTokenKind::GreaterEqual => SpecExpr::Literal(SpecAtom::Boolean(ge_bits(x, y))),
                SpecTokenKind::Equal => SpecExpr::Literal(SpecAtom::Boolean(eq_bits(x, y))),
                _ => SpecExpr::Nothing,
            },
            _ => SpecExpr::Nothing,
        },
        _ => SpecExpr::Nothing,
    }
}

/// The evaluator: what an expression reduces to, and the environment it
/// leaves behind. A name resolves to its binding or `Nothing`; a group is
/// transparent; a binary operator evaluates both operands; a logical operator
/// short-circuits on its left value; an assignment binds the evaluated
/// right-hand side and yields the name reference; `Nothing` and unary nodes
/// are returned unchanged.
pub open spec fn spec_eval(e: SpecExpr, env: Map<Seq<u8>, SpecExpr>) -> (
    SpecExpr,
    Map<Seq<u8>, SpecExpr>,
)
    decreases e,
{
    match e {
        SpecExpr::Literal(a) => match a {
            SpecAtom::Name(n) => if env.contains_key(n) {
                (env[n], env)
            } else {
                (SpecExpr::Nothing, env)
            },
            _ => (e, env),
        },
        SpecExpr::Group(inner) => spec_eval(*inner, env),
        SpecExpr::Binary(l, r, op) => {
            let (lv, env1) = spec_eval(*l, env);
            let (rv, env2) = spec_eval(*r, env1);
            (spec_apply_binary(lv, rv, op.kind), env2)
        },
        SpecExpr::Logical(l, r, op) => {
            let (lv, env1) = spec_eval(*l, env);
            if op.kind == SpecTokenKind::Or {
                if spec_truthy_result(lv) {
                    (lv, env1)
                } else {
                    spec_eval(*r, env1)
                }
            } else {
                if !spec_truthy_result(lv) {
                    (lv, env1)
                } else {
                    spec_eval(*r, env1)
                }
            }
        },
        SpecExpr::Variable(name, value) => {
            let (v, env1) = spec_eval(*value, env);
            (SpecExpr::Literal(SpecAtom::Name(name)), env1.insert(name, v))
        },
        _ => (e, env),
    }
}

// ---------------------------------------------------------------------------
// The interpreter
// ---------------------------------------------------------------------------

pub struct Interpreter;

impl Interpreter {
    pub fn new() -> (it: Interpreter) {
        Interpreter
    }

    /// Reduces `expression` against `context`, which assignment statements
    /// mutate in place; the result and the new environment are exactly what
    /// `spec_eval` says.
    pub fn evaluate(&mut self, expression: Expression, context: &mut Environment) -> (r:
        Expression)
        ensures
            ({
                let (v, env1) = spec_eval(expression@, old(context)@);
                r@ == v && final(context)@ == env1
            }),
        decreases expression,
    {
        match expression {
            Expression::Literal(atom) => match atom {
                Atom::Name(name) => match context.get(&name) {
                    Some(found) => found,
                    None => Expression::Nothing,
                },
                _ => Expression::Literal(atom),
            },
            Expression::Group(inner) => self.evaluate(*inner, context),
            Expression::Binary(l, r, operator) => {
                let left_value = self.evaluate(*l, context);
                let right_value = self.evaluate(*r, context);
                self.apply_binary(left_value, right_value, operator)
            },
            Expression::Logical(l, r, operator) => {
                let left_value = self.evaluate(*l, context);
                let use_or = match operator.kind_ref() {
                    TokenKind::Or => true,
                    _ => false,
                };
                let left_truthy = match &left_value {
                    Expression::Literal(a) => self.is_truthy(a.duplicate()),
                    _ => true,
                };
                if use_or {
                    if left_truthy {
                        left_value
                    } else {
                        self.evaluate(*r, context)
                    }
                } else {
                    if !left_truthy {
                        left_value
                    } else {
                        self.evaluate(*r, context)
                    }
                }
            },
            Expression::Variable(name, value) => {
                let evaluated = self.evaluate(*value, context);
                let result_name = copy_bytes(&name);
                context.insert(name, evaluated);
                Expression::Literal(Atom::Name(result_name))
            },
            other => other,
        }
    }

    /// The atom inside a literal result, if the result is a literal.
    pub fn literal_value(&self, expression: Expression) -> (r: Option<Atom>)
        ensures
            match r {
                Some(a) => spec_literal_value(expression@) == Some(a@),
                None => spec_literal_value(expression@) is None,
            },
    {
        match expression {
            Expression::Literal(value) => Some(value),
            _ => None,
        }
    }

    /// Applies a binary operator token to two evaluated operands.
    fn apply_binary(&self, left: Expression, right: Expression, operator: Token) -> (r: Expression)
        ensures
            r@ == spec_apply_binary(left@, right@, operator@.kind),
    {
        let la_opt = self.literal_value(left);
        let ra_opt = self.literal_value(right);
        let la = match la_opt {
            Some(a) => a,
            None => {
                return Expression::Nothing;
            },
        };
        let ra = match ra_opt {
            Some(a) => a,
            None => {
                return Expression::Nothing;
            },
        };
        let x = match la.number() {
            Some(x) => x,
            None => {
                return Expression::Nothing;
            },
        };
        let y = match ra.number() {
            Some(y) => y,
            None => {
                return Expression::Nothing;
            },
        };
        match operator.kind_ref() {
            TokenKind::Plus => Expression::Literal(Atom::Number(add_numbers(x, y))),
            TokenKind::Minus => Expression::Literal(Atom::Number(sub_numbers(x, y))),
            TokenKind::Times => Expression::Literal(Atom::Number(mul_numbers(x, y))),
            TokenKind::Over => Expression::Literal(Atom::Number(div_numbers(x, y))),
            TokenKind::Mod => Expression::Literal(Atom::Number(rem_numbers(x, y))),
            TokenKind::Percent => Expression::Literal(Atom::Number(rem_numbers(x, y))),
            TokenKind::Less => Expression::Literal(Atom::Boolean(lt_numbers(x, y))),
            TokenKind::LessEqual => Expression::Literal(Atom::Boolean(le_numbers(x, y))),
            TokenKind::Greater => Expression::Literal(Atom::Boolean(gt_numbers(x, y))),
            TokenKind::GreaterEqual => Expression::Literal(Atom::Boolean(ge_numbers(x, y))),
            TokenKind::Equal => Expression::Literal(Atom::Boolean(eq_numbers(x, y))),
            _ => Expression::Nothing,
        }
    }

    /// Truthiness of an atom: only the boolean `false` is falsy.
    fn is_truthy(&self, value: Atom) -> (r: bool)
        ensures
            r == spec_truthy(value@),
    {
        match value {
            Atom::Boolean(boolean) => boolean,
            _ => true,
        }
    }
}

// ---------------------------------------------------------------------------
// Laws of evaluation
// ---------------------------------------------------------------------------

/// Assignment round-trip: an assignment statement binds the evaluated
/// right-hand side and yields the name reference, and reading the name back
/// in the environment the assignment left behind yields exactly the bound
/// value.
pub proof fn lemma_assignment_round_trip(
    name: Seq<u8>,
    value: SpecExpr,
    env: Map<Seq<u8>, SpecExpr>,
)
    ensures
        ({
            let (r, env1) = spec_eval(SpecExpr::Variable(name, Box::new(value)), env);
            let bound = spec_eval(value, env).0;
            r == SpecExpr::Literal(SpecAtom::Name(name)) && env1 == spec_eval(
                value,
                env,
            ).1.insert(name, bound) && spec_eval(SpecExpr::Literal(SpecAtom::Name(name)), env1).0
                == bound
        }),
{
}

/// Undefined name: a bare name with no binding evaluates to `Nothing` and
/// leaves the environment alone.
pub proof fn lemma_undefined_name(name: Seq<u8>, env: Map<Seq<u8>, SpecExpr>)
    requires
        !env.contains_key(name),
    ensures
        spec_eval(SpecExpr::Literal(SpecAtom::Name(name)), env) == (SpecExpr::Nothing, env),
{
}

/// Logical short-circuit: with a falsy left operand, `and` yields the left
/// value whatever the right operand holds (a division by zero included); with
/// a truthy left operand, `or` does the same. The right operand plays no part
/// in the result.
pub proof fn lemma_short_circuit(right: SpecExpr, op: crate::lexer::SpecToken, env: Map<
    Seq<u8>,
    SpecExpr,
>)
    ensures
        op.kind != SpecTokenKind::Or ==> spec_eval(
            SpecExpr::Logical(
                Box::new(SpecExpr::Literal(SpecAtom::Boolean(false))),
                Box::new(right),
                op,
            ),
            env,
        ) == (SpecExpr::Literal(SpecAtom::Boolean(false)), env),
        op.kind == SpecTokenKind::Or ==> spec_eval(
            SpecExpr::Logical(
                Box::new(SpecExpr::Literal(SpecAtom::Boolean(true))),
                Box::new(right),
                op,
            ),
            env,
        ) == (SpecExpr::Literal(SpecAtom::Boolean(true)), env),
{
    assert(spec_eval(SpecExpr::Literal(SpecAtom::Boolean(false)), env) == (
        SpecExpr::Literal(SpecAtom::Boolean(false)),
        env,
    ));
    assert(spec_eval(SpecExpr::Literal(SpecAtom::Boolean(true)), env) == (
        SpecExpr::Literal(SpecAtom::Boolean(true)),
        env,
    ));
}

/// Grouping transparency: a parenthesized expression evaluates exactly as its
/// inner expression does.
pub proof fn lemma_group_transparent(e: SpecExpr, env: Map<Seq<u8>, SpecExpr>)
    ensures
        spec_eval(SpecExpr::Group(Box::new(e)), env) == spec_eval(e, env),
{
}

/// A non-numeric operand: when either evaluated operand of a binary operator
/// is not a numeric literal (a boolean, a name, or no literal at all), the
/// operator yields `Nothing`.
pub proof fn lemma_non_numeric_operand(lv: SpecExpr, rv: SpecExpr, op: SpecTokenKind)
    requires
        (match spec_literal_value(lv) {
            Some(a) => spec_atom_bits(a) is None,
            None => true,
        }) || (match spec_literal_value(rv) {
            Some(a) => spec_atom_bits(a) is None,
            None => true,
        }),
    ensures
        spec_apply_binary(lv, rv, op) == SpecExpr::Nothing,
{
}

/// The word-form `mod` and the symbolic `%` agree: a binary node carrying
/// either operator kind evaluates to the same remainder.
pub proof fn lemma_mod_percent_agree(lv: SpecExpr, rv: SpecExpr)
    ensures
        spec_apply_binary(lv, rv, SpecTokenKind::Mod) == spec_apply_binary(
            lv,
            rv,
            SpecTokenKind::Percent,
        ),
{
}

/// Numeric binary operators on two number literals: the five arithmetic
/// operators yield the number the named binary64 operation gives, and the
/// five comparison operators yield a boolean, never anything else.
pub proof fn lemma_numeric_binary(x: u64, y: u64)
    ensures
        spec_apply_binary(
            SpecExpr::Literal(SpecAtom::Number(x)),
            SpecExpr::Literal(SpecAtom::Number(y)),
            SpecTokenKind::Plus,
        ) == SpecExpr::Literal(SpecAtom::Number(sum_bits(x, y))),
        spec_apply_binary(
            SpecExpr::Literal(SpecAtom::Number(x)),
            SpecExpr::Literal(SpecAtom::Number(y)),
            SpecTokenKind::Minus,
        ) == SpecExpr::Literal(SpecAtom::Number(diff_bits(x, y))),
        spec_apply_binary(
            SpecExpr::Literal(SpecAtom::Number(x)),
            SpecExpr::Literal(SpecAtom::Number(y)),
            SpecTokenKind::Times,
        ) == SpecExpr::Literal(SpecAtom::Number(prod_bits(x, y))),
        spec_apply_binary(
            SpecExpr::Literal(SpecAtom::Number(x)),
            SpecExpr::Literal(SpecAtom::Number(y)),
            SpecTokenKind::Over,
        ) == SpecExpr::Literal(SpecAtom::Number(quot_bits(x, y))),
        spec_apply_binary(
            SpecExpr::Literal(SpecAtom::Number(x)),
            SpecExpr::Literal(SpecAtom::Number(y)),
            SpecTokenKind::Mod,
        ) == SpecExpr::Literal(SpecAtom::Number(rem_bits(x, y))),
        spec_apply_binary(
            SpecExpr::Literal(SpecAtom::Number(x)),
            SpecExpr::Literal(SpecAtom::Number(y)),
            SpecTokenKind::Less,
        ) == SpecExpr::Literal(SpecAtom::Boolean(lt_bits(x, y))),
        spec_apply_binary(
            SpecExpr::Literal(SpecAtom::Number(x)),
            SpecExpr::Literal(SpecAtom::Number(y)),
            SpecTokenKind::LessEqual,
        ) == SpecExpr::Literal(SpecAtom::Boolean(le_bits(x, y))),
        spec_apply_binary(
            SpecExpr::Literal(SpecAtom::Number(x)),
            SpecExpr::Literal(SpecAtom::Number(y)),
            SpecTokenKind::Greater,
        ) == SpecExpr::Literal(SpecAtom::Boolean(gt_bits(x, y))),
        spec_apply_binary(
            SpecExpr::Literal(SpecAtom::Number(x)),
            SpecExpr::Literal(SpecAtom::Number(y)),
            SpecTokenKind::GreaterEqual,
        ) == SpecExpr::Literal(SpecAtom::Boolean(ge_bits(x, y))),
        spec_apply_binary(
            SpecExpr::Literal(SpecAtom::Number(x)),
            SpecExpr::Literal(SpecAtom::Number(y)),
            SpecTokenKind::Equal,
        ) == SpecExpr::Literal(SpecAtom::Boolean(eq_bits(x, y))),
{
}

} // verus!
