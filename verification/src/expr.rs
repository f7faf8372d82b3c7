//! The expression tree built by the parser: unary and binary operator
//! applications, literal leaves, and delimited groupings. The operator and
//! literal tokens are moved into the tree.

use vstd::prelude::*;

use crate::diag::Diagnostic;
use crate::diag::DiagnosticG;
use crate::diag::DiagnosticV;
use crate::lexer::diags_deep;
use crate::lexer::lemma_diags_deep_push;
use crate::numeric::add_bits_of;
use crate::numeric::div_bits_of;
use crate::numeric::mul_bits_of;
use crate::numeric::neg_b;
use crate::numeric::num_add;
use crate::numeric::num_div;
use crate::numeric::num_eq;
use crate::numeric::num_eq_b;
use crate::numeric::num_le;
use crate::numeric::num_le_b;
use crate::numeric::num_lt;
use crate::numeric::num_lt_b;
use crate::numeric::num_mul;
use crate::numeric::num_neg;
use crate::numeric::num_rem;
use crate::numeric::num_sub;
use crate::numeric::rem_bits_of;
use crate::numeric::sub_bits_of;
use crate::token::from_kind_v;
use crate::token::is_equal_v;
use crate::token::to_bool_v;
use crate::token::to_number_v;
use crate::token::Token;
use crate::token::TokenG;
use crate::token::TokenKind;
use crate::token::TokenKindV;
use crate::token::TokenKindG;
use crate::token::TokenV;

verus! {

/// An expression, generic over the text representation inside its tokens.
#[derive(Debug, PartialEq)]
pub enum ExprG<S> {
    /// A prefix operator applied to an operand.
    Unary(TokenG<S>, Box<ExprG<S>>),
    /// A left-associative binary operator applied to two operands.
    Binary(Box<ExprG<S>>, TokenG<S>, Box<ExprG<S>>),
    /// A literal token as a leaf.
    Literal(TokenG<S>),
    /// An expression wrapped in `()`, `[]` or an indentation block: the
    /// opening delimiter, the inner expression, and the closing delimiter.
    Grouping(TokenG<S>, Box<ExprG<S>>, TokenG<S>),
}

/// Executable expressions.
pub type Expr = ExprG<String>;

/// The mathematical model of an expression.
pub type ExprV = ExprG<Seq<char>>;

/// The model of an expression tree, token views taken throughout.
pub open spec fn expr_view(e: Expr) -> ExprV
    decreases e,
{
    match e {
        ExprG::Unary(op, rhs) => ExprG::Unary(op@, Box::new(expr_view(*rhs))),
        ExprG::Binary(lhs, op, rhs) => ExprG::Binary(
            Box::new(expr_view(*lhs)),
            op@,
            Box::new(expr_view(*rhs)),
        ),
        ExprG::Literal(t) => ExprG::Literal(t@),
        ExprG::Grouping(l, inner, r) => ExprG::Grouping(l@, Box::new(expr_view(*inner)), r@),
    }
}

impl View for Expr {
    type V = ExprV;

    open spec fn view(&self) -> ExprV {
        expr_view(*self)
    }
}

impl DeepView for Expr {
    type V = ExprV;

    open spec fn deep_view(&self) -> ExprV {
        expr_view(*self)
    }
}

/// The value and diagnostics of a unary operator applied to an evaluated
/// operand: `-` needs a numeric operand, `!` and `not` a boolean-coercible
/// one; failures yield the null sentinel and one diagnostic; a token that is
/// no unary operator yields the sentinel as well.
pub open spec fn sp_eval_unary(op: TokenV, rv: TokenV) -> (TokenV, Seq<DiagnosticV>) {
    match op.kind {
        TokenKindG::Minus => match to_number_v(rv) {
            Some(b) => (from_kind_v(TokenKindG::Number(neg_b(b))), Seq::empty()),
            None => (
                from_kind_v(TokenKindG::NoneLit),
                seq![DiagnosticG::ExpectedNumber { found: rv.kind }],
            ),
        },
        TokenKindG::Bang | TokenKindG::Not => match to_bool_v(rv) {
            Some(b) => (from_kind_v(TokenKindG::Bool(!b)), Seq::empty()),
            None => (
                from_kind_v(TokenKindG::NoneLit),
                seq![DiagnosticG::ExpectedBool { found: rv.kind }],
            ),
        },
        _ => (
            from_kind_v(TokenKindG::NoneLit),
            seq![DiagnosticG::UnsupportedUnary { op: op.kind }],
        ),
    }
}

/// The value and diagnostics of a binary operator applied to two evaluated
/// operands. `+` adds numbers or concatenates strings; `-`, `*`, `/`, `%`
/// and the comparisons need numeric operands; `==` and `!=` never fail. For
/// `^` on two numbers the result bits `powv` are supplied by the caller's
/// power function.
pub open spec fn sp_eval_binary(opk: TokenKindV, lv: TokenV, rv: TokenV, powv: u64) -> (
    TokenV,
    Seq<DiagnosticV>,
) {
    let bad = (
        from_kind_v(TokenKindG::NoneLit),
        seq![
            DiagnosticG::UnsupportedBinary { op: opk, lhs: lv.kind, rhs: rv.kind },
        ],
    );
    match opk {
        TokenKindG::Plus => match (lv.kind, rv.kind) {
            (TokenKindG::Number(a), TokenKindG::Number(b)) => (
                from_kind_v(TokenKindG::Number(add_bits_of(a, b))),
                Seq::empty(),
            ),
            (TokenKindG::StringLit(x), TokenKindG::StringLit(y)) => (
                from_kind_v(TokenKindG::StringLit(x + y)),
                Seq::empty(),
            ),
            _ => bad,
        },
        TokenKindG::Minus => match (to_number_v(lv), to_number_v(rv)) {
            (Some(a), Some(b)) => (
                from_kind_v(TokenKindG::Number(sub_bits_of(a, b))),
                Seq::empty(),
            ),
            _ => bad,
        },
        TokenKindG::Star => match (to_number_v(lv), to_number_v(rv)) {
            (Some(a), Some(b)) => (
                from_kind_v(TokenKindG::Number(mul_bits_of(a, b))),
                Seq::empty(),
            ),
            _ => bad,
        },
        TokenKindG::Slash => match (to_number_v(lv), to_number_v(rv)) {
            (Some(a), Some(b)) => (
                from_kind_v(TokenKindG::Number(div_bits_of(a, b))),
                Seq::empty(),
            ),
            _ => bad,
        },
        TokenKindG::Percent => match (to_number_v(lv), to_number_v(rv)) {
            (Some(a), Some(b)) => (
                from_kind_v(TokenKindG::Number(rem_bits_of(a, b))),
                Seq::empty(),
            ),
            _ => bad,
        },
        TokenKindG::Caret => match (to_number_v(lv), to_number_v(rv)) {
            (Some(_), Some(_)) => (from_kind_v(TokenKindG::Number(powv)), Seq::empty()),
            _ => bad,
        },
        TokenKindG::Greater => match (to_number_v(lv), to_number_v(rv)) {
            (Some(a), Some(b)) => (
                from_kind_v(TokenKindG::Bool(crate::numeric::num_lt_b(b, a))),
                Seq::empty(),
            ),
            _ => bad,
        },
        TokenKindG::GreaterEqual => match (to_number_v(lv), to_number_v(rv)) {
            (Some(a), Some(b)) => (
                from_kind_v(TokenKindG::Bool(crate::numeric::num_le_b(b, a))),
                Seq::empty(),
            ),
            _ => bad,
        },
        TokenKindG::Less => match (to_number_v(lv), to_number_v(rv)) {
            (Some(a), Some(b)) => (
                from_kind_v(TokenKindG::Bool(crate::numeric::num_lt_b(a, b))),
                Seq::empty(),
            ),
            _ => bad,
        },
        TokenKindG::LessEqual => match (to_number_v(lv), to_number_v(rv)) {
            (Some(a), Some(b)) => (
                from_kind_v(TokenKindG::Bool(crate::numeric::num_le_b(a, b))),
                Seq::empty(),
            ),
            _ => bad,
        },
        TokenKindG::EqualEqual => (
            from_kind_v(TokenKindG::Bool(is_equal_v(lv, rv))),
            Seq::empty(),
        ),
        TokenKindG::BangEqual => (
            from_kind_v(TokenKindG::Bool(!is_equal_v(lv, rv))),
            Seq::empty(),
        ),
        _ => (from_kind_v(TokenKindG::NoneLit), Seq::empty()),
    }
}


/// The operator step of the binary case of `eval_rel`: for `^` on two
/// numbers the result bits may be any input-output pair of the power
/// function; every other operator is deterministic.
pub open spec fn caret_or_plain<F: Fn(u64, u64) -> u64>(
    e: ExprV,
    f: F,
    res: TokenV,
    ds: Seq<DiagnosticV>,
    lv: TokenV,
    rv: TokenV,
    ds1: Seq<DiagnosticV>,
    ds2: Seq<DiagnosticV>,
) -> bool {
    let op = e->Binary_1;
    if op.kind == TokenKindG::<Seq<char>>::Caret && to_number_v(lv) is Some && to_number_v(
        rv,
    ) is Some {
        exists|pv: u64|
            #![all_triggers]
            {
                &&& call_ensures(
                    f,
                    (to_number_v(lv)->Some_0, to_number_v(rv)->Some_0),
                    pv,
                )
                &&& res == sp_eval_binary(op.kind, lv, rv, pv).0
                &&& ds == ds1 + ds2 + sp_eval_binary(op.kind, lv, rv, pv).1
            }
    } else {
        res == sp_eval_binary(op.kind, lv, rv, 0).0 && ds == ds1 + ds2 + sp_eval_binary(
            op.kind,
            lv,
            rv,
            0,
        ).1
    }
}

/// The evaluation relation: `res` is a possible value of the expression and
/// `ds` the diagnostics it emits, given the power function `f`. Evaluation
/// is deterministic except for `^`, whose result bits may be any
/// input-output pair of `f`. A literal evaluates to its own token; a
/// grouping evaluates to the null sentinel without evaluating its interior.
pub open spec fn eval_rel<F: Fn(u64, u64) -> u64>(
    e: ExprV,
    f: F,
    res: TokenV,
    ds: Seq<DiagnosticV>,
) -> bool
    decreases e,
{
    match e {
        ExprG::Literal(t) => res == t && ds == Seq::<DiagnosticV>::empty(),
        ExprG::Grouping(_, _, _) => res == from_kind_v(TokenKindG::NoneLit) && ds == Seq::<
            DiagnosticV,
        >::empty(),
        ExprG::Unary(op, inner) => exists|rv: TokenV, ds1: Seq<DiagnosticV>|
            #![all_triggers]
            {
                &&& eval_rel(*inner, f, rv, ds1)
                &&& res == sp_eval_unary(op, rv).0
                &&& ds == ds1 + sp_eval_unary(op, rv).1
            },
        ExprG::Binary(l, op, r) => exists|lv: TokenV, rv: TokenV, ds1: Seq<DiagnosticV>, ds2: Seq<DiagnosticV>|
            #![all_triggers]
            {
                &&& eval_rel(*l, f, lv, ds1)
                &&& eval_rel(*r, f, rv, ds2)
                &&& caret_or_plain(e, f, res, ds, lv, rv, ds1, ds2)
            },
    }
}


impl Expr {
    /// Evaluate the expression to a literal token, appending one diagnostic
    /// per evaluation error; a failed coercion degrades the result to the
    /// null sentinel. `pow` supplies binary64 exponentiation on bit patterns
    /// for the `^` operator.
    pub fn evaluate<F: Fn(u64, u64) -> u64>(
        &self,
        pow: &F,
        diags: &mut Vec<Diagnostic>,
    ) -> (r: Token)
        requires
            forall|a: u64, b: u64| call_requires(*pow, (a, b)),
        ensures
            exists|em: Seq<DiagnosticV>|
                diags_deep(final(diags)@) == diags_deep(old(diags)@) + em && #[trigger] eval_rel(
                    self@,
                    *pow,
                    r@,
                    em,
                ),
        decreases *self,
    {
        match self {
            ExprG::Unary(..) => self.evaluate_unary(pow, diags),
            ExprG::Binary(..) => self.evaluate_binary(pow, diags),
            ExprG::Literal(..) => {
                let r = self.evaluate_literal(diags);
                proof {
                    let em = Seq::<DiagnosticV>::empty();
                    assert(diags_deep(diags@) =~= diags_deep(old(diags)@) + em);
                    assert(eval_rel(self@, *pow, r@, em));
                }
                r
            },
            ExprG::Grouping(..) => {
                let r = self.evaluate_grouping(diags);
                proof {
                    let em = Seq::<DiagnosticV>::empty();
                    assert(diags_deep(diags@) =~= diags_deep(old(diags)@) + em);
                    assert(eval_rel(self@, *pow, r@, em));
                }
                r
            },
        }
    }

    fn evaluate_literal(&self, diags: &mut Vec<Diagnostic>) -> (r: Token)
        requires
            self@ matches ExprG::Literal(_),
        ensures
            final(diags)@ == old(diags)@,
            (self@ matches ExprG::Literal(t) ==> r@ == t),
    {
        match self {
            ExprG::Literal(tok) => tok.clone(),
            _ => Token::from_kind(TokenKindG::NoneLit),
        }
    }

    fn evaluate_grouping(&self, diags: &mut Vec<Diagnostic>) -> (r: Token)
        ensures
            final(diags)@ == old(diags)@,
            r@ == from_kind_v(TokenKindG::NoneLit),
    {
        Token::from_kind(TokenKindG::NoneLit)
    }

    fn evaluate_unary<F: Fn(u64, u64) -> u64>(
        &self,
        pow: &F,
        diags: &mut Vec<Diagnostic>,
    ) -> (r: Token)
        requires
            forall|a: u64, b: u64| call_requires(*pow, (a, b)),
            self@ matches ExprG::Unary(_, _),
        ensures
            exists|em: Seq<DiagnosticV>|
                diags_deep(final(diags)@) == diags_deep(old(diags)@) + em && #[trigger] eval_rel(
                    self@,
                    *pow,
                    r@,
                    em,
                ),
        decreases *self, 0int,
    {
        broadcast use lemma_diags_deep_push;

        match self {
            ExprG::Unary(op, expr) => {
                let ghost d0 = diags_deep(diags@);
                let rhs = (&**expr).evaluate(pow, diags);
                let ghost ds1 = choose|em: Seq<DiagnosticV>|
                    diags_deep(diags@) == d0 + em && #[trigger] eval_rel(
                        expr_view(**expr),
                        *pow,
                        rhs@,
                        em,
                    );
                proof {
                    assert(diags_deep(diags@) == d0 + ds1);
                    assert(eval_rel(expr_view(**expr), *pow, rhs@, ds1));
                }
                let out: Token = match &op.kind {
                    TokenKindG::Minus => {
                        match rhs.to_number() {
                            Some(b) => Token::from_kind(TokenKindG::Number(num_neg(b))),
                            None => {
                                diags.push(DiagnosticG::ExpectedNumber { found: rhs.kind });
                                Token::from_kind(TokenKindG::NoneLit)
                            },
                        }
                    },
                    TokenKindG::Bang | TokenKindG::Not => {
                        match rhs.to_bool() {
                            Some(b) => Token::from_kind(TokenKindG::Bool(!b)),
                            None => {
                                diags.push(DiagnosticG::ExpectedBool { found: rhs.kind });
                                Token::from_kind(TokenKindG::NoneLit)
                            },
                        }
                    },
                    _ => {
                        diags.push(DiagnosticG::UnsupportedUnary { op: op.kind.clone() });
                        Token::from_kind(TokenKindG::NoneLit)
                    },
                };
                proof {
                    let emall = ds1 + sp_eval_unary(op@, rhs@).1;
                    assert(diags_deep(diags@) =~= d0 + emall);
                    let ghost ib: Box<ExprV> = Box::new(expr_view(**expr));
                    assert(eval_rel(self@, *pow, out@, emall)) by {
                        assert(self@ == ExprG::Unary(op@, ib));
                        assert(*ib == expr_view(**expr));
                        assert(eval_rel(*ib, *pow, rhs@, ds1));
                        assert(out@ == sp_eval_unary(op@, rhs@).0);
                        assert(emall == ds1 + sp_eval_unary(op@, rhs@).1);
                    }
                }
                out
            },
            _ => Token::from_kind(TokenKindG::NoneLit),
        }
    }

    fn evaluate_binary<F: Fn(u64, u64) -> u64>(
        &self,
        pow: &F,
        diags: &mut Vec<Diagnostic>,
    ) -> (r: Token)
        requires
            forall|a: u64, b: u64| call_requires(*pow, (a, b)),
            self@ matches ExprG::Binary(_, _, _),
        ensures
            exists|em: Seq<DiagnosticV>|
                diags_deep(final(diags)@) == diags_deep(old(diags)@) + em && #[trigger] eval_rel(
                    self@,
                    *pow,
                    r@,
                    em,
                ),
        decreases *self, 0int,
    {
        broadcast use lemma_diags_deep_push;

        match self {
            ExprG::Binary(lhs, op, rhs) => {
                let ghost d0 = diags_deep(diags@);
                let lv = (&**lhs).evaluate(pow, diags);
                let ghost ds1 = choose|em: Seq<DiagnosticV>|
                    diags_deep(diags@) == d0 + em && #[trigger] eval_rel(
                        expr_view(**lhs),
                        *pow,
                        lv@,
                        em,
                    );
                proof {
                    assert(diags_deep(diags@) == d0 + ds1);
                    assert(eval_rel(expr_view(**lhs), *pow, lv@, ds1));
                }
                let ghost d1 = diags_deep(diags@);
                let rv = (&**rhs).evaluate(pow, diags);
                let ghost ds2 = choose|em: Seq<DiagnosticV>|
                    diags_deep(diags@) == d1 + em && #[trigger] eval_rel(
                        expr_view(**rhs),
                        *pow,
                        rv@,
                        em,
                    );
                proof {
                    assert(diags_deep(diags@) == d1 + ds2);
                    assert(eval_rel(expr_view(**rhs), *pow, rv@, ds2));
                }
                let is_caret = matches!(&op.kind, TokenKindG::Caret);
                if is_caret && lv.to_number().is_some() && rv.to_number().is_some() {
                    let a = lv.to_number().unwrap();
                    let b = rv.to_number().unwrap();
                    let pv = (*pow)(a, b);
                    let out = Token::from_kind(TokenKindG::Number(pv));
                    proof {
                        let emall = ds1 + ds2 + sp_eval_binary(op@.kind, lv@, rv@, pv).1;
                        assert(diags_deep(diags@) =~= d0 + emall);
                        assert(eval_rel(self@, *pow, out@, emall)) by {
                            assert(self@ == ExprG::Binary(
                                Box::new(expr_view(**lhs)),
                                op@,
                                Box::new(expr_view(**rhs)),
                            ));
                            assert(eval_rel(expr_view(**lhs), *pow, lv@, ds1));
                            assert(eval_rel(expr_view(**rhs), *pow, rv@, ds2));
                            assert(call_ensures(*pow, (a, b), pv));
                            assert(caret_or_plain(self@, *pow, out@, emall, lv@, rv@, ds1, ds2));
                        }
                    }
                    out
                } else {
                    let out = self.apply_binary(&op.kind, &lv, &rv, diags);
                    proof {
                        let emall = ds1 + ds2 + sp_eval_binary(op@.kind, lv@, rv@, 0).1;
                        assert(diags_deep(diags@) =~= d0 + emall);
                        assert(eval_rel(self@, *pow, out@, emall)) by {
                            assert(self@ == ExprG::Binary(
                                Box::new(expr_view(**lhs)),
                                op@,
                                Box::new(expr_view(**rhs)),
                            ));
                            assert(eval_rel(expr_view(**lhs), *pow, lv@, ds1));
                            assert(eval_rel(expr_view(**rhs), *pow, rv@, ds2));
                            assert(caret_or_plain(self@, *pow, out@, emall, lv@, rv@, ds1, ds2));
                        }
                    }
                    out
                }
            },
            _ => Token::from_kind(TokenKindG::NoneLit),
        }
    }

    /// The non-exponent binary operators on two evaluated operands.
    fn apply_binary(
        &self,
        op: &TokenKind,
        lv: &Token,
        rv: &Token,
        diags: &mut Vec<Diagnostic>,
    ) -> (r: Token)
        requires
            !(op@ == TokenKindG::<Seq<char>>::Caret && to_number_v(lv@) is Some && to_number_v(
                rv@,
            ) is Some),
        ensures
            r@ == sp_eval_binary(op@, lv@, rv@, 0).0,
            diags_deep(final(diags)@) == diags_deep(old(diags)@) + sp_eval_binary(
                op@,
                lv@,
                rv@,
                0,
            ).1,
    {
        broadcast use lemma_diags_deep_push;

        let ghost d0 = diags_deep(diags@);
        let out: Token = match op {
            TokenKindG::Plus => {
                let both_num = lv.to_number().is_some() && rv.to_number().is_some();
                match (&lv.kind, &rv.kind) {
                    (TokenKindG::Number(a), TokenKindG::Number(b)) => Token::from_kind(
                        TokenKindG::Number(num_add(*a, *b)),
                    ),
                    (TokenKindG::StringLit(x), TokenKindG::StringLit(y)) => {
                        let joined = x.clone().concat(y.as_str());
                        Token::from_kind(TokenKindG::StringLit(joined))
                    },
                    _ => {
                        diags.push(
                            DiagnosticG::UnsupportedBinary {
                                op: op.clone(),
                                lhs: lv.kind.clone(),
                                rhs: rv.kind.clone(),
                            },
                        );
                        Token::from_kind(TokenKindG::NoneLit)
                    },
                }
            },
            TokenKindG::Minus => {
                match (lv.to_number(), rv.to_number()) {
                    (Some(a), Some(b)) => Token::from_kind(TokenKindG::Number(num_sub(a, b))),
                    _ => {
                        diags.push(
                            DiagnosticG::UnsupportedBinary {
                                op: op.clone(),
                                lhs: lv.kind.clone(),
                                rhs: rv.kind.clone(),
                            },
                        );
                        Token::from_kind(TokenKindG::NoneLit)
                    },
                }
            },
            TokenKindG::Star => {
                match (lv.to_number(), rv.to_number()) {
                    (Some(a), Some(b)) => Token::from_kind(TokenKindG::Number(num_mul(a, b))),
                    _ => {
                        diags.push(
                            DiagnosticG::UnsupportedBinary {
                                op: op.clone(),
                                lhs: lv.kind.clone(),
                                rhs: rv.kind.clone(),
                            },
                        );
                        Token::from_kind(TokenKindG::NoneLit)
                    },
                }
            },
            TokenKindG::Slash => {
                match (lv.to_number(), rv.to_number()) {
                    (Some(a), Some(b)) => Token::from_kind(TokenKindG::Number(num_div(a, b))),
                    _ => {
                        diags.push(
                            DiagnosticG::UnsupportedBinary {
                                op: op.clone(),
                                lhs: lv.kind.clone(),
                                rhs: rv.kind.clone(),
                            },
                        );
                        Token::from_kind(TokenKindG::NoneLit)
                    },
                }
            },
            TokenKindG::Percent => {
                match (lv.to_number(), rv.to_number()) {
                    (Some(a), Some(b)) => Token::from_kind(TokenKindG::Number(num_rem(a, b))),
                    _ => {
                        diags.push(
                            DiagnosticG::UnsupportedBinary {
                                op: op.clone(),
                                lhs: lv.kind.clone(),
                                rhs: rv.kind.clone(),
                            },
                        );
                        Token::from_kind(TokenKindG::NoneLit)
                    },
                }
            },
            TokenKindG::Caret => {
                diags.push(
                    DiagnosticG::UnsupportedBinary {
                        op: op.clone(),
                        lhs: lv.kind.clone(),
                        rhs: rv.kind.clone(),
                    },
                );
                Token::from_kind(TokenKindG::NoneLit)
            },
            TokenKindG::Greater => {
                match (lv.to_number(), rv.to_number()) {
                    (Some(a), Some(b)) => Token::from_kind(TokenKindG::Bool(num_lt(b, a))),
                    _ => {
                        diags.push(
                            DiagnosticG::UnsupportedBinary {
                                op: op.clone(),
                                lhs: lv.kind.clone(),
                                rhs: rv.kind.clone(),
                            },
                        );
                        Token::from_kind(TokenKindG::NoneLit)
                    },
                }
            },
            TokenKindG::GreaterEqual => {
                match (lv.to_number(), rv.to_number()) {
                    (Some(a), Some(b)) => Token::from_kind(TokenKindG::Bool(num_le(b, a))),
                    _ => {
                        diags.push(
                            DiagnosticG::UnsupportedBinary {
                                op: op.clone(),
                                lhs: lv.kind.clone(),
                                rhs: rv.kind.clone(),
                            },
                        );
                        Token::from_kind(TokenKindG::NoneLit)
                    },
                }
            },
            TokenKindG::Less => {
                match (lv.to_number(), rv.to_number()) {
                    (Some(a), Some(b)) => Token::from_kind(TokenKindG::Bool(num_lt(a, b))),
                    _ => {
                        diags.push(
                            DiagnosticG::UnsupportedBinary {
                                op: op.clone(),
                                lhs: lv.kind.clone(),
                                rhs: rv.kind.clone(),
                            },
                        );
                        Token::from_kind(TokenKindG::NoneLit)
                    },
                }
            },
            TokenKindG::LessEqual => {
                match (lv.to_number(), rv.to_number()) {
                    (Some(a), Some(b)) => Token::from_kind(TokenKindG::Bool(num_le(a, b))),
                    _ => {
                        diags.push(
                            DiagnosticG::UnsupportedBinary {
                                op: op.clone(),
                                lhs: lv.kind.clone(),
                                rhs: rv.kind.clone(),
                            },
                        );
                        Token::from_kind(TokenKindG::NoneLit)
                    },
                }
            },
            TokenKindG::EqualEqual => {
                let rc = rv.clone();
                Token::from_kind(TokenKindG::Bool(lv.is_equal(rc)))
            },
            TokenKindG::BangEqual => {
                let rc = rv.clone();
                Token::from_kind(TokenKindG::Bool(!lv.is_equal(rc)))
            },
            _ => Token::from_kind(TokenKindG::NoneLit),
        };
        proof {
            assert(diags_deep(diags@) =~= d0 + sp_eval_binary(op@, lv@, rv@, 0).1);
        }
        out
    }
}

} // verus!
