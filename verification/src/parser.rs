//! The parser: a precedence-climbing recursive descent over the token
//! sequence, producing statements.
//!
//! Binding power, highest first: primary, unary (prefix, right-associative),
//! exponent, factor, term, comparison, equality; the binary levels are
//! left-associative. The parser is specified by recursive functions over
//! `ParserV`, the mathematical model of a `Parser`; each executable method is
//! proved equal to its specification twin.

use vstd::prelude::*;

use crate::diag::Diagnostic;
use crate::diag::DiagnosticG;
use crate::diag::DiagnosticV;
use crate::expr::Expr;
use crate::expr::ExprG;
use crate::expr::ExprV;
use crate::expr::expr_view;
use crate::lexer::diags_deep;
use crate::lexer::lemma_diags_deep_push;
use crate::lexer::tokens_deep;
use crate::statement::Statement;
use crate::statement::StatementG;
use crate::statement::StatementV;
use crate::statement::statement_view;
use crate::token::from_kind_v;
use crate::token::kind_eq;
use crate::token::Token;
use crate::token::TokenKind;
use crate::token::TokenKindG;
use crate::token::TokenKindV;
use crate::token::TokenV;

verus! {

/// The mathematical model of a parser state.
#[verifier::ext_equal]
pub struct ParserV {
    pub tokens: Seq<TokenV>,
    pub cursor: int,
    pub errors: bool,
    pub diags: Seq<DiagnosticV>,
}

/// The starting state on a token sequence.
pub open spec fn par_init(tokens: Seq<TokenV>) -> ParserV {
    ParserV { tokens, cursor: 0, errors: false, diags: Seq::empty() }
}

/// Well-formedness: the cursor stays inside the token sequence.
pub open spec fn pv_wf(st: ParserV) -> bool {
    0 <= st.cursor <= st.tokens.len()
}

/// The token under the cursor, or a synthesized end-of-input token.
pub open spec fn pv_peek(st: ParserV) -> TokenV {
    if 0 <= st.cursor < st.tokens.len() {
        st.tokens[st.cursor]
    } else {
        from_kind_v(TokenKindG::Eof)
    }
}

/// Consuming one token.
pub open spec fn pv_adv(st: ParserV) -> ParserV {
    ParserV { cursor: st.cursor + 1, ..st }
}

/// A guard for the termination measures: the parser's cursor never moves
/// backwards nor beyond the end, so this is the identity on every state the
/// executable parser produces.
pub open spec fn pv_clamp(prev: ParserV, next: ParserV) -> ParserV {
    if prev.cursor <= next.cursor && next.cursor <= next.tokens.len() && next.tokens
        == prev.tokens {
        next
    } else {
        ParserV { cursor: prev.cursor, tokens: prev.tokens, ..next }
    }
}

/// Whether a token of the given category occurs at or after position `i`.
pub open spec fn sp_contains_kind(tokens: Seq<TokenV>, i: int, k: TokenKindV) -> bool {
    exists|j: int| i <= j < tokens.len() && (#[trigger] tokens[j]).kind == k
}

/// The expectation check: it consumes nothing and scans the remaining stream
/// for a token of the category; when none occurs, a parse error is recorded
/// and the sticky flag set.
pub open spec fn sp_expect(st: ParserV, k: TokenKindV) -> ParserV {
    if sp_contains_kind(st.tokens, st.cursor, k) {
        st
    } else {
        ParserV {
            errors: true,
            diags: st.diags.push(DiagnosticG::ExpectedToken { expected: k }),
            ..st
        }
    }
}

/// Primary expressions: literal leaves; `(`, `[` and `Indent` groupings,
/// each requiring (without consuming) its closing delimiter; any other token
/// yields an end-of-input literal and consumes nothing.
pub open spec fn sp_parse_primary(st: ParserV) -> (ExprV, ParserV)
    decreases st.tokens.len() - st.cursor, 0int,
{
    match pv_peek(st).kind {
        TokenKindG::NoneLit | TokenKindG::Bool(_) | TokenKindG::Number(_)
            | TokenKindG::StringLit(_) | TokenKindG::Identifier(_) => (
            ExprG::Literal(pv_peek(st)),
            pv_adv(st),
        ),
        TokenKindG::LeftParen => {
            let lhs = pv_peek(st);
            let st1 = pv_adv(st);
            let (inner, st2) = sp_parse_expression(st1);
            let st3 = sp_expect(st2, TokenKindG::RightParen);
            (
                ExprG::Grouping(lhs, Box::new(inner), from_kind_v(TokenKindG::RightParen)),
                st3,
            )
        },
        TokenKindG::LeftBracket => {
            let lhs = pv_peek(st);
            let st1 = pv_adv(st);
            let (inner, st2) = sp_parse_expression(st1);
            let st3 = sp_expect(st2, TokenKindG::RightBracket);
            (
                ExprG::Grouping(lhs, Box::new(inner), from_kind_v(TokenKindG::RightBracket)),
                st3,
            )
        },
        TokenKindG::Indent => {
            let lhs = pv_peek(st);
            let st1 = pv_adv(st);
            let (inner, st2) = sp_parse_expression(st1);
            let st3 = sp_expect(st2, TokenKindG::Dedent);
            (ExprG::Grouping(lhs, Box::new(inner), from_kind_v(TokenKindG::Dedent)), st3)
        },
        _ => (ExprG::Literal(from_kind_v(TokenKindG::Eof)), st),
    }
}

/// Whether the token starts a unary expression.
pub open spec fn is_unary_op(k: TokenKindV) -> bool {
    k == TokenKindG::<Seq<char>>::Bang || k == TokenKindG::<Seq<char>>::Not || k
        == TokenKindG::<Seq<char>>::Minus
}

/// Unary expressions: right-associative prefix `!`, `not` and `-`.
pub open spec fn sp_parse_unary(st: ParserV) -> (ExprV, ParserV)
    decreases st.tokens.len() - st.cursor, 1int,
{
    if is_unary_op(pv_peek(st).kind) {
        let op = pv_peek(st);
        let st1 = pv_adv(st);
        let (rhs, st2) = sp_parse_unary(st1);
        (ExprG::Unary(op, Box::new(rhs)), st2)
    } else {
        sp_parse_primary(st)
    }
}

/// The left-associative tail of the exponent level.
pub open spec fn sp_exp_tail(st: ParserV, e: ExprV) -> (ExprV, ParserV)
    decreases st.tokens.len() - st.cursor, 2int,
{
    if pv_peek(st).kind == TokenKindG::<Seq<char>>::Caret {
        let op = pv_peek(st);
        let st1 = pv_adv(st);
        let (rhs, st2x) = sp_parse_unary(st1);
        let st2 = pv_clamp(st1, st2x);
        sp_exp_tail(st2, ExprG::Binary(Box::new(e), op, Box::new(rhs)))
    } else {
        (e, st)
    }
}

/// Exponent expressions: `^` over unary expressions.
pub open spec fn sp_parse_exponent(st: ParserV) -> (ExprV, ParserV)
    decreases st.tokens.len() - st.cursor, 3int,
{
    let (e, st1x) = sp_parse_unary(st);
    let st1 = pv_clamp(st, st1x);
    sp_exp_tail(st1, e)
}

/// Whether the token is a factor operator.
pub open spec fn is_factor_op(k: TokenKindV) -> bool {
    k == TokenKindG::<Seq<char>>::Star || k == TokenKindG::<Seq<char>>::Slash || k
        == TokenKindG::<Seq<char>>::Percent
}

/// The left-associative tail of the factor level.
pub open spec fn sp_factor_tail(st: ParserV, e: ExprV) -> (ExprV, ParserV)
    decreases st.tokens.len() - st.cursor, 4int,
{
    if is_factor_op(pv_peek(st).kind) {
        let op = pv_peek(st);
        let st1 = pv_adv(st);
        let (rhs, st2x) = sp_parse_exponent(st1);
        let st2 = pv_clamp(st1, st2x);
        sp_factor_tail(st2, ExprG::Binary(Box::new(e), op, Box::new(rhs)))
    } else {
        (e, st)
    }
}

/// Factor expressions: `*`, `/`, `%` over exponent expressions.
pub open spec fn sp_parse_factor(st: ParserV) -> (ExprV, ParserV)
    decreases st.tokens.len() - st.cursor, 5int,
{
    let (e, st1x) = sp_parse_exponent(st);
    let st1 = pv_clamp(st, st1x);
    sp_factor_tail(st1, e)
}

/// Whether the token is a term operator.
pub open spec fn is_term_op(k: TokenKindV) -> bool {
    k == TokenKindG::<Seq<char>>::Plus || k == TokenKindG::<Seq<char>>::Minus
}

/// The left-associative tail of the term level.
pub open spec fn sp_term_tail(st: ParserV, e: ExprV) -> (ExprV, ParserV)
    decreases st.tokens.len() - st.cursor, 6int,
{
    if is_term_op(pv_peek(st).kind) {
        let op = pv_peek(st);
        let st1 = pv_adv(st);
        let (rhs, st2x) = sp_parse_factor(st1);
        let st2 = pv_clamp(st1, st2x);
        sp_term_tail(st2, ExprG::Binary(Box::new(e), op, Box::new(rhs)))
    } else {
        (e, st)
    }
}

/// Term expressions: `+`, `-` over factor expressions.
pub open spec fn sp_parse_term(st: ParserV) -> (ExprV, ParserV)
    decreases st.tokens.len() - st.cursor, 7int,
{
    let (e, st1x) = sp_parse_factor(st);
    let st1 = pv_clamp(st, st1x);
    sp_term_tail(st1, e)
}

/// Whether the token is a comparison operator.
pub open spec fn is_comparison_op(k: TokenKindV) -> bool {
    k == TokenKindG::<Seq<char>>::Greater || k == TokenKindG::<Seq<char>>::GreaterEqual || k
        == TokenKindG::<Seq<char>>::Less || k == TokenKindG::<Seq<char>>::LessEqual
}

/// The left-associative tail of the comparison level.
pub open spec fn sp_comparison_tail(st: ParserV, e: ExprV) -> (ExprV, ParserV)
    decreases st.tokens.len() - st.cursor, 8int,
{
    if is_comparison_op(pv_peek(st).kind) {
        let op = pv_peek(st);
        let st1 = pv_adv(st);
        let (rhs, st2x) = sp_parse_term(st1);
        let st2 = pv_clamp(st1, st2x);
        sp_comparison_tail(st2, ExprG::Binary(Box::new(e), op, Box::new(rhs)))
    } else {
        (e, st)
    }
}

/// Comparison expressions: `>`, `>=`, `<`, `<=` over term expressions.
pub open spec fn sp_parse_comparison(st: ParserV) -> (ExprV, ParserV)
    decreases st.tokens.len() - st.cursor, 9int,
{
    let (e, st1x) = sp_parse_term(st);
    let st1 = pv_clamp(st, st1x);
    sp_comparison_tail(st1, e)
}

/// Whether the token is an equality operator.
pub open spec fn is_equality_op(k: TokenKindV) -> bool {
    k == TokenKindG::<Seq<char>>::EqualEqual || k == TokenKindG::<Seq<char>>::BangEqual
}

/// The left-associative tail of the equality level.
pub open spec fn sp_equality_tail(st: ParserV, e: ExprV) -> (ExprV, ParserV)
    decreases st.tokens.len() - st.cursor, 10int,
{
    if is_equality_op(pv_peek(st).kind) {
        let op = pv_peek(st);
        let st1 = pv_adv(st);
        let (rhs, st2x) = sp_parse_comparison(st1);
        let st2 = pv_clamp(st1, st2x);
        sp_equality_tail(st2, ExprG::Binary(Box::new(e), op, Box::new(rhs)))
    } else {
        (e, st)
    }
}

/// Equality expressions: `==`, `!=` over comparison expressions.
pub open spec fn sp_parse_equality(st: ParserV) -> (ExprV, ParserV)
    decreases st.tokens.len() - st.cursor, 11int,
{
    let (e, st1x) = sp_parse_comparison(st);
    let st1 = pv_clamp(st, st1x);
    sp_equality_tail(st1, e)
}

/// A full expression: the lowest binding power is equality.
pub open spec fn sp_parse_expression(st: ParserV) -> (ExprV, ParserV)
    decreases st.tokens.len() - st.cursor, 12int,
{
    sp_parse_equality(st)
}

/// A `print` statement: the keyword has been consumed; its expression is
/// followed by a required (not consumed) trailing newline.
pub open spec fn sp_parse_print(st: ParserV) -> (StatementV, ParserV)
    decreases st.tokens.len() - st.cursor, 13int,
{
    let (e, st1) = sp_parse_expression(st);
    let st2 = sp_expect(st1, TokenKindG::Newline);
    (StatementG::Print(e), st2)
}

/// A statement: `print` followed by an expression, or a bare expression.
pub open spec fn sp_parse_statement(st: ParserV) -> (StatementV, ParserV)
    decreases st.tokens.len() - st.cursor, 14int,
{
    if pv_peek(st).kind == TokenKindG::<Seq<char>>::Print {
        let st1 = pv_adv(st);
        let (s, st2x) = sp_parse_print(st1);
        (s, st2x)
    } else {
        let (e, st2) = sp_parse_expression(st);
        (StatementG::Expr(e), st2)
    }
}

/// The statement sequence of a program, parsed until the cursor reaches the
/// last token (the stream is expected to end with a sentinel final token). A
/// statement that consumes nothing — its leading token starts no production —
/// is recorded as a sentinel and the token is stepped over, so that parsing
/// always makes progress.
pub open spec fn sp_parse_stmts(st: ParserV, acc: Seq<StatementV>) -> (Seq<StatementV>, ParserV)
    decreases st.tokens.len() - st.cursor, 15int,
{
    if st.cursor + 1 < st.tokens.len() {
        let (s, st1x) = sp_parse_statement(st);
        let st1 = pv_clamp(st, st1x);
        let st2 = if st1.cursor == st.cursor {
            ParserV { cursor: st.cursor + 1, ..st1 }
        } else {
            st1
        };
        sp_parse_stmts(st2, acc.push(s))
    } else {
        (acc, st)
    }
}

/// The complete parser as a function of the token sequence: the statement
/// sequence together with the final state, holding the sticky error flag and
/// the diagnostics.
pub open spec fn spec_parse(tokens: Seq<TokenV>) -> (Seq<StatementV>, ParserV) {
    sp_parse_stmts(par_init(tokens), Seq::empty())
}

/// The models of a sequence of statements.
pub open spec fn stmts_deep(s: Seq<Statement>) -> Seq<StatementV> {
    Seq::new(s.len(), |i: int| s[i]@)
}

pub broadcast proof fn lemma_stmts_deep_push(s: Seq<Statement>, t: Statement)
    ensures
        #[trigger] stmts_deep(s.push(t)) == stmts_deep(s).push(t@),
{
    assert(stmts_deep(s.push(t)) =~= stmts_deep(s).push(t@));
}

/// The parser. Localized mutable state: the token sequence and a cursor.
pub struct Parser {
    tokens: Vec<Token>,
    cursor: usize,
    /// The sticky error flag: set by every parse error; the caller must
    /// check it before evaluating.
    pub contains_errors: bool,
    /// The accumulated diagnostics, in the order the errors were found.
    pub diagnostics: Vec<Diagnostic>,
}

impl View for Parser {
    type V = ParserV;

    closed spec fn view(&self) -> ParserV {
        ParserV {
            tokens: tokens_deep(self.tokens@),
            cursor: self.cursor as int,
            errors: self.contains_errors,
            diags: diags_deep(self.diagnostics@),
        }
    }
}

impl Parser {
    /// A fresh parser over the given token sequence.
    pub fn new(tokens: Vec<Token>) -> (r: Parser)
        ensures
            r@ == par_init(tokens_deep(tokens@)),
    {
        let r = Parser { tokens, cursor: 0, contains_errors: false, diagnostics: Vec::new() };
        proof {
            assert(diags_deep(r.diagnostics@) =~= Seq::<DiagnosticV>::empty());
            assert(r@ =~= par_init(tokens_deep(r.tokens@)));
        }
        r
    }

    /// Discard all parsing state, keeping the tokens.
    pub fn reset(&mut self)
        ensures
            final(self)@ == par_init(old(self)@.tokens),
    {
        self.cursor = 0;
        self.contains_errors = false;
        self.diagnostics = Vec::new();
        proof {
            assert(diags_deep(self.diagnostics@) =~= Seq::<DiagnosticV>::empty());
            assert(self@ =~= par_init(old(self)@.tokens));
        }
    }

    fn peek(&self) -> (t: Token)
        requires
            pv_wf(self@),
        ensures
            t@ == pv_peek(self@),
    {
        if self.cursor < self.tokens.len() {
            let t = (&self.tokens[self.cursor]).clone();
            t
        } else {
            Token::from_kind(TokenKindG::Eof)
        }
    }

    fn advance(&mut self) -> (t: Token)
        requires
            pv_wf(old(self)@),
            old(self)@.cursor < old(self)@.tokens.len(),
        ensures
            t@ == pv_peek(old(self)@),
            final(self)@ == pv_adv(old(self)@),
            pv_wf(final(self)@),
    {
        let t = self.peek();
        let n = self.tokens.len();
        assert(self.cursor < n);
        self.cursor = self.cursor + 1;
        proof {
            assert(self@ =~= pv_adv(old(self)@));
        }
        t
    }

    fn is_match(&self, kind: &TokenKind) -> (r: bool)
        requires
            pv_wf(self@),
        ensures
            r == (self@.cursor < self@.tokens.len() && pv_peek(self@).kind == kind@),
    {
        if self.cursor >= self.tokens.len() {
            false
        } else {
            kind_eq(&self.tokens[self.cursor].kind, kind)
        }
    }

    /// Scan forward for a token of the expected category; record a parse
    /// error when none remains. Consumes nothing either way.
    fn expect(&mut self, kind: TokenKind)
        requires
            pv_wf(old(self)@),
        ensures
            final(self)@ == sp_expect(old(self)@, kind@),
            pv_wf(final(self)@),
    {
        broadcast use lemma_diags_deep_push;

        let mut j: usize = self.cursor;
        while j < self.tokens.len()
            invariant
                pv_wf(self@),
                self@ == old(self)@,
                old(self)@.cursor <= j <= self@.tokens.len(),
                forall|jj: int|
                    old(self)@.cursor <= jj < j ==> (#[trigger] self@.tokens[jj]).kind != kind@,
            decreases self@.tokens.len() - j,
        {
            if kind_eq(&self.tokens[j].kind, &kind) {
                proof {
                    assert(self@.tokens[j as int].kind == kind@);
                    assert(sp_contains_kind(self@.tokens, self@.cursor, kind@));
                }
                return ;
            }
            j = j + 1;
        }
        self.contains_errors = true;
        self.diagnostics.push(DiagnosticG::ExpectedToken { expected: kind });
        proof {
            assert(!sp_contains_kind(old(self)@.tokens, old(self)@.cursor, kind@));
            assert(self@ =~= sp_expect(old(self)@, kind@));
        }
    }

    #[verifier::rlimit(100)]
    fn parse_primary(&mut self) -> (e: Expr)
        requires
            pv_wf(old(self)@),
        ensures
            sp_parse_primary(old(self)@) == (e@, final(self)@),
            pv_wf(final(self)@),
            final(self)@.cursor >= old(self)@.cursor,
            final(self)@.tokens == old(self)@.tokens,
        decreases self@.tokens.len() - self@.cursor, 0int,
    {
        let t = self.peek();
        match t.kind {
            TokenKindG::NoneLit | TokenKindG::Bool(_) | TokenKindG::Number(_)
                | TokenKindG::StringLit(_) | TokenKindG::Identifier(_) => {
                let tok = self.advance();
                Expr::Literal(tok)
            },
            TokenKindG::LeftParen => {
                let lhs = self.advance();
                let inner = self.parse_expression();
                self.expect(TokenKindG::RightParen);
                Expr::Grouping(
                    lhs,
                    Box::new(inner),
                    Token::from_kind(TokenKindG::RightParen),
                )
            },
            TokenKindG::LeftBracket => {
                let lhs = self.advance();
                let inner = self.parse_expression();
                self.expect(TokenKindG::RightBracket);
                Expr::Grouping(
                    lhs,
                    Box::new(inner),
                    Token::from_kind(TokenKindG::RightBracket),
                )
            },
            TokenKindG::Indent => {
                let lhs = self.advance();
                let inner = self.parse_expression();
                self.expect(TokenKindG::Dedent);
                Expr::Grouping(lhs, Box::new(inner), Token::from_kind(TokenKindG::Dedent))
            },
            _ => Expr::Literal(Token::from_kind(TokenKindG::Eof)),
        }
    }

    fn parse_unary(&mut self) -> (e: Expr)
        requires
            pv_wf(old(self)@),
        ensures
            sp_parse_unary(old(self)@) == (e@, final(self)@),
            pv_wf(final(self)@),
            final(self)@.cursor >= old(self)@.cursor,
            final(self)@.tokens == old(self)@.tokens,
        decreases self@.tokens.len() - self@.cursor, 1int,
    {
        if self.is_match(&TokenKindG::Bang) || self.is_match(&TokenKindG::Not) || self.is_match(
            &TokenKindG::Minus,
        ) {
            let op = self.advance();
            let rhs = self.parse_unary();
            Expr::Unary(op, Box::new(rhs))
        } else {
            self.parse_primary()
        }
    }

    #[verifier::loop_isolation(false)]
    fn parse_exponent(&mut self) -> (e: Expr)
        requires
            pv_wf(old(self)@),
        ensures
            sp_parse_exponent(old(self)@) == (e@, final(self)@),
            pv_wf(final(self)@),
            final(self)@.cursor >= old(self)@.cursor,
            final(self)@.tokens == old(self)@.tokens,
        decreases self@.tokens.len() - self@.cursor, 3int,
    {
        let mut expr = self.parse_unary();
        let ghost sta = self@;
        let ghost ea = expr@;
        while self.is_match(&TokenKindG::Caret)
            invariant
                pv_wf(self@),
                self@.tokens == sta.tokens,
                self@.cursor >= sta.cursor,
                sp_exp_tail(sta, ea) == sp_exp_tail(self@, expr@),
            decreases self@.tokens.len() - self@.cursor,
        {
            let ghost pre = self@;
            let ghost epre = expr@;
            let op = self.advance();
            let rhs = self.parse_unary();
            let prev = expr;
            expr = Expr::Binary(Box::new(prev), op, Box::new(rhs));
            proof {
                assert(sp_exp_tail(pre, epre) == sp_exp_tail(self@, expr@));
            }
        }
        proof {
            assert(sp_parse_exponent(old(self)@) == (expr@, self@));
        }
        expr
    }

    #[verifier::loop_isolation(false)]
    fn parse_factor(&mut self) -> (e: Expr)
        requires
            pv_wf(old(self)@),
        ensures
            sp_parse_factor(old(self)@) == (e@, final(self)@),
            pv_wf(final(self)@),
            final(self)@.cursor >= old(self)@.cursor,
            final(self)@.tokens == old(self)@.tokens,
        decreases self@.tokens.len() - self@.cursor, 5int,
    {
        let mut expr = self.parse_exponent();
        let ghost sta = self@;
        let ghost ea = expr@;
        while self.is_match(&TokenKindG::Star) || self.is_match(&TokenKindG::Slash)
            || self.is_match(&TokenKindG::Percent)
            invariant
                pv_wf(self@),
                self@.tokens == sta.tokens,
                self@.cursor >= sta.cursor,
                sp_factor_tail(sta, ea) == sp_factor_tail(self@, expr@),
            decreases self@.tokens.len() - self@.cursor,
        {
            let ghost pre = self@;
            let ghost epre = expr@;
            let op = self.advance();
            let rhs = self.parse_exponent();
            let prev = expr;
            expr = Expr::Binary(Box::new(prev), op, Box::new(rhs));
            proof {
                assert(sp_factor_tail(pre, epre) == sp_factor_tail(self@, expr@));
            }
        }
        proof {
            assert(sp_parse_factor(old(self)@) == (expr@, self@));
        }
        expr
    }

    #[verifier::loop_isolation(false)]
    fn parse_term(&mut self) -> (e: Expr)
        requires
            pv_wf(old(self)@),
        ensures
            sp_parse_term(old(self)@) == (e@, final(self)@),
            pv_wf(final(self)@),
            final(self)@.cursor >= old(self)@.cursor,
            final(self)@.tokens == old(self)@.tokens,
        decreases self@.tokens.len() - self@.cursor, 7int,
    {
        let mut expr = self.parse_factor();
        let ghost sta = self@;
        let ghost ea = expr@;
        while self.is_match(&TokenKindG::Plus) || self.is_match(&TokenKindG::Minus)
            invariant
                pv_wf(self@),
                self@.tokens == sta.tokens,
                self@.cursor >= sta.cursor,
                sp_term_tail(sta, ea) == sp_term_tail(self@, expr@),
            decreases self@.tokens.len() - self@.cursor,
        {
            let ghost pre = self@;
            let ghost epre = expr@;
            let op = self.advance();
            let rhs = self.parse_factor();
            let prev = expr;
            expr = Expr::Binary(Box::new(prev), op, Box::new(rhs));
            proof {
                assert(sp_term_tail(pre, epre) == sp_term_tail(self@, expr@));
            }
        }
        proof {
            assert(sp_parse_term(old(self)@) == (expr@, self@));
        }
        expr
    }

    #[verifier::loop_isolation(false)]
    #[verifier::rlimit(60)]
    fn parse_comparison(&mut self) -> (e: Expr)
        requires
            pv_wf(old(self)@),
        ensures
            sp_parse_comparison(old(self)@) == (e@, final(self)@),
            pv_wf(final(self)@),
            final(self)@.cursor >= old(self)@.cursor,
            final(self)@.tokens == old(self)@.tokens,
        decreases self@.tokens.len() - self@.cursor, 9int,
    {
        let mut expr = self.parse_term();
        let ghost sta = self@;
        let ghost ea = expr@;
        while self.is_match(&TokenKindG::Greater) || self.is_match(&TokenKindG::GreaterEqual)
            || self.is_match(&TokenKindG::Less) || self.is_match(&TokenKindG::LessEqual)
            invariant
                pv_wf(self@),
                self@.tokens == sta.tokens,
                self@.cursor >= sta.cursor,
                sp_comparison_tail(sta, ea) == sp_comparison_tail(self@, expr@),
            decreases self@.tokens.len() - self@.cursor,
        {
            let ghost pre = self@;
            let ghost epre = expr@;
            let op = self.advance();
            let rhs = self.parse_term();
            let prev = expr;
            expr = Expr::Binary(Box::new(prev), op, Box::new(rhs));
            proof {
                assert(sp_comparison_tail(pre, epre) == sp_comparison_tail(self@, expr@));
            }
        }
        proof {
            assert(sp_parse_comparison(old(self)@) == (expr@, self@));
        }
        expr
    }

    #[verifier::loop_isolation(false)]
    #[verifier::rlimit(60)]
    fn parse_equality(&mut self) -> (e: Expr)
        requires
            pv_wf(old(self)@),
        ensures
            sp_parse_equality(old(self)@) == (e@, final(self)@),
            pv_wf(final(self)@),
            final(self)@.cursor >= old(self)@.cursor,
            final(self)@.tokens == old(self)@.tokens,
        decreases self@.tokens.len() - self@.cursor, 11int,
    {
        let mut expr = self.parse_comparison();
        let ghost sta = self@;
        let ghost ea = expr@;
        while self.is_match(&TokenKindG::EqualEqual) || self.is_match(&TokenKindG::BangEqual)
            invariant
                pv_wf(self@),
                self@.tokens == sta.tokens,
                self@.cursor >= sta.cursor,
                sp_equality_tail(sta, ea) == sp_equality_tail(self@, expr@),
            decreases self@.tokens.len() - self@.cursor,
        {
            let ghost pre = self@;
            let ghost epre = expr@;
            let op = self.advance();
            let rhs = self.parse_comparison();
            let prev = expr;
            expr = Expr::Binary(Box::new(prev), op, Box::new(rhs));
            proof {
                assert(sp_equality_tail(pre, epre) == sp_equality_tail(self@, expr@));
            }
        }
        proof {
            assert(sp_parse_equality(old(self)@) == (expr@, self@));
        }
        expr
    }

    /// Parse one full expression from the current position.
    pub fn parse_expression(&mut self) -> (e: Expr)
        requires
            pv_wf(old(self)@),
        ensures
            sp_parse_expression(old(self)@) == (e@, final(self)@),
            pv_wf(final(self)@),
            final(self)@.cursor >= old(self)@.cursor,
            final(self)@.tokens == old(self)@.tokens,
        decreases self@.tokens.len() - self@.cursor, 12int,
    {
        self.parse_equality()
    }

    fn parse_print(&mut self) -> (s: Statement)
        requires
            pv_wf(old(self)@),
        ensures
            sp_parse_print(old(self)@) == (s@, final(self)@),
            pv_wf(final(self)@),
            final(self)@.cursor >= old(self)@.cursor,
            final(self)@.tokens == old(self)@.tokens,
        decreases self@.tokens.len() - self@.cursor, 13int,
    {
        let expr = self.parse_expression();
        self.expect(TokenKindG::Newline);
        Statement::Print(expr)
    }

    fn parse_statement(&mut self) -> (s: Statement)
        requires
            pv_wf(old(self)@),
        ensures
            sp_parse_statement(old(self)@) == (s@, final(self)@),
            pv_wf(final(self)@),
            final(self)@.cursor >= old(self)@.cursor,
            final(self)@.tokens == old(self)@.tokens,
        decreases self@.tokens.len() - self@.cursor, 14int,
    {
        if self.is_match(&TokenKindG::Print) {
            self.advance();
            self.parse_print()
        } else {
            let e = self.parse_expression();
            Statement::Expr(e)
        }
    }

    /// Parse the whole token stream from the beginning (any earlier state is
    /// discarded) into a statement sequence. Afterwards the error flag says
    /// whether any parse error was found; the caller must not evaluate the
    /// statements when it is set.
    #[verifier::loop_isolation(false)]
    pub fn parse_tokens(&mut self) -> (r: Vec<Statement>)
        ensures
            spec_parse(old(self)@.tokens) == (stmts_deep(r@), final(self)@),
            pv_wf(final(self)@),
    {
        broadcast use lemma_stmts_deep_push;

        self.reset();
        let ghost init = par_init(old(self)@.tokens);
        let mut statements: Vec<Statement> = Vec::new();
        proof {
            assert(stmts_deep(statements@) =~= Seq::<StatementV>::empty());
        }
        let n = self.tokens.len();
        while n > 0 && self.cursor < n - 1
            invariant
                pv_wf(self@),
                self@.tokens == init.tokens,
                n == self@.tokens.len(),
                sp_parse_stmts(init, Seq::empty()) == sp_parse_stmts(
                    self@,
                    stmts_deep(statements@),
                ),
            decreases self@.tokens.len() - self@.cursor,
        {
            let ghost pre = self@;
            let ghost accpre = stmts_deep(statements@);
            let start = self.cursor;
            let statement = self.parse_statement();
            if self.cursor == start {
                self.cursor = self.cursor + 1;
                proof {
                    assert(self@ =~= (ParserV {
                        cursor: pre.cursor + 1,
                        ..sp_parse_statement(pre).1
                    }));
                }
            }
            statements.push(statement);
            proof {
                assert(sp_parse_stmts(pre, accpre) == sp_parse_stmts(
                    self@,
                    stmts_deep(statements@),
                ));
            }
        }
        proof {
            assert(sp_parse_stmts(self@, stmts_deep(statements@)) == (
                stmts_deep(statements@),
                self@,
            ));
        }
        statements
    }
}

/// Whether the token is a literal leaf.
pub open spec fn is_literal_kind(k: TokenKindV) -> bool {
    k is NoneLit || k is Bool || k is Number || k is StringLit || k is Identifier
}

/// Whether the token is one of the binary operators, at any binding level.
pub open spec fn is_binary_op_kind(k: TokenKindV) -> bool {
    is_equality_op(k) || is_comparison_op(k) || is_term_op(k) || is_factor_op(k) || k
        == TokenKindG::<Seq<char>>::Caret
}

/// For every binary operator `op`, at every binding level, a token sequence
/// `A op B` with literal `A` and `B` parses to the expression
/// `Binary(Literal(A), op, Literal(B))`, with all three tokens consumed and
/// no error.
pub proof fn lemma_parse_binary_expression(a: TokenV, op: TokenV, b: TokenV)
    requires
        is_literal_kind(a.kind),
        is_literal_kind(b.kind),
        is_binary_op_kind(op.kind),
    ensures
        ({
            let st = par_init(seq![a, op, b]);
            sp_parse_expression(st) == (
                ExprG::<Seq<char>>::Binary(
                    Box::new(ExprG::Literal(a)),
                    op,
                    Box::new(ExprG::Literal(b)),
                ),
                ParserV { cursor: 3, ..st },
            )
        }),
{
    let toks = seq![a, op, b];
    let st = par_init(toks);
    assert(toks.len() == 3);
    assert(toks[0] == a && toks[1] == op && toks[2] == b);
    let st1 = pv_adv(st);
    let st2 = pv_adv(st1);
    let st3 = pv_adv(st2);
    assert(pv_peek(st) == a);
    assert(pv_peek(st1) == op);
    assert(pv_peek(st2) == b);
    assert(pv_peek(st3).kind == TokenKindG::<Seq<char>>::Eof);
    let la = ExprG::<Seq<char>>::Literal(a);
    let lb = ExprG::<Seq<char>>::Literal(b);
    let bin = ExprG::<Seq<char>>::Binary(Box::new(la), op, Box::new(lb));
    // The literal leaves.
    assert(sp_parse_primary(st) == (la, st1));
    assert(sp_parse_unary(st) == (la, st1));
    assert(sp_parse_primary(st2) == (lb, st3));
    assert(sp_parse_unary(st2) == (lb, st3));
    assert(pv_clamp(st1, st1) == st1);
    assert(pv_clamp(st2, st3) == st3);
    assert(pv_clamp(st, st1) == st1);
    assert(pv_clamp(st, st3) == st3);
    assert(pv_clamp(st1, st3) == st3);
    // Each level's tail leaves a finished expression alone at the end.
    assert(sp_exp_tail(st3, bin) == (bin, st3));
    assert(sp_factor_tail(st3, bin) == (bin, st3));
    assert(sp_term_tail(st3, bin) == (bin, st3));
    assert(sp_comparison_tail(st3, bin) == (bin, st3));
    assert(sp_equality_tail(st3, bin) == (bin, st3));
    if op.kind == TokenKindG::<Seq<char>>::Caret {
        assert(sp_exp_tail(st2, lb) == (lb, st2)) by {
            assert(sp_parse_unary(st2) == (lb, st3));
        }
        assert(sp_exp_tail(st1, la) == (bin, st3));
        assert(sp_parse_exponent(st) == (bin, st3));
        assert(sp_parse_factor(st) == (bin, st3));
        assert(sp_parse_term(st) == (bin, st3));
        assert(sp_parse_comparison(st) == (bin, st3));
        assert(sp_parse_equality(st) == (bin, st3));
    } else {
        assert(sp_exp_tail(st1, la) == (la, st1));
        assert(sp_parse_exponent(st) == (la, st1));
        assert(sp_exp_tail(st3, lb) == (lb, st3));
        assert(sp_parse_exponent(st2) == (lb, st3));
        if is_factor_op(op.kind) {
            assert(sp_factor_tail(st1, la) == (bin, st3));
            assert(sp_parse_factor(st) == (bin, st3));
            assert(sp_term_tail(st1, la) == (la, st1));
            assert(sp_parse_term(st) == (bin, st3));
            assert(sp_parse_comparison(st) == (bin, st3));
            assert(sp_parse_equality(st) == (bin, st3));
        } else {
            assert(sp_factor_tail(st1, la) == (la, st1));
            assert(sp_parse_factor(st) == (la, st1));
            assert(sp_factor_tail(st3, lb) == (lb, st3));
            assert(sp_parse_factor(st2) == (lb, st3));
            if is_term_op(op.kind) {
                assert(sp_term_tail(st1, la) == (bin, st3));
                assert(sp_parse_term(st) == (bin, st3));
                assert(sp_parse_comparison(st) == (bin, st3));
                assert(sp_parse_equality(st) == (bin, st3));
            } else {
                assert(sp_term_tail(st1, la) == (la, st1));
                assert(sp_parse_term(st) == (la, st1));
                assert(sp_term_tail(st3, lb) == (lb, st3));
                assert(sp_parse_term(st2) == (lb, st3));
                if is_comparison_op(op.kind) {
                    assert(sp_comparison_tail(st1, la) == (bin, st3));
                    assert(sp_parse_comparison(st) == (bin, st3));
                    assert(sp_parse_equality(st) == (bin, st3));
                } else {
                    assert(is_equality_op(op.kind));
                    assert(sp_comparison_tail(st1, la) == (la, st1));
                    assert(sp_parse_comparison(st) == (la, st1));
                    assert(sp_comparison_tail(st3, lb) == (lb, st3));
                    assert(sp_parse_comparison(st2) == (lb, st3));
                    assert(sp_equality_tail(st1, la) == (bin, st3));
                    assert(sp_parse_equality(st) == (bin, st3));
                }
            }
        }
    }
    assert(sp_parse_expression(st) == (bin, st3));
    assert(st3 =~= (ParserV { cursor: 3, ..st }));
}

} // verus!
