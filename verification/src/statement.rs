//! Statements: a `print` statement, or a bare expression evaluated for its
//! side effects and discarded.

use vstd::prelude::*;

use crate::diag::Diagnostic;
use crate::diag::DiagnosticV;
use crate::expr::eval_rel;
use crate::expr::expr_view;
use crate::expr::Expr;
use crate::expr::ExprG;
use crate::expr::ExprV;
use crate::lexer::diags_deep;
use crate::token::to_string_v;
use crate::token::TokenV;

verus! {

/// A statement, generic over the text representation inside its tokens.
#[derive(Debug, PartialEq)]
pub enum StatementG<S> {
    /// Evaluate the expression and write its text to the output.
    Print(ExprG<S>),
    /// Evaluate the expression and discard the value.
    Expr(ExprG<S>),
}

/// Executable statements.
pub type Statement = StatementG<String>;

/// The mathematical model of a statement.
pub type StatementV = StatementG<Seq<char>>;

/// The model of a statement.
pub open spec fn statement_view(s: Statement) -> StatementV {
    match s {
        StatementG::Print(e) => StatementG::Print(expr_view(e)),
        StatementG::Expr(e) => StatementG::Expr(expr_view(e)),
    }
}

impl View for Statement {
    type V = StatementV;

    open spec fn view(&self) -> StatementV {
        statement_view(*self)
    }
}

impl DeepView for Statement {
    type V = StatementV;

    open spec fn deep_view(&self) -> StatementV {
        statement_view(*self)
    }
}

/// The model of an optional output line.
pub open spec fn out_view(o: Option<String>) -> Option<Seq<char>> {
    match o {
        Some(s) => Some(s@),
        None => Option::<Seq<char>>::None,
    }
}

/// The statement evaluation relation: `o` is the line the statement writes
/// (`None` for a bare expression statement, and for a `print` whose value
/// does not coerce to text), and `em` the diagnostics it emits.
pub open spec fn stmt_rel<F: Fn(u64, u64) -> u64>(
    s: StatementV,
    f: F,
    o: Option<Seq<char>>,
    em: Seq<DiagnosticV>,
) -> bool {
    match s {
        StatementG::Print(e) => exists|rv: TokenV|
            #![all_triggers]
            {
                &&& eval_rel(e, f, rv, em)
                &&& (match to_string_v(rv) {
                    Some(t) => o == Some(t),
                    None => o is None,
                })
            },
        StatementG::Expr(e) => exists|rv: TokenV|
            #![all_triggers]
            {
                &&& eval_rel(e, f, rv, em)
                &&& o is None
            },
    }
}

impl Statement {
    /// Evaluate the statement: a `print` statement evaluates its expression
    /// and yields the text to write as one output line; a bare expression
    /// statement evaluates for its diagnostics alone and yields nothing.
    pub fn evaluate<F: Fn(u64, u64) -> u64>(
        &self,
        pow: &F,
        diags: &mut Vec<Diagnostic>,
    ) -> (out: Option<String>)
        requires
            forall|a: u64, b: u64| call_requires(*pow, (a, b)),
        ensures
            exists|em: Seq<DiagnosticV>|
                #![all_triggers]
                {
                    &&& diags_deep(final(diags)@) == diags_deep(old(diags)@) + em
                    &&& stmt_rel(self@, *pow, out_view(out), em)
                },
    {
        match self {
            StatementG::Print(expr) => {
                let ghost d0 = diags_deep(diags@);
                let v = expr.evaluate(pow, diags);
                let ghost em = choose|em: Seq<DiagnosticV>|
                    diags_deep(diags@) == d0 + em && #[trigger] eval_rel(
                        expr_view(*expr),
                        *pow,
                        v@,
                        em,
                    );
                let out = v.to_string();
                proof {
                    assert(stmt_rel(self@, *pow, out_view(out), em));
                }
                out
            },
            StatementG::Expr(expr) => {
                let ghost d0 = diags_deep(diags@);
                expr.evaluate(pow, diags);
                proof {
                    let em = choose|em: Seq<DiagnosticV>|
                        diags_deep(diags@) == d0 + em && exists|rv: TokenV|
                            #[trigger] eval_rel(expr_view(*expr), *pow, rv, em);
                    assert(stmt_rel(self@, *pow, out_view(Option::<String>::None), em));
                }
                None
            },
        }
    }
}

} // verus!
