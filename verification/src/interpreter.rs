//! The interpreter driver: evaluates a program's statements in order,
//! collecting the output lines that `print` statements produce.

use vstd::prelude::*;

use crate::diag::Diagnostic;
use crate::diag::DiagnosticV;
use crate::lexer::diags_deep;
use crate::parser::stmts_deep;
use crate::statement::stmt_rel;
use crate::statement::out_view;
use crate::statement::Statement;
use crate::statement::StatementV;

verus! {

/// The output lines of an optional line: one line or none.
pub open spec fn opt_line(o: Option<Seq<char>>) -> Seq<Seq<char>> {
    match o {
        Some(t) => seq![t],
        None => Seq::<Seq<char>>::empty(),
    }
}

/// The output lines of a sequence of per-statement optional lines, in order.
pub open spec fn flat_lines(os: Seq<Option<Seq<char>>>) -> Seq<Seq<char>>
    decreases os.len(),
{
    if os.len() == 0 {
        Seq::<Seq<char>>::empty()
    } else {
        opt_line(os[0]) + flat_lines(os.drop_first())
    }
}

/// The concatenation of per-statement diagnostic runs, in order.
pub open spec fn flat_diags(ems: Seq<Seq<DiagnosticV>>) -> Seq<DiagnosticV>
    decreases ems.len(),
{
    if ems.len() == 0 {
        Seq::<DiagnosticV>::empty()
    } else {
        ems[0] + flat_diags(ems.drop_first())
    }
}

pub proof fn lemma_flat_lines_push(os: Seq<Option<Seq<char>>>, o: Option<Seq<char>>)
    ensures
        flat_lines(os.push(o)) == flat_lines(os) + opt_line(o),
    decreases os.len(),
{
    let os2 = os.push(o);
    if os.len() == 0 {
        assert(os2[0] == o);
        assert(os2.drop_first() =~= Seq::<Option<Seq<char>>>::empty());
        assert(flat_lines(Seq::<Option<Seq<char>>>::empty()) =~= Seq::<Seq<char>>::empty());
        assert(flat_lines(os2) =~= flat_lines(os) + opt_line(o));
    } else {
        assert(os2[0] == os[0]);
        assert(os2.drop_first() =~= os.drop_first().push(o));
        lemma_flat_lines_push(os.drop_first(), o);
        assert(flat_lines(os2) =~= flat_lines(os) + opt_line(o));
    }
}

pub proof fn lemma_flat_diags_push(ems: Seq<Seq<DiagnosticV>>, e: Seq<DiagnosticV>)
    ensures
        flat_diags(ems.push(e)) == flat_diags(ems) + e,
    decreases ems.len(),
{
    let ems2 = ems.push(e);
    if ems.len() == 0 {
        assert(ems2[0] == e);
        assert(ems2.drop_first() =~= Seq::<Seq<DiagnosticV>>::empty());
        assert(flat_diags(Seq::<Seq<DiagnosticV>>::empty()) =~= Seq::<DiagnosticV>::empty());
        assert(flat_diags(ems2) =~= flat_diags(ems) + e);
    } else {
        assert(ems2[0] == ems[0]);
        assert(ems2.drop_first() =~= ems.drop_first().push(e));
        lemma_flat_diags_push(ems.drop_first(), e);
        assert(flat_diags(ems2) =~= flat_diags(ems) + e);
    }
}

/// One evaluation of a whole program: `os` holds each statement's optional
/// output line and `ems` its run of diagnostics, statement by statement.
pub open spec fn run_steps<F: Fn(u64, u64) -> u64>(
    ss: Seq<StatementV>,
    f: F,
    os: Seq<Option<Seq<char>>>,
    ems: Seq<Seq<DiagnosticV>>,
) -> bool {
    &&& os.len() == ss.len()
    &&& ems.len() == ss.len()
    &&& forall|i: int| 0 <= i < ss.len() ==> #[trigger] stmt_rel(ss[i], f, os[i], ems[i])
}

/// The models of a sequence of output lines.
pub open spec fn lines_deep(s: Seq<String>) -> Seq<Seq<char>> {
    Seq::new(s.len(), |i: int| s[i]@)
}

/// Evaluate a program's statements in order, appending diagnostics as they
/// arise, and return the output lines its `print` statements produce: there
/// is one evaluation of each statement under which the output is exactly the
/// flattened lines and the appended diagnostics are exactly the flattened
/// per-statement runs.
pub fn interpret_program<F: Fn(u64, u64) -> u64>(
    statements: &Vec<Statement>,
    pow: &F,
    diags: &mut Vec<Diagnostic>,
) -> (out: Vec<String>)
    requires
        forall|a: u64, b: u64| call_requires(*pow, (a, b)),
    ensures
        exists|os: Seq<Option<Seq<char>>>, ems: Seq<Seq<DiagnosticV>>|
            {
                &&& #[trigger] run_steps(stmts_deep(statements@), *pow, os, ems)
                &&& lines_deep(out@) == flat_lines(os)
                &&& diags_deep(final(diags)@) == diags_deep(old(diags)@) + flat_diags(ems)
            },
{
    let ghost d0 = diags_deep(diags@);
    let mut out: Vec<String> = Vec::new();
    let mut i: usize = 0;
    let ghost mut os = Seq::<Option<Seq<char>>>::empty();
    let ghost mut ems = Seq::<Seq<DiagnosticV>>::empty();
    proof {
        assert(lines_deep(out@) =~= Seq::<Seq<char>>::empty());
        assert(lines_deep(out@) =~= flat_lines(os));
        assert(diags_deep(diags@) =~= d0 + flat_diags(ems));
    }
    while i < statements.len()
        invariant
            forall|a: u64, b: u64| call_requires(*pow, (a, b)),
            i <= statements.len(),
            os.len() == i,
            ems.len() == i,
            forall|j: int|
                0 <= j < i ==> #[trigger] stmt_rel(statements@[j]@, *pow, os[j], ems[j]),
            lines_deep(out@) == flat_lines(os),
            diags_deep(diags@) == d0 + flat_diags(ems),
        decreases statements.len() - i,
    {
        let ghost d1 = diags_deep(diags@);
        let ghost outpre = lines_deep(out@);
        let line = (&statements[i]).evaluate(pow, diags);
        let ghost em1 = choose|em: Seq<DiagnosticV>|
            #![all_triggers]
            {
                &&& diags_deep(diags@) == d1 + em
                &&& stmt_rel(statements@[i as int]@, *pow, out_view(line), em)
            };
        match line {
            Some(text) => {
                out.push(text);
            },
            None => {},
        }
        proof {
            assert(lines_deep(out@) =~= outpre + opt_line(out_view(line)));
            lemma_flat_lines_push(os, out_view(line));
            lemma_flat_diags_push(ems, em1);
            os = os.push(out_view(line));
            ems = ems.push(em1);
            assert(diags_deep(diags@) =~= d0 + flat_diags(ems));
        }
        i = i + 1;
    }
    proof {
        assert(run_steps(stmts_deep(statements@), *pow, os, ems));
    }
    out
}

} // verus!
