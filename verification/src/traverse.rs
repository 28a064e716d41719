//! The traversal engine: one generic walk over statements and expressions
//! that enumerates every call site in source order, so rules do not each
//! reimplement descent.
//!
//! The walk recurses into expression statements, both conditional syntaxes
//! (including `elseif` chains and `else`), return values, and closure
//! bodies. Instance, static and null-safe method calls are recognized
//! uniformly; each site exposes the callee identifier and the argument
//! count.
use vstd::prelude::*;

use crate::ast::Call;
use crate::ast::Callee;
use crate::ast::ClosureExpression;
use crate::ast::ElseIf;
use crate::ast::ElseIfBlock;
use crate::ast::Expression;
use crate::ast::Identifier;
use crate::ast::IfBody;
use crate::ast::Span;
use crate::ast::Statement;

verus! {

/// The mathematical value of an [`Identifier`].
pub enum IdentifierModel {
    Simple { name: Seq<char>, span: Span },
    Dynamic { span: Span },
}

impl View for Identifier {
    type V = IdentifierModel;

    open spec fn view(&self) -> IdentifierModel {
        match self {
            Identifier::Simple { name, span } => IdentifierModel::Simple {
                name: name@,
                span: *span,
            },
            Identifier::Dynamic { span } => IdentifierModel::Dynamic { span: *span },
        }
    }
}

impl DeepView for Identifier {
    type V = IdentifierModel;

    open spec fn deep_view(&self) -> IdentifierModel {
        self.view()
    }
}

/// The mathematical value of a [`CallSite`].
pub struct SiteModel {
    pub callee: IdentifierModel,
    pub argument_count: int,
}

/// One call site found by the walk: the callee identifier and how many
/// arguments the call passes.
#[derive(Debug)]
pub struct CallSite {
    pub callee: Identifier,
    pub argument_count: usize,
}

impl View for CallSite {
    type V = SiteModel;

    open spec fn view(&self) -> SiteModel {
        SiteModel { callee: self.callee@, argument_count: self.argument_count as int }
    }
}

impl DeepView for CallSite {
    type V = SiteModel;

    open spec fn deep_view(&self) -> SiteModel {
        self.view()
    }
}

/// The sites a single call expression contributes: one if its callee is an
/// identifier, none if the callee is itself a computed expression.
pub open spec fn call_of(call: Call) -> Seq<SiteModel> {
    match call.callee {
        Callee::Identified(id) => seq![
            SiteModel { callee: id@, argument_count: call.argument_count as int },
        ],
        Callee::Expression => seq![],
    }
}

/// The call sites of an expression, in source order.
pub open spec fn expr_sites(e: Expression) -> Seq<SiteModel>
    decreases e,
{
    match e {
        Expression::MethodCall(call) => call_of(call),
        Expression::StaticMethodCall(call) => call_of(call),
        Expression::NullsafeMethodCall(call) => call_of(call),
        Expression::Closure(c) => stmts_sites(c.statements@),
        Expression::Other => seq![],
    }
}

/// The call sites of a statement sequence, in source order.
pub open spec fn stmts_sites(ss: Seq<Statement>) -> Seq<SiteModel>
    decreases ss,
{
    if ss.len() == 0 {
        seq![]
    } else {
        stmts_sites(ss.drop_last()) + stmt_sites(ss.last())
    }
}

/// The call sites of one brace-syntax `elseif` arm: its condition first,
/// then its branch statement.
pub open spec fn elseif_sites(e: ElseIf) -> Seq<SiteModel>
    decreases e,
{
    expr_sites(e.condition) + stmt_sites(*e.statement)
}

/// The call sites of a brace-syntax `elseif` chain, in source order.
pub open spec fn elseifs_sites(es: Seq<ElseIf>) -> Seq<SiteModel>
    decreases es,
{
    if es.len() == 0 {
        seq![]
    } else {
        elseifs_sites(es.drop_last()) + elseif_sites(es.last())
    }
}

/// The call sites of one alternate-syntax `elseif` arm.
pub open spec fn elseif_block_sites(e: ElseIfBlock) -> Seq<SiteModel>
    decreases e,
{
    expr_sites(e.condition) + stmts_sites(e.statements@)
}

/// The call sites of an alternate-syntax `elseif` chain, in source order.
pub open spec fn elseif_blocks_sites(es: Seq<ElseIfBlock>) -> Seq<SiteModel>
    decreases es,
{
    if es.len() == 0 {
        seq![]
    } else {
        elseif_blocks_sites(es.drop_last()) + elseif_block_sites(es.last())
    }
}

/// The call sites of a conditional's body: main branch, then the `elseif`
/// chain, then the `else` branch.
pub open spec fn if_body_sites(b: IfBody) -> Seq<SiteModel>
    decreases b,
{
    match b {
        IfBody::Statement { statement, elseifs, else_statement } => stmt_sites(*statement)
            + elseifs_sites(elseifs@) + (match else_statement {
            Some(s) => stmt_sites(*s),
            None => seq![],
        }),
        IfBody::Block { statements, elseifs, else_statements } => stmts_sites(statements@)
            + elseif_blocks_sites(elseifs@) + (match else_statements {
            Some(ss) => stmts_sites(ss@),
            None => seq![],
        }),
    }
}

/// The call sites of one statement, in source order. Statements the engine
/// does not descend into contribute none.
pub open spec fn stmt_sites(s: Statement) -> Seq<SiteModel>
    decreases s,
{
    match s {
        Statement::Expression(e) => expr_sites(e),
        Statement::If(ifs) => expr_sites(ifs.condition) + if_body_sites(ifs.body),
        Statement::Return(v) => match v {
            Some(e) => expr_sites(e),
            None => seq![],
        },
        _ => seq![],
    }
}

fn clone_identifier(id: &Identifier) -> (r: Identifier)
    ensures
        r@ == id@,
{
    match id {
        Identifier::Simple { name, span } => Identifier::Simple {
            name: name.clone(),
            span: *span,
        },
        Identifier::Dynamic { span } => Identifier::Dynamic { span: *span },
    }
}

fn push_site(out: &mut Vec<CallSite>, site: CallSite)
    ensures
        final(out).deep_view() == old(out).deep_view() + seq![site@],
{
    let ghost pre = out.deep_view();
    let ghost model = site@;
    out.push(site);
    proof {
        assert(out.deep_view() =~= pre + seq![model]);
    }
}

fn collect_call(call: &Call, out: &mut Vec<CallSite>)
    ensures
        final(out).deep_view() == old(out).deep_view() + call_of(*call),
{
    match &call.callee {
        Callee::Identified(id) => {
            let site = CallSite {
                callee: clone_identifier(id),
                argument_count: call.argument_count,
            };
            push_site(out, site);
            proof {
                assert(out.deep_view() =~= old(out).deep_view() + call_of(*call));
            }
        },
        Callee::Expression => {
            proof {
                assert(out.deep_view() =~= old(out).deep_view() + call_of(*call));
            }
        },
    }
}

fn collect_expr(e: &Expression, out: &mut Vec<CallSite>)
    ensures
        final(out).deep_view() == old(out).deep_view() + expr_sites(*e),
    decreases *e,
{
    match e {
        Expression::MethodCall(call) => collect_call(call, out),
        Expression::StaticMethodCall(call) => collect_call(call, out),
        Expression::NullsafeMethodCall(call) => collect_call(call, out),
        Expression::Closure(c) => collect_stmts(&c.statements, out),
        Expression::Other => {
            proof {
                assert(out.deep_view() =~= old(out).deep_view() + expr_sites(*e));
            }
        },
    }
}

fn collect_stmts(ss: &Vec<Statement>, out: &mut Vec<CallSite>)
    ensures
        final(out).deep_view() == old(out).deep_view() + stmts_sites(ss@),
    decreases ss@,
{
    let ghost pre = out.deep_view();
    proof {
        assert(pre + stmts_sites(ss@.take(0)) =~= pre);
    }
    let mut i: usize = 0;
    while i < ss.len()
        invariant
            0 <= i <= ss.len(),
            out.deep_view() == pre + stmts_sites(ss@.take(i as int)),
        decreases ss.len() - i,
    {
        collect_stmt(&ss[i], out);
        proof {
            assert(ss@.take(i + 1).drop_last() =~= ss@.take(i as int));
            assert(ss@.take(i + 1).last() == ss@[i as int]);
        }
        i += 1;
    }
    proof {
        assert(ss@.take(ss@.len() as int) =~= ss@);
    }
}

fn collect_elseif(arm: &ElseIf, out: &mut Vec<CallSite>)
    ensures
        final(out).deep_view() == old(out).deep_view() + elseif_sites(*arm),
    decreases *arm,
{
    collect_expr(&arm.condition, out);
    collect_stmt(&arm.statement, out);
    proof {
        assert(out.deep_view() =~= old(out).deep_view() + elseif_sites(*arm));
    }
}

fn collect_elseifs(es: &Vec<ElseIf>, out: &mut Vec<CallSite>)
    ensures
        final(out).deep_view() == old(out).deep_view() + elseifs_sites(es@),
    decreases es@,
{
    let ghost pre = out.deep_view();
    proof {
        assert(pre + elseifs_sites(es@.take(0)) =~= pre);
    }
    let mut j: usize = 0;
    while j < es.len()
        invariant
            0 <= j <= es.len(),
            out.deep_view() == pre + elseifs_sites(es@.take(j as int)),
        decreases es.len() - j,
    {
        collect_elseif(&es[j], out);
        proof {
            assert(es@.take(j + 1).drop_last() =~= es@.take(j as int));
            assert(es@.take(j + 1).last() == es@[j as int]);
        }
        j += 1;
    }
    proof {
        assert(es@.take(es@.len() as int) =~= es@);
    }
}

fn collect_elseif_block(arm: &ElseIfBlock, out: &mut Vec<CallSite>)
    ensures
        final(out).deep_view() == old(out).deep_view() + elseif_block_sites(*arm),
    decreases *arm,
{
    collect_expr(&arm.condition, out);
    collect_stmts(&arm.statements, out);
    proof {
        assert(out.deep_view() =~= old(out).deep_view() + elseif_block_sites(*arm));
    }
}

fn collect_elseif_blocks(es: &Vec<ElseIfBlock>, out: &mut Vec<CallSite>)
    ensures
        final(out).deep_view() == old(out).deep_view() + elseif_blocks_sites(es@),
    decreases es@,
{
    let ghost pre = out.deep_view();
    proof {
        assert(pre + elseif_blocks_sites(es@.take(0)) =~= pre);
    }
    let mut j: usize = 0;
    while j < es.len()
        invariant
            0 <= j <= es.len(),
            out.deep_view() == pre + elseif_blocks_sites(es@.take(j as int)),
        decreases es.len() - j,
    {
        collect_elseif_block(&es[j], out);
        proof {
            assert(es@.take(j + 1).drop_last() =~= es@.take(j as int));
            assert(es@.take(j + 1).last() == es@[j as int]);
        }
        j += 1;
    }
    proof {
        assert(es@.take(es@.len() as int) =~= es@);
    }
}

fn collect_stmt(s: &Statement, out: &mut Vec<CallSite>)
    ensures
        final(out).deep_view() == old(out).deep_view() + stmt_sites(*s),
    decreases *s,
{
    match s {
        Statement::Expression(e) => collect_expr(e, out),
        Statement::If(ifs) => {
            collect_expr(&ifs.condition, out);
            match &ifs.body {
                IfBody::Statement { statement, elseifs, else_statement } => {
                    collect_stmt(statement, out);
                    collect_elseifs(elseifs, out);
                    match else_statement {
                        Some(es) => collect_stmt(es, out),
                        None => {},
                    }
                },
                IfBody::Block { statements, elseifs, else_statements } => {
                    collect_stmts(statements, out);
                    collect_elseif_blocks(elseifs, out);
                    match else_statements {
                        Some(es) => collect_stmts(es, out),
                        None => {},
                    }
                },
            }
            proof {
                assert(out.deep_view() =~= old(out).deep_view() + stmt_sites(*s));
            }
        },
        Statement::Return(v) => {
            match v {
                Some(e) => collect_expr(e, out),
                None => {
                    proof {
                        assert(out.deep_view() =~= old(out).deep_view() + stmt_sites(*s));
                    }
                },
            }
        },
        _ => {
            proof {
                assert(out.deep_view() =~= old(out).deep_view() + stmt_sites(*s));
            }
        },
    }
}

/// Walks one statement and returns every call site found, in source order,
/// each exactly once.
pub fn call_sites(statement: &Statement) -> (r: Vec<CallSite>)
    ensures
        r.deep_view() == stmt_sites(*statement),
{
    let mut out: Vec<CallSite> = Vec::new();
    proof {
        assert(out.deep_view() =~= Seq::<SiteModel>::empty() + out.deep_view());
    }
    collect_stmt(statement, &mut out);
    proof {
        assert(out.deep_view() =~= stmt_sites(*statement));
    }
    out
}

/// Concatenating statement lists concatenates their call sites, in order:
/// the walk loses none and repeats none.
pub proof fn lemma_stmts_sites_append(a: Seq<Statement>, b: Seq<Statement>)
    ensures
        stmts_sites(a + b) == stmts_sites(a) + stmts_sites(b),
    decreases b.len(),
{
    if b.len() == 0 {
        assert(a + b =~= a);
        assert(stmts_sites(a) + stmts_sites(b) =~= stmts_sites(a));
    } else {
        assert((a + b).drop_last() =~= a + b.drop_last());
        assert((a + b).last() == b.last());
        lemma_stmts_sites_append(a, b.drop_last());
        assert(stmts_sites(a) + stmts_sites(b) =~= stmts_sites(a) + (stmts_sites(b.drop_last())
            + stmt_sites(b.last())));
    }
}

/// Traversal completeness over a statement list: however deep a statement
/// sits in the list, its call sites appear exactly once, between the sites
/// of the statements before it and those after it.
pub proof fn lemma_stmts_sites_split(ss: Seq<Statement>, i: int)
    requires
        0 <= i < ss.len(),
    ensures
        stmts_sites(ss) == stmts_sites(ss.take(i)) + stmt_sites(ss[i]) + stmts_sites(
            ss.skip(i + 1),
        ),
{
    let middle = seq![ss[i]];
    assert(ss =~= ss.take(i) + middle + ss.skip(i + 1));
    lemma_stmts_sites_append(ss.take(i) + middle, ss.skip(i + 1));
    lemma_stmts_sites_append(ss.take(i), middle);
    assert(middle.drop_last() =~= Seq::<Statement>::empty());
    assert(stmts_sites(Seq::<Statement>::empty()) == Seq::<SiteModel>::empty());
    assert(stmts_sites(middle) =~= stmt_sites(ss[i]));
}

/// Concatenating `elseif` chains concatenates their call sites, in order.
pub proof fn lemma_elseifs_sites_append(a: Seq<ElseIf>, b: Seq<ElseIf>)
    ensures
        elseifs_sites(a + b) == elseifs_sites(a) + elseifs_sites(b),
    decreases b.len(),
{
    if b.len() == 0 {
        assert(a + b =~= a);
        assert(elseifs_sites(a) + elseifs_sites(b) =~= elseifs_sites(a));
    } else {
        assert((a + b).drop_last() =~= a + b.drop_last());
        assert((a + b).last() == b.last());
        lemma_elseifs_sites_append(a, b.drop_last());
        assert(elseifs_sites(a) + elseifs_sites(b) =~= elseifs_sites(a) + (elseifs_sites(
            b.drop_last(),
        ) + elseif_sites(b.last())));
    }
}

/// Traversal completeness over an `elseif` chain of any length: arm `i`'s
/// condition and branch sites appear exactly once, in chain order.
pub proof fn lemma_elseifs_sites_split(es: Seq<ElseIf>, i: int)
    requires
        0 <= i < es.len(),
    ensures
        elseifs_sites(es) == elseifs_sites(es.take(i)) + (expr_sites(es[i].condition) + stmt_sites(
            *es[i].statement,
        )) + elseifs_sites(es.skip(i + 1)),
{
    let middle = seq![es[i]];
    assert(es =~= es.take(i) + middle + es.skip(i + 1));
    lemma_elseifs_sites_append(es.take(i) + middle, es.skip(i + 1));
    lemma_elseifs_sites_append(es.take(i), middle);
    assert(middle.drop_last() =~= Seq::<ElseIf>::empty());
    assert(elseifs_sites(Seq::<ElseIf>::empty()) == Seq::<SiteModel>::empty());
    assert(elseifs_sites(middle) =~= elseif_sites(es[i]));
}

/// Nesting under a closure neither hides nor duplicates a call: a closure
/// body's sites are exactly its statements' sites, in order.
pub proof fn lemma_closure_sites(c: ClosureExpression)
    ensures
        expr_sites(Expression::Closure(c)) == stmts_sites(c.statements@),
{
}

/// A conditional's sites are exactly its condition's, then its body's:
/// each branch of either syntax is walked once.
pub proof fn lemma_if_sites(ifs: crate::ast::IfStatement)
    ensures
        stmt_sites(Statement::If(ifs)) == expr_sites(ifs.condition) + if_body_sites(ifs.body),
{
}

} // verus!
