//! The empty-catch rule: a catch clause whose body holds no statement gets
//! one advisory violation at the clause's starting position. Needs no
//! index.
use vstd::prelude::*;

use crate::ast::CatchBlock;
use crate::ast::File;
use crate::ast::Statement;
use crate::indexers::Indexers;
use crate::indexers::SignatureModel;
use crate::results::Violation;
use crate::results::ViolationModel;
use crate::rules::spec_line_text;
use crate::rules::line_text;

verus! {

/// The violation an empty catch clause yields, with the fixed advisory
/// message; a clause with at least one statement yields none.
pub open spec fn catch_violation(lines: Seq<Seq<char>>, c: CatchBlock) -> Seq<ViolationModel> {
    if c.body@.len() == 0 {
        seq![
            ViolationModel {
                rule: "E0002"@,
                line: spec_line_text(lines, c.start.line as int),
                suggestion: "There is an empty catch. It's not recommended to catch an Exception without doing anything with it."@,
                span: c.start,
            },
        ]
    } else {
        seq![]
    }
}

/// The violations of a catch-clause list, in source order.
pub open spec fn catches_violations(lines: Seq<Seq<char>>, cs: Seq<CatchBlock>) -> Seq<
    ViolationModel,
>
    decreases cs.len(),
{
    if cs.len() == 0 {
        seq![]
    } else {
        catches_violations(lines, cs.drop_last()) + catch_violation(lines, cs.last())
    }
}

/// What this rule reports for one statement: one violation per empty catch
/// clause of a try statement, nothing for any other statement.
pub open spec fn empty_catch_violations(lines: Seq<Seq<char>>, s: Statement) -> Seq<
    ViolationModel,
> {
    match s {
        Statement::Try(t) => catches_violations(lines, t.catches@),
        _ => seq![],
    }
}

/// The empty-catch rule.
#[derive(Clone, Copy, PartialEq, Eq, Structural, Debug)]
pub struct Rule {}

impl crate::rules::Rule for Rule {
    open spec fn spec_code(&self) -> Seq<char> {
        "E0002"@
    }

    open spec fn spec_validate(&self, file: File, statement: Statement) -> Seq<ViolationModel> {
        empty_catch_violations(file.lines.deep_view(), statement)
    }

    open spec fn spec_validate_with_indexed(
        &self,
        file: File,
        statement: Statement,
        index: Seq<SignatureModel>,
    ) -> Seq<ViolationModel> {
        seq![]
    }

    fn get_code(&self) -> (r: String) {
        String::from_str("E0002")
    }

    fn description(&self) -> (r: String) {
        String::from_str("Empty catch")
    }

    #[verifier::loop_isolation(false)]
    fn validate(&self, file: &File, statement: &Statement) -> (r: Vec<Violation>) {
        let mut out: Vec<Violation> = Vec::new();
        match statement {
            Statement::Try(t) => {
                let ghost lines = file.lines.deep_view();
                proof {
                    assert(out.deep_view() =~= catches_violations(lines, t.catches@.take(0)));
                }
                let mut i: usize = 0;
                while i < t.catches.len()
                    invariant
                        0 <= i <= t.catches.len(),
                        out.deep_view() == catches_violations(lines, t.catches@.take(i as int)),
                    decreases t.catches.len() - i,
                {
                    let c = &t.catches[i];
                    if c.body.len() == 0 {
                        let v = Violation {
                            rule: String::from_str("E0002"),
                            line: line_text(&file.lines, c.start.line),
                            suggestion: String::from_str(
                                "There is an empty catch. It's not recommended to catch an Exception without doing anything with it.",
                            ),
                            span: c.start,
                        };
                        let ghost pre = out.deep_view();
                        let ghost vm = v@;
                        out.push(v);
                        proof {
                            assert(out.deep_view() =~= pre + seq![vm]);
                        }
                    }
                    proof {
                        assert(t.catches@.take(i + 1).drop_last() =~= t.catches@.take(i as int));
                        assert(t.catches@.take(i + 1).last() == t.catches@[i as int]);
                        assert(out.deep_view() =~= catches_violations(
                            lines,
                            t.catches@.take(i + 1),
                        ));
                    }
                    i += 1;
                }
                proof {
                    assert(t.catches@.take(t.catches@.len() as int) =~= t.catches@);
                }
            },
            _ => {},
        }
        proof {
            assert(out.deep_view() =~= self.spec_validate(*file, *statement));
        }
        out
    }

    fn validate_with_indexed(
        &self,
        file: &File,
        statement: &Statement,
        indexers: &Indexers,
    ) -> (r: Vec<Violation>) {
        let out: Vec<Violation> = Vec::new();
        proof {
            assert(out.deep_view() =~= Seq::<ViolationModel>::empty());
        }
        out
    }
}

/// A catch clause with zero statements yields exactly one violation, with
/// the fixed advisory message, at the clause's start; a clause with at
/// least one statement yields none.
pub proof fn lemma_empty_catch_detection(lines: Seq<Seq<char>>, c: CatchBlock)
    ensures
        c.body@.len() == 0 ==> catch_violation(lines, c) =~= seq![
            ViolationModel {
                rule: "E0002"@,
                line: spec_line_text(lines, c.start.line as int),
                suggestion: "There is an empty catch. It's not recommended to catch an Exception without doing anything with it."@,
                span: c.start,
            },
        ],
        c.body@.len() > 0 ==> catch_violation(lines, c) =~= Seq::<ViolationModel>::empty(),
{
}

/// Over a whole try statement, the violations are exactly the empty
/// clauses' advisories, in clause order: each empty catch clause
/// contributes exactly one violation, each non-empty clause none.
pub proof fn lemma_empty_catch_counts(lines: Seq<Seq<char>>, cs: Seq<CatchBlock>)
    ensures
        catches_violations(lines, cs).len() == cs.filter(
            |c: CatchBlock| c.body@.len() == 0,
        ).len(),
    decreases cs.len(),
{
    reveal(Seq::filter);
    if cs.len() == 0 {
    } else {
        lemma_empty_catch_counts(lines, cs.drop_last());
    }
}

} // verus!
