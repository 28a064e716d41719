//! The argument-arity rule: every call site the traversal engine finds is
//! resolved against the symbol index; a resolved call passing fewer than
//! the required or more than the allowed number of arguments gets one
//! violation. An unresolved or dynamic callee is silently skipped: calls
//! the index does not know are not flagged.
use vstd::prelude::*;

use crate::ast::File;
use crate::ast::Statement;
use crate::indexers::Indexers;
use crate::indexers::SignatureModel;
use crate::indexers::resolve;
use crate::results::Violation;
use crate::results::ViolationModel;
use crate::rules::spec_line_text;
use crate::rules::line_text;
use crate::text::dec_chars;
use crate::text::usize_to_string;
use crate::traverse::IdentifierModel;
use crate::traverse::SiteModel;
use crate::traverse::call_sites;
use crate::traverse::stmt_sites;
use crate::ast::Identifier;

verus! {

/// The expected-count part of the message: one number when the method
/// takes a fixed count, else "N to M".
pub open spec fn expected_chars(required: int, all: int) -> Seq<char> {
    if required == all {
        dec_chars(required as nat)
    } else {
        dec_chars(required as nat) + " to "@ + dec_chars(all as nat)
    }
}

/// The violation message: the actual count and the expected range.
pub open spec fn arity_message(name: Seq<char>, passed: int, required: int, all: int) -> Seq<
    char,
> {
    "Invalid amount of arguments passed to function "@ + name + " (passed "@ + dec_chars(
        passed as nat,
    ) + " arguments, expected "@ + expected_chars(required, all) + ")"@
}

/// What one call site yields: one violation when the callee resolves and
/// the argument count falls outside the inclusive required-to-maximum
/// range; nothing when the count is in range, the callee is unresolved,
/// or the callee name is computed at run time.
pub open spec fn site_violation(
    lines: Seq<Seq<char>>,
    site: SiteModel,
    index: Seq<SignatureModel>,
) -> Seq<ViolationModel> {
    match site.callee {
        IdentifierModel::Simple { name, span } => match resolve(index, name) {
            Some(sig) => if site.argument_count < sig.required_params || site.argument_count
                > sig.all_params {
                seq![
                    ViolationModel {
                        rule: "E0014"@,
                        line: spec_line_text(lines, span.line as int),
                        suggestion: arity_message(
                            sig.method_name,
                            site.argument_count,
                            sig.required_params,
                            sig.all_params,
                        ),
                        span: span,
                    },
                ]
            } else {
                seq![]
            },
            None => seq![],
        },
        IdentifierModel::Dynamic { span } => seq![],
    }
}

/// The violations of a call-site list, in source order.
pub open spec fn sites_violations(
    lines: Seq<Seq<char>>,
    sites: Seq<SiteModel>,
    index: Seq<SignatureModel>,
) -> Seq<ViolationModel>
    decreases sites.len(),
{
    if sites.len() == 0 {
        seq![]
    } else {
        sites_violations(lines, sites.drop_last(), index) + site_violation(
            lines,
            sites.last(),
            index,
        )
    }
}

/// What this rule reports for one statement: each call site the engine
/// finds, checked in source order.
pub open spec fn arity_violations(
    lines: Seq<Seq<char>>,
    s: Statement,
    index: Seq<SignatureModel>,
) -> Seq<ViolationModel> {
    sites_violations(lines, stmt_sites(s), index)
}

/// The argument-arity rule.
#[derive(Clone, Copy, PartialEq, Eq, Structural, Debug)]
pub struct Rule {}

fn arity_message_string(name: &String, passed: usize, required: usize, all: usize) -> (r: String)
    ensures
        r@ == arity_message(name@, passed as int, required as int, all as int),
{
    let mut msg = String::from_str("Invalid amount of arguments passed to function ");
    msg.append(name.as_str());
    msg.append(" (passed ");
    let passed_str = usize_to_string(passed);
    msg.append(passed_str.as_str());
    msg.append(" arguments, expected ");
    let required_str = usize_to_string(required);
    msg.append(required_str.as_str());
    if required != all {
        msg.append(" to ");
        let all_str = usize_to_string(all);
        msg.append(all_str.as_str());
    }
    msg.append(")");
    proof {
        assert(msg@ =~= arity_message(name@, passed as int, required as int, all as int));
    }
    msg
}

impl crate::rules::Rule for Rule {
    open spec fn spec_code(&self) -> Seq<char> {
        "E0014"@
    }

    open spec fn spec_validate(&self, file: File, statement: Statement) -> Seq<ViolationModel> {
        seq![]
    }

    open spec fn spec_validate_with_indexed(
        &self,
        file: File,
        statement: Statement,
        index: Seq<SignatureModel>,
    ) -> Seq<ViolationModel> {
        arity_violations(file.lines.deep_view(), statement, index)
    }

    fn get_code(&self) -> (r: String) {
        String::from_str("E0014")
    }

    fn description(&self) -> (r: String) {
        String::from_str("Correct number of arguments should be passed")
    }

    fn validate(&self, file: &File, statement: &Statement) -> (r: Vec<Violation>) {
        let out: Vec<Violation> = Vec::new();
        proof {
            assert(out.deep_view() =~= Seq::<ViolationModel>::empty());
        }
        out
    }

    #[verifier::loop_isolation(false)]
    fn validate_with_indexed(
        &self,
        file: &File,
        statement: &Statement,
        indexers: &Indexers,
    ) -> (r: Vec<Violation>) {
        let ghost lines = file.lines.deep_view();
        let ghost index = indexers.method_index@;
        let sites = call_sites(statement);
        let mut out: Vec<Violation> = Vec::new();
        proof {
            assert(out.deep_view() =~= sites_violations(lines, sites.deep_view().take(0), index));
        }
        let mut k: usize = 0;
        while k < sites.len()
            invariant
                0 <= k <= sites.len(),
                out.deep_view() == sites_violations(lines, sites.deep_view().take(k as int), index),
            decreases sites.len() - k,
        {
            proof {
                assert(sites.deep_view()[k as int] == sites@[k as int]@);
            }
            let site = &sites[k];
            match indexers.method_index.find_method(&site.callee) {
                Some(sig) => {
                    let required = sig.required_params;
                    let all = sig.all_params;
                    let passed = site.argument_count;
                    if passed < required || passed > all {
                        let span = match &site.callee {
                            Identifier::Simple { name, span } => *span,
                            Identifier::Dynamic { span } => *span,
                        };
                        let v = Violation {
                            rule: String::from_str("E0014"),
                            line: line_text(&file.lines, span.line),
                            suggestion: arity_message_string(
                                &sig.method_name,
                                passed,
                                required,
                                all,
                            ),
                            span,
                        };
                        let ghost pre = out.deep_view();
                        let ghost vm = v@;
                        out.push(v);
                        proof {
                            assert(out.deep_view() =~= pre + seq![vm]);
                        }
                    }
                },
                None => {},
            }
            proof {
                assert(sites.deep_view().take(k + 1).drop_last() =~= sites.deep_view().take(
                    k as int,
                ));
                assert(sites.deep_view().take(k + 1).last() == sites.deep_view()[k as int]);
                assert(out.deep_view() =~= sites_violations(
                    lines,
                    sites.deep_view().take(k + 1),
                    index,
                ));
            }
            k += 1;
        }
        proof {
            assert(sites.deep_view().take(sites.deep_view().len() as int) =~= sites.deep_view());
            assert(out.deep_view() =~= self.spec_validate_with_indexed(*file, *statement, index));
        }
        out
    }
}

/// Arity correctness, per resolved call site: a count inside the inclusive
/// required-to-maximum range yields no violation; a count just below the
/// required or just above the maximum yields exactly one.
pub proof fn lemma_arity_correctness(
    lines: Seq<Seq<char>>,
    site: SiteModel,
    index: Seq<SignatureModel>,
    name: Seq<char>,
    span: crate::ast::Span,
    sig: SignatureModel,
)
    requires
        site.callee == (IdentifierModel::Simple { name, span }),
        resolve(index, name) == Some(sig),
    ensures
        sig.required_params <= site.argument_count <= sig.all_params ==> sites_violations(
            lines,
            seq![site],
            index,
        ).len() == 0,
        site.argument_count == sig.required_params - 1 || site.argument_count == sig.all_params
            + 1 ==> sites_violations(lines, seq![site], index).len() == 1,
{
    assert(seq![site].drop_last() =~= Seq::<SiteModel>::empty());
    assert(seq![site].last() == site);
    assert(sites_violations(lines, Seq::<SiteModel>::empty(), index) == Seq::<ViolationModel>::empty());
    assert(sites_violations(lines, seq![site], index) =~= site_violation(lines, site, index));
}

/// Unresolved-call safety: a call whose method name is absent from the
/// index, or computed at run time, never yields an arity violation, for
/// any argument count.
pub proof fn lemma_unresolved_call_safety(
    lines: Seq<Seq<char>>,
    site: SiteModel,
    index: Seq<SignatureModel>,
)
    requires
        match site.callee {
            IdentifierModel::Simple { name, span } => resolve(index, name) is None,
            IdentifierModel::Dynamic { span } => true,
        },
    ensures
        site_violation(lines, site, index) =~= Seq::<ViolationModel>::empty(),
        sites_violations(lines, seq![site], index).len() == 0,
{
    assert(seq![site].drop_last() =~= Seq::<SiteModel>::empty());
    assert(seq![site].last() == site);
    assert(sites_violations(lines, Seq::<SiteModel>::empty(), index) == Seq::<ViolationModel>::empty());
    assert(sites_violations(lines, seq![site], index) =~= site_violation(lines, site, index));
}

} // verus!
