//! A static analyzer core for PHP projects.
//!
//! The scan runs in two passes over a set of parsed files: pass 1 builds a
//! project-wide symbol index of method signatures; pass 2 re-walks every
//! file's statements through the traversal engine, invoking every enabled
//! rule's context-free and index-aware entry points with the completed
//! index, and aggregates the violations per file, each bound to the text
//! of its source line.
use vstd::prelude::*;

pub mod ast;
pub mod indexers;
pub mod results;
pub mod rules;
pub mod text;
pub mod traverse;

use crate::ast::File;
use crate::ast::Statement;
use crate::indexers::Indexers;
use crate::indexers::SignatureModel;
use crate::indexers::index_of_files;
use crate::results::FileReport;
use crate::results::FileReportModel;
use crate::results::Results;
use crate::results::ResultsModel;
use crate::results::Violation;
use crate::results::ViolationModel;
use crate::rules::AnyRule;
use crate::rules::registry_from_codes;
use crate::rules::spec_registry;

verus! {

/// What one statement contributes under the enabled rules, in registry
/// order: each rule's context-free findings, then its index-aware ones.
pub open spec fn stmt_violations(
    file: File,
    s: Statement,
    rules: Seq<AnyRule>,
    index: Seq<SignatureModel>,
) -> Seq<ViolationModel>
    decreases rules.len(),
{
    if rules.len() == 0 {
        seq![]
    } else {
        stmt_violations(file, s, rules.drop_last(), index) + (rules.last().spec_validate(file, s)
            + rules.last().spec_validate_with_indexed(file, s, index))
    }
}

/// One file's violations from its first `n` statements.
pub open spec fn file_violations_upto(
    file: File,
    rules: Seq<AnyRule>,
    index: Seq<SignatureModel>,
    n: int,
) -> Seq<ViolationModel>
    decreases n,
{
    if n <= 0 {
        seq![]
    } else {
        file_violations_upto(file, rules, index, n - 1) + stmt_violations(
            file,
            file.ast@[n - 1],
            rules,
            index,
        )
    }
}

/// One file's violations: its top-level statements in order, each checked
/// by every enabled rule.
pub open spec fn file_violations(
    file: File,
    rules: Seq<AnyRule>,
    index: Seq<SignatureModel>,
) -> Seq<ViolationModel> {
    file_violations_upto(file, rules, index, file.ast@.len() as int)
}

/// The per-file reports of a scan, in input order.
pub open spec fn reports_of(
    files: Seq<File>,
    rules: Seq<AnyRule>,
    index: Seq<SignatureModel>,
) -> Seq<FileReportModel>
    decreases files.len(),
{
    if files.len() == 0 {
        seq![]
    } else {
        reports_of(files.drop_last(), rules, index).push(
            FileReportModel {
                path: files.last().path@,
                violations: file_violations(files.last(), rules, index),
            },
        )
    }
}

/// The whole scan: the index built over all files by pass 1, the registry
/// built from the enabled codes, and every file's report from pass 2.
pub open spec fn spec_scan(files: Seq<File>, codes: Seq<Seq<char>>) -> ResultsModel {
    ResultsModel {
        files: reports_of(files, spec_registry(codes), index_of_files(files)),
        total_files_count: files.len() as int,
    }
}

/// Runs the two-pass analysis over the given parsed files with the given
/// ordered list of enabled rule codes, and returns the ordered violations
/// per file. No file's rules run before the index over all files is
/// complete.
#[verifier::loop_isolation(false)]
pub fn scan(files: &Vec<File>, enabled_rules: &Vec<String>) -> (r: Results)
    ensures
        r@ == spec_scan(files@, enabled_rules.deep_view()),
{
    let ghost index_model = index_of_files(files@);
    let ghost rules_model = spec_registry(enabled_rules.deep_view());

    let mut indexers = Indexers::new();
    proof {
        assert(indexers.method_index@ =~= index_of_files(files@.take(0)));
    }
    let mut i: usize = 0;
    while i < files.len()
        invariant
            0 <= i <= files.len(),
            indexers.method_index@ == index_of_files(files@.take(i as int)),
        decreases files.len() - i,
    {
        indexers.index_file(&files[i]);
        proof {
            assert(files@.take(i + 1).drop_last() =~= files@.take(i as int));
            assert(files@.take(i + 1).last() == files@[i as int]);
        }
        i += 1;
    }
    proof {
        assert(files@.take(files@.len() as int) =~= files@);
    }

    let registry = registry_from_codes(enabled_rules);

    let mut reports: Vec<FileReport> = Vec::new();
    proof {
        assert(reports.deep_view() =~= reports_of(files@.take(0), rules_model, index_model));
    }
    let mut f: usize = 0;
    while f < files.len()
        invariant
            0 <= f <= files.len(),
            indexers.method_index@ == index_model,
            registry@ == rules_model,
            reports.deep_view() == reports_of(files@.take(f as int), rules_model, index_model),
        decreases files.len() - f,
    {
        let file = &files[f];
        let mut violations: Vec<Violation> = Vec::new();
        proof {
            assert(violations.deep_view() =~= file_violations_upto(
                files@[f as int],
                rules_model,
                index_model,
                0,
            ));
        }
        let mut s: usize = 0;
        while s < file.ast.len()
            invariant
                0 <= s <= file.ast.len(),
                violations.deep_view() == file_violations_upto(
                    files@[f as int],
                    rules_model,
                    index_model,
                    s as int,
                ),
            decreases file.ast.len() - s,
        {
            let statement = &file.ast[s];
            let ghost before_rules = violations.deep_view();
            proof {
                assert(before_rules + stmt_violations(
                    files@[f as int],
                    files@[f as int].ast@[s as int],
                    rules_model.take(0),
                    index_model,
                ) =~= before_rules);
            }
            let mut k: usize = 0;
            while k < registry.len()
                invariant
                    0 <= k <= registry.len(),
                    violations.deep_view() == before_rules + stmt_violations(
                        files@[f as int],
                        files@[f as int].ast@[s as int],
                        rules_model.take(k as int),
                        index_model,
                    ),
                decreases registry.len() - k,
            {
                let rule = &registry[k];
                let ghost before_rule = violations.deep_view();
                let mut plain = rule.validate(file, statement);
                let ghost plain_model = plain.deep_view();
                violations.append(&mut plain);
                proof {
                    assert(violations.deep_view() =~= before_rule + plain_model);
                }
                let ghost mid_rule = violations.deep_view();
                let mut indexed = rule.validate_with_indexed(file, statement, &indexers);
                let ghost indexed_model = indexed.deep_view();
                violations.append(&mut indexed);
                proof {
                    assert(violations.deep_view() =~= mid_rule + indexed_model);
                }
                proof {
                    assert(rules_model.take(k + 1).drop_last() =~= rules_model.take(k as int));
                    assert(rules_model.take(k + 1).last() == rules_model[k as int]);
                    assert(violations.deep_view() =~= before_rules + stmt_violations(
                        files@[f as int],
                        files@[f as int].ast@[s as int],
                        rules_model.take(k + 1),
                        index_model,
                    ));
                }
                k += 1;
            }
            proof {
                assert(rules_model.take(rules_model.len() as int) =~= rules_model);
            }
            s += 1;
        }
        let report = FileReport { path: file.path.clone(), violations };
        let ghost reports_pre = reports.deep_view();
        let ghost report_model = report@;
        reports.push(report);
        proof {
            assert(reports.deep_view() =~= reports_pre.push(report_model));
            assert(files@.take(f + 1).drop_last() =~= files@.take(f as int));
            assert(files@.take(f + 1).last() == files@[f as int]);
        }
        f += 1;
    }
    proof {
        assert(files@.take(files@.len() as int) =~= files@);
    }

    let total = files.len();
    let r = Results { files: reports, total_files_count: total };
    proof {
        assert(r@.files =~= spec_scan(files@, enabled_rules.deep_view()).files);
    }
    r
}

/// Idempotence: the scan is a function of its inputs alone, so running the
/// full two-pass scan twice over an unchanged file set and rule
/// configuration produces an identical ordered violation list both times.
pub proof fn lemma_scan_idempotent(
    files: Seq<File>,
    codes: Seq<Seq<char>>,
    first: ResultsModel,
    second: ResultsModel,
)
    requires
        first == spec_scan(files, codes),
        second == spec_scan(files, codes),
    ensures
        first == second,
{
}

} // verus!
