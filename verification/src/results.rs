//! Findings: one violation per rule hit, grouped per analyzed file.
use vstd::prelude::*;

use crate::ast::Span;

verus! {

/// The mathematical value of a [`Violation`].
pub struct ViolationModel {
    pub rule: Seq<char>,
    pub line: Seq<char>,
    pub suggestion: Seq<char>,
    pub span: Span,
}

/// One finding: the rule's stable code, the text of the offending source
/// line, the rule's message, and the source position.
#[derive(Debug)]
pub struct Violation {
    pub rule: String,
    pub line: String,
    pub suggestion: String,
    pub span: Span,
}

impl View for Violation {
    type V = ViolationModel;

    open spec fn view(&self) -> ViolationModel {
        ViolationModel {
            rule: self.rule@,
            line: self.line@,
            suggestion: self.suggestion@,
            span: self.span,
        }
    }
}

impl DeepView for Violation {
    type V = ViolationModel;

    open spec fn deep_view(&self) -> ViolationModel {
        self.view()
    }
}

/// The mathematical value of a [`FileReport`].
pub struct FileReportModel {
    pub path: Seq<char>,
    pub violations: Seq<ViolationModel>,
}

/// The ordered violations found in one file.
#[derive(Debug)]
pub struct FileReport {
    pub path: String,
    pub violations: Vec<Violation>,
}

impl View for FileReport {
    type V = FileReportModel;

    open spec fn view(&self) -> FileReportModel {
        FileReportModel { path: self.path@, violations: self.violations.deep_view() }
    }
}

impl DeepView for FileReport {
    type V = FileReportModel;

    open spec fn deep_view(&self) -> FileReportModel {
        self.view()
    }
}

/// The mathematical value of a [`Results`].
pub struct ResultsModel {
    pub files: Seq<FileReportModel>,
    pub total_files_count: int,
}

/// The outcome of a whole scan: one report per file, in input order.
#[derive(Debug)]
pub struct Results {
    pub files: Vec<FileReport>,
    pub total_files_count: usize,
}

impl View for Results {
    type V = ResultsModel;

    open spec fn view(&self) -> ResultsModel {
        ResultsModel {
            files: self.files.deep_view(),
            total_files_count: self.total_files_count as int,
        }
    }
}

impl Results {
    /// Whether any file's report holds at least one violation.
    pub fn has_any_violations(&self) -> (r: bool)
        ensures
            r == exists|i: int|
                0 <= i < self@.files.len() && #[trigger] self@.files[i].violations.len() > 0,
    {
        let mut i: usize = 0;
        while i < self.files.len()
            invariant
                0 <= i <= self.files.len(),
                forall|j: int|
                    0 <= j < i ==> #[trigger] self@.files[j].violations.len() == 0,
            decreases self.files.len() - i,
        {
            if self.files[i].violations.len() > 0 {
                proof {
                    assert(self@.files[i as int].violations.len() > 0);
                }
                return true;
            }
            i += 1;
        }
        false
    }
}

} // verus!
