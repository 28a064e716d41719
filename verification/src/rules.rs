//! The rule engine: a polymorphic rule interface with a context-free and an
//! index-aware entry point, and the registry built from the enabled rule
//! codes.
use vstd::prelude::*;

pub mod e14;
pub mod e2;

use crate::ast::File;
use crate::ast::Statement;
use crate::indexers::Indexers;
use crate::indexers::SignatureModel;
use crate::results::Violation;
use crate::results::ViolationModel;

verus! {

/// The text of the given 1-based source line, or empty when the position
/// lies outside the line table (a malformed node is not fatal).
pub open spec fn spec_line_text(lines: Seq<Seq<char>>, line: int) -> Seq<char> {
    if 1 <= line <= lines.len() {
        lines[line - 1]
    } else {
        Seq::<char>::empty()
    }
}

/// Copies the text of the given 1-based source line for display context.
pub fn line_text(lines: &Vec<String>, line: usize) -> (r: String)
    ensures
        r@ == spec_line_text(lines.deep_view(), line as int),
{
    if 1 <= line && line <= lines.len() {
        proof {
            assert(lines.deep_view()[line - 1] == lines@[line - 1]@);
        }
        lines[line - 1].clone()
    } else {
        String::new()
    }
}

/// One check over a file's statements. A rule that needs no cross-file
/// data implements `validate`; one that resolves against the symbol index
/// implements `validate_with_indexed`; the other entry point returns
/// nothing. The driver calls both and concatenates.
pub trait Rule {
    /// The rule's stable code.
    spec fn spec_code(&self) -> Seq<char>;

    /// What the context-free entry point reports.
    spec fn spec_validate(&self, file: File, statement: Statement) -> Seq<ViolationModel>;

    /// What the index-aware entry point reports.
    spec fn spec_validate_with_indexed(
        &self,
        file: File,
        statement: Statement,
        index: Seq<SignatureModel>,
    ) -> Seq<ViolationModel>;

    /// The rule's stable code, e.g. "E0002".
    fn get_code(&self) -> (r: String)
        ensures
            r@ == self.spec_code(),
    ;

    /// A short human description used in output.
    fn description(&self) -> (r: String);

    /// The context-free check of one statement.
    fn validate(&self, file: &File, statement: &Statement) -> (r: Vec<Violation>)
        ensures
            r.deep_view() == self.spec_validate(*file, *statement),
    ;

    /// The index-aware check of one statement.
    fn validate_with_indexed(&self, file: &File, statement: &Statement, indexers: &Indexers) -> (r:
        Vec<Violation>)
        ensures
            r.deep_view() == self.spec_validate_with_indexed(
                *file,
                *statement,
                indexers.method_index@,
            ),
    ;
}

/// A registered rule: the tagged union the registry holds.
#[derive(Clone, Copy, PartialEq, Eq, Structural, Debug)]
pub enum AnyRule {
    EmptyCatch(e2::Rule),
    ArgumentCount(e14::Rule),
}

impl AnyRule {
    /// The rule's stable code.
    pub open spec fn spec_code(&self) -> Seq<char> {
        match self {
            AnyRule::EmptyCatch(r) => r.spec_code(),
            AnyRule::ArgumentCount(r) => r.spec_code(),
        }
    }

    /// What the context-free entry point reports.
    pub open spec fn spec_validate(&self, file: File, statement: Statement) -> Seq<
        ViolationModel,
    > {
        match self {
            AnyRule::EmptyCatch(r) => r.spec_validate(file, statement),
            AnyRule::ArgumentCount(r) => r.spec_validate(file, statement),
        }
    }

    /// What the index-aware entry point reports.
    pub open spec fn spec_validate_with_indexed(
        &self,
        file: File,
        statement: Statement,
        index: Seq<SignatureModel>,
    ) -> Seq<ViolationModel> {
        match self {
            AnyRule::EmptyCatch(r) => r.spec_validate_with_indexed(file, statement, index),
            AnyRule::ArgumentCount(r) => r.spec_validate_with_indexed(file, statement, index),
        }
    }

    /// The rule's stable code.
    pub fn get_code(&self) -> (r: String)
        ensures
            r@ == self.spec_code(),
    {
        match self {
            AnyRule::EmptyCatch(r) => r.get_code(),
            AnyRule::ArgumentCount(r) => r.get_code(),
        }
    }

    /// A short human description used in output.
    pub fn description(&self) -> (r: String) {
        match self {
            AnyRule::EmptyCatch(r) => r.description(),
            AnyRule::ArgumentCount(r) => r.description(),
        }
    }

    /// The context-free check of one statement.
    pub fn validate(&self, file: &File, statement: &Statement) -> (r: Vec<Violation>)
        ensures
            r.deep_view() == self.spec_validate(*file, *statement),
    {
        match self {
            AnyRule::EmptyCatch(r) => r.validate(file, statement),
            AnyRule::ArgumentCount(r) => r.validate(file, statement),
        }
    }

    /// The index-aware check of one statement.
    pub fn validate_with_indexed(
        &self,
        file: &File,
        statement: &Statement,
        indexers: &Indexers,
    ) -> (r: Vec<Violation>)
        ensures
            r.deep_view() == self.spec_validate_with_indexed(
                *file,
                *statement,
                indexers.method_index@,
            ),
    {
        match self {
            AnyRule::EmptyCatch(r) => r.validate_with_indexed(file, statement, indexers),
            AnyRule::ArgumentCount(r) => r.validate_with_indexed(file, statement, indexers),
        }
    }
}

/// The rule a configuration code enables, if the code is known.
pub open spec fn rule_for_code(code: Seq<char>) -> Option<AnyRule> {
    if code == "E0002"@ {
        Some(AnyRule::EmptyCatch(e2::Rule {  }))
    } else if code == "E0014"@ {
        Some(AnyRule::ArgumentCount(e14::Rule {  }))
    } else {
        None
    }
}

/// The registry the enabled-code list builds: known codes in first-mention
/// order, each rule at most once, unknown codes ignored.
pub open spec fn spec_registry(codes: Seq<Seq<char>>) -> Seq<AnyRule>
    decreases codes.len(),
{
    if codes.len() == 0 {
        seq![]
    } else {
        let pre = spec_registry(codes.drop_last());
        match rule_for_code(codes.last()) {
            Some(rl) => if pre.contains(rl) {
                pre
            } else {
                pre.push(rl)
            },
            None => pre,
        }
    }
}

#[verifier::loop_isolation(false)]
fn registry_contains(rules: &Vec<AnyRule>, cand: &AnyRule) -> (r: bool)
    ensures
        r == rules@.contains(*cand),
{
    let mut i: usize = 0;
    while i < rules.len()
        invariant
            0 <= i <= rules.len(),
            forall|j: int| 0 <= j < i ==> rules@[j] != *cand,
        decreases rules.len() - i,
    {
        if rules[i] == *cand {
            return true;
        }
        i += 1;
    }
    false
}

/// Builds the rule registry from the ordered enabled-code list.
#[verifier::loop_isolation(false)]
pub fn registry_from_codes(codes: &Vec<String>) -> (r: Vec<AnyRule>)
    ensures
        r@ == spec_registry(codes.deep_view()),
{
    let empty_catch_code = String::from_str("E0002");
    let argument_count_code = String::from_str("E0014");
    let mut out: Vec<AnyRule> = Vec::new();
    proof {
        assert(codes.deep_view().take(0) =~= Seq::<Seq<char>>::empty());
    }
    let mut i: usize = 0;
    while i < codes.len()
        invariant
            0 <= i <= codes.len(),
            out@ == spec_registry(codes.deep_view().take(i as int)),
        decreases codes.len() - i,
    {
        proof {
            assert(codes.deep_view()[i as int] == codes@[i as int]@);
            assert(codes.deep_view().take(i + 1).drop_last() =~= codes.deep_view().take(i as int));
            assert(codes.deep_view().take(i + 1).last() == codes.deep_view()[i as int]);
        }
        let cand: Option<AnyRule> = if codes[i].eq(&empty_catch_code) {
            Some(AnyRule::EmptyCatch(e2::Rule {  }))
        } else if codes[i].eq(&argument_count_code) {
            Some(AnyRule::ArgumentCount(e14::Rule {  }))
        } else {
            None
        };
        match cand {
            Some(rl) => {
                if !registry_contains(&out, &rl) {
                    out.push(rl);
                }
            },
            None => {},
        }
        i += 1;
    }
    proof {
        assert(codes.deep_view().take(codes@.len() as int) =~= codes.deep_view());
    }
    out
}

} // verus!
