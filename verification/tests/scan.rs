use phanalist::ast::Call;
use phanalist::ast::Callee;
use phanalist::ast::CatchBlock;
use phanalist::ast::ClassMember;
use phanalist::ast::ClassStatement;
use phanalist::ast::Expression;
use phanalist::ast::File;
use phanalist::ast::Identifier;
use phanalist::ast::MethodDeclaration;
use phanalist::ast::Parameter;
use phanalist::ast::Span;
use phanalist::ast::Statement;
use phanalist::ast::TryStatement;
use phanalist::results::Results;
use phanalist::scan;

fn span(line: usize, column: usize) -> Span {
    Span { line, column }
}

fn codes(list: &[&str]) -> Vec<String> {
    list.iter().map(|c| String::from(*c)).collect()
}

fn project() -> Vec<File> {
    // One file declares class A { function f($x, $y = 1) {} } and holds an
    // empty catch; a second file calls $a->f(1, 2, 3).
    let decl_file = File {
        path: String::from("a.php"),
        lines: vec![
            String::from("class A {"),
            String::from("    function f($x, $y = 1) {}"),
            String::from("}"),
            String::from("try {} catch (Exception $e) {}"),
        ],
        ast: vec![
            Statement::Class(ClassStatement {
                name: String::from("A"),
                members: vec![ClassMember::ConcreteMethod(MethodDeclaration {
                    name: String::from("f"),
                    parameters: vec![
                        Parameter { has_default: false },
                        Parameter { has_default: true },
                    ],
                    return_type: None,
                })],
            }),
            Statement::Try(TryStatement {
                catches: vec![CatchBlock { start: span(4, 8), body: vec![] }],
            }),
        ],
    };
    let call_file = File {
        path: String::from("b.php"),
        lines: vec![String::from("$a->f(1, 2, 3);")],
        ast: vec![Statement::Expression(Expression::MethodCall(Call {
            target: Box::new(Expression::Other),
            callee: Callee::Identified(Identifier::Simple {
                name: String::from("f"),
                span: span(1, 5),
            }),
            argument_count: 3,
        }))],
    };
    vec![decl_file, call_file]
}

fn flatten(results: &Results) -> Vec<(String, String, String, usize, usize)> {
    let mut out = Vec::new();
    for report in &results.files {
        for v in &report.violations {
            out.push((
                report.path.clone(),
                v.rule.clone(),
                v.suggestion.clone(),
                v.span.line,
                v.span.column,
            ));
        }
    }
    out
}

#[test]
fn run() {
    let violations = scan(&project(), &codes(&["E0002", "E0014"]));

    assert_ne!(0, violations.total_files_count)
}

#[test]
fn cross_file_scan_reports_both_rules() {
    let results = scan(&project(), &codes(&["E0002", "E0014"]));

    assert_eq!(results.total_files_count, 2);
    assert_eq!(results.files.len(), 2);
    assert_eq!(results.files[0].path, "a.php");
    assert_eq!(results.files[0].violations.len(), 1);
    assert_eq!(results.files[0].violations[0].rule, "E0002");
    assert_eq!(results.files[1].path, "b.php");
    assert_eq!(results.files[1].violations.len(), 1);
    assert_eq!(results.files[1].violations[0].rule, "E0014");
    assert_eq!(
        results.files[1].violations[0].suggestion,
        "Invalid amount of arguments passed to function f (passed 3 arguments, expected 1 to 2)"
    );
    assert!(results.has_any_violations());
}

#[test]
fn scan_is_idempotent() {
    let files = project();
    let enabled = codes(&["E0002", "E0014"]);

    let first = scan(&files, &enabled);
    let second = scan(&files, &enabled);

    assert_eq!(flatten(&first), flatten(&second));
    assert_eq!(first.total_files_count, second.total_files_count);
}

#[test]
fn unknown_rule_codes_are_ignored() {
    let results = scan(&project(), &codes(&["E9999", "E0014"]));

    assert_eq!(flatten(&results).len(), 1);
    assert_eq!(results.files[1].violations[0].rule, "E0014");
}

#[test]
fn duplicate_rule_codes_run_once() {
    let once = scan(&project(), &codes(&["E0002", "E0014"]));
    let twice = scan(&project(), &codes(&["E0002", "E0014", "E0002", "E0014"]));

    assert_eq!(flatten(&once), flatten(&twice));
}

#[test]
fn empty_rule_list_reports_nothing() {
    let results = scan(&project(), &codes(&[]));

    assert_eq!(results.total_files_count, 2);
    assert!(!results.has_any_violations());
}

#[test]
fn empty_project_scans_clean() {
    let results = scan(&Vec::new(), &codes(&["E0002", "E0014"]));

    assert_eq!(results.total_files_count, 0);
    assert!(!results.has_any_violations());
}

#[test]
fn violation_carries_source_line_text() {
    let results = scan(&project(), &codes(&["E0002"]));

    assert_eq!(results.files[0].violations[0].line, "try {} catch (Exception $e) {}");
}
