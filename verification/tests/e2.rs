use phanalist::ast::CatchBlock;
use phanalist::ast::Expression;
use phanalist::ast::File;
use phanalist::ast::Span;
use phanalist::ast::Statement;
use phanalist::ast::TryStatement;
use phanalist::rules::Rule as RuleTrait;
use phanalist::rules::e2::Rule;

const SUGGESTION: &str = "There is an empty catch. It's not recommended to catch an Exception without doing anything with it.";

fn span(line: usize, column: usize) -> Span {
    Span { line, column }
}

fn file_with(lines: Vec<&str>, ast: Vec<Statement>) -> File {
    File {
        path: String::from("example.php"),
        lines: lines.into_iter().map(String::from).collect(),
        ast,
    }
}

#[test]
fn empty_catch() {
    // try { foo(); } catch (Exception $e) {}
    let file = file_with(
        vec!["try {", "    foo();", "} catch (Exception $e) {}"],
        vec![Statement::Try(TryStatement {
            catches: vec![CatchBlock { start: span(3, 3), body: vec![] }],
        })],
    );
    let rule = Rule {};
    let violations = rule.validate(&file, &file.ast[0]);

    assert!(violations.len().gt(&0));
    assert_eq!(violations.first().unwrap().suggestion, SUGGESTION.to_string());
}

#[test]
fn non_empty_catch() {
    // try { foo(); } catch (Exception $e) { log($e); }
    let file = file_with(
        vec!["try {", "    foo();", "} catch (Exception $e) { log($e); }"],
        vec![Statement::Try(TryStatement {
            catches: vec![CatchBlock {
                start: span(3, 3),
                body: vec![Statement::Expression(Expression::Other)],
            }],
        })],
    );
    let rule = Rule {};
    let violations = rule.validate(&file, &file.ast[0]);

    assert!(violations.len().eq(&0));
}

#[test]
fn one_violation_per_empty_clause() {
    let file = file_with(
        vec!["try {", "} catch (A $e) {", "} catch (B $e) { log($e); }", "} catch (C $e) {}"],
        vec![Statement::Try(TryStatement {
            catches: vec![
                CatchBlock { start: span(2, 3), body: vec![] },
                CatchBlock {
                    start: span(3, 3),
                    body: vec![Statement::Expression(Expression::Other)],
                },
                CatchBlock { start: span(4, 3), body: vec![] },
            ],
        })],
    );
    let rule = Rule {};
    let violations = rule.validate(&file, &file.ast[0]);

    assert_eq!(violations.len(), 2);
    assert_eq!(violations[0].span.line, 2);
    assert_eq!(violations[1].span.line, 4);
    assert_eq!(violations[0].rule, "E0002");
    assert_eq!(violations[0].line, "} catch (A $e) {");
}

#[test]
fn get_code_and_description() {
    let rule = Rule {};
    assert_eq!(rule.get_code(), "E0002");
    assert_eq!(rule.description(), "Empty catch");
}
