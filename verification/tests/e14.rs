use phanalist::ast::Call;
use phanalist::ast::Callee;
use phanalist::ast::ClassMember;
use phanalist::ast::ClassStatement;
use phanalist::ast::ClosureExpression;
use phanalist::ast::ElseIf;
use phanalist::ast::Expression;
use phanalist::ast::File;
use phanalist::ast::Identifier;
use phanalist::ast::IfBody;
use phanalist::ast::IfStatement;
use phanalist::ast::MethodDeclaration;
use phanalist::ast::Parameter;
use phanalist::ast::Span;
use phanalist::ast::Statement;
use phanalist::indexers::Indexers;
use phanalist::rules::Rule as RuleTrait;
use phanalist::rules::e14::Rule;

fn span(line: usize, column: usize) -> Span {
    Span { line, column }
}

/// A class with one concrete method; `defaults[i]` says whether parameter
/// `i` carries a default value.
fn class_decl(class: &str, method: &str, defaults: Vec<bool>) -> Statement {
    Statement::Class(ClassStatement {
        name: String::from(class),
        members: vec![ClassMember::ConcreteMethod(MethodDeclaration {
            name: String::from(method),
            parameters: defaults.into_iter().map(|has_default| Parameter { has_default }).collect(),
            return_type: None,
        })],
    })
}

fn call_expr(method: &str, argument_count: usize, at: Span) -> Expression {
    Expression::MethodCall(Call {
        target: Box::new(Expression::Other),
        callee: Callee::Identified(Identifier::Simple { name: String::from(method), span: at }),
        argument_count,
    })
}

fn call_stmt(method: &str, argument_count: usize, at: Span) -> Statement {
    Statement::Expression(call_expr(method, argument_count, at))
}

fn file_with(path: &str, lines: Vec<&str>, ast: Vec<Statement>) -> File {
    File {
        path: String::from(path),
        lines: lines.into_iter().map(String::from).collect(),
        ast,
    }
}

fn indexed(files: &[&File]) -> Indexers {
    let mut indexers = Indexers::new();
    for file in files {
        indexers.index_file(file);
    }
    indexers
}

#[test]
fn example() {
    // class Example { function f($x, $y) {} } with a call passing one
    // argument: one violation.
    let file = file_with(
        "incorrect_number_of_args_required.php",
        vec!["class Example {", "    function f($x, $y) {}", "}", "$this->f(1);"],
        vec![
            class_decl("Example", "f", vec![false, false]),
            call_stmt("f", 1, span(4, 8)),
        ],
    );
    let indexers = indexed(&[&file]);
    let rule = Rule {};

    let mut violations = Vec::new();
    for statement in &file.ast {
        violations.extend(rule.validate_with_indexed(&file, statement, &indexers));
    }

    assert!(violations.len().eq(&1));
    assert_eq!(violations[0].rule, "E0014");
}

#[test]
fn two_file_arity_message() {
    // One file declares class A { function f($x, $y = 1) {} }; another
    // calls $a->f(1, 2, 3): one violation naming the count and range.
    let decl_file = file_with(
        "a.php",
        vec!["class A {", "    function f($x, $y = 1) {}", "}"],
        vec![class_decl("A", "f", vec![false, true])],
    );
    let call_file = file_with(
        "b.php",
        vec!["$a->f(1, 2, 3);"],
        vec![call_stmt("f", 3, span(1, 5))],
    );
    let indexers = indexed(&[&decl_file, &call_file]);
    let rule = Rule {};

    let violations = rule.validate_with_indexed(&call_file, &call_file.ast[0], &indexers);

    assert_eq!(violations.len(), 1);
    assert_eq!(
        violations[0].suggestion,
        "Invalid amount of arguments passed to function f (passed 3 arguments, expected 1 to 2)"
    );
    assert_eq!(violations[0].line, "$a->f(1, 2, 3);");
}

#[test]
fn in_range_counts_pass_and_out_of_range_counts_flag() {
    // required 2, maximum 3: counts 2 and 3 pass; 1 and 4 are flagged.
    let decl_file = file_with(
        "c.php",
        vec!["class C {", "    function g($x, $y, $z = 0) {}", "}"],
        vec![class_decl("C", "g", vec![false, false, true])],
    );
    let indexers = indexed(&[&decl_file]);
    let rule = Rule {};

    for (count, expected) in [(1usize, 1usize), (2, 0), (3, 0), (4, 1)] {
        let call_file = file_with("d.php", vec!["$c->g(...);"], vec![call_stmt("g", count, span(1, 5))]);
        let violations = rule.validate_with_indexed(&call_file, &call_file.ast[0], &indexers);
        assert_eq!(violations.len(), expected, "argument count {}", count);
    }
}

#[test]
fn fixed_arity_message_uses_single_number() {
    let decl_file = file_with(
        "e.php",
        vec!["class E {", "    function h($x) {}", "}"],
        vec![class_decl("E", "h", vec![false])],
    );
    let call_file = file_with("f.php", vec!["$e->h();"], vec![call_stmt("h", 0, span(1, 5))]);
    let indexers = indexed(&[&decl_file]);
    let rule = Rule {};

    let violations = rule.validate_with_indexed(&call_file, &call_file.ast[0], &indexers);

    assert_eq!(violations.len(), 1);
    assert_eq!(
        violations[0].suggestion,
        "Invalid amount of arguments passed to function h (passed 0 arguments, expected 1)"
    );
}

#[test]
fn unresolved_call_is_never_flagged() {
    let decl_file = file_with(
        "g.php",
        vec!["class G {", "    function known($x) {}", "}"],
        vec![class_decl("G", "known", vec![false])],
    );
    let indexers = indexed(&[&decl_file]);
    let rule = Rule {};

    for count in 0..5usize {
        let call_file =
            file_with("h.php", vec!["$x->unknown(...);"], vec![call_stmt("unknown", count, span(1, 5))]);
        let violations = rule.validate_with_indexed(&call_file, &call_file.ast[0], &indexers);
        assert_eq!(violations.len(), 0, "argument count {}", count);
    }
}

#[test]
fn dynamic_callee_is_never_flagged() {
    let decl_file = file_with(
        "i.php",
        vec!["class I {", "    function f($x) {}", "}"],
        vec![class_decl("I", "f", vec![false])],
    );
    let call_file = file_with(
        "j.php",
        vec!["$x->{$m}(1, 2, 3);"],
        vec![Statement::Expression(Expression::MethodCall(Call {
            target: Box::new(Expression::Other),
            callee: Callee::Identified(Identifier::Dynamic { span: span(1, 5) }),
            argument_count: 3,
        }))],
    );
    let indexers = indexed(&[&decl_file]);
    let rule = Rule {};

    let violations = rule.validate_with_indexed(&call_file, &call_file.ast[0], &indexers);

    assert_eq!(violations.len(), 0);
}

#[test]
fn static_and_nullsafe_calls_are_recognized() {
    let decl_file = file_with(
        "k.php",
        vec!["class K {", "    function f($x) {}", "}"],
        vec![class_decl("K", "f", vec![false])],
    );
    let indexers = indexed(&[&decl_file]);
    let rule = Rule {};

    let forms: Vec<Expression> = vec![
        Expression::StaticMethodCall(Call {
            target: Box::new(Expression::Other),
            callee: Callee::Identified(Identifier::Simple { name: String::from("f"), span: span(1, 1) }),
            argument_count: 2,
        }),
        Expression::NullsafeMethodCall(Call {
            target: Box::new(Expression::Other),
            callee: Callee::Identified(Identifier::Simple { name: String::from("f"), span: span(1, 1) }),
            argument_count: 2,
        }),
    ];
    for form in forms {
        let call_file = file_with("l.php", vec!["..."], vec![Statement::Expression(form)]);
        let violations = rule.validate_with_indexed(&call_file, &call_file.ast[0], &indexers);
        assert_eq!(violations.len(), 1);
    }
}

#[test]
fn deeply_nested_call_is_visited_exactly_once() {
    // A bad call inside a closure body, itself at the bottom of a deep
    // elseif/else chain: still exactly one violation.
    let decl_file = file_with(
        "m.php",
        vec!["class M {", "    function f($x) {}", "}"],
        vec![class_decl("M", "f", vec![false])],
    );

    let bad_call_in_closure = Statement::Expression(Expression::Closure(ClosureExpression {
        statements: vec![call_stmt("f", 5, span(1, 1))],
    }));
    let mut nested = bad_call_in_closure;
    for _ in 0..10 {
        nested = Statement::If(IfStatement {
            condition: Expression::Other,
            body: IfBody::Statement {
                statement: Box::new(Statement::Expression(Expression::Other)),
                elseifs: vec![ElseIf {
                    condition: Expression::Other,
                    statement: Box::new(Statement::Expression(Expression::Other)),
                }],
                else_statement: Some(Box::new(nested)),
            },
        });
    }
    let call_file = file_with("n.php", vec!["..."], vec![nested]);
    let indexers = indexed(&[&decl_file]);
    let rule = Rule {};

    let violations = rule.validate_with_indexed(&call_file, &call_file.ast[0], &indexers);

    assert_eq!(violations.len(), 1);
}

#[test]
fn alternate_syntax_branches_are_walked() {
    let decl_file = file_with(
        "o.php",
        vec!["class O {", "    function f($x) {}", "}"],
        vec![class_decl("O", "f", vec![false])],
    );
    let stmt = Statement::If(IfStatement {
        condition: call_expr("f", 2, span(1, 1)),
        body: IfBody::Block {
            statements: vec![call_stmt("f", 3, span(2, 1))],
            elseifs: vec![],
            else_statements: Some(vec![call_stmt("f", 1, span(3, 1))]),
        },
    });
    let call_file = file_with("p.php", vec!["...", "...", "..."], vec![stmt]);
    let indexers = indexed(&[&decl_file]);
    let rule = Rule {};

    let violations = rule.validate_with_indexed(&call_file, &call_file.ast[0], &indexers);

    // condition (2 args) and block body (3 args) are out of range; the
    // else branch passes exactly 1 argument and is fine.
    assert_eq!(violations.len(), 2);
}
