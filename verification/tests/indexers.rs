use phanalist::ast::ClassMember;
use phanalist::ast::ClassStatement;
use phanalist::ast::File;
use phanalist::ast::Identifier;
use phanalist::ast::MethodDeclaration;
use phanalist::ast::NamespaceStatement;
use phanalist::ast::Parameter;
use phanalist::ast::Span;
use phanalist::ast::Statement;
use phanalist::indexers::Indexers;
use phanalist::indexers::class_key;

fn method(name: &str, defaults: Vec<bool>, return_type: Option<&str>) -> ClassMember {
    ClassMember::ConcreteMethod(MethodDeclaration {
        name: String::from(name),
        parameters: defaults.into_iter().map(|has_default| Parameter { has_default }).collect(),
        return_type: return_type.map(String::from),
    })
}

fn file_of(ast: Vec<Statement>) -> File {
    File { path: String::from("x.php"), lines: vec![], ast }
}

fn simple(name: &str) -> Identifier {
    Identifier::Simple { name: String::from(name), span: Span { line: 1, column: 1 } }
}

#[test]
fn class_key_flattens_namespace_separators() {
    assert_eq!(class_key("App\\Core", "Service"), "App_CoreService");
    assert_eq!(class_key("", "Service"), "Service");
    assert_eq!(class_key("\\", "A"), "_A");
}

#[test]
fn every_declared_method_is_indexed() {
    let file = file_of(vec![Statement::Class(ClassStatement {
        name: String::from("A"),
        members: vec![
            method("f", vec![false, true], Some("int")),
            ClassMember::AbstractMethod(MethodDeclaration {
                name: String::from("g"),
                parameters: vec![Parameter { has_default: false }],
                return_type: None,
            }),
            ClassMember::Other,
        ],
    })]);
    let mut indexers = Indexers::new();
    indexers.index_file(&file);

    let f = indexers.method_index.find_method(&simple("f")).expect("f is indexed");
    assert_eq!(f.class_name, "A");
    assert_eq!(f.required_params, 1);
    assert_eq!(f.all_params, 2);
    assert_eq!(f.return_type.as_deref(), Some("int"));

    let g = indexers.method_index.find_method(&simple("g")).expect("abstract g is indexed");
    assert_eq!(g.required_params, 1);
    assert_eq!(g.all_params, 1);

    assert!(indexers.method_index.find_method(&simple("absent")).is_none());
}

#[test]
fn namespaced_class_gets_flattened_owner_key() {
    let file = file_of(vec![Statement::Namespace(NamespaceStatement {
        name: Some(String::from("App\\Core")),
        statements: vec![Statement::Class(ClassStatement {
            name: String::from("A"),
            members: vec![method("f", vec![false], None)],
        })],
    })]);
    let mut indexers = Indexers::new();
    indexers.index_file(&file);

    let f = indexers.method_index.find_method(&simple("f")).expect("f is indexed");
    assert_eq!(f.class_name, "App_CoreA");
}

#[test]
fn unnamed_braced_namespace_is_skipped() {
    let file = file_of(vec![Statement::Namespace(NamespaceStatement {
        name: None,
        statements: vec![Statement::Class(ClassStatement {
            name: String::from("A"),
            members: vec![method("f", vec![false], None)],
        })],
    })]);
    let mut indexers = Indexers::new();
    indexers.index_file(&file);

    assert!(indexers.method_index.find_method(&simple("f")).is_none());
}

#[test]
fn colliding_keys_keep_the_last_declaration() {
    // Two files declare a method under the same (owner, member) key: the
    // later insertion silently replaces the earlier one.
    let first = file_of(vec![Statement::Class(ClassStatement {
        name: String::from("A"),
        members: vec![method("f", vec![false], None)],
    })]);
    let second = file_of(vec![Statement::Class(ClassStatement {
        name: String::from("A"),
        members: vec![method("f", vec![false, false, false], None)],
    })]);
    let mut indexers = Indexers::new();
    indexers.index_file(&first);
    indexers.index_file(&second);

    let f = indexers.method_index.find_method(&simple("f")).expect("f is indexed");
    assert_eq!(f.all_params, 3);
}

#[test]
fn dynamic_identifier_never_resolves() {
    let file = file_of(vec![Statement::Class(ClassStatement {
        name: String::from("A"),
        members: vec![method("f", vec![false], None)],
    })]);
    let mut indexers = Indexers::new();
    indexers.index_file(&file);

    let dynamic = Identifier::Dynamic { span: Span { line: 1, column: 1 } };
    assert!(indexers.method_index.find_method(&dynamic).is_none());
}
