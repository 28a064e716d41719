//! The syntax-tree model the analyzer works on.
//!
//! The parser is an external collaborator: it hands the analysis one parsed
//! statement sequence per file, together with the file's raw text split into
//! lines. These types hold exactly what the passes read: namespaces, classes
//! and their method declarations for the index pass, and control flow, calls
//! and catch clauses for the rule pass. Anything else a file may contain is
//! carried as `Other` and skipped.
use vstd::prelude::*;

verus! {

/// A source position: 1-based line and column.
#[derive(Clone, Copy, PartialEq, Eq, Structural, Debug)]
pub struct Span {
    pub line: usize,
    pub column: usize,
}

/// A method name at a call site: either written out in the source, or
/// computed at run time (and therefore never resolvable by name).
#[derive(Debug)]
pub enum Identifier {
    Simple { name: String, span: Span },
    Dynamic { span: Span },
}

/// How a call names its method: through an identifier, or through an
/// arbitrary expression (which the analysis does not inspect).
#[derive(Debug)]
pub enum Callee {
    Identified(Identifier),
    Expression,
}

/// One call-like expression: instance, static, or null-safe method call.
#[derive(Debug)]
pub struct Call {
    pub target: Box<Expression>,
    pub callee: Callee,
    pub argument_count: usize,
}

/// An expression, reduced to the shapes the rules inspect.
#[derive(Debug)]
pub enum Expression {
    MethodCall(Call),
    StaticMethodCall(Call),
    NullsafeMethodCall(Call),
    Closure(ClosureExpression),
    Other,
}

/// An anonymous function; the engine recurses into its body.
#[derive(Debug)]
pub struct ClosureExpression {
    pub statements: Vec<Statement>,
}

/// An `elseif` arm of a brace-delimited conditional.
#[derive(Debug)]
pub struct ElseIf {
    pub condition: Expression,
    pub statement: Box<Statement>,
}

/// An `elseif` arm of an alternate-syntax (colon) conditional.
#[derive(Debug)]
pub struct ElseIfBlock {
    pub condition: Expression,
    pub statements: Vec<Statement>,
}

/// The two syntactic bodies a conditional may have.
#[derive(Debug)]
pub enum IfBody {
    Statement { statement: Box<Statement>, elseifs: Vec<ElseIf>, else_statement: Option<Box<Statement>> },
    Block { statements: Vec<Statement>, elseifs: Vec<ElseIfBlock>, else_statements: Option<Vec<Statement>> },
}

/// A conditional statement.
#[derive(Debug)]
pub struct IfStatement {
    pub condition: Expression,
    pub body: IfBody,
}

/// One catch clause of a try statement.
#[derive(Debug)]
pub struct CatchBlock {
    pub start: Span,
    pub body: Vec<Statement>,
}

/// A try statement; only its catch clauses matter to the rules.
#[derive(Debug)]
pub struct TryStatement {
    pub catches: Vec<CatchBlock>,
}

/// One declared parameter; only the presence of a default value matters.
#[derive(Clone, Copy, PartialEq, Eq, Structural, Debug)]
pub struct Parameter {
    pub has_default: bool,
}

/// A method declaration inside a class body, abstract or concrete.
#[derive(Debug)]
pub struct MethodDeclaration {
    pub name: String,
    pub parameters: Vec<Parameter>,
    pub return_type: Option<String>,
}

/// A class member; only method declarations feed the index.
#[derive(Debug)]
pub enum ClassMember {
    AbstractMethod(MethodDeclaration),
    ConcreteMethod(MethodDeclaration),
    Other,
}

/// A class declaration.
#[derive(Debug)]
pub struct ClassStatement {
    pub name: String,
    pub members: Vec<ClassMember>,
}

/// A namespace construct; a braced namespace without a name carries `None`.
#[derive(Debug)]
pub struct NamespaceStatement {
    pub name: Option<String>,
    pub statements: Vec<Statement>,
}

/// A statement, reduced to the shapes the two passes inspect.
#[derive(Debug)]
pub enum Statement {
    Expression(Expression),
    If(IfStatement),
    Return(Option<Expression>),
    Try(TryStatement),
    Namespace(NamespaceStatement),
    Class(ClassStatement),
    Other,
}

/// One analyzed file: a stable identifier, the raw text split into lines,
/// and the parsed top-level statements.
#[derive(Debug)]
pub struct File {
    pub path: String,
    pub lines: Vec<String>,
    pub ast: Vec<Statement>,
}

} // verus!
