//! The syntax tree.
use crate::lexer::SourceLocation;
use crate::lexer::TokenType;
use crate::span::Span;
use vstd::prelude::*;
use vstd::string::*;

verus! {

/// Identifies a node of one parse: nodes are numbered from 1 in the order in
/// which the parser completes them.
#[derive(PartialEq, Eq, Debug, Clone, Copy, Structural)]
pub struct NodeId(pub usize);

#[derive(PartialEq, Debug)]
pub struct Stmt {
    pub id: NodeId,
    pub span: Span,
    pub kind: StmtKind,
}

#[derive(PartialEq, Debug)]
pub enum StmtKind {
    Let(LetStatement),
    Call(CallStatement),
    Execute(ExecuteStatement),
    Return(ReturnStatement),
    If(IfStatement),
    While(WhileStatement),
    Function(FunctionStatement),
    For(ForStatement),
    Try(TryStatement),
    SetOption(SetStatement),
    Break(BreakStatement),
    Empty(),
}

#[derive(PartialEq, Debug)]
pub struct LetStatement {
    pub var: Box<Expr>,
    pub operator: TokenType,
    pub value: Box<Expr>,
}

#[derive(PartialEq, Debug)]
pub struct CallStatement {
    pub name: String,
    pub arguments: Vec<Expr>,
}

#[derive(PartialEq, Eq, Debug, Clone, Copy, Structural)]
pub struct BreakStatement {}

#[derive(PartialEq, Debug)]
pub struct ExecuteStatement {
    pub arguments: Vec<Expr>,
}

#[derive(PartialEq, Debug)]
pub struct FunctionStatement {
    pub name: String,
    pub arguments: Vec<String>,
    pub body: Vec<Stmt>,
    // true if 'function!'
    pub overwrite: bool,
    pub abort: bool,
}

#[derive(PartialEq, Debug)]
pub struct ForStatement {
    pub loop_variable: LoopVariable,
    pub range: Expr,
    pub body: Vec<Stmt>,
}

#[derive(PartialEq, Debug)]
pub enum LoopVariable {
    Single(String),
    List(Vec<String>),
}

#[derive(PartialEq, Debug)]
pub struct ReturnStatement {
    pub value: Option<Expr>,
}

#[derive(PartialEq, Debug)]
pub struct SetStatement {
    pub option: String,
    pub value: Option<String>,
}

#[derive(PartialEq, Debug)]
pub enum ElseCond {
    NoElse,
    Else(Vec<Stmt>),
    ElseIf(Box<IfStatement>),
}

#[derive(PartialEq, Debug)]
pub struct IfStatement {
    pub condition: Expr,
    pub then_branch: Vec<Stmt>,
    pub else_cond: ElseCond,
}

#[derive(PartialEq, Debug)]
pub struct TryStatement {
    pub body: Vec<Stmt>,
    pub finally: Option<Vec<Stmt>>,
}

#[derive(PartialEq, Debug)]
pub struct WhileStatement {
    pub condition: Expr,
    pub body: Vec<Stmt>,
}

#[derive(PartialEq, Debug)]
pub struct Expr {
    pub id: NodeId,
    pub span: Span,
    pub kind: ExprKind,
}

#[derive(PartialEq, Debug)]
pub enum ExprKind {
    Identifier(IdentifierExpression),
    Number(NumberExpression),
    Infix(InfixExpression),
    Function(FunctionExpression),
    StringLiteral(StringLiteralExpression),
    ArraySubscript(ArraySubscriptExpression),
    Array(ArrayExpression),
    Unary(UnaryExpression),
    Paren(ParenExpression),
    Choose(ChooseExpression),
    Dictionary(DictionaryExpression),
}

#[derive(PartialEq, Debug)]
pub struct IdentifierExpression {
    pub name: String,
    pub name_location: SourceLocation,
}

impl IdentifierExpression {
    pub fn name(&self) -> (r: &str)
        ensures
            r@ == self.name@,
    {
        return self.name.as_str();
    }

    pub fn name_location(&self) -> (r: &SourceLocation)
        ensures
            *r == self.name_location,
    {
        return &self.name_location;
    }
}

#[derive(PartialEq, Debug)]
pub struct StringLiteralExpression {
    pub value: String,
}

#[derive(PartialEq, Debug)]
pub struct ParenExpression {
    pub expr: Box<Expr>,
}

#[derive(PartialEq, Debug)]
pub struct ChooseExpression {
    pub cond: Box<Expr>,
    pub lhs: Box<Expr>,
    pub rhs: Box<Expr>,
}

#[derive(PartialEq, Debug)]
pub struct UnaryExpression {
    pub operator: TokenType,
    pub expr: Box<Expr>,
}

#[derive(PartialEq, Debug)]
pub struct InfixExpression {
    pub left: Box<Expr>,
    pub operator: TokenType,
    pub right: Box<Expr>,
}

#[derive(PartialEq, Debug)]
pub struct FunctionExpression {
    pub callee: Box<Expr>,
    pub arguments: Vec<Expr>,
}

/// A number literal, kept as the decimal digits that the source holds.
#[derive(PartialEq, Debug)]
pub struct NumberExpression {
    pub digits: String,
}

impl NumberExpression {
    /// The decimal digits of the literal.
    pub fn digits(&self) -> (r: &str)
        ensures
            r@ == self.digits@,
    {
        return self.digits.as_str();
    }
}

#[derive(PartialEq, Debug)]
pub enum ArraySubscript {
    Index(Expr),
    Sublist(Sublist),
}

#[derive(PartialEq, Debug)]
pub struct Sublist {
    pub left: Option<Expr>,
    pub right: Option<Expr>,
}

// Represents `base[idx]`
#[derive(PartialEq, Debug)]
pub struct ArraySubscriptExpression {
    pub base: Box<Expr>,
    pub idx: Box<ArraySubscript>,
}

#[derive(PartialEq, Debug)]
pub struct ArrayExpression {
    pub elements: Vec<Expr>,
}

#[derive(PartialEq, Debug)]
pub struct DictionaryEntry {
    pub key: String,
    pub value: Expr,
}

#[derive(PartialEq, Debug)]
pub struct DictionaryExpression {
    pub entries: Vec<DictionaryEntry>,
}

} // verus!
